use outcome_manager::{Address, ContractError, DataKey, OracleSet, OutcomeManager, PublicKey};

fn key(tag: u8) -> PublicKey {
    let mut bytes = [0u8; 32];
    bytes[0] = tag;
    bytes[31] = tag;
    bytes
}

fn admin() -> Address {
    Address::from_bytes(b"GADMIN")
}

fn stranger() -> Address {
    Address::from_bytes(b"GSTRANGER")
}

fn initialized() -> OutcomeManager {
    let mut manager = OutcomeManager::new();
    assert_eq!(manager.initialize(&admin(), admin(), key(1)), Ok(()));
    manager
}

fn sorted(mut keys: Vec<PublicKey>) -> Vec<PublicKey> {
    keys.sort();
    keys
}

#[test]
fn oracle_set_starts_empty() {
    let set = OracleSet::new();
    assert_eq!(set.len(), 0);
    assert!(!set.contains(&key(1)));
    assert!(set.keys().is_empty());
}

#[test]
fn oracle_set_insert_and_remove() {
    let mut set = OracleSet::new();
    set.insert(key(1));
    set.insert(key(2));
    set.insert(key(3));
    assert_eq!(set.len(), 3);
    assert!(set.contains(&key(1)) && set.contains(&key(2)) && set.contains(&key(3)));
    set.remove(&key(2));
    assert_eq!(set.len(), 2);
    assert!(!set.contains(&key(2)));
    assert_eq!(sorted(set.keys()), vec![key(1), key(3)]);
}

#[test]
fn oracle_set_holds_no_key_twice() {
    let mut set = OracleSet::new();
    set.insert(key(9));
    set.insert(key(9));
    set.insert(key(9));
    assert_eq!(set.len(), 1);
    assert_eq!(set.keys(), vec![key(9)]);
    set.remove(&key(9));
    assert_eq!(set.len(), 0);
    assert!(!set.contains(&key(9)));
}

#[test]
fn oracle_set_tells_keys_apart_by_every_byte() {
    let mut set = OracleSet::new();
    let mut near = key(1);
    near[17] = 1;
    set.insert(key(1));
    assert!(!set.contains(&near));
    set.insert(near);
    assert_eq!(set.len(), 2);
    set.remove(&key(1));
    assert!(set.contains(&near));
    assert!(!set.contains(&key(1)));
}

#[test]
fn removing_an_absent_key_from_the_set_changes_nothing() {
    let mut set = OracleSet::new();
    set.insert(key(1));
    set.remove(&key(2));
    assert_eq!(set.keys(), vec![key(1)]);
}

#[test]
fn address_equality_is_by_bytes() {
    let a = Address::from_bytes(b"GABC");
    let b = Address::new(b"GABC".to_vec());
    let c = Address::from_bytes(b"GABD");
    let d = Address::from_bytes(b"GAB");
    assert!(a.same_as(&b));
    assert!(b.same_as(&a));
    assert!(!a.same_as(&c));
    assert!(!a.same_as(&d));
    assert!(!d.same_as(&a));
    assert_eq!(a.as_bytes(), b"GABC");
    assert!(a.clone().same_as(&a));
    assert!(Address::from_bytes(b"").same_as(&Address::new(Vec::new())));
}

#[test]
fn new_manager_holds_nothing() {
    let manager = OutcomeManager::new();
    assert!(manager.admin().is_none());
    assert!(manager.oracle_keys().is_empty());
    assert!(!manager.is_oracle(&key(1)));
    assert!(!manager.is_settled(42));
    assert!(!manager.has(&DataKey::Admin));
    assert!(!manager.has(&DataKey::Oracles));
    assert!(!manager.has(&DataKey::Settled(42)));
}

#[test]
fn initialize_sets_admin_and_seeds_the_registry() {
    let manager = initialized();
    assert!(manager.admin().unwrap().same_as(&admin()));
    assert_eq!(manager.oracle_keys(), vec![key(1)]);
    assert!(manager.is_oracle(&key(1)));
    assert!(!manager.is_oracle(&key(2)));
    assert!(manager.has(&DataKey::Admin));
    assert!(manager.has(&DataKey::Oracles));
}

#[test]
fn initialize_fails_unless_signed_by_the_named_admin() {
    let mut manager = OutcomeManager::new();
    assert_eq!(
        manager.initialize(&stranger(), admin(), key(1)),
        Err(ContractError::Unauthorized)
    );
    assert!(manager.admin().is_none());
    assert!(manager.oracle_keys().is_empty());
    assert!(!manager.has(&DataKey::Admin));
}

#[test]
fn initializing_again_resets_the_registry() {
    let mut manager = initialized();
    assert_eq!(manager.add_oracle(&admin(), key(2)), Ok(()));
    assert_eq!(manager.settle(7, &key(1), true), Ok(()));
    assert_eq!(manager.initialize(&stranger(), stranger(), key(3)), Ok(()));
    assert!(manager.admin().unwrap().same_as(&stranger()));
    assert_eq!(manager.oracle_keys(), vec![key(3)]);
    assert!(!manager.is_oracle(&key(1)));
    assert!(!manager.is_oracle(&key(2)));
    assert!(manager.is_settled(7));
    assert_eq!(manager.add_oracle(&admin(), key(4)), Err(ContractError::Unauthorized));
    assert_eq!(manager.add_oracle(&stranger(), key(4)), Ok(()));
}

#[test]
fn add_oracle_fails_for_anyone_but_the_admin() {
    let mut manager = initialized();
    assert_eq!(manager.add_oracle(&stranger(), key(2)), Err(ContractError::Unauthorized));
    assert!(!manager.is_oracle(&key(2)));
    assert_eq!(manager.oracle_keys(), vec![key(1)]);
    assert_eq!(manager.add_oracle(&admin(), key(2)), Ok(()));
    assert!(manager.is_oracle(&key(2)));
}

#[test]
fn remove_oracle_fails_for_anyone_but_the_admin() {
    let mut manager = initialized();
    assert_eq!(manager.remove_oracle(&stranger(), key(1)), Err(ContractError::Unauthorized));
    assert!(manager.is_oracle(&key(1)));
    assert_eq!(manager.remove_oracle(&admin(), key(1)), Ok(()));
    assert!(!manager.is_oracle(&key(1)));
}

#[test]
fn registry_refuses_everyone_before_initialization() {
    let mut manager = OutcomeManager::new();
    assert_eq!(manager.add_oracle(&admin(), key(1)), Err(ContractError::Unauthorized));
    assert_eq!(manager.remove_oracle(&admin(), key(1)), Err(ContractError::Unauthorized));
    assert!(manager.oracle_keys().is_empty());
}

#[test]
fn adding_a_present_key_changes_nothing_and_succeeds() {
    let mut manager = initialized();
    assert_eq!(manager.add_oracle(&admin(), key(2)), Ok(()));
    let before = sorted(manager.oracle_keys());
    assert_eq!(manager.add_oracle(&admin(), key(2)), Ok(()));
    assert_eq!(manager.add_oracle(&admin(), key(1)), Ok(()));
    assert_eq!(sorted(manager.oracle_keys()), before);
    assert_eq!(before, vec![key(1), key(2)]);
}

#[test]
fn removing_an_absent_key_changes_nothing_and_succeeds() {
    let mut manager = initialized();
    assert_eq!(manager.remove_oracle(&admin(), key(5)), Ok(()));
    assert_eq!(manager.oracle_keys(), vec![key(1)]);
    assert_eq!(manager.remove_oracle(&admin(), key(1)), Ok(()));
    assert_eq!(manager.remove_oracle(&admin(), key(1)), Ok(()));
    assert!(manager.oracle_keys().is_empty());
    assert!(manager.has(&DataKey::Oracles));
}

#[test]
fn restore_rebuilds_the_state() {
    let entries = vec![(key(1), true), (key(2), false), (key(3), true), (key(3), false), (key(2), true)];
    let manager = OutcomeManager::restore(Some((admin(), entries)), vec![42, 7, 42]);
    assert!(manager.admin().unwrap().same_as(&admin()));
    assert_eq!(sorted(manager.oracle_keys()), vec![key(1), key(2)]);
    assert!(!manager.is_oracle(&key(3)));
    assert!(manager.is_settled(42));
    assert!(manager.is_settled(7));
    assert!(!manager.is_settled(8));
    assert!(manager.has(&DataKey::Settled(7)));
    assert!(!manager.has(&DataKey::Settled(8)));
}

#[test]
fn restore_without_a_registry_is_uninitialized() {
    let mut manager = OutcomeManager::restore(None, vec![5]);
    assert!(manager.admin().is_none());
    assert!(manager.oracle_keys().is_empty());
    assert!(manager.is_settled(5));
    assert_eq!(manager.add_oracle(&admin(), key(1)), Err(ContractError::Unauthorized));
    assert_eq!(manager.settle(6, &key(1), true), Err(ContractError::UnauthorizedOracle));
}

#[test]
fn a_false_flag_authorizes_as_little_as_no_entry() {
    let mut manager = OutcomeManager::restore(Some((admin(), vec![(key(1), false)])), Vec::new());
    assert!(!manager.is_oracle(&key(1)));
    assert_eq!(manager.settle(1, &key(1), true), Err(ContractError::UnauthorizedOracle));
    assert_eq!(manager.add_oracle(&admin(), key(1)), Ok(()));
    assert_eq!(manager.settle(1, &key(1), true), Ok(()));
}

#[test]
fn error_messages() {
    assert_eq!(ContractError::Unauthorized.message(), "Unauthorized");
    assert_eq!(ContractError::UnauthorizedOracle.message(), "Unauthorized oracle");
    assert_eq!(ContractError::AlreadySettled.message(), "Call already settled");
    assert_eq!(ContractError::InvalidSignature.message(), "Invalid oracle signature");
    assert_eq!(ContractError::NotSettled.message(), "Call not settled");
}
