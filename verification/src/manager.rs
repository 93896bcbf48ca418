//! The contract: the oracle registry, the settlement ledger and the
//! payout condition, over an explicit store.
//!
//! An [`OutcomeManager`] holds what one contract instance keeps between
//! invocations. Each operation takes the principal that signed the
//! invocation where it needs one, runs to completion, and either succeeds or
//! returns a [`ContractError`] and leaves the manager untouched.

use crate::address::Address;
use crate::error::ContractError;
use crate::message::build_message;
use crate::model::{
    add_oracle_step, initial_state, initialize_step, remove_oracle_step, settle_step,
    submission_check, submit_outcome_step, withdrawal_check, State,
};
use crate::registry::{OracleSet, PublicKey};
use crate::signature::verify_signature;
use std::collections::HashSet;
use vstd::prelude::*;

verus! {

broadcast use vstd::std_specs::hash::group_hash_axioms;

/// An Ed25519 signature: 64 bytes.
pub type Signature = [u8; 64];

/// The logical keys under which the contract state is kept.
#[derive(Clone, Copy, Debug, PartialEq, Eq, Structural)]
pub enum DataKey {
    /// The administrator: a single value.
    Admin,
    /// The oracle registry: written together with the administrator.
    Oracles,
    /// The settlement record of one call: present once the call is settled.
    Settled(u64),
}

/// The state of one contract instance and the operations on it.
pub struct OutcomeManager {
    admin: Option<Address>,
    oracles: OracleSet,
    settled: HashSet<u64>,
}

/// The keys that a list of registry entries authorizes. Each entry in turn
/// sets the flag of its key: a later entry for a key overrides an earlier one.
pub open spec fn authorized_keys(entries: Seq<(PublicKey, bool)>) -> Set<Seq<u8>>
    decreases entries.len(),
{
    if entries.len() == 0 {
        Set::empty()
    } else {
        let earlier = authorized_keys(entries.drop_last());
        if entries.last().1 {
            earlier.insert(entries.last().0@)
        } else {
            earlier.remove(entries.last().0@)
        }
    }
}

/// The call identifiers that occur in `ids`.
pub open spec fn id_set(ids: Seq<u64>) -> Set<u64> {
    Set::new(|id: u64| ids.contains(id))
}

/// The state that persisted parts stand for: the registry, if the contract
/// was ever initialized, and the settled call identifiers.
pub open spec fn restored_state(
    registry: Option<(Address, Vec<(PublicKey, bool)>)>,
    settled: Seq<u64>,
) -> State {
    match registry {
        Some((admin, entries)) => State {
            admin: Some(admin@),
            oracles: authorized_keys(entries@),
            settled: id_set(settled),
        },
        None => State { admin: None, oracles: Set::empty(), settled: id_set(settled) },
    }
}

impl View for OutcomeManager {
    type V = State;

    closed spec fn view(&self) -> State {
        State {
            admin: match self.admin {
                Some(admin) => Some(admin@),
                None => None,
            },
            oracles: self.oracles@,
            settled: self.settled@,
        }
    }
}

impl OutcomeManager {
    /// A contract instance that has never been used: no administrator, no
    /// oracle, nothing settled.
    pub fn new() -> (manager: OutcomeManager)
        ensures
            manager@ == initial_state(),
    {
        OutcomeManager { admin: None, oracles: OracleSet::new(), settled: HashSet::new() }
    }

    /// The contract instance that persisted parts stand for: `registry` is
    /// the administrator and the entries of the oracle registry, or `None`
    /// if the contract was never initialized; `settled` lists the settled
    /// call identifiers.
    pub fn restore(registry: Option<(Address, Vec<(PublicKey, bool)>)>, settled: Vec<u64>) -> (manager:
        OutcomeManager)
        ensures
            manager@ == restored_state(registry, settled@),
    {
        let mut ledger: HashSet<u64> = HashSet::new();
        let mut i: usize = 0;
        while i < settled.len()
            invariant
                i <= settled@.len(),
                ledger@ == id_set(settled@.take(i as int)),
            decreases settled@.len() - i,
        {
            ledger.insert(settled[i]);
            i = i + 1;
            proof {
                let earlier = settled@.take(i - 1);
                let now = settled@.take(i as int);
                assert forall|id: u64| #[trigger]
                    id_set(now).contains(id) <==> id_set(earlier).insert(
                        settled@[i - 1],
                    ).contains(id) by {
                    if earlier.contains(id) {
                        let j = choose|j: int| 0 <= j < earlier.len() && earlier[j] == id;
                        assert(now[j] == id);
                    }
                    if id == settled@[i - 1] {
                        assert(now[i - 1] == id);
                    }
                    if now.contains(id) {
                        let j = choose|j: int| 0 <= j < now.len() && now[j] == id;
                        if j < i - 1 {
                            assert(earlier[j] == id);
                        }
                    }
                }
                assert(ledger@ =~= id_set(now));
            }
        }
        assert(settled@.take(i as int) =~= settled@);
        match registry {
            Some((admin, entries)) => {
                let mut oracles = OracleSet::new();
                let mut j: usize = 0;
                while j < entries.len()
                    invariant
                        j <= entries@.len(),
                        oracles@ == authorized_keys(entries@.take(j as int)),
                    decreases entries@.len() - j,
                {
                    let (key, authorized) = entries[j];
                    if authorized {
                        oracles.insert(key);
                    } else {
                        oracles.remove(&key);
                    }
                    j = j + 1;
                    assert(entries@.take(j as int).drop_last() =~= entries@.take(j - 1));
                }
                assert(entries@.take(j as int) =~= entries@);
                OutcomeManager { admin: Some(admin), oracles, settled: ledger }
            },
            None => OutcomeManager { admin: None, oracles: OracleSet::new(), settled: ledger },
        }
    }

    /// The administrator, if the contract is initialized.
    pub fn admin(&self) -> (admin: Option<&Address>)
        ensures
            match admin {
                Some(admin) => self@.admin == Some(admin@),
                None => self@.admin is None,
            },
    {
        self.admin.as_ref()
    }

    /// Whether `oracle` may sign settlement claims.
    pub fn is_oracle(&self, oracle: &PublicKey) -> (authorized: bool)
        ensures
            authorized == self@.oracles.contains(oracle@),
    {
        self.oracles.contains(oracle)
    }

    /// The authorized oracle keys, each once.
    pub fn oracle_keys(&self) -> (keys: Vec<PublicKey>)
        ensures
            crate::registry::pairwise_distinct(keys@),
            crate::registry::key_set(keys@) == self@.oracles,
    {
        self.oracles.keys()
    }

    /// Whether `call_id` has been settled.
    pub fn is_settled(&self, call_id: u64) -> (settled: bool)
        ensures
            settled == self@.settled.contains(call_id),
    {
        self.settled.contains(&call_id)
    }

    /// Whether a value is kept under `key`. The administrator and the oracle
    /// registry are written together, by `initialize`; a settlement record
    /// exists once its call is settled.
    pub fn has(&self, key: &DataKey) -> (present: bool)
        ensures
            present == match *key {
                DataKey::Admin => self@.admin is Some,
                DataKey::Oracles => self@.admin is Some,
                DataKey::Settled(call_id) => self@.settled.contains(call_id),
            },
    {
        match key {
            DataKey::Admin => self.admin.is_some(),
            DataKey::Oracles => self.admin.is_some(),
            DataKey::Settled(call_id) => self.settled.contains(call_id),
        }
    }

    /// Whether `signer` is the stored administrator.
    fn signed_by_admin(&self, signer: &Address) -> (is_admin: bool)
        ensures
            is_admin == (self@.admin == Some(signer@)),
    {
        match &self.admin {
            Some(admin) => admin.same_as(signer),
            None => false,
        }
    }

    /// Sets the administrator to `admin` and the oracle set to
    /// `oracle_pubkey` alone. The invocation must be signed by `admin`,
    /// else it fails with `Unauthorized`. An initialized contract is reset:
    /// the administrator and the oracle set are overwritten. Settlements stay.
    pub fn initialize(&mut self, signer: &Address, admin: Address, oracle_pubkey: PublicKey) -> (result:
        Result<(), ContractError>)
        ensures
            final(self)@ == initialize_step(old(self)@, signer@, admin@, oracle_pubkey@).state,
            result == initialize_step(old(self)@, signer@, admin@, oracle_pubkey@).result,
    {
        if !signer.same_as(&admin) {
            return Err(ContractError::Unauthorized);
        }
        let mut oracles = OracleSet::new();
        oracles.insert(oracle_pubkey);
        self.oracles = oracles;
        self.admin = Some(admin);
        Ok(())
    }

    /// Authorizes `oracle`. The invocation must be signed by the stored
    /// administrator, else it fails with `Unauthorized`. Adding a key that
    /// is authorized already succeeds and changes nothing.
    pub fn add_oracle(&mut self, signer: &Address, oracle: PublicKey) -> (result: Result<
        (),
        ContractError,
    >)
        ensures
            final(self)@ == add_oracle_step(old(self)@, signer@, oracle@).state,
            result == add_oracle_step(old(self)@, signer@, oracle@).result,
    {
        if !self.signed_by_admin(signer) {
            return Err(ContractError::Unauthorized);
        }
        self.oracles.insert(oracle);
        Ok(())
    }

    /// Withdraws the authorization of `oracle`. The invocation must be
    /// signed by the stored administrator, else it fails with
    /// `Unauthorized`. Removing a key that is not authorized succeeds and
    /// changes nothing. Settlements made under the key stay.
    pub fn remove_oracle(&mut self, signer: &Address, oracle: PublicKey) -> (result: Result<
        (),
        ContractError,
    >)
        ensures
            final(self)@ == remove_oracle_step(old(self)@, signer@, oracle@).state,
            result == remove_oracle_step(old(self)@, signer@, oracle@).result,
    {
        if !self.signed_by_admin(signer) {
            return Err(ContractError::Unauthorized);
        }
        self.oracles.remove(&oracle);
        Ok(())
    }

    /// What can be decided about a submission before its signature is
    /// verified: `UnauthorizedOracle` if the key is not authorized, else
    /// `AlreadySettled` if the call is settled, else `Ok`.
    pub fn check_submission(&self, call_id: u64, oracle_pubkey: &PublicKey) -> (result: Result<
        (),
        ContractError,
    >)
        ensures
            result == submission_check(self@, call_id, oracle_pubkey@),
    {
        if !self.oracles.contains(oracle_pubkey) {
            Err(ContractError::UnauthorizedOracle)
        } else if self.settled.contains(&call_id) {
            Err(ContractError::AlreadySettled)
        } else {
            Ok(())
        }
    }

    /// Settles `call_id` on the word of `oracle_pubkey`, given whether the
    /// signature of the claim was found valid. Fails as `check_submission`
    /// does, else with `InvalidSignature` if `signature_valid` is false;
    /// else the call is settled.
    pub fn settle(&mut self, call_id: u64, oracle_pubkey: &PublicKey, signature_valid: bool) -> (result:
        Result<(), ContractError>)
        ensures
            final(self)@ == settle_step(old(self)@, call_id, oracle_pubkey@, signature_valid).state,
            result == settle_step(old(self)@, call_id, oracle_pubkey@, signature_valid).result,
    {
        match self.check_submission(call_id, oracle_pubkey) {
            Err(error) => Err(error),
            Ok(()) => {
                if !signature_valid {
                    Err(ContractError::InvalidSignature)
                } else {
                    self.settled.insert(call_id);
                    Ok(())
                }
            },
        }
    }

    /// Settles `call_id` if `signature` is a valid signature by
    /// `oracle_pubkey` over the canonical message of the claim (`call_id`,
    /// `outcome`, `final_price`, `timestamp`).
    ///
    /// Fails with `UnauthorizedOracle` if the key is not authorized; else
    /// with `AlreadySettled` if the call is settled, before any
    /// cryptographic work; else with `InvalidSignature` if the Ed25519
    /// primitive rejects the signature. Only the fact that the call is
    /// settled is kept, and it is never removed or overwritten.
    pub fn submit_outcome(
        &mut self,
        call_id: u64,
        outcome: u32,
        final_price: i128,
        timestamp: u64,
        oracle_pubkey: PublicKey,
        signature: Signature,
    ) -> (result: Result<(), ContractError>)
        ensures
            final(self)@ == submit_outcome_step(
                old(self)@,
                call_id,
                outcome,
                final_price,
                timestamp,
                oracle_pubkey@,
                signature@,
            ).state,
            result == submit_outcome_step(
                old(self)@,
                call_id,
                outcome,
                final_price,
                timestamp,
                oracle_pubkey@,
                signature@,
            ).result,
    {
        match self.check_submission(call_id, &oracle_pubkey) {
            Err(error) => Err(error),
            Ok(()) => {
                let message = build_message(call_id, outcome, final_price, timestamp);
                let signature_valid = verify_signature(
                    &oracle_pubkey,
                    &signature,
                    message.as_slice(),
                );
                self.settle(call_id, &oracle_pubkey, signature_valid)
            },
        }
    }

    /// The condition of a payout: met if the invocation is signed by
    /// `caller` and `call_id` is settled. Fails with `Unauthorized` if the
    /// signer is not `caller`, else with `NotSettled` if the call is not
    /// settled. The caller need not have any tie to the call.
    pub fn withdraw_payout(&self, signer: &Address, caller: &Address, call_id: u64) -> (result: Result<
        (),
        ContractError,
    >)
        ensures
            result == withdrawal_check(self@, signer@, caller@, call_id),
    {
        if !signer.same_as(caller) {
            Err(ContractError::Unauthorized)
        } else if !self.settled.contains(&call_id) {
            Err(ContractError::NotSettled)
        } else {
            Ok(())
        }
    }
}

} // verus!
