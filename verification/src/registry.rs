//! The set of oracle keys that may attest to outcomes.

use crate::bytes::bytes_equal;
use vstd::prelude::*;

verus! {

/// An Ed25519 public key: 32 bytes.
pub type PublicKey = [u8; 32];

/// The authorized oracle keys.
///
/// The persisted registry maps a key to an "authorized" flag; a key whose
/// flag is false may sign as little as an absent one, so the registry is
/// held as the set of keys whose flag is true. No key is stored twice.
#[derive(Debug)]
pub struct OracleSet {
    keys: Vec<PublicKey>,
}

impl View for OracleSet {
    type V = Set<Seq<u8>>;

    closed spec fn view(&self) -> Set<Seq<u8>> {
        key_set(self.keys@)
    }
}

/// Whether position `i` of `keys` holds `key`.
pub open spec fn holds_at(keys: Seq<PublicKey>, i: int, key: Seq<u8>) -> bool {
    0 <= i < keys.len() && keys[i]@ == key
}

/// Whether no key occurs twice in `keys`.
pub open spec fn pairwise_distinct(keys: Seq<PublicKey>) -> bool {
    forall|i: int, j: int| 0 <= i < j < keys.len() ==> keys[i]@ != keys[j]@
}

/// The set of the keys that occur in `keys`.
pub open spec fn key_set(keys: Seq<PublicKey>) -> Set<Seq<u8>> {
    Set::new(|key: Seq<u8>| exists|i: int| holds_at(keys, i, key))
}

impl OracleSet {
    #[verifier::type_invariant]
    spec fn no_key_twice(self) -> bool {
        pairwise_distinct(self.keys@)
    }

    /// The registry that authorizes no key.
    pub fn new() -> (set: OracleSet)
        ensures
            set@ == Set::<Seq<u8>>::empty(),
    {
        let set = OracleSet { keys: Vec::new() };
        assert(set@ =~= Set::<Seq<u8>>::empty());
        set
    }

    /// The position of `key` among the stored keys, if it is stored.
    fn position(&self, key: &PublicKey) -> (found: Option<usize>)
        ensures
            match found {
                Some(at) => holds_at(self.keys@, at as int, key@),
                None => forall|i: int| !holds_at(self.keys@, i, key@),
            },
    {
        let mut i: usize = 0;
        while i < self.keys.len()
            invariant
                i <= self.keys@.len(),
                forall|j: int| 0 <= j < i ==> !holds_at(self.keys@, j, key@),
            decreases self.keys@.len() - i,
        {
            if bytes_equal(self.keys[i].as_slice(), key.as_slice()) {
                return Some(i);
            }
            i = i + 1;
        }
        None
    }

    /// Whether `key` is authorized.
    pub fn contains(&self, key: &PublicKey) -> (found: bool)
        ensures
            found == self@.contains(key@),
    {
        self.position(key).is_some()
    }

    /// How many keys are authorized.
    pub fn len(&self) -> (count: usize)
        ensures
            count == self@.len(),
            self@.finite(),
    {
        proof {
            use_type_invariant(self);
            lemma_key_set_len(self.keys@);
        }
        self.keys.len()
    }

    /// Authorizes `key`. A key that is authorized already stays so, and the
    /// registry is left as it was.
    pub fn insert(&mut self, key: PublicKey)
        ensures
            final(self)@ == old(self)@.insert(key@),
    {
        proof {
            use_type_invariant(&*self);
        }
        if self.position(&key).is_none() {
            let mut keys: Vec<PublicKey> = Vec::new();
            core::mem::swap(&mut self.keys, &mut keys);
            let ghost before = keys@;
            keys.push(key);
            proof {
                let after = keys@;
                assert forall|k: Seq<u8>| #[trigger]
                    key_set(after).contains(k) <==> key_set(before).insert(key@).contains(
                        k,
                    ) by {
                    if key_set(after).contains(k) {
                        let i = choose|i: int| holds_at(after, i, k);
                        if i < before.len() {
                            assert(holds_at(before, i, k));
                        }
                    }
                    if key_set(before).contains(k) {
                        let i = choose|i: int| holds_at(before, i, k);
                        assert(holds_at(after, i, k));
                    }
                    if k == key@ {
                        assert(holds_at(after, before.len() as int, k));
                    }
                }
                assert(key_set(after) =~= key_set(before).insert(key@));
                assert forall|i: int, j: int| 0 <= i < j < after.len() implies after[i]@
                    != after[j]@ by {
                    if j == before.len() {
                        assert(!holds_at(before, i, key@));
                    }
                }
            }
            self.keys = keys;
        } else {
            assert(self@ =~= old(self)@.insert(key@));
        }
    }

    /// Withdraws the authorization of `key`. A key that is not authorized
    /// stays so, and the registry is left as it was.
    pub fn remove(&mut self, key: &PublicKey)
        ensures
            final(self)@ == old(self)@.remove(key@),
    {
        proof {
            use_type_invariant(&*self);
        }
        match self.position(key) {
            Some(at) => {
                let mut keys: Vec<PublicKey> = Vec::new();
                core::mem::swap(&mut self.keys, &mut keys);
                let ghost before = keys@;
                keys.remove(at);
                proof {
                    let after = keys@;
                    assert(after =~= before.remove(at as int));
                    assert forall|k: Seq<u8>| #[trigger]
                        key_set(after).contains(k) <==> key_set(before).remove(key@).contains(
                            k,
                        ) by {
                        if key_set(after).contains(k) {
                            let i = choose|i: int| holds_at(after, i, k);
                            if i < at {
                                assert(holds_at(before, i, k));
                            } else {
                                assert(holds_at(before, i + 1, k));
                            }
                        }
                        if key_set(before).contains(k) && k != key@ {
                            let i = choose|i: int| holds_at(before, i, k);
                            if i < at {
                                assert(holds_at(after, i, k));
                            } else {
                                assert(holds_at(after, i - 1, k));
                            }
                        }
                    }
                    assert(key_set(after) =~= key_set(before).remove(key@));
                }
                self.keys = keys;
            },
            None => {
                assert(self@ =~= old(self)@.remove(key@));
            },
        }
    }

    /// The authorized keys, each once.
    pub fn keys(&self) -> (keys: Vec<PublicKey>)
        ensures
            pairwise_distinct(keys@),
            key_set(keys@) == self@,
            keys@.len() == self@.len(),
    {
        proof {
            use_type_invariant(self);
            lemma_key_set_len(self.keys@);
        }
        let mut keys: Vec<PublicKey> = Vec::new();
        let mut i: usize = 0;
        while i < self.keys.len()
            invariant
                i <= self.keys@.len(),
                keys@ == self.keys@.take(i as int),
            decreases self.keys@.len() - i,
        {
            keys.push(self.keys[i]);
            i = i + 1;
            assert(keys@ =~= self.keys@.take(i as int));
        }
        assert(keys@ =~= self.keys@);
        keys
    }
}

/// A sequence of keys without repetition has as many keys as its set.
pub proof fn lemma_key_set_len(keys: Seq<PublicKey>)
    requires
        pairwise_distinct(keys),
    ensures
        key_set(keys).finite(),
        key_set(keys).len() == keys.len(),
    decreases keys.len(),
{
    if keys.len() == 0 {
        assert(key_set(keys) =~= Set::<Seq<u8>>::empty());
    } else {
        let shorter = keys.drop_last();
        let last = keys.last()@;
        lemma_key_set_len(shorter);
        assert forall|k: Seq<u8>| #[trigger]
            key_set(keys).contains(k) <==> key_set(shorter).insert(last).contains(k) by {
            if key_set(keys).contains(k) {
                let i = choose|i: int| holds_at(keys, i, k);
                if i < shorter.len() {
                    assert(holds_at(shorter, i, k));
                }
            }
            if key_set(shorter).contains(k) {
                let i = choose|i: int| holds_at(shorter, i, k);
                assert(holds_at(keys, i, k));
            }
            if k == last {
                assert(holds_at(keys, keys.len() - 1, k));
            }
        }
        assert(key_set(keys) =~= key_set(shorter).insert(last));
        if key_set(shorter).contains(last) {
            let i = choose|i: int| holds_at(shorter, i, last);
            assert(keys[i]@ == keys[keys.len() - 1]@);
        }
    }
}

} // verus!
