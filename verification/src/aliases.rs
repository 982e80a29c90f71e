//! Alias allocation for stateful compression: new storage keys above a
//! threshold are given dense aliases by a counter kept in the alias contract's
//! own storage.
//!
//! The underlying state is read-only here; what the updater reads from it — the
//! stored counter and the stored alias of each key — is carried as a plain
//! lookup table of the alias contract's storage.

use vstd::prelude::*;

use crate::types::Felt;

verus! {

/// The first alias available for allocation, and the smallest key that is
/// given an alias: smaller keys stand for themselves.
pub const INITIAL_AVAILABLE_ALIAS: u64 = 0x80;

/// The storage key of the alias counter in the alias contract.
pub const ALIAS_COUNTER_STORAGE_KEY: u64 = 0;

/// What a lookup key holds in the alias contract's storage: the stored value,
/// or zero where nothing is stored.
pub open spec fn spec_stored_at(storage: Seq<(Felt, Felt)>, key: Felt) -> Felt {
    if exists|i: int| 0 <= i < storage.len() && (#[trigger] storage[i]).0 == key {
        storage[choose|i: int| 0 <= i < storage.len() && (#[trigger] storage[i]).0 == key].1
    } else {
        Felt { v: 0 }
    }
}

/// Whether a key already has a pending alias.
pub open spec fn spec_has_new_alias(new_aliases: Seq<(Felt, Felt)>, key: Felt) -> bool {
    exists|i: int| 0 <= i < new_aliases.len() && (#[trigger] new_aliases[i]).0 == key
}

/// Generates updates for the alias contract with the new keys.
#[derive(Debug, PartialEq, Eq)]
pub struct AliasUpdater {
    /// The alias contract's storage, as read: distinct keys to their values.
    pub storage: Vec<(Felt, Felt)>,
    /// The aliases allocated in this round, in allocation order.
    pub new_aliases: Vec<(Felt, Felt)>,
    /// The next alias to hand out, once anything was ever allocated.
    pub next_free_alias: Option<Felt>,
}

impl AliasUpdater {
    /// The lookup table has distinct keys, and pending aliases are unique.
    pub open spec fn wf(&self) -> bool {
        &&& forall|i: int, j: int|
            0 <= i < j < self.storage@.len() ==> (#[trigger] self.storage@[i]).0 != (
            #[trigger] self.storage@[j]).0
        &&& forall|i: int, j: int|
            0 <= i < j < self.new_aliases@.len() ==> (#[trigger] self.new_aliases@[i]).0 != (
            #[trigger] self.new_aliases@[j]).0
    }

    /// Reads the stored alias counter: a zero counter means no alias was ever
    /// allocated.
    pub fn new(storage: Vec<(Felt, Felt)>) -> (r: AliasUpdater)
        requires
            forall|i: int, j: int|
                0 <= i < j < storage@.len() ==> (#[trigger] storage@[i]).0 != (
                #[trigger] storage@[j]).0,
        ensures
            r.wf(),
            r.storage == storage,
            r.new_aliases@.len() == 0,
            ({
                let counter = spec_stored_at(storage@, Felt { v: ALIAS_COUNTER_STORAGE_KEY });
                r.next_free_alias == (if counter.v == 0 {
                    None::<Felt>
                } else {
                    Some(counter)
                })
            }),
    {
        let stored_counter = Self::stored_at(&storage, Felt { v: ALIAS_COUNTER_STORAGE_KEY });
        let next_free_alias = if stored_counter.v == 0 {
            None
        } else {
            Some(stored_counter)
        };
        AliasUpdater { storage, new_aliases: Vec::new(), next_free_alias }
    }

    /// The stored value of a key, or zero.
    fn stored_at(storage: &Vec<(Felt, Felt)>, key: Felt) -> (r: Felt)
        requires
            forall|i: int, j: int|
                0 <= i < j < storage@.len() ==> (#[trigger] storage@[i]).0 != (
                #[trigger] storage@[j]).0,
        ensures
            r == spec_stored_at(storage@, key),
    {
        let mut i: usize = 0;
        while i < storage.len()
            invariant
                0 <= i <= storage@.len(),
                forall|k: int, j: int|
                    0 <= k < j < storage@.len() ==> (#[trigger] storage@[k]).0 != (
                    #[trigger] storage@[j]).0,
                forall|k: int| 0 <= k < i ==> (#[trigger] storage@[k]).0 != key,
            decreases storage@.len() - i,
        {
            if storage[i].0 == key {
                proof {
                    let j = choose|j: int|
                        0 <= j < storage@.len() && (#[trigger] storage@[j]).0 == key;
                    assert(j == i);
                }
                return storage[i].1;
            }
            i += 1;
        }
        Felt { v: 0 }
    }

    /// Whether a key already has a pending alias.
    fn has_new_alias(&self, key: Felt) -> (r: bool)
        ensures
            r == spec_has_new_alias(self.new_aliases@, key),
    {
        let mut i: usize = 0;
        while i < self.new_aliases.len()
            invariant
                0 <= i <= self.new_aliases@.len(),
                forall|k: int| 0 <= k < i ==> (#[trigger] self.new_aliases@[k]).0 != key,
            decreases self.new_aliases@.len() - i,
        {
            if self.new_aliases[i].0 == key {
                return true;
            }
            i += 1;
        }
        false
    }

    /// Allocates an alias for the key if it needs one: the key is at or above
    /// the threshold, it has no stored alias, and none is pending for it. The
    /// first allocation starts at the initial alias; each further one takes
    /// the next value.
    pub fn insert_alias(&mut self, alias_key: Felt)
        requires
            old(self).wf(),
            old(self).next_free_alias matches Some(a) ==> a.v < u64::MAX,
        ensures
            final (self).wf(),
            final (self).storage == old(self).storage,
            ({
                let needs = alias_key.v >= INITIAL_AVAILABLE_ALIAS && spec_stored_at(
                    old(self).storage@,
                    alias_key,
                ).v == 0 && !spec_has_new_alias(old(self).new_aliases@, alias_key);
                if needs {
                    let allocated = match old(self).next_free_alias {
                        Some(a) => a,
                        None => Felt { v: INITIAL_AVAILABLE_ALIAS },
                    };
                    &&& final (self).new_aliases@ == old(self).new_aliases@.push(
                        (alias_key, allocated),
                    )
                    &&& final (self).next_free_alias == Some(Felt { v: (allocated.v + 1) as u64 })
                } else {
                    *final (self) == *old(self)
                }
            }),
    {
        if alias_key.v >= INITIAL_AVAILABLE_ALIAS
            && Self::stored_at(&self.storage, alias_key).v == 0
            && !self.has_new_alias(alias_key) {
            let alias_to_allocate = match self.next_free_alias {
                Some(alias) => alias,
                None => Felt { v: INITIAL_AVAILABLE_ALIAS },
            };
            self.new_aliases.push((alias_key, alias_to_allocate));
            self.next_free_alias = Some(Felt { v: alias_to_allocate.v + 1 });
            proof {
                let es = self.new_aliases@;
                assert forall|i: int, j: int|
                    0 <= i < j < es.len() implies (#[trigger] es[i]).0 != (
                #[trigger] es[j]).0 by {
                    if j == es.len() - 1 {
                        assert(es[i] == old(self).new_aliases@[i]);
                        assert(!spec_has_new_alias(old(self).new_aliases@, alias_key));
                    }
                }
            }
        }
    }

    /// Writes the counter of the alias contract into the updates and hands
    /// them out: if nothing was ever allocated, the counter is initialized;
    /// if this round allocated anything, the counter is advanced; a round that
    /// allocated nothing over an initialized counter changes nothing.
    pub fn finalize_updates(self) -> (r: Vec<(Felt, Felt)>)
        requires
            self.wf(),
        ensures
            ({
                match self.next_free_alias {
                    None => r@ == self.new_aliases@.push(
                        (
                            Felt { v: ALIAS_COUNTER_STORAGE_KEY },
                            Felt { v: INITIAL_AVAILABLE_ALIAS },
                        ),
                    ),
                    Some(alias) => {
                        if self.new_aliases@.len() > 0 {
                            r@ == self.new_aliases@.push(
                                (Felt { v: ALIAS_COUNTER_STORAGE_KEY }, alias),
                            )
                        } else {
                            r@ == self.new_aliases@
                        }
                    },
                }
            }),
    {
        let AliasUpdater { storage: _, mut new_aliases, next_free_alias } = self;
        match next_free_alias {
            None => {
                new_aliases.push(
                    (Felt { v: ALIAS_COUNTER_STORAGE_KEY }, Felt { v: INITIAL_AVAILABLE_ALIAS }),
                );
            },
            Some(alias) => {
                if new_aliases.len() > 0 {
                    new_aliases.push((Felt { v: ALIAS_COUNTER_STORAGE_KEY }, alias));
                }
            },
        }
        new_aliases
    }
}

} // verus!
