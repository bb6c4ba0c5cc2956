//! The in-memory secret store: a mapping from service name to stored
//! secret, modelled as a `Map` from name to record content.
//!
//! Every mutation of the vault is expressed as load, mutate in memory,
//! save; this type is the "mutate in memory" part, verified against its
//! map view. Names are unique keys: renaming removes the old entry and
//! inserts under the new key, never both, and inserting an existing name
//! replaces the record.

use vstd::prelude::*;

use crate::models::{AuthType, Secret, SecretData};
use crate::text::str_eq;

verus! {

/// No two records share a name.
pub open spec fn names_unique(s: Seq<Secret>) -> bool {
    forall|i: int, j: int| 0 <= i < j < s.len() ==> s[i].name@ != s[j].name@
}

/// Every record satisfies the record invariant.
pub open spec fn all_wf(s: Seq<Secret>) -> bool {
    forall|i: int| 0 <= i < s.len() ==> s[i].wf()
}

/// The mapping a sequence of records denotes: later records override
/// earlier ones, which never matters once names are unique.
pub open spec fn map_of(s: Seq<Secret>) -> Map<Seq<char>, SecretData>
    decreases s.len(),
{
    if s.len() == 0 {
        Map::empty()
    } else {
        map_of(s.drop_last()).insert(s.last().name@, s.last()@)
    }
}

/// A name is in the mapping exactly when some record carries it.
pub proof fn lemma_map_of_contains(s: Seq<Secret>, n: Seq<char>)
    ensures
        map_of(s).contains_key(n) <==> exists|i: int| 0 <= i < s.len() && s[i].name@ == n,
    decreases s.len(),
{
    if s.len() > 0 {
        lemma_map_of_contains(s.drop_last(), n);
        if s.last().name@ == n {
            assert(s[s.len() - 1].name@ == n);
        } else {
            if map_of(s).contains_key(n) {
                let i = choose|i: int| 0 <= i < s.drop_last().len() && s.drop_last()[i].name@ == n;
                assert(s[i].name@ == n);
            }
            if exists|i: int| 0 <= i < s.len() && s[i].name@ == n {
                let i = choose|i: int| 0 <= i < s.len() && s[i].name@ == n;
                assert(s.drop_last()[i].name@ == n);
            }
        }
    }
}

/// With unique names, each record is what the mapping holds for its name.
pub proof fn lemma_map_of_index(s: Seq<Secret>, i: int)
    requires
        names_unique(s),
        0 <= i < s.len(),
    ensures
        map_of(s).contains_key(s[i].name@),
        map_of(s)[s[i].name@] == s[i]@,
    decreases s.len(),
{
    if i < s.len() - 1 {
        assert(names_unique(s.drop_last())) by {
            assert(forall|k: int| 0 <= k < s.len() - 1 ==> s.drop_last()[k] == s[k]);
        }
        lemma_map_of_index(s.drop_last(), i);
        assert(s[i].name@ != s.last().name@);
    }
}

/// With unique names, removing the record at one position removes
/// exactly its name from the mapping.
pub proof fn lemma_map_of_remove(s: Seq<Secret>, i: int)
    requires
        names_unique(s),
        0 <= i < s.len(),
    ensures
        map_of(s.remove(i)) == map_of(s).remove(s[i].name@),
    decreases s.len(),
{
    assert(forall|k: int| 0 <= k < s.len() - 1 ==> s.drop_last()[k] == s[k]);
    assert(names_unique(s.drop_last()));
    if i == s.len() - 1 {
        assert(s.remove(i) =~= s.drop_last());
        lemma_map_of_contains(s.drop_last(), s[i].name@);
        assert(!map_of(s.drop_last()).contains_key(s[i].name@));
        assert(map_of(s).remove(s[i].name@) =~= map_of(s.drop_last()));
    } else {
        lemma_map_of_remove(s.drop_last(), i);
        let t = s.remove(i);
        assert(t.len() == s.len() - 1);
        assert(t.last() == s.last());
        assert(t.drop_last() =~= s.drop_last().remove(i));
        assert(map_of(t) == map_of(s.drop_last()).remove(s[i].name@).insert(
            s.last().name@,
            s.last()@,
        ));
        assert(s[i].name@ != s.last().name@);
        assert(map_of(s.drop_last()).remove(s[i].name@).insert(s.last().name@, s.last()@)
            =~= map_of(s.drop_last()).insert(s.last().name@, s.last()@).remove(s[i].name@));
    }
}

/// The secret store: service name to record, names unique.
pub struct SecretStore {
    entries: Vec<Secret>,
}

impl View for SecretStore {
    type V = Map<Seq<char>, SecretData>;

    closed spec fn view(&self) -> Map<Seq<char>, SecretData> {
        map_of(self.entries@)
    }
}

impl SecretStore {
    /// The store invariant: unique names, well-formed records.
    pub closed spec fn wf(&self) -> bool {
        names_unique(self.entries@) && all_wf(self.entries@)
    }

    /// An empty store: the first-run state of the vault.
    pub fn new() -> (r: SecretStore)
        ensures
            r.wf(),
            r@ == Map::<Seq<char>, SecretData>::empty(),
    {
        SecretStore { entries: Vec::new() }
    }

    /// The position of the record carrying `name`, if any.
    fn find(&self, name: &str) -> (r: Option<usize>)
        ensures
            match r {
                Some(i) => i < self.entries@.len() && self.entries@[i as int].name@ == name@,
                None => forall|i: int| 0 <= i < self.entries@.len() ==> self.entries@[i].name@
                    != name@,
            },
    {
        let n = self.entries.len();
        let mut i: usize = 0;
        while i < n
            invariant
                n == self.entries@.len(),
                i <= n,
                forall|j: int| 0 <= j < i ==> self.entries@[j].name@ != name@,
            decreases n - i,
        {
            if str_eq(self.entries[i].name.as_str(), name) {
                return Some(i);
            }
            i += 1;
        }
        None
    }

    /// Whether a record with this name is stored.
    pub fn contains(&self, name: &str) -> (r: bool)
        ensures
            r == self@.contains_key(name@),
    {
        let found = self.find(name);
        proof {
            lemma_map_of_contains(self.entries@, name@);
        }
        match found {
            Some(_) => true,
            None => false,
        }
    }

    /// The stored record with this name, if any.
    pub fn get(&self, name: &str) -> (r: Option<&Secret>)
        requires
            self.wf(),
        ensures
            match r {
                Some(s) => self@.contains_key(name@) && self@[name@] == s@ && s.name@ == name@,
                None => !self@.contains_key(name@),
            },
    {
        let found = self.find(name);
        proof {
            lemma_map_of_contains(self.entries@, name@);
        }
        match found {
            Some(i) => {
                proof {
                    lemma_map_of_index(self.entries@, i as int);
                }
                Some(&self.entries[i])
            },
            None => None,
        }
    }

    /// Inserts a record under its name, replacing any record already
    /// stored under that name.
    pub fn insert(&mut self, x: Secret)
        requires
            old(self).wf(),
            x.wf(),
        ensures
            final(self).wf(),
            final(self)@ == old(self)@.insert(x.name@, x@),
    {
        let found = self.find(x.name.as_str());
        proof {
            lemma_map_of_contains(self.entries@, x.name@);
        }
        match found {
            Some(i) => {
                proof {
                    lemma_map_of_remove(self.entries@, i as int);
                }
                let _ = self.entries.remove(i);
                proof {
                    assert(names_unique(self.entries@)) by {
                        assert(forall|k: int|
                            0 <= k < self.entries@.len() ==> #[trigger] self.entries@[k]
                                == if k < i as int {
                                old(self).entries@[k]
                            } else {
                                old(self).entries@[k + 1]
                            });
                    }
                    lemma_map_of_contains(self.entries@, x.name@);
                }
                self.entries.push(x);
                proof {
                    assert(self.entries@.drop_last() =~= old(self).entries@.remove(i as int));
                    assert(self@ =~= old(self)@.insert(x.name@, x@));
                    assert(names_unique(self.entries@)) by {
                        lemma_map_of_contains(self.entries@.drop_last(), x.name@);
                    }
                }
            },
            None => {
                self.entries.push(x);
                proof {
                    assert(self.entries@.drop_last() =~= old(self).entries@);
                    assert(self@ =~= old(self)@.insert(x.name@, x@));
                }
            },
        }
    }

    /// Removes the record with this name. When no such record exists the
    /// store is left untouched, not rewritten: deleting a non-existent
    /// service is a no-op.
    pub fn remove(&mut self, name: &str) -> (found: bool)
        requires
            old(self).wf(),
        ensures
            final(self).wf(),
            found == old(self)@.contains_key(name@),
            final(self)@ == old(self)@.remove(name@),
            !found ==> *final(self) == *old(self),
    {
        let found = self.find(name);
        proof {
            lemma_map_of_contains(self.entries@, name@);
        }
        match found {
            Some(i) => {
                proof {
                    lemma_map_of_remove(self.entries@, i as int);
                }
                let _ = self.entries.remove(i);
                proof {
                    assert(names_unique(self.entries@) && all_wf(self.entries@)) by {
                        assert(forall|k: int|
                            0 <= k < self.entries@.len() ==> #[trigger] self.entries@[k]
                                == if k < i as int {
                                old(self).entries@[k]
                            } else {
                                old(self).entries@[k + 1]
                            });
                    }
                }
                true
            },
            None => {
                proof {
                    assert(self@ =~= old(self)@.remove(name@));
                }
                false
            },
        }
    }

    /// Renames the record stored under `old_name` to `new_name`: the old
    /// entry is removed and the record, its name field updated, is
    /// inserted under the new key — never both. Renaming onto an
    /// existing name replaces that record; renaming a missing name is a
    /// no-op.
    pub fn rename(&mut self, old_name: &str, new_name: &str) -> (found: bool)
        requires
            old(self).wf(),
            new_name@.len() > 0,
        ensures
            final(self).wf(),
            found == old(self)@.contains_key(old_name@),
            found ==> final(self)@ == old(self)@.remove(old_name@).insert(
                new_name@,
                (SecretData {
                    name: new_name@,
                    secret: old(self)@[old_name@].secret,
                    auth_type: old(self)@[old_name@].auth_type,
                    counter: old(self)@[old_name@].counter,
                }),
            ),
            !found ==> *final(self) == *old(self),
    {
        let found = self.find(old_name);
        proof {
            lemma_map_of_contains(self.entries@, old_name@);
        }
        match found {
            Some(i) => {
                proof {
                    lemma_map_of_index(self.entries@, i as int);
                    lemma_map_of_remove(self.entries@, i as int);
                }
                let mut s = self.entries.remove(i);
                proof {
                    assert(names_unique(self.entries@) && all_wf(self.entries@)) by {
                        assert(forall|k: int|
                            0 <= k < self.entries@.len() ==> #[trigger] self.entries@[k]
                                == if k < i as int {
                                old(self).entries@[k]
                            } else {
                                old(self).entries@[k + 1]
                            });
                    }
                }
                s.name = new_name.to_owned();
                self.insert(s);
                true
            },
            None => false,
        }
    }

    /// Advances the HOTP counter of the record with this name by exactly
    /// one, as owed after a generated code has been delivered. Records
    /// that are not HOTP, carry no counter, or sit at the counter
    /// maximum are left untouched, as is a store without the name.
    pub fn bump_counter(&mut self, name: &str)
        requires
            old(self).wf(),
        ensures
            final(self).wf(),
            final(self)@ == if old(self)@.contains_key(name@) && old(self)@[name@].auth_type
                == AuthType::Hotp && (old(self)@[name@].counter matches Some(c) && c < u64::MAX) {
                old(self)@.insert(
                    name@,
                    (SecretData {
                        name: old(self)@[name@].name,
                        secret: old(self)@[name@].secret,
                        auth_type: old(self)@[name@].auth_type,
                        counter: Some((old(self)@[name@].counter->Some_0 + 1) as u64),
                    }),
                )
            } else {
                old(self)@
            },
    {
        let found = self.find(name);
        proof {
            lemma_map_of_contains(self.entries@, name@);
        }
        match found {
            Some(i) => {
                proof {
                    lemma_map_of_index(self.entries@, i as int);
                }
                let is_hotp = match self.entries[i].auth_type {
                    AuthType::Hotp => true,
                    _ => false,
                };
                let counter = self.entries[i].counter;
                match counter {
                    Some(c) => if is_hotp && c < u64::MAX {
                        proof {
                            lemma_map_of_remove(self.entries@, i as int);
                        }
                        let mut s = self.entries.remove(i);
                        proof {
                            assert(names_unique(self.entries@) && all_wf(self.entries@)) by {
                                assert(forall|k: int|
                                    0 <= k < self.entries@.len() ==> #[trigger] self.entries@[k]
                                        == if k < i as int {
                                        old(self).entries@[k]
                                    } else {
                                        old(self).entries@[k + 1]
                                    });
                            }
                        }
                        s.counter = Some(c + 1);
                        self.insert(s);
                        proof {
                            assert(self@ =~= old(self)@.insert(
                                name@,
                                SecretData {
                                    name: old(self)@[name@].name,
                                    secret: old(self)@[name@].secret,
                                    auth_type: old(self)@[name@].auth_type,
                                    counter: Some((old(self)@[name@].counter->Some_0 + 1) as u64),
                                },
                            ));
                        }
                    },
                    None => (),
                }
            },
            None => (),
        }
    }

    /// The stored records, for iteration: each is well formed, carries
    /// its own map entry, and every name in the map appears.
    pub fn entries(&self) -> (r: &Vec<Secret>)
        requires
            self.wf(),
        ensures
            names_unique(r@),
            forall|i: int|
                0 <= i < r@.len() ==> (#[trigger] r@[i]).wf() && self@.contains_key(r@[i].name@)
                    && self@[r@[i].name@] == r@[i]@,
            forall|n: Seq<char>| #[trigger]
                self@.contains_key(n) ==> exists|i: int| 0 <= i < r@.len() && r@[i].name@ == n,
    {
        proof {
            assert forall|i: int| 0 <= i < self.entries@.len() implies self@.contains_key(
                self.entries@[i].name@,
            ) && self@[self.entries@[i].name@] == self.entries@[i]@ by {
                lemma_map_of_index(self.entries@, i);
            }
            assert forall|n: Seq<char>| #[trigger] self@.contains_key(n) implies exists|i: int|
                0 <= i < self.entries@.len() && self.entries@[i].name@ == n by {
                lemma_map_of_contains(self.entries@, n);
            }
        }
        &self.entries
    }
}

} // verus!
