//! String table used for the interning of strings: each stored string is
//! keyed by a 32-bit non-cryptographic hash of its text. Collisions on the
//! 32-bit hash are not disambiguated; that is a documented limitation, not a
//! correctness guarantee for adversarial input.

use std::collections::HashMap;

use vstd::prelude::*;
use vstd::std_specs::hash::group_hash_axioms;

verus! {

broadcast use group_hash_axioms;

/// Relies on `fxhash::hash32`: a quick, non-cryptographic 32-bit hash of the
/// string. The value depends on the machine's word width and byte order, so
/// nothing is claimed of it beyond its type; every contract below holds
/// whatever value comes back.
#[verifier::external_body]
fn fx_hash32_of(s: &str) -> u32 {
    fxhash::hash32(s)
}

/// A table of interned strings, keyed by a 32-bit hash of their text.
#[derive(Debug)]
pub struct StringTable {
    /// The interned strings by hash value
    table: HashMap<u32, String>,
}

impl StringTable {
    /// The interned strings as a map from id to text.
    pub closed spec fn view(&self) -> Map<u32, Seq<char>> {
        Map::new(
            |k: u32| self.table@.contains_key(k),
            |k: u32| self.table@[k]@,
        )
    }

    /// Create a new, empty string table.
    pub fn new() -> (r: StringTable)
        ensures
            r@ == Map::<u32, Seq<char>>::empty(),
    {
        let r = StringTable { table: HashMap::new() };
        proof {
            assert(r@ =~= Map::<u32, Seq<char>>::empty());
        }
        r
    }

    /// Whether a value with the given id exists within the table.
    pub fn contains(&self, hash: u32) -> (r: bool)
        ensures
            r == self@.contains_key(hash),
    {
        self.table.contains_key(&hash)
    }

    /// Add a value to the table and return the id now associated with it:
    /// the hash of its text. If the table already holds an entry under that
    /// id, the table is unchanged; otherwise the text is stored under it.
    /// Either way the id is in the table afterwards.
    pub fn insert(&mut self, s: &str) -> (r: u32)
        ensures
            final(self)@ == (if old(self)@.contains_key(r) {
                old(self)@
            } else {
                old(self)@.insert(r, s@)
            }),
            final(self)@.contains_key(r),
            final(self)@[r] == (if old(self)@.contains_key(r) {
                old(self)@[r]
            } else {
                s@
            }),
    {
        let hash = fx_hash32_of(s);
        if !self.table.contains_key(&hash) {
            let owned = s.to_owned();
            self.table.insert(hash, owned);
            proof {
                assert(final(self)@ =~= old(self)@.insert(hash, s@));
            }
        } else {
            proof {
                assert(final(self)@ =~= old(self)@);
            }
        }
        hash
    }

    /// Retrieve a value from the string table by its id.
    pub fn get(&self, hash: u32) -> (r: Option<&String>)
        ensures
            (match r {
                Some(s) => self@.contains_key(hash) && s@ == self@[hash],
                None => !self@.contains_key(hash),
            }),
    {
        self.table.get(&hash)
    }

    /// Remove the value stored under the hash of the given text, returning
    /// it if there was one. Which entry that is depends on the hash value,
    /// so all that is promised is that afterwards some single id has been
    /// cleared, and that whatever was stored under it is what came back.
    pub fn remove(&mut self, s: &str) -> (r: Option<String>)
        ensures
            exists|h: u32|
                {
                    &&& final(self)@ == old(self)@.remove(h)
                    &&& (match r {
                        Some(text) => old(self)@.contains_key(h) && text@ == old(self)@[h],
                        None => !old(self)@.contains_key(h),
                    })
                },
    {
        let hash = fx_hash32_of(s);
        let r = self.table.remove(&hash);
        proof {
            assert(final(self)@ =~= old(self)@.remove(hash));
        }
        r
    }

    /// Obtain the id that `insert` and `remove` would use for the given
    /// text. The value depends on the machine, so nothing further is
    /// promised of it.
    pub fn hash(&self, s: &str) -> u32 {
        fx_hash32_of(s)
    }
}

} // verus!
