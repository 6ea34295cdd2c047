//! An ordered list of HTTP headers.
//!
//! Entries keep the order in which they were added, and a name may occur many
//! times. A header enters the list only through `append` and `insert`, which
//! ask the `http` crate whether it accepts the name and the value, and store
//! the name in the normal form that `http` gives it.

use vstd::prelude::*;
use vstd::string::StringSliceAdditionalSpecFns;
use crate::encoding::{
    ascii_text,
    header_name_from_bytes,
    header_value_from_bytes,
    header_value_ok,
    normal_header_name,
    plain_name,
};
use crate::text::str_eq;

verus! {

/// A header as mathematics: its name and the bytes of its value.
pub type HeaderModel = (Seq<char>, Seq<u8>);

/// What becomes of a header that is offered to a list: the entry that is
/// stored, or `None` where its name or its value is refused.
pub open spec fn accepted_header(name: Seq<u8>, value: Seq<u8>) -> Option<HeaderModel> {
    match normal_header_name(name) {
        Some(n) => if header_value_ok(value) {
            Some((n, value))
        } else {
            None
        },
        None => None,
    }
}

/// Headers in the order in which they were added, duplicates kept.
pub struct HeaderMap {
    entries: Vec<(String, Vec<u8>)>,
}

impl View for HeaderMap {
    type V = Seq<HeaderModel>;

    closed spec fn view(&self) -> Seq<HeaderModel> {
        entries_model(self.entries@)
    }
}

impl HeaderMap {
    /// A list without entries.
    pub fn new() -> (map: HeaderMap)
        ensures
            map@ == Seq::<HeaderModel>::empty(),
    {
        HeaderMap { entries: Vec::new() }
    }

    /// The number of entries, each occurrence of a name counted.
    pub fn len(&self) -> (n: usize)
        ensures
            n == self@.len(),
    {
        self.entries.len()
    }

    /// The name of entry `i`.
    pub fn name(&self, i: usize) -> (name: &str)
        requires
            i < self@.len(),
        ensures
            name@ == self@[i as int].0,
    {
        self.entries[i].0.as_str()
    }

    /// The value of entry `i`.
    pub fn value(&self, i: usize) -> (value: &[u8])
        requires
            i < self@.len(),
        ensures
            value@ == self@[i as int].1,
    {
        self.entries[i].1.as_slice()
    }

    /// Adds a header at the end if `http` accepts both its name and its value,
    /// and says whether it did. The name is stored in its normal form; a
    /// plain name is accepted and stored as it is.
    pub fn append(&mut self, name: &str, value: &[u8]) -> (added: bool)
        ensures
            match accepted_header(name.spec_bytes(), value@) {
                Some(h) => added && final(self)@ == old(self)@.push(h),
                None => !added && final(self)@ == old(self)@,
            },
            plain_name(name.spec_bytes()) ==> normal_header_name(name.spec_bytes()) == Some(
                ascii_text(name.spec_bytes()),
            ),
    {
        match header_name_from_bytes(name.as_bytes()) {
            Ok(n) => match header_value_from_bytes(value) {
                Ok(v) => {
                    self.entries.push((n, v));
                    true
                },
                Err(_) => false,
            },
            Err(_) => false,
        }
    }

    /// Sets a header: if `http` accepts both its name and its value, every
    /// entry of that name leaves the list, the new entry is added at the
    /// end, and the result is `true`. Otherwise nothing changes. A plain name
    /// is accepted and stored as it is.
    pub fn insert(&mut self, name: &str, value: &[u8]) -> (added: bool)
        ensures
            match accepted_header(name.spec_bytes(), value@) {
                Some(h) => added && final(self)@ == old(self)@.filter(
                    |e: HeaderModel| e.0 != h.0,
                ).push(h),
                None => !added && final(self)@ == old(self)@,
            },
            plain_name(name.spec_bytes()) ==> normal_header_name(name.spec_bytes()) == Some(
                ascii_text(name.spec_bytes()),
            ),
    {
        let n = match header_name_from_bytes(name.as_bytes()) {
            Ok(n) => n,
            Err(_) => {
                return false;
            },
        };
        let v = match header_value_from_bytes(value) {
            Ok(v) => v,
            Err(_) => {
                return false;
            },
        };
        let ghost all = self@;
        let ghost keep = |e: HeaderModel| e.0 != n@;
        let ghost mut done: int = 0;
        let mut kept: Vec<(String, Vec<u8>)> = Vec::new();
        proof {
            assert(all.take(0) =~= Seq::<HeaderModel>::empty());
            assert(entries_model(kept@) =~= all.take(0).filter(keep));
            assert(entries_model(self.entries@) =~= all.skip(0));
        }
        while self.entries.len() > 0
            invariant
                0 <= done <= all.len(),
                keep == |e: HeaderModel| e.0 != n@,
                entries_model(self.entries@) == all.skip(done),
                entries_model(kept@) == all.take(done).filter(keep),
            decreases self.entries@.len(),
        {
            let ghost rest = self.entries@;
            let ghost kept_before = kept@;
            let entry = self.entries.remove(0);
            proof {
                reveal(Seq::filter);
                assert(entries_model(rest).len() == rest.len());
                assert(all.skip(done).len() == all.len() - done);
                assert(entries_model(rest)[0] == all.skip(done)[0]);
                assert((entry.0@, entry.1@) == all[done]);
                assert(all.take(done + 1).drop_last() =~= all.take(done));
                assert(all.take(done + 1).last() == all[done]);
                assert forall|k: int| 0 <= k < self.entries@.len() implies entries_model(
                    self.entries@,
                )[k] == all.skip(done + 1)[k] by {
                    assert(self.entries@[k] == rest[k + 1]);
                    assert(entries_model(rest)[k + 1] == all.skip(done)[k + 1]);
                }
                assert(entries_model(self.entries@) =~= all.skip(done + 1));
            }
            if !str_eq(entry.0.as_str(), n.as_str()) {
                kept.push(entry);
                proof {
                    assert(entries_model(kept@) =~= entries_model(kept_before).push(
                        (entry.0@, entry.1@),
                    ));
                }
            }
            proof {
                done = done + 1;
            }
        }
        proof {
            assert(all.take(done) =~= all);
        }
        kept.push((n, v));
        self.entries = kept;
        true
    }
}

/// The names and values of stored entries.
spec fn entries_model(entries: Seq<(String, Vec<u8>)>) -> Seq<HeaderModel> {
    Seq::new(entries.len(), |i: int| (entries[i].0@, entries[i].1@))
}

} // verus!
