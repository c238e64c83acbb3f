//! Decisions of the install step that wires the preprocessor into a book's
//! configuration; the file work itself is done by the caller.
use vstd::prelude::*;
use crate::text::{chars_of, same};

verus! {

/// Whether a configuration list already names `asset`; entries that are not
/// strings are given as `None` and never match.
pub fn asset_listed(entries: &Vec<Option<String>>, asset: &str) -> (r: bool)
    ensures
        r == exists|i: int|
            0 <= i < entries@.len() && (#[trigger] entries@[i]) is Some && entries@[i]->0@
                == asset@,
{
    let mut i: usize = 0;
    while i < entries.len()
        invariant
            i <= entries@.len(),
            forall|k: int|
                0 <= k < i ==> !((#[trigger] entries@[k]) is Some && entries@[k]->0@ == asset@),
        decreases entries.len() - i,
    {
        match &entries[i] {
            Some(e) => {
                if same(&chars_of(e.as_str()), asset) {
                    return true;
                }
            },
            None => {},
        }
        i += 1;
    }
    false
}

} // verus!
