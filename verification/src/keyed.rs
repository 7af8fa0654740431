//! Records with text keys: the record found under a key in a sequence, and
//! the records that pass a test.

use vstd::prelude::*;

verus! {

/// A record with a text key.
pub trait Keyed {
    spec fn key(&self) -> Seq<char>;
}

/// The record under `k` in `s`, if any; the last one when several share it.
pub open spec fn find<T: Keyed>(s: Seq<T>, k: Seq<char>) -> Option<T>
    decreases s.len(),
{
    if s.len() == 0 {
        None
    } else if s.last().key() == k {
        Some(s.last())
    } else {
        find(s.drop_last(), k)
    }
}

/// The records of `s` that pass `keep`, in order.
pub open spec fn filter_keyed<T: Keyed>(s: Seq<T>, keep: spec_fn(T) -> bool) -> Seq<T>
    decreases s.len(),
{
    if s.len() == 0 {
        Seq::empty()
    } else if keep(s.last()) {
        filter_keyed(s.drop_last(), keep).push(s.last())
    } else {
        filter_keyed(s.drop_last(), keep)
    }
}

} // verus!
