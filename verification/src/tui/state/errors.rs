//! The error-log screen: the recent errors, the selection, the details view,
//! and how many errors of each type there are.
//!
//! Times are seconds on a monotonic clock that the caller reads.

use vstd::prelude::*;
use crate::ipc::ErrorInfo;
use crate::text::str_eq;

verus! {

/// How long, in seconds, the error list stays fresh.
pub const ERRORS_REFRESH_SECS: u64 = 30;

/// Error diagnostics state.
pub struct ErrorsState {
    /// List of recent errors
    pub errors: Vec<ErrorInfo>,
    /// Currently selected error index
    pub selected_index: usize,
    /// Whether viewing error details (stack trace)
    pub viewing_details: bool,
    /// Scroll offset in details view
    pub details_scroll: usize,
    /// Last refresh time
    pub last_refresh: Option<u64>,
    /// Whether a refresh is in progress
    pub refreshing: bool,
}

/// How many entries of `ts` equal `t`.
pub open spec fn occurrences(ts: Seq<Seq<char>>, t: Seq<char>) -> nat
    decreases ts.len(),
{
    if ts.len() == 0 {
        0
    } else {
        occurrences(ts.drop_last(), t) + if ts.last() == t {
            1nat
        } else {
            0nat
        }
    }
}

/// The error types of `errors`, in order.
pub open spec fn error_types(errors: Seq<ErrorInfo>) -> Seq<Seq<char>> {
    errors.map_values(|e: ErrorInfo| e.error_type@)
}

/// `counts` lists each type of `ts` once, with how often it occurs, most
/// frequent first.
pub open spec fn is_type_count(ts: Seq<Seq<char>>, counts: Seq<(String, usize)>) -> bool {
    &&& forall|i: int| 0 <= i < counts.len() ==> #[trigger] counts[i].1 == occurrences(ts, counts[i].0@)
        && counts[i].1 > 0
    &&& forall|t: Seq<char>| #[trigger] occurrences(ts, t) > 0 ==> exists|i: int| 0 <= i < counts.len()
        && counts[i].0@ == t
    &&& forall|i: int, j: int| 0 <= i < j < counts.len() ==> counts[i].0@ != counts[j].0@
    &&& forall|i: int, j: int| 0 <= i < j < counts.len() ==> counts[i].1 >= counts[j].1
}

/// Elapsed seconds from `then` to `now`, 0 if the clock reads earlier.
pub open spec fn since(now: u64, then: u64) -> int {
    if now >= then {
        now - then
    } else {
        0
    }
}

proof fn lemma_occurrences_push(ts: Seq<Seq<char>>, x: Seq<char>, t: Seq<char>)
    ensures
        occurrences(ts.push(x), t) == occurrences(ts, t) + if x == t {
            1nat
        } else {
            0nat
        },
{
    assert(ts.push(x).drop_last() =~= ts);
}

proof fn lemma_occurrences_bound(ts: Seq<Seq<char>>, t: Seq<char>)
    ensures
        occurrences(ts, t) <= ts.len(),
    decreases ts.len(),
{
    if ts.len() > 0 {
        lemma_occurrences_bound(ts.drop_last(), t);
    }
}

/// Every entry of `s` is one of the first `i` of `all`.
#[verifier::opaque]
pub open spec fn from_prefix(s: Seq<(String, usize)>, all: Seq<(String, usize)>, i: int) -> bool {
    forall|k: int| 0 <= k < s.len() ==> exists|m: int| 0 <= m < i && #[trigger] s[k] == all[m]
}

/// Each of the first `i` entries of `all` is in `s`.
#[verifier::opaque]
pub open spec fn covers_prefix(s: Seq<(String, usize)>, all: Seq<(String, usize)>, i: int) -> bool {
    forall|m: int| #![trigger all[m]] 0 <= m < i ==> exists|k: int| 0 <= k < s.len() && #[trigger] s[k] == all[m]
}

/// No type is listed twice.
#[verifier::opaque]
pub open spec fn distinct_types(s: Seq<(String, usize)>) -> bool {
    forall|a: int, b: int| 0 <= a < b < s.len() ==> s[a].0@ != s[b].0@
}

/// Counts never increase along `s`.
#[verifier::opaque]
pub open spec fn by_count(s: Seq<(String, usize)>) -> bool {
    forall|a: int, b: int| 0 <= a < b < s.len() ==> s[a].1 >= s[b].1
}

proof fn lemma_insert_from(before: Seq<(String, usize)>, all: Seq<(String, usize)>, i: int, p: int)
    requires
        0 <= i < all.len(),
        0 <= p <= before.len(),
        from_prefix(before, all, i),
    ensures
        from_prefix(before.insert(p, all[i]), all, i + 1),
{
    reveal(from_prefix);
    reveal(covers_prefix);
    reveal(distinct_types);
    reveal(by_count);
    let s = before.insert(p, all[i]);
    assert forall|k: int| 0 <= k < s.len() implies exists|m: int| 0 <= m < i + 1 && #[trigger] s[k] == all[m] by {
        if k < p {
            assert(s[k] == before[k]);
            let m = choose|m: int| 0 <= m < i && #[trigger] before[k] == all[m];
            assert(s[k] == all[m]);
        } else if k == p {
            assert(s[k] == all[i]);
        } else {
            assert(s[k] == before[k - 1]);
            let m = choose|m: int| 0 <= m < i && #[trigger] before[k - 1] == all[m];
            assert(s[k] == all[m]);
        }
    }
}

proof fn lemma_insert_covers(before: Seq<(String, usize)>, all: Seq<(String, usize)>, i: int, p: int)
    requires
        0 <= i < all.len(),
        0 <= p <= before.len(),
        covers_prefix(before, all, i),
    ensures
        covers_prefix(before.insert(p, all[i]), all, i + 1),
{
    reveal(from_prefix);
    reveal(covers_prefix);
    reveal(distinct_types);
    reveal(by_count);
    let s = before.insert(p, all[i]);
    assert forall|m: int| #![trigger all[m]] 0 <= m < i + 1 implies exists|k: int| 0 <= k < s.len() && #[trigger] s[k] == all[m] by {
        if m == i {
            assert(s[p] == all[m]);
        } else {
            let k = choose|k: int| 0 <= k < before.len() && #[trigger] before[k] == all[m];
            if k < p {
                assert(s[k] == all[m]);
            } else {
                assert(s[k + 1] == all[m]);
            }
        }
    }
}

proof fn lemma_insert_ordered(before: Seq<(String, usize)>, x: (String, usize), p: int)
    requires
        0 <= p <= before.len(),
        distinct_types(before),
        by_count(before),
        forall|k: int| 0 <= k < before.len() ==> before[k].0@ != x.0@,
        forall|k: int| 0 <= k < p ==> before[k].1 >= x.1,
        forall|k: int| p <= k < before.len() ==> before[k].1 < x.1,
    ensures
        distinct_types(before.insert(p, x)),
        by_count(before.insert(p, x)),
{
    reveal(from_prefix);
    reveal(covers_prefix);
    reveal(distinct_types);
    reveal(by_count);
    let s = before.insert(p, x);
    assert forall|a: int, b: int| 0 <= a < b < s.len() implies s[a].0@ != s[b].0@ && s[a].1 >= s[b].1 by {
        if a == p {
            assert(s[b] == before[b - 1]);
        } else if b == p {
            assert(s[a] == before[a]);
        } else if a < p && b < p {
            assert(s[a] == before[a]);
            assert(s[b] == before[b]);
        } else if a < p {
            assert(s[a] == before[a]);
            assert(s[b] == before[b - 1]);
        } else {
            assert(s[a] == before[a - 1]);
            assert(s[b] == before[b - 1]);
        }
    }
}

/// Inserting the next entry of `all` where its count belongs keeps the
/// sorted prefix sorted, distinct, and equal to the prefix one longer.
proof fn lemma_insert_sorted(before: Seq<(String, usize)>, all: Seq<(String, usize)>, i: int, p: int)
    requires
        0 <= i < all.len(),
        0 <= p <= before.len(),
        forall|a: int, b: int| 0 <= a < b < all.len() ==> all[a].0@ != all[b].0@,
        from_prefix(before, all, i),
        covers_prefix(before, all, i),
        distinct_types(before),
        by_count(before),
        forall|k: int| 0 <= k < p ==> before[k].1 >= all[i].1,
        p < before.len() ==> before[p].1 < all[i].1,
    ensures
        from_prefix(before.insert(p, all[i]), all, i + 1),
        covers_prefix(before.insert(p, all[i]), all, i + 1),
        distinct_types(before.insert(p, all[i])),
        by_count(before.insert(p, all[i])),
{
    reveal(from_prefix);
    reveal(by_count);
    let x = all[i];
    assert forall|k: int| p <= k < before.len() implies before[k].1 < x.1 by {
        assert(before[p].1 >= before[k].1);
    }
    assert forall|k: int| 0 <= k < before.len() implies before[k].0@ != x.0@ by {
        let m = choose|m: int| 0 <= m < i && #[trigger] before[k] == all[m];
        assert(before[k] == all[m]);
    }
    lemma_insert_from(before, all, i, p);
    lemma_insert_covers(before, all, i, p);
    lemma_insert_ordered(before, x, p);
}

impl ErrorsState {
    pub fn new() -> (s: Self)
        ensures
            s.errors@.len() == 0,
            s.selected_index == 0,
            !s.viewing_details,
            s.details_scroll == 0,
            s.last_refresh is None,
            !s.refreshing,
    {
        ErrorsState {
            errors: Vec::new(),
            selected_index: 0,
            viewing_details: false,
            details_scroll: 0,
            last_refresh: None,
            refreshing: false,
        }
    }

    /// Set the error list, refreshed at `now`.
    pub fn set_errors(&mut self, errors: Vec<ErrorInfo>, now: u64)
        ensures
            final(self).errors@ == errors@,
            final(self).last_refresh == Some(now),
            !final(self).refreshing,
            final(self).selected_index == old(self).selected_index,
            final(self).viewing_details == old(self).viewing_details,
            final(self).details_scroll == old(self).details_scroll,
    {
        self.errors = errors;
        self.last_refresh = Some(now);
        self.refreshing = false;
    }

    /// The selected error, if the selection is within the list.
    pub fn selected_error(&self) -> (r: Option<&ErrorInfo>)
        ensures
            self.selected_index < self.errors@.len() ==> r == Some(&self.errors@[self.selected_index as int]),
            self.selected_index >= self.errors@.len() ==> r is None,
    {
        if self.selected_index < self.errors.len() {
            Some(&self.errors[self.selected_index])
        } else {
            None
        }
    }

    /// Move up: scroll the details up, or select the previous error.
    pub fn select_previous(&mut self)
        ensures
            old(self).viewing_details ==> final(self).details_scroll == if old(self).details_scroll > 0 {
                (old(self).details_scroll - 1) as usize
            } else {
                0
            } && final(self).selected_index == old(self).selected_index,
            !old(self).viewing_details ==> final(self).selected_index == if old(self).selected_index > 0 {
                (old(self).selected_index - 1) as usize
            } else {
                0
            } && final(self).details_scroll == old(self).details_scroll,
            final(self).viewing_details == old(self).viewing_details,
            final(self).errors@ == old(self).errors@,
            final(self).last_refresh == old(self).last_refresh,
            final(self).refreshing == old(self).refreshing,
    {
        if self.viewing_details {
            if self.details_scroll > 0 {
                self.details_scroll -= 1;
            }
        } else if self.selected_index > 0 {
            self.selected_index -= 1;
        }
    }

    /// Move down: scroll the details down, or select the next error (up to
    /// the last one).
    pub fn select_next(&mut self)
        requires
            old(self).viewing_details ==> old(self).details_scroll < usize::MAX,
        ensures
            old(self).viewing_details ==> final(self).details_scroll == old(self).details_scroll + 1
                && final(self).selected_index == old(self).selected_index,
            !old(self).viewing_details ==> final(self).selected_index == if old(self).selected_index + 1
                < old(self).errors@.len() {
                (old(self).selected_index + 1) as usize
            } else {
                old(self).selected_index
            } && final(self).details_scroll == old(self).details_scroll,
            final(self).viewing_details == old(self).viewing_details,
            final(self).errors@ == old(self).errors@,
            final(self).last_refresh == old(self).last_refresh,
            final(self).refreshing == old(self).refreshing,
    {
        if self.viewing_details {
            self.details_scroll += 1;
        } else if self.selected_index < self.errors.len().saturating_sub(1) {
            self.selected_index += 1;
        }
    }

    /// Open the details of the selected error, if there is one.
    pub fn enter_details(&mut self)
        ensures
            old(self).selected_index < old(self).errors@.len() ==> final(self).viewing_details
                && final(self).details_scroll == 0,
            old(self).selected_index >= old(self).errors@.len() ==> final(self).viewing_details
                == old(self).viewing_details && final(self).details_scroll == old(self).details_scroll,
            final(self).selected_index == old(self).selected_index,
            final(self).errors@ == old(self).errors@,
            final(self).last_refresh == old(self).last_refresh,
            final(self).refreshing == old(self).refreshing,
    {
        if self.selected_error().is_some() {
            self.viewing_details = true;
            self.details_scroll = 0;
        }
    }

    /// Close the details view.
    pub fn exit_details(&mut self)
        ensures
            !final(self).viewing_details,
            final(self).details_scroll == 0,
            final(self).selected_index == old(self).selected_index,
            final(self).errors@ == old(self).errors@,
            final(self).last_refresh == old(self).last_refresh,
            final(self).refreshing == old(self).refreshing,
    {
        self.viewing_details = false;
        self.details_scroll = 0;
    }

    /// The list needs a refresh when it never had one or the last is 30
    /// seconds old.
    pub fn needs_refresh(&self, now: u64) -> (b: bool)
        ensures
            b == match self.last_refresh {
                None => true,
                Some(t) => since(now, t) >= ERRORS_REFRESH_SECS,
            },
    {
        match self.last_refresh {
            None => true,
            Some(t) => {
                let e = if now >= t {
                    now - t
                } else {
                    0
                };
                e >= ERRORS_REFRESH_SECS
            },
        }
    }

    /// Mark a refresh as started.
    pub fn start_refresh(&mut self)
        ensures
            final(self).refreshing,
            final(self).errors@ == old(self).errors@,
            final(self).selected_index == old(self).selected_index,
            final(self).viewing_details == old(self).viewing_details,
            final(self).details_scroll == old(self).details_scroll,
            final(self).last_refresh == old(self).last_refresh,
    {
        self.refreshing = true;
    }

    /// How many errors there are of each type, most frequent first.
    pub fn error_counts(&self) -> (r: Vec<(String, usize)>)
        ensures
            is_type_count(error_types(self.errors@), r@),
    {
        let ghost ts = error_types(self.errors@);
        // Count in order of first appearance.
        let mut counts: Vec<(String, usize)> = Vec::new();
        let mut i: usize = 0;
        while i < self.errors.len()
            invariant
                i <= self.errors@.len(),
                ts == error_types(self.errors@),
                forall|k: int| 0 <= k < counts@.len() ==> #[trigger] counts@[k].1 == occurrences(ts.take(i as int), counts@[k].0@)
                    && counts@[k].1 > 0,
                forall|t: Seq<char>| #[trigger] occurrences(ts.take(i as int), t) > 0 ==> exists|k: int| 0 <= k < counts@.len()
                    && counts@[k].0@ == t,
                forall|a: int, b: int| 0 <= a < b < counts@.len() ==> counts@[a].0@ != counts@[b].0@,
            decreases self.errors@.len() - i,
        {
            let t = &self.errors[i].error_type;
            let ghost prefix = ts.take(i as int);
            proof {
                assert(ts.take(i + 1) =~= prefix.push(t@));
                assert forall|u: Seq<char>| #[trigger] occurrences(ts.take(i + 1), u) == occurrences(prefix, u) + if t@ == u {
                    1nat
                } else {
                    0nat
                } by {
                    lemma_occurrences_push(prefix, t@, u);
                }
                lemma_occurrences_bound(prefix, t@);
            }
            let mut j: usize = 0;
            let mut found = false;
            while !found && j < counts.len()
                invariant
                    j <= counts@.len(),
                    found ==> j < counts@.len() && counts@[j as int].0@ == t@,
                    !found ==> forall|k: int| 0 <= k < j ==> counts@[k].0@ != t@,
                decreases counts@.len() - j + if found {
                    0int
                } else {
                    1int
                },
            {
                if str_eq(counts[j].0.as_str(), t.as_str()) {
                    found = true;
                } else {
                    j = j + 1;
                }
            }
            if found {
                let ghost before = counts@;
                assert(counts@[j as int].1 == occurrences(prefix, t@));
                let c = counts[j].1 + 1;
                let name = counts[j].0.clone();
                counts.set(j, (name, c));
                proof {
                    assert forall|k: int| 0 <= k < counts@.len() implies #[trigger] counts@[k].1 == occurrences(ts.take(i + 1), counts@[k].0@)
                        && counts@[k].1 > 0 by {
                        if k != j {
                            assert(counts@[k] == before[k]);
                            assert(before[k].0@ != before[j as int].0@);
                        }
                    }
                    assert forall|u: Seq<char>| #[trigger] occurrences(ts.take(i + 1), u) > 0 implies exists|k: int| 0 <= k < counts@.len()
                        && counts@[k].0@ == u by {
                        if u == t@ {
                            assert(counts@[j as int].0@ == u);
                        } else {
                            assert(occurrences(prefix, u) > 0);
                            let k = choose|k: int| 0 <= k < before.len() && before[k].0@ == u;
                            assert(counts@[k].0@ == u);
                        }
                    }
                    assert forall|a: int, b: int| 0 <= a < b < counts@.len() implies counts@[a].0@ != counts@[b].0@ by {
                        assert(counts@[a].0@ == before[a].0@);
                        assert(counts@[b].0@ == before[b].0@);
                    }
                }
            } else {
                let ghost before = counts@;
                proof {
                    if occurrences(prefix, t@) > 0 {
                        let k = choose|k: int| 0 <= k < before.len() && before[k].0@ == t@;
                        assert(false);
                    }
                }
                counts.push((t.clone(), 1));
                proof {
                    assert forall|k: int| 0 <= k < counts@.len() implies #[trigger] counts@[k].1 == occurrences(ts.take(i + 1), counts@[k].0@)
                        && counts@[k].1 > 0 by {
                        if k < before.len() {
                            assert(counts@[k] == before[k]);
                            assert(before[k].0@ != t@) by {
                                if before[k].0@ == t@ {
                                    assert(before[k].1 == occurrences(prefix, t@));
                                }
                            }
                        }
                    }
                    assert forall|u: Seq<char>| #[trigger] occurrences(ts.take(i + 1), u) > 0 implies exists|k: int| 0 <= k < counts@.len()
                        && counts@[k].0@ == u by {
                        if u == t@ {
                            assert(counts@[before.len() as int].0@ == u);
                        } else {
                            assert(occurrences(prefix, u) > 0);
                            let k = choose|k: int| 0 <= k < before.len() && before[k].0@ == u;
                            assert(counts@[k].0@ == u);
                        }
                    }
                    assert forall|a: int, b: int| 0 <= a < b < counts@.len() implies counts@[a].0@ != counts@[b].0@ by {
                        if b == before.len() {
                            assert(counts@[a] == before[a]);
                            if before[a].0@ == t@ {
                                assert(before[a].1 == occurrences(prefix, t@));
                            }
                        } else {
                            assert(counts@[a] == before[a]);
                            assert(counts@[b] == before[b]);
                        }
                    }
                }
            }
            i = i + 1;
        }
        assert(ts.take(self.errors@.len() as int) =~= ts);
        Self::sort_by_count(counts, Ghost(ts))
    }

    /// Orders `counts` most frequent first, keeping the order of equal counts.
    fn sort_by_count(counts: Vec<(String, usize)>, Ghost(ts): Ghost<Seq<Seq<char>>>) -> (r: Vec<(String, usize)>)
        requires
            forall|k: int| 0 <= k < counts@.len() ==> #[trigger] counts@[k].1 == occurrences(ts, counts@[k].0@)
                && counts@[k].1 > 0,
            forall|t: Seq<char>| #[trigger] occurrences(ts, t) > 0 ==> exists|k: int| 0 <= k < counts@.len()
                && counts@[k].0@ == t,
            forall|a: int, b: int| 0 <= a < b < counts@.len() ==> counts@[a].0@ != counts@[b].0@,
        ensures
            is_type_count(ts, r@),
    {
        let ghost all = counts@;
        let mut rest = counts;
        let mut sorted: Vec<(String, usize)> = Vec::new();
        let mut i: usize = 0;
        let n = rest.len();
        proof {
            reveal(from_prefix);
            reveal(covers_prefix);
            reveal(distinct_types);
            reveal(by_count);
        }
        while rest.len() > 0
            invariant
                n == all.len(),
                i + rest@.len() == n,
                rest@ =~= all.skip(i as int),
                forall|a: int, b: int| 0 <= a < b < all.len() ==> all[a].0@ != all[b].0@,
                from_prefix(sorted@, all, i as int),
                covers_prefix(sorted@, all, i as int),
                distinct_types(sorted@),
                by_count(sorted@),
            decreases rest@.len(),
        {
            let x = rest.remove(0);
            assert(x == all[i as int]);
            assert(rest@ =~= all.skip(i + 1));
            let mut p: usize = 0;
            while p < sorted.len() && sorted[p].1 >= x.1
                invariant
                    p <= sorted@.len(),
                    forall|k: int| 0 <= k < p ==> sorted@[k].1 >= x.1,
                decreases sorted@.len() - p,
            {
                p = p + 1;
            }
            let ghost before = sorted@;
            sorted.insert(p, x);
            proof {
                lemma_insert_sorted(before, all, i as int, p as int);
                assert(sorted@ =~= before.insert(p as int, all[i as int]));
            }
            i = i + 1;
        }
        proof {
            reveal(from_prefix);
            reveal(covers_prefix);
            reveal(distinct_types);
            reveal(by_count);
            let s = sorted@;
            assert forall|k: int| 0 <= k < s.len() implies #[trigger] s[k].1 == occurrences(ts, s[k].0@) && s[k].1 > 0 by {
                assert(s[k] == s[k]);
                let m = choose|m: int| 0 <= m < n && #[trigger] s[k] == all[m];
                assert(all[m].1 == occurrences(ts, all[m].0@));
            }
            assert forall|t: Seq<char>| #[trigger] occurrences(ts, t) > 0 implies exists|k: int| 0 <= k < s.len()
                && s[k].0@ == t by {
                let m = choose|m: int| 0 <= m < all.len() && all[m].0@ == t;
                assert(all[m] == all[m]);
                let k = choose|k: int| 0 <= k < s.len() && #[trigger] s[k] == all[m];
                assert(s[k].0@ == t);
            }
        }
        sorted
    }
}

impl Default for ErrorsState {
    fn default() -> (s: Self)
        ensures
            s.errors@.len() == 0,
            s.selected_index == 0,
            !s.viewing_details,
            s.details_scroll == 0,
            s.last_refresh is None,
            !s.refreshing,
    {
        Self::new()
    }
}

} // verus!
