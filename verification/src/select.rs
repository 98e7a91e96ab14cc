//! The match evaluator's bookkeeping: which lines of a source are reported, given
//! which lines match and the ceiling on reported lines, and how far evaluation goes.

use crate::config::mode_of;
use crate::config::Config;
use crate::config::ConfigView;
use crate::config::OutputMode;
use vstd::prelude::*;

verus! {

/// Whether a line is reported: inverting flips the decision of the match.
pub open spec fn reports(is_match: bool, invert_match: bool) -> bool {
    is_match != invert_match
}

/// Whether a line is reported: inverting flips the decision of the match.
pub fn is_reported(is_match: bool, invert_match: bool) -> (r: bool)
    ensures
        r == reports(is_match, invert_match),
        r == (is_match ^ invert_match),
{
    is_match != invert_match
}

/// Whether the modes of a configuration stop at the first reported line.
pub open spec fn stops_at_first(c: ConfigView) -> bool {
    mode_of(c) == OutputMode::Quiet || mode_of(c) == OutputMode::FilesWithMatches
}

/// The most lines of one source that are reported, if there is a bound: the
/// configured ceiling, and at most one line in the modes that stop at the first.
pub open spec fn ceiling(c: ConfigView) -> Option<nat> {
    if stops_at_first(c) {
        if c.max_count == Some(0usize) {
            Some(0nat)
        } else {
            Some(1nat)
        }
    } else {
        match c.max_count {
            Some(n) => Some(n as nat),
            None => None,
        }
    }
}

/// Whether `count` reported lines leave room for one more under `limit`.
pub open spec fn has_room(limit: Option<nat>, count: nat) -> bool {
    match limit {
        Some(n) => count < n,
        None => true,
    }
}

/// The indices, among the first `n` lines, of the lines that are reported under the
/// ceiling `limit`, in rising order. `reported[i]` tells whether line `i` would be
/// reported without a ceiling.
pub open spec fn selected(reported: Seq<bool>, limit: Option<nat>, n: int) -> Seq<int>
    decreases n,
{
    if n <= 0 {
        Seq::empty()
    } else {
        let before = selected(reported, limit, n - 1);
        if reported[n - 1] && has_room(limit, before.len()) {
            before.push(n - 1)
        } else {
            before
        }
    }
}

/// How many of the first `n` lines are evaluated: a line is evaluated unless the
/// ceiling was reached before it.
pub open spec fn evaluated(reported: Seq<bool>, limit: Option<nat>, n: int) -> int
    decreases n,
{
    if n <= 0 {
        0
    } else if has_room(limit, selected(reported, limit, n - 1).len()) {
        n
    } else {
        evaluated(reported, limit, n - 1)
    }
}

/// The most lines of one source that are reported, if there is a bound.
pub fn ceiling_of(config: &Config) -> (r: Option<usize>)
    ensures
        match r {
            Some(n) => ceiling(config@) == Some(n as nat),
            None => ceiling(config@) is None,
        },
{
    match config.mode() {
        OutputMode::Quiet | OutputMode::FilesWithMatches => {
            match config.max_count {
                Some(0) => Some(0),
                _ => Some(1),
            }
        },
        _ => config.max_count,
    }
}

/// Whether `matched` reported lines have reached the ceiling `limit`.
pub fn ceiling_reached(limit: Option<usize>, matched: usize) -> (r: bool)
    ensures
        r == match limit {
            Some(n) => matched >= n,
            None => false,
        },
{
    match limit {
        Some(n) => matched >= n,
        None => false,
    }
}

/// The selected lines are lines that would be reported, each counted once, in the
/// order of the source, and never more than the ceiling allows.
pub proof fn lemma_selected_are_reported(reported: Seq<bool>, limit: Option<nat>, n: int)
    requires
        0 <= n <= reported.len(),
    ensures
        selected(reported, limit, n).len() <= n,
        limit matches Some(most) ==> selected(reported, limit, n).len() <= most,
        forall|k: int|
            0 <= k < selected(reported, limit, n).len() ==> 0 <= #[trigger] selected(
                reported,
                limit,
                n,
            )[k] < n && reported[selected(reported, limit, n)[k]],
        forall|k: int, l: int|
            0 <= k < l < selected(reported, limit, n).len() ==> #[trigger] selected(
                reported,
                limit,
                n,
            )[k] < #[trigger] selected(reported, limit, n)[l],
    decreases n,
{
    if n > 0 {
        lemma_selected_are_reported(reported, limit, n - 1);
    }
}

/// Without a ceiling, a line is selected exactly when it would be reported.
pub proof fn lemma_selected_without_ceiling(reported: Seq<bool>, n: int, i: int)
    requires
        0 <= n <= reported.len(),
        0 <= i < n,
    ensures
        selected(reported, None, n).contains(i) == reported[i],
    decreases n,
{
    let all = selected(reported, None, n);
    let before = selected(reported, None, n - 1);
    lemma_selected_are_reported(reported, None, n - 1);
    if i < n - 1 {
        lemma_selected_without_ceiling(reported, n - 1, i);
        if reported[i] {
            let k = choose|k: int| 0 <= k < before.len() && before[k] == i;
            assert(all[k] == i);
        } else if all.contains(i) {
            let k = choose|k: int| 0 <= k < all.len() && all[k] == i;
            assert(before[k] == i);
        }
    } else {
        if reported[i] {
            assert(all[all.len() - 1] == i);
        } else if all.contains(i) {
            let k = choose|k: int| 0 <= k < all.len() && all[k] == i;
            assert(before[k] == i);
        }
    }
}

/// A ceiling keeps the first lines that would be reported without it, as many as it
/// allows, and drops the rest.
pub proof fn lemma_ceiling_keeps_the_first(reported: Seq<bool>, most: nat, n: int)
    requires
        0 <= n <= reported.len(),
    ensures
        selected(reported, Some(most), n) == if most <= selected(reported, None, n).len() {
            selected(reported, None, n).take(most as int)
        } else {
            selected(reported, None, n)
        },
    decreases n,
{
    if n > 0 {
        lemma_ceiling_keeps_the_first(reported, most, n - 1);
        let all_before = selected(reported, None, n - 1);
        let all = selected(reported, None, n);
        let kept = selected(reported, Some(most), n);
        if most <= all.len() {
            assert(kept =~= all.take(most as int));
        } else {
            assert(kept =~= all);
        }
    }
}

/// Once the ceiling is reached, nothing more is selected and nothing more is
/// evaluated.
pub proof fn lemma_nothing_after_the_ceiling(
    reported: Seq<bool>,
    limit: Option<nat>,
    n: int,
    m: int,
)
    requires
        0 <= n <= m,
        !has_room(limit, selected(reported, limit, n).len()),
    ensures
        selected(reported, limit, m) == selected(reported, limit, n),
        evaluated(reported, limit, m) == evaluated(reported, limit, n),
    decreases m - n,
{
    if n < m {
        lemma_nothing_after_the_ceiling(reported, limit, n, m - 1);
    }
}

/// Evaluation goes through the whole source while the ceiling is not reached, and
/// stops right after the line that reaches it.
pub proof fn lemma_evaluation_stops_at_the_ceiling(reported: Seq<bool>, limit: Option<nat>, n: int)
    requires
        0 <= n <= reported.len(),
    ensures
        has_room(limit, selected(reported, limit, n).len()) ==> evaluated(reported, limit, n) == n,
        limit == Some(0nat) ==> evaluated(reported, limit, n) == 0,
        !has_room(limit, selected(reported, limit, n).len()) && limit != Some(0nat) ==> selected(
            reported,
            limit,
            n,
        ).len() > 0 && evaluated(reported, limit, n) == selected(reported, limit, n).last() + 1,
    decreases n,
{
    if n > 0 {
        lemma_evaluation_stops_at_the_ceiling(reported, limit, n - 1);
        lemma_selected_are_reported(reported, limit, n - 1);
    }
}

/// Only evaluated lines are reported, and only lines of the source are evaluated.
pub proof fn lemma_reported_within_evaluated(reported: Seq<bool>, limit: Option<nat>, n: int)
    requires
        0 <= n,
    ensures
        selected(reported, limit, n).len() <= evaluated(reported, limit, n) <= n,
        forall|k: int|
            0 <= k < selected(reported, limit, n).len() ==> #[trigger] selected(
                reported,
                limit,
                n,
            )[k] < evaluated(reported, limit, n),
    decreases n,
{
    if n > 0 {
        lemma_reported_within_evaluated(reported, limit, n - 1);
    }
}

} // verus!
