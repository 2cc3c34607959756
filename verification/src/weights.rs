//! Weight normalization for weighted alternations.
//!
//! A weight is a fixed-point share of a whole: `WEIGHT_TOTAL` units stand
//! for the whole candidate set (100%).  A candidate set mixes explicitly
//! weighted entries and unweighted ones; the unweighted entries share the
//! leftover `WEIGHT_TOTAL - sum(explicit)` as evenly as the units allow,
//! with the first entries taking one extra unit each until the remainder
//! is used up, so that the effective weights of a well-formed set sum to
//! exactly `WEIGHT_TOTAL`.
//!
//! Candidates are then addressed through cumulative weights: a uniform
//! draw in `[0, WEIGHT_TOTAL)` selects the first candidate whose
//! cumulative weight strictly exceeds the draw.  The last cumulative
//! weight is pinned to `WEIGHT_TOTAL`, so every draw selects a candidate
//! even for degenerate weight sets.

use vstd::prelude::*;
use crate::errors::EvaluationError;

verus! {

/// The number of weight units that make up the whole candidate set.
pub const WEIGHT_TOTAL: u64 = 1_000_000;

/// An explicit weight, capped at the whole.
pub open spec fn capped(w: u64) -> int {
    if w > WEIGHT_TOTAL { WEIGHT_TOTAL as int } else { w as int }
}

/// The sum of the capped explicit weights of a candidate list.
pub open spec fn explicit_sum(ws: Seq<Option<u64>>) -> int
    decreases ws.len(),
{
    if ws.len() == 0 {
        0
    } else {
        explicit_sum(ws.drop_last()) + match ws.last() {
            Some(w) => capped(w),
            None => 0,
        }
    }
}

/// How many candidates carry no explicit weight.
pub open spec fn unweighted_count(ws: Seq<Option<u64>>) -> int
    decreases ws.len(),
{
    if ws.len() == 0 {
        0
    } else {
        unweighted_count(ws.drop_last()) + match ws.last() {
            Some(_) => 0int,
            None => 1int,
        }
    }
}

/// The weight units left for the unweighted candidates.
pub open spec fn leftover(ws: Seq<Option<u64>>) -> int {
    if explicit_sum(ws) <= WEIGHT_TOTAL {
        WEIGHT_TOTAL - explicit_sum(ws)
    } else {
        0
    }
}

/// The share of the leftover that every unweighted candidate receives.
pub open spec fn implicit_base(ws: Seq<Option<u64>>) -> int {
    leftover(ws) / unweighted_count(ws)
}

/// The leftover units that remain after the even split; the first
/// `implicit_rem` unweighted candidates receive one extra unit each.
pub open spec fn implicit_rem(ws: Seq<Option<u64>>) -> int {
    leftover(ws) % unweighted_count(ws)
}

/// The effective weight of candidate `i`: its capped explicit weight, or
/// its share of the leftover.
pub open spec fn effective_weight(ws: Seq<Option<u64>>, i: int) -> int {
    match ws[i] {
        Some(w) => capped(w),
        None => implicit_base(ws) + if unweighted_count(ws.take(i)) < implicit_rem(ws) {
            1int
        } else {
            0int
        },
    }
}

/// The sum of the effective weights of the first `n` candidates.
pub open spec fn effective_prefix_sum(ws: Seq<Option<u64>>, n: int) -> int
    decreases n,
{
    if n <= 0 {
        0
    } else {
        effective_prefix_sum(ws, n - 1) + effective_weight(ws, n - 1)
    }
}

/// The stored cumulative weight of candidate `i`: the running sum of
/// effective weights, saturated at the whole, with the last candidate
/// pinned to exactly `WEIGHT_TOTAL`.
pub open spec fn cumulative_weight(ws: Seq<Option<u64>>, i: int) -> int {
    if i == ws.len() - 1 {
        WEIGHT_TOTAL as int
    } else if effective_prefix_sum(ws, i + 1) > WEIGHT_TOTAL {
        WEIGHT_TOTAL as int
    } else {
        effective_prefix_sum(ws, i + 1)
    }
}

/// The index selected by a draw: the first position whose cumulative
/// weight strictly exceeds the draw (ties at a boundary therefore favour
/// the earlier candidate), or the last position when no entry does.
pub open spec fn first_hit(cumuls: Seq<u64>, draw: u64) -> int
    decreases cumuls.len(),
{
    if cumuls.len() <= 1 {
        0
    } else if draw < cumuls[0] {
        0
    } else {
        1 + first_hit(cumuls.drop_first(), draw)
    }
}

/// Selection is total and deterministic: for any cumulative weight list
/// ending at the draw's exclusive bound, the selected index is in range,
/// its cumulative weight strictly exceeds the draw, and every earlier
/// cumulative weight is at most the draw (so a tie at a boundary falls to
/// the earlier candidate).
pub proof fn lemma_first_hit_characterization(cumuls: Seq<u64>, draw: u64)
    requires
        cumuls.len() > 0,
        draw < cumuls.last(),
    ensures
        0 <= first_hit(cumuls, draw) < cumuls.len(),
        draw < cumuls[first_hit(cumuls, draw)],
        forall|j: int| 0 <= j < first_hit(cumuls, draw) ==> cumuls[j] <= draw,
    decreases cumuls.len(),
{
    if cumuls.len() == 1 {
    } else if draw < cumuls[0] {
    } else {
        let rest = cumuls.drop_first();
        assert(rest.last() == cumuls.last());
        lemma_first_hit_characterization(rest, draw);
        assert forall|j: int| 0 <= j < first_hit(cumuls, draw) implies cumuls[j] <= draw by {
            if j > 0 {
                assert(rest[j - 1] == cumuls[j]);
            }
        }
    }
}

/// Alternation coverage: when the cumulative weights are nondecreasing,
/// a draw selects candidate `i` exactly when it falls inside candidate
/// `i`'s half-open cumulative interval.  Every draw below the final
/// cumulative weight therefore selects exactly one candidate, and the
/// number of draws that select candidate `i` equals the width of its
/// interval, which is its effective weight.
pub proof fn lemma_alternation_coverage(cumuls: Seq<u64>, draw: u64, i: int)
    requires
        cumuls.len() > 0,
        draw < cumuls.last(),
        forall|a: int, b: int| 0 <= a <= b < cumuls.len() ==> cumuls[a] <= cumuls[b],
        0 <= i < cumuls.len(),
    ensures
        first_hit(cumuls, draw) == i <==> ((i == 0 || cumuls[i - 1] <= draw) && draw < cumuls[i]),
{
    lemma_first_hit_characterization(cumuls, draw);
    let h = first_hit(cumuls, draw);
    if h != i && (i == 0 || cumuls[i - 1] <= draw) && draw < cumuls[i] {
        if h < i {
            assert(cumuls[h] <= cumuls[i - 1]);
        } else {
            assert(cumuls[i] <= draw);
        }
    }
}

/// The effective weights of a generalized prefix sum to the explicit sum
/// plus the distributed leftover shares.
proof fn lemma_effective_prefix_sum_value(ws: Seq<Option<u64>>, n: int)
    requires
        unweighted_count(ws) > 0,
        0 <= n <= ws.len(),
    ensures
        effective_prefix_sum(ws, n) == explicit_sum(ws.take(n))
            + unweighted_count(ws.take(n)) * implicit_base(ws)
            + vstd::math::min(unweighted_count(ws.take(n)), implicit_rem(ws)),
    decreases n,
{
    vstd::arithmetic::div_mod::lemma_mod_division_less_than_divisor(leftover(ws), unweighted_count(ws));
    vstd::arithmetic::div_mod::lemma_div_pos_is_pos(leftover(ws), unweighted_count(ws));
    if n == 0 {
        assert(ws.take(0) =~= Seq::empty());
    } else {
        lemma_effective_prefix_sum_value(ws, n - 1);
        assert(ws.take(n).drop_last() =~= ws.take(n - 1));
        assert(ws.take(n).last() == ws[n - 1]);
        match ws[n - 1] {
            Some(_) => {},
            None => {
                assert(unweighted_count(ws.take(n)) == unweighted_count(ws.take(n - 1)) + 1);
                assert((unweighted_count(ws.take(n - 1)) + 1) * implicit_base(ws)
                    == unweighted_count(ws.take(n - 1)) * implicit_base(ws) + implicit_base(ws))
                    by (nonlinear_arith);
                lemma_unweighted_count_nonneg(ws.take(n - 1));
            },
        }
    }
}

/// An unweighted candidate anywhere in the list means the whole list
/// counts at least one.
pub proof fn lemma_unweighted_count_at(ws: Seq<Option<u64>>, i: int)
    requires
        0 <= i < ws.len(),
        ws[i] is None,
    ensures
        unweighted_count(ws) > 0,
    decreases ws.len(),
{
    lemma_unweighted_count_nonneg(ws.drop_last());
    if i < ws.len() - 1 {
        lemma_unweighted_count_at(ws.drop_last(), i);
    }
}

/// The unweighted count is never negative.
pub proof fn lemma_unweighted_count_nonneg(ws: Seq<Option<u64>>)
    ensures
        unweighted_count(ws) >= 0,
    decreases ws.len(),
{
    if ws.len() > 0 {
        lemma_unweighted_count_nonneg(ws.drop_last());
    }
}

/// The unweighted count never exceeds the number of candidates.
pub proof fn lemma_unweighted_count_le_len(ws: Seq<Option<u64>>)
    ensures
        unweighted_count(ws) <= ws.len(),
    decreases ws.len(),
{
    if ws.len() > 0 {
        lemma_unweighted_count_le_len(ws.drop_last());
    }
}

/// The explicit sum is never negative.
pub proof fn lemma_explicit_sum_nonneg(ws: Seq<Option<u64>>)
    ensures
        explicit_sum(ws) >= 0,
    decreases ws.len(),
{
    if ws.len() > 0 {
        lemma_explicit_sum_nonneg(ws.drop_last());
    }
}

/// Weight normalization: in a candidate set with at least one unweighted
/// entry and whose explicit weights do not exceed the whole, the effective
/// weights sum to exactly `WEIGHT_TOTAL`.
pub proof fn lemma_weight_normalization(ws: Seq<Option<u64>>)
    requires
        unweighted_count(ws) > 0,
        explicit_sum(ws) <= WEIGHT_TOTAL,
    ensures
        effective_prefix_sum(ws, ws.len() as int) == WEIGHT_TOTAL,
{
    let k = unweighted_count(ws);
    let l = leftover(ws);
    lemma_effective_prefix_sum_value(ws, ws.len() as int);
    assert(ws.take(ws.len() as int) =~= ws);
    lemma_explicit_sum_nonneg(ws);
    vstd::arithmetic::div_mod::lemma_mod_division_less_than_divisor(l, k);
    vstd::arithmetic::div_mod::lemma_fundamental_div_mod(l, k);
    assert(k * implicit_base(ws) == k * (l / k));
    assert(l == k * (l / k) + l % k);
    assert(vstd::math::min(k, implicit_rem(ws)) == implicit_rem(ws));
}

} // verus!
