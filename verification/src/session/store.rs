use vstd::prelude::*;
use crate::session::session::SessionSummary;

verus! {

/// The token counts of the summaries, in order.
pub open spec fn token_counts(s: Seq<SessionSummary>) -> Seq<nat> {
    s.map_values(|x: SessionSummary| x.token_count as nat)
}

/// Sum of a sequence of counts.
pub open spec fn sum(c: Seq<nat>) -> nat
    decreases c.len(),
{
    if c.len() == 0 {
        0
    } else {
        sum(c.drop_last()) + c.last()
    }
}

/// How many of the counts, taken from the front, the budget admits: one is
/// taken while the running total stays within `max`, and the first is
/// taken whatever its size (`any` says whether one was taken already).
pub open spec fn budget_take(counts: Seq<nat>, max: nat, total: nat, any: bool) -> nat
    decreases counts.len(),
{
    if counts.len() == 0 {
        0
    } else if total + counts[0] > max && any {
        0
    } else {
        1 + budget_take(counts.drop_first(), max, total + counts[0], true)
    }
}

/// The running totals that the selection computes all fit a `usize`.
pub open spec fn budget_fits(counts: Seq<nat>, max: nat, total: nat, any: bool) -> bool
    decreases counts.len(),
{
    if counts.len() == 0 {
        true
    } else {
        &&& total + counts[0] <= usize::MAX
        &&& (total + counts[0] > max && any || budget_fits(
            counts.drop_first(),
            max,
            total + counts[0],
            true,
        ))
    }
}

/// The summaries that fit the budget: the longest prefix of the candidates
/// (newest first) whose token counts sum to at most `max_tokens`, but never
/// fewer than one when there is a candidate.
pub open spec fn within_budget(s: Seq<SessionSummary>, max_tokens: nat) -> Seq<SessionSummary> {
    s.take(budget_take(token_counts(s), max_tokens, 0, false) as int)
}

proof fn lemma_budget_step(counts: Seq<nat>, max: nat, total: nat, any: bool, i: int)
    requires
        0 <= i < counts.len(),
        i <= budget_take(counts, max, total, any),
    ensures
        budget_take(counts, max, total, any) == i + budget_take(
            counts.subrange(i, counts.len() as int),
            max,
            total + sum(counts.take(i)),
            any || i > 0,
        ),
        budget_fits(counts, max, total, any) ==> budget_fits(
            counts.subrange(i, counts.len() as int),
            max,
            total + sum(counts.take(i)),
            any || i > 0,
        ),
    decreases i,
{
    if i == 0 {
        assert(counts.subrange(0, counts.len() as int) =~= counts);
        assert(counts.take(0) =~= Seq::<nat>::empty());
    } else {
        let rest = counts.drop_first();
        assert(budget_take(counts, max, total, any) == 1 + budget_take(rest, max, total + counts[0], true));
        lemma_budget_step(rest, max, total + counts[0], true, i - 1);
        assert(rest.subrange(i - 1, rest.len() as int) =~= counts.subrange(i, counts.len() as int));
        lemma_sum_front(counts.take(i));
        assert(counts.take(i).drop_first() =~= rest.take(i - 1));
    }
}

proof fn lemma_sum_front(c: Seq<nat>)
    requires
        c.len() > 0,
    ensures
        sum(c) == c[0] + sum(c.drop_first()),
    decreases c.len(),
{
    if c.len() == 1 {
        assert(c.drop_last() =~= Seq::<nat>::empty());
        assert(c.drop_first() =~= Seq::<nat>::empty());
    } else {
        lemma_sum_front(c.drop_last());
        assert(c.drop_last().drop_first() =~= c.drop_first().drop_last());
    }
}

/// Keeps the most recent summaries that fit the token budget (see
/// `within_budget`); the candidates come newest first.
pub fn select_recent_summaries(candidates: Vec<SessionSummary>, max_tokens: usize) -> (r: Vec<SessionSummary>)
    requires
        budget_fits(token_counts(candidates@), max_tokens as nat, 0, false),
    ensures
        r@ == within_budget(candidates@, max_tokens as nat),
{
    let ghost counts = token_counts(candidates@);
    let ghost n = budget_take(counts, max_tokens as nat, 0, false);
    let mut total: usize = 0;
    let mut i: usize = 0;
    let mut stop = false;
    while i < candidates.len() && !stop
        invariant
            counts == token_counts(candidates@),
            n == budget_take(counts, max_tokens as nat, 0, false),
            budget_fits(counts, max_tokens as nat, 0, false),
            i <= candidates@.len(),
            total == sum(counts.take(i as int)),
            stop ==> n == i,
            !stop ==> i <= n,
        decreases candidates@.len() - i, if stop { 0int } else { 1int },
    {
        proof {
            lemma_budget_step(counts, max_tokens as nat, 0, false, i as int);
            let rest = counts.subrange(i as int, counts.len() as int);
            assert(rest[0] == counts[i as int]);
            assert(counts.take(i + 1).drop_last() =~= counts.take(i as int));
        }
        let c = candidates[i].token_count;
        if total + c > max_tokens && i > 0 {
            stop = true;
        } else {
            total = total + c;
            i = i + 1;
        }
    }
    proof {
        if !stop {
            assert(i == candidates@.len());
            lemma_budget_take_le(counts, max_tokens as nat, 0, false);
        }
    }
    let mut r = candidates;
    r.truncate(i);
    r
}

/// Whether `select_recent_summaries` can run on these candidates: its
/// running totals all fit a `usize` (see `budget_fits`).
pub fn summaries_fit_budget(candidates: &Vec<SessionSummary>, max_tokens: usize) -> (r: bool)
    ensures
        r == budget_fits(token_counts(candidates@), max_tokens as nat, 0, false),
{
    let ghost counts = token_counts(candidates@);
    let mut total: usize = 0;
    let mut i: usize = 0;
    assert(counts.subrange(0, counts.len() as int) =~= counts);
    while i < candidates.len()
        invariant
            counts == token_counts(candidates@),
            i <= candidates@.len(),
            budget_fits(counts, max_tokens as nat, 0, false) == budget_fits(
                counts.subrange(i as int, counts.len() as int),
                max_tokens as nat,
                total as nat,
                i > 0,
            ),
        decreases candidates@.len() - i,
    {
        let ghost rest = counts.subrange(i as int, counts.len() as int);
        proof {
            assert(rest[0] == counts[i as int]);
            assert(rest.drop_first() =~= counts.subrange(i + 1, counts.len() as int));
        }
        let c = candidates[i].token_count;
        if c > usize::MAX - total {
            return false;
        }
        if total + c > max_tokens && i > 0 {
            return true;
        }
        total = total + c;
        i = i + 1;
    }
    assert(counts.subrange(i as int, counts.len() as int) =~= Seq::<nat>::empty());
    true
}

proof fn lemma_budget_take_le(counts: Seq<nat>, max: nat, total: nat, any: bool)
    ensures
        budget_take(counts, max, total, any) <= counts.len(),
    decreases counts.len(),
{
    if counts.len() > 0 {
        lemma_budget_take_le(counts.drop_first(), max, total + counts[0], true);
    }
}

proof fn lemma_budget_take_props(counts: Seq<nat>, max: nat, total: nat, any: bool)
    ensures
        ({
            let n = budget_take(counts, max, total, any);
            &&& n <= counts.len()
            &&& !any && counts.len() > 0 ==> n >= 1
            &&& n >= 1 && (any || n >= 2) ==> total + sum(counts.take(n as int)) <= max
            &&& n < counts.len() ==> total + sum(counts.take(n as int)) + counts[n as int] > max
        }),
    decreases counts.len(),
{
    if counts.len() > 0 {
        let c0 = counts[0];
        let rest = counts.drop_first();
        if total + c0 > max && any {
            assert(counts.take(0) =~= Seq::<nat>::empty());
        } else {
            lemma_budget_take_props(rest, max, total + c0, true);
            let n1 = budget_take(rest, max, total + c0, true);
            let n = n1 + 1;
            lemma_sum_front(counts.take(n as int));
            assert(counts.take(n as int).drop_first() =~= rest.take(n1 as int));
            if n1 == 0 {
                assert(rest.take(0) =~= Seq::<nat>::empty());
            }
        }
    } else {
        assert(counts.take(0) =~= Seq::<nat>::empty());
    }
}

/// The token budget for earlier summaries: the summaries kept are the
/// newest ones (a prefix of the candidates), at least one when there is a
/// candidate; their tokens add up to at most the budget, unless a single
/// summary is kept; and no further candidate would have fitted.
pub proof fn lemma_budget_respected(s: Seq<SessionSummary>, max_tokens: nat)
    ensures
        ({
            let kept = within_budget(s, max_tokens);
            &&& kept.len() <= s.len()
            &&& kept == s.take(kept.len() as int)
            &&& s.len() > 0 ==> kept.len() >= 1
            &&& kept.len() >= 2 ==> sum(token_counts(kept)) <= max_tokens
            &&& kept.len() < s.len() ==> sum(token_counts(kept)) + s[kept.len() as int].token_count > max_tokens
        }),
{
    let counts = token_counts(s);
    lemma_budget_take_props(counts, max_tokens, 0, false);
    let n = budget_take(counts, max_tokens, 0, false);
    let kept = within_budget(s, max_tokens);
    assert(token_counts(kept) =~= counts.take(n as int));
}

proof fn lemma_budget_take_mono(counts: Seq<nat>, a: nat, b: nat, total: nat, any: bool)
    requires
        a <= b,
    ensures
        budget_take(counts, a, total, any) <= budget_take(counts, b, total, any),
    decreases counts.len(),
{
    if counts.len() > 0 {
        lemma_budget_take_mono(counts.drop_first(), a, b, total + counts[0], true);
    }
}

/// A larger budget never drops or reorders a summary: the summaries kept
/// under a budget `a` are a prefix of those kept under any `b >= a`.
pub proof fn lemma_larger_budget_keeps_more(s: Seq<SessionSummary>, a: nat, b: nat)
    requires
        a <= b,
    ensures
        within_budget(s, a).len() <= within_budget(s, b).len(),
        within_budget(s, a) == within_budget(s, b).take(within_budget(s, a).len() as int),
{
    let counts = token_counts(s);
    lemma_budget_take_mono(counts, a, b, 0, false);
    lemma_budget_take_le(counts, b, 0, false);
    assert(within_budget(s, a) =~= within_budget(s, b).take(within_budget(s, a).len() as int));
}

} // verus!
