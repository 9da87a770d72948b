//! What holds of every batch of trials: what it reads of the sample
//! stream, how batches add up, and how their results merge.

use crate::estimator::{EstimationResult, Tally};
use crate::samples::{advanced, can_supply, SampleSource};
use crate::trial::{Rules, SimulationParameters};
use crate::trial_laws::{
    lemma_character_alone_is_never_reached, lemma_no_budget_no_copies, lemma_progress_pos_grows,
    lemma_progress_reads_only_consumed, lemma_progress_shift,
};
use vstd::prelude::*;

verus! {

/// A batch never moves backwards in the stream: a longer batch stops no
/// earlier than a shorter one, and none before the start.
pub proof fn lemma_tally_pos_monotonic(
    rules: Rules,
    params: SimulationParameters,
    samples: Seq<u32>,
    from: nat,
    fewer: nat,
    more: nat,
)
    requires
        fewer <= more,
    ensures
        from <= rules.tally(&params, samples, from, fewer).pos <= rules.tally(
            &params,
            samples,
            from,
            more,
        ).pos,
    decreases more,
{
    if more > 0 {
        let before = rules.tally(&params, samples, from, (more - 1) as nat);
        lemma_progress_pos_grows(rules, params, samples, before.pos, params.total_draws as nat);
        if fewer < more {
            lemma_tally_pos_monotonic(rules, params, samples, from, fewer, (more - 1) as nat);
        } else {
            lemma_tally_pos_monotonic(
                rules,
                params,
                samples,
                from,
                (more - 1) as nat,
                (more - 1) as nat,
            );
        }
    }
}

/// A batch of `trials` trials consumes at least one sample and at most two
/// for each of its warps.
pub proof fn lemma_tally_pos_bounds(
    rules: Rules,
    params: SimulationParameters,
    samples: Seq<u32>,
    from: nat,
    trials: nat,
)
    ensures
        from + params.total_draws * trials <= rules.tally(&params, samples, from, trials).pos
            <= from + 2 * params.total_draws * trials,
    decreases trials,
{
    let draws = params.total_draws as int;
    if trials == 0 {
        assert(draws * 0 == 0 && 2 * draws * 0 == 0) by (nonlinear_arith);
    } else {
        let fewer = (trials - 1) as nat;
        let before = rules.tally(&params, samples, from, fewer);
        lemma_tally_pos_bounds(rules, params, samples, from, fewer);
        lemma_progress_pos_grows(rules, params, samples, before.pos, params.total_draws as nat);
        assert(draws * trials == draws * fewer + draws && 2 * draws * trials == 2 * draws * fewer
            + 2 * draws) by (nonlinear_arith)
            requires
                trials == fewer + 1,
        ;
    }
}

/// Two samples for every warp of every trial are always enough for a batch.
pub proof fn lemma_two_samples_per_warp_feed_a_batch<S: SampleSource>(
    rules: Rules,
    params: SimulationParameters,
    trials: nat,
    src: &S,
)
    requires
        can_supply(src, 2 * params.total_draws as nat * trials),
    ensures
        rules.can_count_from(&params, trials, src),
{
    if let Some(rest) = src.upcoming() {
        lemma_tally_pos_bounds(rules, params, rest, 0, trials);
    }
}

/// A batch does not care where in the stream its samples lie: dropping the
/// first `shift` samples and starting `shift` places earlier gives the same
/// batch, as long as it reads within the stream.
pub proof fn lemma_tally_shift(
    rules: Rules,
    params: SimulationParameters,
    samples: Seq<u32>,
    shift: nat,
    from: nat,
    trials: nat,
)
    requires
        rules.tally(&params, samples, shift + from, trials).pos <= samples.len(),
    ensures
        shift + from <= rules.tally(&params, samples, shift + from, trials).pos,
        rules.tally(&params, samples.skip(shift as int), from, trials) == (Tally {
            successes: rules.tally(&params, samples, shift + from, trials).successes,
            pos: (rules.tally(&params, samples, shift + from, trials).pos - shift) as nat,
        }),
    decreases trials,
{
    lemma_tally_pos_monotonic(rules, params, samples, shift + from, trials, trials);
    if trials > 0 {
        let before = rules.tally(&params, samples, shift + from, (trials - 1) as nat);
        let fewer = (trials - 1) as nat;
        lemma_tally_pos_monotonic(rules, params, samples, shift + from, fewer, trials);
        lemma_tally_shift(rules, params, samples, shift, from, (trials - 1) as nat);
        lemma_progress_shift(
            rules,
            params,
            samples,
            shift,
            (before.pos - shift) as nat,
            params.total_draws as nat,
        );
    }
}

/// A batch fed by a source that knows its future is the batch over that
/// future: if `after` is `before` with as many samples handed out as
/// `trials` trials consume, those trials are the first `trials` trials of
/// the batch that reads `rest`, the future known to `before`, from its start.
pub proof fn lemma_tally_follows_known_future<S: SampleSource>(
    rules: Rules,
    params: SimulationParameters,
    before: &S,
    after: &S,
    rest: Seq<u32>,
    trials: nat,
)
    requires
        before.upcoming() == Some(rest),
        rules.tally(&params, after.drawn(), before.drawn().len(), trials).pos
            == after.drawn().len(),
        advanced(before, after, (after.drawn().len() - before.drawn().len()) as nat),
    ensures
        rules.tally(&params, rest, 0, trials) == (Tally {
            successes: rules.tally(&params, after.drawn(), before.drawn().len(), trials).successes,
            pos: (after.drawn().len() - before.drawn().len()) as nat,
        }),
{
    let from = before.drawn().len();
    let used = after.drawn().skip(from as int);
    lemma_tally_shift(rules, params, after.drawn(), from, 0, trials);
    lemma_tally_reads_only_consumed(rules, params, used, rest, 0, trials);
}

/// A batch reads nothing but the samples it consumes: two streams that
/// agree from `from` up to where the batch stands give the same batch.
pub proof fn lemma_tally_reads_only_consumed(
    rules: Rules,
    params: SimulationParameters,
    a: Seq<u32>,
    b: Seq<u32>,
    from: nat,
    trials: nat,
)
    requires
        forall|i: int| from <= i < rules.tally(&params, a, from, trials).pos ==> a[i] == b[i],
    ensures
        rules.tally(&params, b, from, trials) == rules.tally(&params, a, from, trials),
    decreases trials,
{
    if trials > 0 {
        let before = rules.tally(&params, a, from, (trials - 1) as nat);
        lemma_tally_pos_monotonic(rules, params, a, from, (trials - 1) as nat, trials);
        lemma_tally_reads_only_consumed(rules, params, a, b, from, (trials - 1) as nat);
        lemma_progress_reads_only_consumed(
            rules,
            params,
            a,
            b,
            before.pos,
            params.total_draws as nat,
        );
    }
}

/// No more trials succeed than are run.
pub proof fn lemma_tally_counts_at_most_trials(
    rules: Rules,
    params: SimulationParameters,
    samples: Seq<u32>,
    from: nat,
    trials: nat,
)
    ensures
        rules.tally(&params, samples, from, trials).successes <= trials,
    decreases trials,
{
    if trials > 0 {
        lemma_tally_counts_at_most_trials(rules, params, samples, from, (trials - 1) as nat);
    }
}

/// Counting successes is additive over batches: a batch of `first + second`
/// trials is a batch of `first` trials followed, from where that one stops
/// in the stream, by a batch of `second` trials, and its successes are the
/// sum of theirs.
pub proof fn lemma_tally_splits(
    rules: Rules,
    params: SimulationParameters,
    samples: Seq<u32>,
    from: nat,
    first: nat,
    second: nat,
)
    ensures
        ({
            let head = rules.tally(&params, samples, from, first);
            let tail = rules.tally(&params, samples, head.pos, second);
            let whole = rules.tally(&params, samples, from, first + second);
            &&& whole.successes == head.successes + tail.successes
            &&& whole.pos == tail.pos
        }),
    decreases second,
{
    if second > 0 {
        lemma_tally_splits(rules, params, samples, from, first, (second - 1) as nat);
        assert((first + second - 1) as nat == first + (second - 1) as nat);
    }
}

/// Merging the results of two batches does not depend on their order.
pub proof fn lemma_merge_commutes(a: EstimationResult, b: EstimationResult)
    ensures
        a.merged(b) == b.merged(a),
{
}

/// Merging the results of three batches does not depend on how they are
/// grouped.
pub proof fn lemma_merge_associates(a: EstimationResult, b: EstimationResult, c: EstimationResult)
    ensures
        (match a.merged(b) {
            Some(ab) => ab.merged(c),
            None => None,
        }) == (match b.merged(c) {
            Some(bc) => a.merged(bc),
            None => None,
        }),
{
}

/// Merging keeps results well-formed.
pub proof fn lemma_merge_keeps_wf(a: EstimationResult, b: EstimationResult)
    requires
        a.wf(),
        b.wf(),
    ensures
        a.merged(b) matches Some(sum) ==> sum.wf(),
        a.merged(b) is Some <==> a.trials + b.trials <= u32::MAX,
{
}

/// Two batches run one after the other on a stream and merged give the
/// result of a single batch of both sizes on that stream.
pub proof fn lemma_merged_batches_equal_whole(
    rules: Rules,
    params: SimulationParameters,
    samples: Seq<u32>,
    from: nat,
    first: u32,
    second: u32,
)
    requires
        first + second <= u32::MAX,
    ensures
        ({
            let split_at = rules.tally(&params, samples, from, first as nat).pos;
            rules.batch_result(&params, samples, from, first).merged(
                rules.batch_result(&params, samples, split_at, second),
            ) == Some(rules.batch_result(&params, samples, from, (first + second) as u32))
        }),
{
    let split_at = rules.tally(&params, samples, from, first as nat).pos;
    lemma_tally_splits(rules, params, samples, from, first as nat, second as nat);
    lemma_tally_counts_at_most_trials(rules, params, samples, from, first as nat);
    lemma_tally_counts_at_most_trials(rules, params, samples, split_at, second as nat);
    lemma_tally_counts_at_most_trials(rules, params, samples, from, (first + second) as nat);
}

/// With no warp to spend no sample is read, and no trial succeeds as soon
/// as a single copy is wanted: the estimate is zero.
pub proof fn lemma_no_budget_no_success(
    rules: Rules,
    params: SimulationParameters,
    samples: Seq<u32>,
    from: nat,
    trials: nat,
)
    requires
        params.total_draws == 0,
        params.character_target > 0 || params.lightcone_target > 0,
    ensures
        rules.tally(&params, samples, from, trials) == (Tally { successes: 0, pos: from }),
    decreases trials,
{
    if trials > 0 {
        lemma_no_budget_no_success(rules, params, samples, from, (trials - 1) as nat);
        lemma_no_budget_no_copies(rules, params, samples, from);
    }
}

/// When a character is wanted but no lightcone, no trial succeeds: the
/// estimate is zero.
pub proof fn lemma_unreachable_targets_never_succeed(
    rules: Rules,
    params: SimulationParameters,
    samples: Seq<u32>,
    from: nat,
    trials: nat,
)
    requires
        !params.reachable(),
    ensures
        rules.tally(&params, samples, from, trials).successes == 0,
    decreases trials,
{
    if trials > 0 {
        let before = rules.tally(&params, samples, from, (trials - 1) as nat);
        lemma_unreachable_targets_never_succeed(rules, params, samples, from, (trials - 1) as nat);
        lemma_character_alone_is_never_reached(
            rules,
            params,
            samples,
            before.pos,
            params.total_draws as nat,
        );
    }
}

} // verus!
