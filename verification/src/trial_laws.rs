//! What holds of every trial: how it spends its budget, what it reads of
//! the sample stream, and what a warp does to the copy counts.

use crate::pity::TrackState;
use crate::samples::{advanced, can_supply, SampleSource};
use crate::trial::{Progress, Rules, SimulationParameters, TrialState};
use vstd::prelude::*;

verus! {

/// Every warp consumes at least one sample and at most two.
pub proof fn lemma_progress_pos_grows(
    rules: Rules,
    params: SimulationParameters,
    samples: Seq<u32>,
    from: nat,
    draws: nat,
)
    ensures
        from + draws <= rules.progress(&params, samples, from, draws).pos <= from + 2 * draws,
    decreases draws,
{
    if draws > 0 {
        lemma_progress_pos_grows(rules, params, samples, from, (draws - 1) as nat);
    }
}

/// A trial that has made `draws` warps has exactly that many fewer left,
/// whatever the warps brought and whether or not the targets are reached,
/// and is in a well-formed state.
pub proof fn lemma_progress_spends_one_warp_per_draw(
    rules: Rules,
    params: SimulationParameters,
    samples: Seq<u32>,
    from: nat,
    draws: nat,
)
    requires
        rules.admits(&params),
        draws <= params.total_draws,
    ensures
        rules.progress(&params, samples, from, draws).state.draws_left == params.total_draws
            - draws,
        rules.progress(&params, samples, from, draws).state.wf(&rules, &params),
    decreases draws,
{
    if draws > 0 {
        lemma_progress_spends_one_warp_per_draw(rules, params, samples, from, (draws - 1) as nat);
    }
}

/// A finished trial has spent its whole budget: exactly `total_draws`
/// warps, no fewer when the targets are reached early.
pub proof fn lemma_trial_spends_whole_budget(
    rules: Rules,
    params: SimulationParameters,
    samples: Seq<u32>,
    from: nat,
)
    requires
        rules.admits(&params),
    ensures
        rules.finish(&params, samples, from).state.draws_left == 0,
        forall|draws: nat|
            draws < params.total_draws ==> (#[trigger] rules.progress(
                &params,
                samples,
                from,
                draws,
            )).state.draws_left > 0,
        from + params.total_draws <= rules.finish(&params, samples, from).pos <= from + 2
            * params.total_draws,
{
    let total = params.total_draws as nat;
    lemma_progress_spends_one_warp_per_draw(rules, params, samples, from, total);
    lemma_progress_pos_grows(rules, params, samples, from, total);
    assert forall|draws: nat| draws < params.total_draws implies (#[trigger] rules.progress(
        &params,
        samples,
        from,
        draws,
    )).state.draws_left > 0 by {
        lemma_progress_spends_one_warp_per_draw(rules, params, samples, from, draws);
    }
}

/// A trial reads nothing but the samples it consumes: two streams that
/// agree from `from` up to where the trial stands give the same trial.
pub proof fn lemma_progress_reads_only_consumed(
    rules: Rules,
    params: SimulationParameters,
    a: Seq<u32>,
    b: Seq<u32>,
    from: nat,
    draws: nat,
)
    requires
        forall|i: int| from <= i < rules.progress(&params, a, from, draws).pos ==> a[i] == b[i],
    ensures
        rules.progress(&params, b, from, draws) == rules.progress(&params, a, from, draws),
    decreases draws,
{
    if draws > 0 {
        let before = rules.progress(&params, a, from, (draws - 1) as nat);
        lemma_progress_pos_grows(rules, params, a, from, (draws - 1) as nat);
        lemma_progress_reads_only_consumed(rules, params, a, b, from, (draws - 1) as nat);
        assert(a[before.pos as int] == b[before.pos as int]);
        if rules.warp_cost(&params, before.state, a[before.pos as int]) == 2 {
            assert(a[before.pos as int + 1] == b[before.pos as int + 1]);
        }
    }
}

/// A trial never moves backwards in the stream.
pub proof fn lemma_progress_pos_monotonic(
    rules: Rules,
    params: SimulationParameters,
    samples: Seq<u32>,
    from: nat,
    earlier: nat,
    later: nat,
)
    requires
        earlier <= later,
    ensures
        rules.progress(&params, samples, from, earlier).pos <= rules.progress(
            &params,
            samples,
            from,
            later,
        ).pos,
    decreases later,
{
    if earlier < later {
        lemma_progress_pos_monotonic(rules, params, samples, from, earlier, (later - 1) as nat);
    }
}

/// A trial does not care where in the stream its samples lie: dropping the
/// first `shift` samples and starting `shift` places earlier gives the same
/// trial, as long as it reads within the stream.
pub proof fn lemma_progress_shift(
    rules: Rules,
    params: SimulationParameters,
    samples: Seq<u32>,
    shift: nat,
    from: nat,
    draws: nat,
)
    requires
        rules.progress(&params, samples, shift + from, draws).pos <= samples.len(),
    ensures
        shift + from <= rules.progress(&params, samples, shift + from, draws).pos,
        rules.progress(&params, samples.skip(shift as int), from, draws) == (Progress {
            state: rules.progress(&params, samples, shift + from, draws).state,
            pos: (rules.progress(&params, samples, shift + from, draws).pos - shift) as nat,
        }),
    decreases draws,
{
    lemma_progress_pos_grows(rules, params, samples, shift + from, draws);
    if draws > 0 {
        let before = rules.progress(&params, samples, shift + from, (draws - 1) as nat);
        lemma_progress_pos_grows(rules, params, samples, shift + from, (draws - 1) as nat);
        lemma_progress_shift(rules, params, samples, shift, from, (draws - 1) as nat);
        let moved = samples.skip(shift as int);
        assert(moved[before.pos - shift] == samples[before.pos as int]);
        if rules.warp_cost(&params, before.state, samples[before.pos as int]) == 2 {
            assert(moved[before.pos - shift + 1] == samples[before.pos as int + 1]);
        }
    }
}

/// A trial fed by a source that knows its future is the trial over that
/// future: if `after` is `before` with as many samples handed out as
/// `draws` warps consume, those warps are the first `draws` warps of the
/// trial that reads `rest`, the future known to `before`, from its start.
pub proof fn lemma_progress_follows_known_future<S: SampleSource>(
    rules: Rules,
    params: SimulationParameters,
    before: &S,
    after: &S,
    rest: Seq<u32>,
    draws: nat,
)
    requires
        before.upcoming() == Some(rest),
        rules.progress(&params, after.drawn(), before.drawn().len(), draws).pos
            == after.drawn().len(),
        advanced(before, after, (after.drawn().len() - before.drawn().len()) as nat),
    ensures
        rules.progress(&params, rest, 0, draws) == (Progress {
            state: rules.progress(&params, after.drawn(), before.drawn().len(), draws).state,
            pos: (after.drawn().len() - before.drawn().len()) as nat,
        }),
{
    let from = before.drawn().len();
    let used = after.drawn().skip(from as int);
    lemma_progress_shift(rules, params, after.drawn(), from, 0, draws);
    lemma_progress_reads_only_consumed(rules, params, used, rest, 0, draws);
}

/// Two samples for every warp are always enough for a trial.
pub proof fn lemma_two_samples_per_warp_feed_a_trial<S: SampleSource>(
    rules: Rules,
    params: SimulationParameters,
    src: &S,
)
    requires
        can_supply(src, 2 * params.total_draws as nat),
    ensures
        rules.can_run_from(&params, src),
{
    if let Some(rest) = src.upcoming() {
        lemma_progress_pos_grows(rules, params, rest, 0, params.total_draws as nat);
    }
}

/// Copies are never lost: later in a trial each count is at least what it
/// was earlier, so targets once reached stay reached.
pub proof fn lemma_copies_never_decrease(
    rules: Rules,
    params: SimulationParameters,
    samples: Seq<u32>,
    from: nat,
    earlier: nat,
    later: nat,
)
    requires
        rules.admits(&params),
        earlier <= later <= params.total_draws,
    ensures
        rules.progress(&params, samples, from, earlier).state.character_copies <= rules.progress(
            &params,
            samples,
            from,
            later,
        ).state.character_copies,
        rules.progress(&params, samples, from, earlier).state.lightcone_copies <= rules.progress(
            &params,
            samples,
            from,
            later,
        ).state.lightcone_copies,
        params.met_by(rules.progress(&params, samples, from, earlier).state) ==> params.met_by(
            rules.progress(&params, samples, from, later).state,
        ),
    decreases later,
{
    if earlier < later {
        lemma_copies_never_decrease(rules, params, samples, from, earlier, (later - 1) as nat);
        lemma_progress_spends_one_warp_per_draw(rules, params, samples, from, (later - 1) as nat);
    }
}

/// A five-star under the guarantee adds one copy on the track the warp
/// went to, clears that track's guarantee and resets its pity; the other
/// track is untouched.
pub proof fn lemma_guaranteed_hit_gains_copy(
    rules: Rules,
    params: SimulationParameters,
    st: TrialState,
    roll: u32,
    featured_roll: u32,
)
    requires
        st.wf(&rules, &params),
        st.draws_left > 0,
        st.on(params.track_for(st)).guaranteed,
        rules.config(params.track_for(st)).hits(st.on(params.track_for(st)).pity, roll),
    ensures
        ({
            let track = params.track_for(st);
            let next = rules.advance(&params, st, roll, featured_roll);
            &&& next.copies(track) == st.copies(track) + 1
            &&& next.on(track) == (TrackState { pity: 0, guaranteed: false })
            &&& next.copies(track.other()) == st.copies(track.other())
            &&& next.on(track.other()) == st.on(track.other())
            &&& next.draws_left == st.draws_left - 1
        }),
{
}

/// A five-star without the guarantee whose second sample fails adds no
/// copy on either track and guarantees the next five-star on its track.
pub proof fn lemma_lost_roll_gains_guarantee(
    rules: Rules,
    params: SimulationParameters,
    st: TrialState,
    roll: u32,
    featured_roll: u32,
)
    requires
        st.draws_left > 0,
        !st.on(params.track_for(st)).guaranteed,
        rules.config(params.track_for(st)).hits(st.on(params.track_for(st)).pity, roll),
        featured_roll >= rules.config(params.track_for(st)).featured_chance,
    ensures
        ({
            let track = params.track_for(st);
            let next = rules.advance(&params, st, roll, featured_roll);
            &&& next.character_copies == st.character_copies
            &&& next.lightcone_copies == st.lightcone_copies
            &&& next.on(track) == (TrackState { pity: 0, guaranteed: true })
            &&& next.on(track.other()) == st.on(track.other())
            &&& next.draws_left == st.draws_left - 1
        }),
{
}

/// With no warp to spend a trial ends where it starts, having read no
/// sample, and fails as soon as a single copy is wanted.
pub proof fn lemma_no_budget_no_copies(
    rules: Rules,
    params: SimulationParameters,
    samples: Seq<u32>,
    from: nat,
)
    requires
        params.total_draws == 0,
    ensures
        rules.finish(&params, samples, from) == (Progress { state: params.initial(), pos: from }),
        params.character_target > 0 || params.lightcone_target > 0 ==> !params.met_by(
            rules.finish(&params, samples, from).state,
        ),
        params.character_target == 0 && params.lightcone_target == 0 ==> params.met_by(
            rules.finish(&params, samples, from).state,
        ),
{
}

/// When no lightcone is wanted every warp still goes to the lightcone
/// track, so a character target above zero is never reached.
pub proof fn lemma_character_alone_is_never_reached(
    rules: Rules,
    params: SimulationParameters,
    samples: Seq<u32>,
    from: nat,
    draws: nat,
)
    requires
        params.lightcone_target == 0,
    ensures
        rules.progress(&params, samples, from, draws).state.character_copies == 0,
        rules.progress(&params, samples, from, draws).state.character == params.initial().character,
        params.character_target > 0 ==> !params.met_by(
            rules.progress(&params, samples, from, draws).state,
        ),
    decreases draws,
{
    if draws > 0 {
        lemma_character_alone_is_never_reached(rules, params, samples, from, (draws - 1) as nat);
    }
}

} // verus!
