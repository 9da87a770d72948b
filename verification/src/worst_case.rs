//! The worst case: how many warps always suffice, whatever the samples.
//!
//! Hard pity bounds the wait for a five-star, and the guarantee bounds the
//! number of five-stars that are not the featured item, so a budget of two
//! hard pities for every copy wanted can never fail.

use crate::estimator::{EstimationResult, Tally};
use crate::pity::{DrawEvent, TrackConfig, TrackState};
use crate::trial::{Rules, SimulationParameters, Track, TrialState};
use crate::trial_laws::lemma_progress_spends_one_warp_per_draw;
use vstd::prelude::*;

verus! {

impl TrackConfig {
    /// The most warps it can take from `st` to the next featured item: up
    /// to hard pity for a five-star, and once more if that one may be lost.
    pub open spec fn warps_to_featured(&self, st: TrackState) -> int {
        if st.guaranteed {
            self.hard_pity - st.pity
        } else {
            2 * self.hard_pity - st.pity
        }
    }

    /// The most warps it can take from `st` to `missing` more featured
    /// items.
    pub open spec fn warps_to_copies(&self, st: TrackState, missing: int) -> int {
        if missing <= 0 {
            0
        } else {
            self.warps_to_featured(st) + 2 * self.hard_pity * (missing - 1)
        }
    }
}

impl Rules {
    /// The most warps it can take from `st` until both targets are
    /// reached, when they can be reached at all.
    pub open spec fn warps_needed(&self, params: &SimulationParameters, st: TrialState) -> int {
        let character = if params.lightcone_target > 0 {
            self.character.warps_to_copies(
                st.character,
                params.character_target - st.character_copies,
            )
        } else {
            0
        };
        character + self.lightcone.warps_to_copies(
            st.lightcone,
            params.lightcone_target - st.lightcone_copies,
        )
    }
}

/// The bound on the warps to a number of copies is never negative, and is
/// zero exactly when nothing is missing.
proof fn lemma_warps_to_copies_sign(cfg: TrackConfig, st: TrackState, missing: int)
    requires
        st.pity < cfg.hard_pity,
    ensures
        cfg.warps_to_copies(st, missing) >= 0,
        cfg.warps_to_copies(st, missing) == 0 <==> missing <= 0,
{
    if missing > 0 {
        assert(2 * cfg.hard_pity * (missing - 1) >= 0) by (nonlinear_arith)
            requires
                cfg.hard_pity >= 0,
                missing >= 1,
        ;
    }
}

/// One warp on a track brings its bound down by at least one while copies
/// are missing.
proof fn lemma_warp_lowers_track_bound(
    cfg: TrackConfig,
    st: TrackState,
    missing: int,
    roll: u32,
    featured_roll: u32,
)
    requires
        st.pity < cfg.hard_pity,
        missing > 0,
    ensures
        ({
            let out = cfg.settle(st, roll, featured_roll);
            let gained: int = if out.event == DrawEvent::Featured {
                1
            } else {
                0
            };
            cfg.warps_to_copies(out.next, missing - gained) <= cfg.warps_to_copies(st, missing) - 1
        }),
{
    let out = cfg.settle(st, roll, featured_roll);
    assert(2 * cfg.hard_pity * (missing - 1) == 2 * cfg.hard_pity * (missing - 2) + 2
        * cfg.hard_pity) by (nonlinear_arith);
    assert(2 * cfg.hard_pity * (missing - 1) >= 0) by (nonlinear_arith)
        requires
            cfg.hard_pity >= 0,
            missing >= 1,
    ;
}

/// One warp of a trial brings the bound on the warps still needed down by
/// at least one, until it is zero, where it stays.
pub proof fn lemma_warp_lowers_bound(
    rules: Rules,
    params: SimulationParameters,
    st: TrialState,
    roll: u32,
    featured_roll: u32,
)
    requires
        st.wf(&rules, &params),
        st.draws_left > 0,
    ensures
        rules.warps_needed(&params, st) >= 0,
        rules.warps_needed(&params, st) > 0 ==> rules.warps_needed(
            &params,
            rules.advance(&params, st, roll, featured_roll),
        ) <= rules.warps_needed(&params, st) - 1,
        rules.warps_needed(&params, st) == 0 ==> rules.warps_needed(
            &params,
            rules.advance(&params, st, roll, featured_roll),
        ) == 0,
{
    let character_missing = params.character_target - st.character_copies;
    let lightcone_missing = params.lightcone_target - st.lightcone_copies;
    lemma_warps_to_copies_sign(rules.character, st.character, character_missing);
    lemma_warps_to_copies_sign(rules.lightcone, st.lightcone, lightcone_missing);
    let next = rules.advance(&params, st, roll, featured_roll);
    match params.track_for(st) {
        Track::Character => {
            lemma_warp_lowers_track_bound(
                rules.character,
                st.character,
                character_missing,
                roll,
                featured_roll,
            );
        },
        Track::Lightcone => {
            if lightcone_missing > 0 {
                lemma_warp_lowers_track_bound(
                    rules.lightcone,
                    st.lightcone,
                    lightcone_missing,
                    roll,
                    featured_roll,
                );
            }
            lemma_warps_to_copies_sign(
                rules.character,
                next.character,
                params.character_target - next.character_copies,
            );
        },
    }
}

/// After `draws` warps the bound on the warps still needed has come down
/// by at least `draws`, or is zero.
pub proof fn lemma_bound_falls_with_every_warp(
    rules: Rules,
    params: SimulationParameters,
    samples: Seq<u32>,
    from: nat,
    draws: nat,
)
    requires
        rules.admits(&params),
        draws <= params.total_draws,
    ensures
        ({
            let left = rules.warps_needed(
                &params,
                rules.progress(&params, samples, from, draws).state,
            );
            let at_start = rules.warps_needed(&params, params.initial());
            &&& 0 <= left
            &&& left <= at_start - draws || left == 0
        }),
    decreases draws,
{
    lemma_progress_spends_one_warp_per_draw(rules, params, samples, from, draws);
    if draws == 0 {
        lemma_warps_to_copies_sign(
            rules.character,
            params.initial().character,
            params.character_target as int,
        );
        lemma_warps_to_copies_sign(
            rules.lightcone,
            params.initial().lightcone,
            params.lightcone_target as int,
        );
    } else {
        let before = rules.progress(&params, samples, from, (draws - 1) as nat);
        lemma_bound_falls_with_every_warp(rules, params, samples, from, (draws - 1) as nat);
        lemma_progress_spends_one_warp_per_draw(rules, params, samples, from, (draws - 1) as nat);
        lemma_warp_lowers_bound(
            rules,
            params,
            before.state,
            samples[before.pos as int],
            samples[before.pos as int + 1],
        );
        let after = rules.progress(&params, samples, from, draws).state;
        lemma_warps_to_copies_sign(
            rules.character,
            after.character,
            params.character_target - after.character_copies,
        );
        lemma_warps_to_copies_sign(
            rules.lightcone,
            after.lightcone,
            params.lightcone_target - after.lightcone_copies,
        );
    }
}

/// A budget that covers the worst case cannot fail: with reachable targets
/// and at least `warps_needed` warps, a trial ends with both targets
/// reached whatever its samples.
pub proof fn lemma_ample_budget_always_succeeds(
    rules: Rules,
    params: SimulationParameters,
    samples: Seq<u32>,
    from: nat,
)
    requires
        rules.admits(&params),
        params.reachable(),
        rules.warps_needed(&params, params.initial()) <= params.total_draws,
    ensures
        params.met_by(rules.finish(&params, samples, from).state),
{
    let end = rules.finish(&params, samples, from).state;
    let total = params.total_draws as nat;
    lemma_bound_falls_with_every_warp(rules, params, samples, from, total);
    lemma_progress_spends_one_warp_per_draw(rules, params, samples, from, total);
    lemma_warps_to_copies_sign(
        rules.character,
        end.character,
        params.character_target - end.character_copies,
    );
    lemma_warps_to_copies_sign(
        rules.lightcone,
        end.lightcone,
        params.lightcone_target - end.lightcone_copies,
    );
}

/// With a budget that covers the worst case every trial of a batch
/// succeeds: the estimate is exactly one.
pub proof fn lemma_ample_budget_estimate_is_one(
    rules: Rules,
    params: SimulationParameters,
    samples: Seq<u32>,
    from: nat,
    trials: u32,
)
    requires
        rules.admits(&params),
        params.reachable(),
        rules.warps_needed(&params, params.initial()) <= params.total_draws,
    ensures
        rules.tally(&params, samples, from, trials as nat).successes == trials,
        rules.batch_result(&params, samples, from, trials) == (EstimationResult {
            successes: trials,
            trials,
        }),
{
    lemma_ample_budget_tally(rules, params, samples, from, trials as nat);
}

/// With a budget that covers the worst case a batch counts every one of
/// its trials.
proof fn lemma_ample_budget_tally(
    rules: Rules,
    params: SimulationParameters,
    samples: Seq<u32>,
    from: nat,
    trials: nat,
)
    requires
        rules.admits(&params),
        params.reachable(),
        rules.warps_needed(&params, params.initial()) <= params.total_draws,
    ensures
        rules.tally(&params, samples, from, trials).successes == trials,
    decreases trials,
{
    if trials > 0 {
        let before: Tally = rules.tally(&params, samples, from, (trials - 1) as nat);
        lemma_ample_budget_tally(rules, params, samples, from, (trials - 1) as nat);
        lemma_ample_budget_always_succeeds(rules, params, samples, before.pos);
    }
}

/// Under the published rules, a thousand warps from a fresh start always
/// bring one copy of each featured item.
pub proof fn lemma_thousand_warps_bring_one_of_each(samples: Seq<u32>, from: nat, trials: u32)
    ensures
        ({
            let params = SimulationParameters {
                total_draws: 1000,
                character_pity: 0,
                lightcone_pity: 0,
                character_guaranteed: false,
                lightcone_guaranteed: false,
                character_target: 1,
                lightcone_target: 1,
                num_trials: trials,
            };
            Rules::standard().batch_result(&params, samples, from, trials) == (EstimationResult {
                successes: trials,
                trials,
            })
        }),
{
    let params = SimulationParameters {
        total_draws: 1000,
        character_pity: 0,
        lightcone_pity: 0,
        character_guaranteed: false,
        lightcone_guaranteed: false,
        character_target: 1,
        lightcone_target: 1,
        num_trials: trials,
    };
    let rules = Rules::standard();
    assert(rules.character.warps_to_copies(params.initial().character, 1) == 180);
    assert(rules.lightcone.warps_to_copies(params.initial().lightcone, 1) == 160);
    assert(rules.warps_needed(&params, params.initial()) == 340);
    lemma_ample_budget_estimate_is_one(Rules::standard(), params, samples, from, trials);
}

} // verus!
