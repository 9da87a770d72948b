//! The estimator: many independent trials reduced to a count of successes.

use crate::estimator_laws::{
    lemma_tally_follows_known_future, lemma_tally_pos_monotonic, lemma_tally_reads_only_consumed,
    lemma_unreachable_targets_never_succeed,
};
use crate::samples::{
    advanced, lemma_advanced_by_nothing, lemma_advanced_twice, samples_valid, SampleSource,
    ThreadSamples, PPM,
};
use crate::trial::{Rules, SimulationParameters};
use crate::trial_laws::lemma_progress_shift;
use crate::worst_case::lemma_ample_budget_estimate_is_one;
use vstd::prelude::*;

verus! {

/// Why a set of parameters is refused.
#[derive(Clone, Copy, Debug, PartialEq, Eq, Structural)]
pub enum InvalidParameter {
    /// The character pity counter is not below the character hard pity.
    CharacterPity,
    /// The lightcone pity counter is not below the lightcone hard pity.
    LightconePity,
    /// No trial is asked for.
    NoTrials,
    /// A copy is wanted but there is no warp to spend.
    NoDraws,
}

/// The result of a run: how many trials reached both targets, out of how
/// many. The estimated probability is `successes / trials`.
#[derive(Clone, Copy, Debug, PartialEq, Eq, Structural)]
pub struct EstimationResult {
    /// Trials that ended with both targets reached.
    pub successes: u32,
    /// Trials run.
    pub trials: u32,
}

/// A batch of trials read off a sample stream: the number that reached
/// both targets, and the index of the first sample the batch did not consume.
pub struct Tally {
    /// Trials that ended with both targets reached.
    pub successes: nat,
    /// Index of the first sample not yet consumed.
    pub pos: nat,
}

impl EstimationResult {
    /// At least one trial was run, and no more succeeded than were run.
    pub open spec fn wf(&self) -> bool {
        0 < self.trials && self.successes <= self.trials
    }

    /// The two results taken together, unless the number of trials no
    /// longer fits.
    pub open spec fn merged(&self, other: EstimationResult) -> Option<EstimationResult> {
        if self.trials + other.trials <= u32::MAX && self.successes + other.successes <= u32::MAX {
            Some(
                EstimationResult {
                    successes: (self.successes + other.successes) as u32,
                    trials: (self.trials + other.trials) as u32,
                },
            )
        } else {
            None
        }
    }

    /// Combines the results of two batches of trials by adding up
    /// successes and trials.
    pub fn merge(&self, other: &EstimationResult) -> (sum: Option<EstimationResult>)
        ensures
            sum == self.merged(*other),
            self.wf() && other.wf() ==> (sum is Some <==> self.trials + other.trials <= u32::MAX),
            self.wf() && other.wf() && sum is Some ==> sum->0.wf(),
    {
        match (self.successes.checked_add(other.successes), self.trials.checked_add(other.trials)) {
            (Some(successes), Some(trials)) => Some(EstimationResult { successes, trials }),
            _ => None,
        }
    }

    /// The estimated probability in parts per million, rounded down.
    pub fn per_million(&self) -> (ppm: u32)
        requires
            self.wf(),
        ensures
            ppm == self.successes * PPM / self.trials as int,
            ppm <= PPM,
    {
        let scaled: u64 = self.successes as u64 * PPM as u64;
        let trials: u64 = self.trials as u64;
        proof {
            let s = self.successes as int;
            let t = self.trials as int;
            assert(s * 1_000_000 / t <= 1_000_000) by (nonlinear_arith)
                requires
                    0 <= s <= t,
                    0 < t,
            ;
        }
        (scaled / trials) as u32
    }
}

impl Rules {
    /// The first reason, if any, to refuse `params`: a pity counter at or
    /// above its hard pity, no trials, or a copy wanted with no warp to spend.
    pub open spec fn violation(&self, params: &SimulationParameters) -> Option<InvalidParameter> {
        if params.character_pity >= self.character.hard_pity {
            Some(InvalidParameter::CharacterPity)
        } else if params.lightcone_pity >= self.lightcone.hard_pity {
            Some(InvalidParameter::LightconePity)
        } else if params.num_trials == 0 {
            Some(InvalidParameter::NoTrials)
        } else if params.total_draws == 0 && (params.character_target > 0
            || params.lightcone_target > 0) {
            Some(InvalidParameter::NoDraws)
        } else {
            None
        }
    }

    /// The outcome of the first `trials` trials run back to back on
    /// `samples`, the first of them starting at index `from`.
    pub open spec fn tally(
        &self,
        params: &SimulationParameters,
        samples: Seq<u32>,
        from: nat,
        trials: nat,
    ) -> Tally
        decreases trials,
    {
        if trials == 0 {
            Tally { successes: 0, pos: from }
        } else {
            let before = self.tally(params, samples, from, (trials - 1) as nat);
            let run = self.finish(params, samples, before.pos);
            Tally {
                successes: if params.met_by(run.state) {
                    before.successes + 1
                } else {
                    before.successes
                },
                pos: run.pos,
            }
        }
    }

    /// The result of a batch of `trials` trials that reads its samples from
    /// `samples` starting at index `from`.
    pub open spec fn batch_result(
        &self,
        params: &SimulationParameters,
        samples: Seq<u32>,
        from: nat,
        trials: u32,
    ) -> EstimationResult {
        EstimationResult {
            successes: self.tally(params, samples, from, trials as nat).successes as u32,
            trials,
        }
    }

    /// `src` can feed a batch of `trials` trials: it never runs dry, or it
    /// still holds every sample that the batch consumes.
    pub open spec fn can_count_from<S: SampleSource>(
        &self,
        params: &SimulationParameters,
        trials: nat,
        src: &S,
    ) -> bool {
        match src.upcoming() {
            Some(rest) => self.tally(params, rest, 0, trials).pos <= rest.len(),
            None => true,
        }
    }

    /// Checks `params` against these rules.
    pub fn validate(&self, params: &SimulationParameters) -> (checked: Result<(), InvalidParameter>)
        ensures
            checked == match self.violation(params) {
                Some(reason) => Err::<(), InvalidParameter>(reason),
                None => Ok(()),
            },
            checked is Ok ==> self.admits(params),
    {
        if params.character_pity >= self.character.hard_pity {
            Err(InvalidParameter::CharacterPity)
        } else if params.lightcone_pity >= self.lightcone.hard_pity {
            Err(InvalidParameter::LightconePity)
        } else if params.num_trials == 0 {
            Err(InvalidParameter::NoTrials)
        } else if params.total_draws == 0 && (params.character_target > 0
            || params.lightcone_target > 0) {
            Err(InvalidParameter::NoDraws)
        } else {
            Ok(())
        }
    }

    /// Runs `trials` trials back to back and counts those that end with
    /// both targets reached.
    pub fn count_successes<S: SampleSource>(
        &self,
        params: &SimulationParameters,
        trials: u32,
        src: &mut S,
    ) -> (successes: u32)
        requires
            self.admits(params),
            old(src).inv(),
            self.can_count_from(params, trials as nat, old(src)),
        ensures
            final(src).inv(),
            successes <= trials,
            ({
                let from = old(src).drawn().len();
                let end = self.tally(params, final(src).drawn(), from, trials as nat);
                &&& successes == end.successes
                &&& advanced(old(src), final(src), (end.pos - from) as nat)
            }),
    {
        let ghost start = *src;
        let ghost from = src.drawn().len();
        let mut successes: u32 = 0;
        let mut done: u32 = 0;
        proof {
            lemma_advanced_by_nothing(&start);
        }
        while done < trials
            invariant
                src.inv(),
                self.admits(params),
                from == start.drawn().len(),
                done <= trials,
                successes <= done,
                self.tally(params, src.drawn(), from, done as nat) == (Tally {
                    successes: successes as nat,
                    pos: src.drawn().len(),
                }),
                from <= src.drawn().len(),
                self.can_count_from(params, trials as nat, &start),
                advanced(&start, &*src, (src.drawn().len() - from) as nat),
            decreases trials - done,
        {
            let ghost seen = *src;
            proof {
                if let Some(rest) = start.upcoming() {
                    let used = (seen.drawn().len() - from) as nat;
                    lemma_tally_follows_known_future(
                        *self,
                        *params,
                        &start,
                        &seen,
                        rest,
                        done as nat,
                    );
                    lemma_tally_pos_monotonic(
                        *self,
                        *params,
                        rest,
                        0,
                        (done + 1) as nat,
                        trials as nat,
                    );
                    assert(self.tally(params, rest, 0, (done + 1) as nat).pos == self.finish(
                        params,
                        rest,
                        used,
                    ).pos);
                    lemma_progress_shift(*self, *params, rest, used, 0, params.total_draws as nat);
                }
            }
            let end = self.run_trial(params, src);
            if params.targets_met(&end) {
                successes += 1;
            }
            proof {
                let cost = (src.drawn().len() - seen.drawn().len()) as nat;
                assert forall|i: int| from <= i < seen.drawn().len() implies seen.drawn()[i]
                    == src.drawn()[i] by {
                    assert(src.drawn().take(seen.drawn().len() as int)[i] == seen.drawn()[i]);
                }
                lemma_tally_reads_only_consumed(
                    *self,
                    *params,
                    seen.drawn(),
                    src.drawn(),
                    from,
                    done as nat,
                );
                let used = (seen.drawn().len() - from) as nat;
                lemma_advanced_twice(&start, &seen, &*src, used, cost);
            }
            done += 1;
        }
        successes
    }

    /// Estimates the probability of reaching both targets: refuses invalid
    /// parameters before any sample is drawn, and otherwise runs
    /// `params.num_trials` trials and reports how many succeeded.
    pub fn estimate<S: SampleSource>(&self, params: &SimulationParameters, src: &mut S) -> (out:
        Result<EstimationResult, InvalidParameter>)
        requires
            old(src).inv(),
            self.violation(params) is None ==> self.can_count_from(
                params,
                params.num_trials as nat,
                old(src),
            ),
        ensures
            final(src).inv(),
            match self.violation(params) {
                Some(reason) => out == Err::<EstimationResult, InvalidParameter>(reason)
                    && *final(src) == *old(src),
                None => {
                    let from = old(src).drawn().len();
                    let trials = params.num_trials;
                    let end = self.tally(params, final(src).drawn(), from, trials as nat);
                    &&& out == Ok::<EstimationResult, InvalidParameter>(
                        self.batch_result(params, final(src).drawn(), from, trials),
                    )
                    &&& end.successes <= trials
                    &&& advanced(old(src), final(src), (end.pos - from) as nat)
                },
            },
    {
        match self.validate(params) {
            Err(reason) => {
                proof {
                    lemma_advanced_by_nothing(&*src);
                }
                Err(reason)
            },
            Ok(()) => {
                let successes = self.count_successes(params, params.num_trials, src);
                Ok(EstimationResult { successes, trials: params.num_trials })
            },
        }
    }
}

/// Estimates, under the published rules and with samples from the
/// thread-local generator, the probability of holding at least
/// `character_copies` featured characters and `cone_copies` featured
/// lightcones once `warps` warps are spent.
///
/// Invalid parameters are refused. Otherwise the result is that of
/// `num_simulations` trials over some stream of legal samples; which stream
/// is up to the generator. Two cases do not depend on it: a budget that
/// covers the worst case succeeds in every trial, and a character wanted
/// without a lightcone in none.
pub fn calculate_warp_probability(
    warps: u32,
    character_pity: u32,
    cone_pity: u32,
    cone_guaranteed: bool,
    character_guaranteed: bool,
    character_copies: u32,
    cone_copies: u32,
    num_simulations: u32,
) -> (out: Result<EstimationResult, InvalidParameter>)
    ensures
        ({
            let params = SimulationParameters {
                total_draws: warps,
                character_pity,
                lightcone_pity: cone_pity,
                character_guaranteed,
                lightcone_guaranteed: cone_guaranteed,
                character_target: character_copies,
                lightcone_target: cone_copies,
                num_trials: num_simulations,
            };
            let rules = Rules::standard();
            match rules.violation(&params) {
                Some(reason) => out == Err::<EstimationResult, InvalidParameter>(reason),
                None => {
                    &&& exists|samples: Seq<u32>|
                        samples_valid(samples) && out == Ok::<EstimationResult, InvalidParameter>(
                            #[trigger] rules.batch_result(&params, samples, 0, num_simulations),
                        )
                    &&& params.reachable() && rules.warps_needed(&params, params.initial())
                        <= warps ==> out == Ok::<EstimationResult, InvalidParameter>(
                        EstimationResult { successes: num_simulations, trials: num_simulations },
                    )
                    &&& !params.reachable() ==> out == Ok::<EstimationResult, InvalidParameter>(
                        EstimationResult { successes: 0, trials: num_simulations },
                    )
                },
            }
        }),
        out matches Ok(result) ==> result.wf(),
{
    let rules = Rules::standard();
    let params = SimulationParameters {
        total_draws: warps,
        character_pity,
        lightcone_pity: cone_pity,
        character_guaranteed,
        lightcone_guaranteed: cone_guaranteed,
        character_target: character_copies,
        lightcone_target: cone_copies,
        num_trials: num_simulations,
    };
    let mut src = ThreadSamples::new();
    let out = rules.estimate(&params, &mut src);
    proof {
        src.lemma_drawn_valid();
        if rules.violation(&params) is None {
            if !params.reachable() {
                lemma_unreachable_targets_never_succeed(
                    rules,
                    params,
                    src.drawn(),
                    0,
                    num_simulations as nat,
                );
            } else if rules.warps_needed(&params, params.initial()) <= warps {
                lemma_ample_budget_estimate_is_one(rules, params, src.drawn(), 0, num_simulations);
            }
        }
    }
    out
}

} // verus!
