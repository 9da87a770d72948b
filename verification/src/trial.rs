//! One trial: a fixed budget of warps spent on the two tracks by a fixed
//! allocation policy, always to the last warp.

use crate::pity::{Draw, DrawEvent, TrackConfig, TrackState};
use crate::samples::{advanced, lemma_advanced_by_nothing, lemma_advanced_twice, SampleSource};
use crate::trial_laws::{
    lemma_progress_follows_known_future, lemma_progress_pos_grows, lemma_progress_pos_monotonic,
    lemma_progress_reads_only_consumed,
};
use vstd::prelude::*;

verus! {

/// The rules of the two tracks a trial spends its warps on.
#[derive(Clone, Copy, Debug, PartialEq, Eq, Structural)]
pub struct Rules {
    /// The rules of the character track.
    pub character: TrackConfig,
    /// The rules of the lightcone track.
    pub lightcone: TrackConfig,
}

/// One of the two tracks.
#[derive(Clone, Copy, Debug, PartialEq, Eq, Structural)]
pub enum Track {
    Character,
    Lightcone,
}

/// What a run is asked: the budget, where each track stands, and the
/// number of copies wanted of each featured item.
#[derive(Clone, Copy, Debug, PartialEq, Eq, Structural)]
pub struct SimulationParameters {
    /// Warps available to each trial.
    pub total_draws: u32,
    /// Pity already built up on the character track.
    pub character_pity: u32,
    /// Pity already built up on the lightcone track.
    pub lightcone_pity: u32,
    /// Whether the next character five-star is already guaranteed featured.
    pub character_guaranteed: bool,
    /// Whether the next lightcone five-star is already guaranteed featured.
    pub lightcone_guaranteed: bool,
    /// Copies of the featured character wanted; 0 if it does not matter.
    pub character_target: u32,
    /// Copies of the featured lightcone wanted; 0 if it does not matter.
    pub lightcone_target: u32,
    /// Number of trials to run.
    pub num_trials: u32,
}

/// The state of a trial between two warps.
#[derive(Clone, Copy, Debug, PartialEq, Eq, Structural)]
pub struct TrialState {
    /// Warps not yet spent.
    pub draws_left: u32,
    /// Where the character track stands.
    pub character: TrackState,
    /// Where the lightcone track stands.
    pub lightcone: TrackState,
    /// Featured characters obtained so far.
    pub character_copies: u32,
    /// Featured lightcones obtained so far.
    pub lightcone_copies: u32,
}

/// How far a trial has come: its state, and the index in the sample stream
/// of the first sample it has not consumed.
pub struct Progress {
    /// The state the trial is in.
    pub state: TrialState,
    /// Index of the first sample not yet consumed.
    pub pos: nat,
}

impl SimulationParameters {
    /// The state a trial starts in.
    pub open spec fn initial(&self) -> TrialState {
        TrialState {
            draws_left: self.total_draws,
            character: TrackState {
                pity: self.character_pity,
                guaranteed: self.character_guaranteed,
            },
            lightcone: TrackState {
                pity: self.lightcone_pity,
                guaranteed: self.lightcone_guaranteed,
            },
            character_copies: 0,
            lightcone_copies: 0,
        }
    }

    /// The track the next warp goes to: the character track while a
    /// lightcone is wanted and the character target is not yet reached,
    /// the lightcone track otherwise.
    pub open spec fn track_for(&self, st: TrialState) -> Track {
        if self.lightcone_target > 0 && st.character_copies < self.character_target {
            Track::Character
        } else {
            Track::Lightcone
        }
    }

    /// The allocation policy can reach the targets: a character is only
    /// ever warped for while a lightcone is wanted too.
    pub open spec fn reachable(&self) -> bool {
        self.lightcone_target > 0 || self.character_target == 0
    }

    /// Both targets are reached in `st`.
    pub open spec fn met_by(&self, st: TrialState) -> bool {
        st.character_copies >= self.character_target && st.lightcone_copies
            >= self.lightcone_target
    }

    /// The state a trial starts in.
    pub fn start(&self) -> (st: TrialState)
        ensures
            st == self.initial(),
    {
        TrialState {
            draws_left: self.total_draws,
            character: TrackState {
                pity: self.character_pity,
                guaranteed: self.character_guaranteed,
            },
            lightcone: TrackState {
                pity: self.lightcone_pity,
                guaranteed: self.lightcone_guaranteed,
            },
            character_copies: 0,
            lightcone_copies: 0,
        }
    }

    /// The track the next warp goes to.
    pub fn next_track(&self, st: &TrialState) -> (track: Track)
        ensures
            track == self.track_for(*st),
    {
        if self.lightcone_target > 0 && st.character_copies < self.character_target {
            Track::Character
        } else {
            Track::Lightcone
        }
    }

    /// Whether both targets are reached in `st`.
    pub fn targets_met(&self, st: &TrialState) -> (met: bool)
        ensures
            met == self.met_by(*st),
    {
        st.character_copies >= self.character_target && st.lightcone_copies
            >= self.lightcone_target
    }
}

impl Track {
    /// The other track.
    pub open spec fn other(&self) -> Track {
        match self {
            Track::Character => Track::Lightcone,
            Track::Lightcone => Track::Character,
        }
    }
}

impl TrialState {
    /// Where `track` stands.
    pub open spec fn on(&self, track: Track) -> TrackState {
        match track {
            Track::Character => self.character,
            Track::Lightcone => self.lightcone,
        }
    }

    /// Featured items obtained so far on `track`.
    pub open spec fn copies(&self, track: Track) -> u32 {
        match track {
            Track::Character => self.character_copies,
            Track::Lightcone => self.lightcone_copies,
        }
    }

    /// Both pity counters are below hard pity, and no more copies were
    /// obtained than warps were spent.
    pub open spec fn wf(&self, rules: &Rules, params: &SimulationParameters) -> bool {
        &&& self.character.pity < rules.character.hard_pity
        &&& self.lightcone.pity < rules.lightcone.hard_pity
        &&& self.character_copies + self.lightcone_copies + self.draws_left <= params.total_draws
    }

    /// The state after a warp on `track` came out as `draw`: the warp is
    /// spent, the track moves on, and a featured item counts as a copy.
    pub open spec fn recorded(&self, track: Track, draw: Draw) -> TrialState {
        let gained: int = if draw.event == DrawEvent::Featured {
            1
        } else {
            0
        };
        match track {
            Track::Character => TrialState {
                draws_left: (self.draws_left - 1) as u32,
                character: draw.next,
                character_copies: (self.character_copies + gained) as u32,
                ..*self
            },
            Track::Lightcone => TrialState {
                draws_left: (self.draws_left - 1) as u32,
                lightcone: draw.next,
                lightcone_copies: (self.lightcone_copies + gained) as u32,
                ..*self
            },
        }
    }

    /// Books the outcome of a warp on `track`.
    pub fn record(&self, track: Track, draw: Draw) -> (next: TrialState)
        requires
            self.draws_left > 0,
            self.character_copies < u32::MAX,
            self.lightcone_copies < u32::MAX,
        ensures
            next == self.recorded(track, draw),
    {
        let gained: u32 = match draw.event {
            DrawEvent::Featured => 1,
            _ => 0,
        };
        match track {
            Track::Character => TrialState {
                draws_left: self.draws_left - 1,
                character: draw.next,
                lightcone: self.lightcone,
                character_copies: self.character_copies + gained,
                lightcone_copies: self.lightcone_copies,
            },
            Track::Lightcone => TrialState {
                draws_left: self.draws_left - 1,
                character: self.character,
                lightcone: draw.next,
                character_copies: self.character_copies,
                lightcone_copies: self.lightcone_copies + gained,
            },
        }
    }
}

impl Rules {
    /// The published rules of the two tracks.
    pub open spec fn spec_standard() -> Rules {
        Rules { character: TrackConfig::character(), lightcone: TrackConfig::lightcone() }
    }

    /// The published rules of the two tracks.
    #[verifier::when_used_as_spec(spec_standard)]
    pub fn standard() -> (rules: Self)
        ensures
            rules == Self::spec_standard(),
    {
        Rules { character: TrackConfig::character(), lightcone: TrackConfig::lightcone() }
    }

    /// The rules of `track`.
    pub open spec fn config(&self, track: Track) -> TrackConfig {
        match track {
            Track::Character => self.character,
            Track::Lightcone => self.lightcone,
        }
    }

    /// Both starting pity counters are below their track's hard pity.
    pub open spec fn admits(&self, params: &SimulationParameters) -> bool {
        &&& params.character_pity < self.character.hard_pity
        &&& params.lightcone_pity < self.lightcone.hard_pity
    }

    /// Number of samples the next warp from `st` consumes when its first
    /// sample is `roll`.
    pub open spec fn warp_cost(
        &self,
        params: &SimulationParameters,
        st: TrialState,
        roll: u32,
    ) -> nat {
        match params.track_for(st) {
            Track::Character => self.character.cost(st.character, roll),
            Track::Lightcone => self.lightcone.cost(st.lightcone, roll),
        }
    }

    /// The state after the next warp from `st` with the given samples.
    pub open spec fn advance(
        &self,
        params: &SimulationParameters,
        st: TrialState,
        roll: u32,
        featured_roll: u32,
    ) -> TrialState {
        match params.track_for(st) {
            Track::Character => st.recorded(
                Track::Character,
                self.character.settle(st.character, roll, featured_roll),
            ),
            Track::Lightcone => st.recorded(
                Track::Lightcone,
                self.lightcone.settle(st.lightcone, roll, featured_roll),
            ),
        }
    }

    /// Where a trial stands after its first `draws` warps, when it reads its
    /// samples from `samples` starting at index `from`.
    pub open spec fn progress(
        &self,
        params: &SimulationParameters,
        samples: Seq<u32>,
        from: nat,
        draws: nat,
    ) -> Progress
        decreases draws,
    {
        if draws == 0 {
            Progress { state: params.initial(), pos: from }
        } else {
            let before = self.progress(params, samples, from, (draws - 1) as nat);
            let roll = samples[before.pos as int];
            let featured_roll = samples[before.pos as int + 1];
            Progress {
                state: self.advance(params, before.state, roll, featured_roll),
                pos: before.pos + self.warp_cost(params, before.state, roll),
            }
        }
    }

    /// Where a trial stands when its budget is spent.
    pub open spec fn finish(
        &self,
        params: &SimulationParameters,
        samples: Seq<u32>,
        from: nat,
    ) -> Progress {
        self.progress(params, samples, from, params.total_draws as nat)
    }

    /// `src` can feed the next warp from `st`: it never runs dry, or it
    /// still holds the one or two samples that the warp consumes.
    pub open spec fn can_warp_from<S: SampleSource>(
        &self,
        params: &SimulationParameters,
        st: TrialState,
        src: &S,
    ) -> bool {
        match src.upcoming() {
            Some(rest) => rest.len() >= 1 && rest.len() >= self.warp_cost(params, st, rest[0]),
            None => true,
        }
    }

    /// `src` can feed a whole trial: it never runs dry, or it still holds
    /// every sample that the trial consumes.
    pub open spec fn can_run_from<S: SampleSource>(
        &self,
        params: &SimulationParameters,
        src: &S,
    ) -> bool {
        match src.upcoming() {
            Some(rest) => self.finish(params, rest, 0).pos <= rest.len(),
            None => true,
        }
    }

    /// Spends one warp of a running trial on the track the policy picks.
    pub fn warp<S: SampleSource>(
        &self,
        params: &SimulationParameters,
        st: TrialState,
        src: &mut S,
    ) -> (next: TrialState)
        requires
            st.wf(self, params),
            st.draws_left > 0,
            old(src).inv(),
            self.can_warp_from(params, st, old(src)),
        ensures
            final(src).inv(),
            next.wf(self, params),
            ({
                let at = old(src).drawn().len() as int;
                let roll = final(src).drawn()[at];
                let featured_roll = final(src).drawn()[at + 1];
                &&& advanced(old(src), final(src), self.warp_cost(params, st, roll))
                &&& next == self.advance(params, st, roll, featured_roll)
            }),
    {
        match params.next_track(&st) {
            Track::Character => {
                let draw = self.character.draw(st.character, src);
                st.record(Track::Character, draw)
            },
            Track::Lightcone => {
                let draw = self.lightcone.draw(st.lightcone, src);
                st.record(Track::Lightcone, draw)
            },
        }
    }

    /// Runs one trial to the end of its budget. The trial never stops
    /// early: warps are spent even when both targets are already reached.
    pub fn run_trial<S: SampleSource>(&self, params: &SimulationParameters, src: &mut S) -> (end:
        TrialState)
        requires
            self.admits(params),
            old(src).inv(),
            self.can_run_from(params, old(src)),
        ensures
            final(src).inv(),
            end.draws_left == 0,
            end.wf(self, params),
            ({
                let from = old(src).drawn().len();
                let run = self.finish(params, final(src).drawn(), from);
                &&& end == run.state
                &&& from + params.total_draws <= run.pos <= from + 2 * params.total_draws
                &&& advanced(old(src), final(src), (run.pos - from) as nat)
            }),
    {
        let ghost start = *src;
        let ghost from = src.drawn().len();
        let mut st = params.start();
        proof {
            lemma_advanced_by_nothing(&start);
        }
        while st.draws_left > 0
            invariant
                src.inv(),
                st.wf(self, params),
                st.draws_left <= params.total_draws,
                from == start.drawn().len(),
                self.progress(
                    params,
                    src.drawn(),
                    from,
                    (params.total_draws - st.draws_left) as nat,
                ) == (Progress { state: st, pos: src.drawn().len() }),
                from + (params.total_draws - st.draws_left) <= src.drawn().len() <= from + 2 * (
                params.total_draws - st.draws_left),
                self.can_run_from(params, &start),
                advanced(&start, &*src, (src.drawn().len() - from) as nat),
            decreases st.draws_left,
        {
            let ghost made = (params.total_draws - st.draws_left) as nat;
            let ghost seen = *src;
            proof {
                if let Some(rest) = start.upcoming() {
                    let used = (seen.drawn().len() - from) as nat;
                    lemma_progress_follows_known_future(*self, *params, &start, &seen, rest, made);
                    lemma_progress_pos_monotonic(
                        *self,
                        *params,
                        rest,
                        0,
                        made + 1,
                        params.total_draws as nat,
                    );
                    lemma_progress_pos_grows(*self, *params, rest, 0, made);
                    assert(rest.skip(used as int)[0] == rest[used as int]);
                }
            }
            st = self.warp(params, st, src);
            proof {
                let cost = (src.drawn().len() - seen.drawn().len()) as nat;
                assert forall|i: int| from <= i < seen.drawn().len() implies seen.drawn()[i]
                    == src.drawn()[i] by {
                    assert(src.drawn().take(seen.drawn().len() as int)[i] == seen.drawn()[i]);
                }
                lemma_progress_reads_only_consumed(
                    *self,
                    *params,
                    seen.drawn(),
                    src.drawn(),
                    from,
                    made,
                );
                let used = (seen.drawn().len() - from) as nat;
                lemma_advanced_twice(&start, &seen, &*src, used, cost);
            }
        }
        st
    }
}

} // verus!
