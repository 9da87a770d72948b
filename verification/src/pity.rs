//! The pity state machine of one banner track, advanced one warp at a time.

use crate::samples::{
    advanced, lemma_advanced_by_one, lemma_advanced_twice, SampleSource, PPM,
};
use vstd::prelude::*;

verus! {

/// The fixed rules of one track. Chances are in parts per million.
#[derive(Clone, Copy, Debug, PartialEq, Eq, Structural)]
pub struct TrackConfig {
    /// Chance of a five-star on a warp at or below the soft-pity threshold.
    pub base_chance: u32,
    /// Pity value above which the chance starts to climb.
    pub soft_pity: u32,
    /// Number of warps since the last five-star at which one is certain.
    pub hard_pity: u32,
    /// Added to the chance for each pity point above the threshold.
    pub ramp_increment: u32,
    /// Chance that a five-star without the guarantee is the featured item.
    pub featured_chance: u32,
}

/// Where a track stands between two warps.
#[derive(Clone, Copy, Debug, PartialEq, Eq, Structural)]
pub struct TrackState {
    /// Warps since the last five-star on this track.
    pub pity: u32,
    /// Whether the next five-star is certain to be the featured item.
    pub guaranteed: bool,
}

/// What a single warp produced.
#[derive(Clone, Copy, Debug, PartialEq, Eq, Structural)]
pub enum DrawEvent {
    /// No five-star.
    Miss,
    /// A five-star that is not the featured item.
    NonFeatured,
    /// The featured five-star.
    Featured,
}

/// The result of one warp: the state it leaves and what it produced.
#[derive(Clone, Copy, Debug, PartialEq, Eq, Structural)]
pub struct Draw {
    /// The state of the track after the warp.
    pub next: TrackState,
    /// What the warp produced.
    pub event: DrawEvent,
}

impl TrackConfig {
    /// Pity points above the soft-pity threshold.
    pub open spec fn excess(&self, pity: u32) -> int {
        if pity > self.soft_pity {
            pity - self.soft_pity
        } else {
            0
        }
    }

    /// The chance before it is capped at certainty.
    pub open spec fn ramped_chance(&self, pity: u32) -> int {
        self.base_chance + self.ramp_increment * self.excess(pity)
    }

    /// The five-star chance of a warp made at `pity`: flat up to the
    /// soft-pity threshold, then one increment per point above it, never
    /// more than certainty.
    pub open spec fn chance_at(&self, pity: u32) -> int {
        if self.ramped_chance(pity) > PPM {
            PPM as int
        } else {
            self.ramped_chance(pity)
        }
    }

    /// A warp made at `pity` with sample `roll` is a five-star: the sample
    /// falls under the chance, or the warp is the one that reaches hard pity.
    pub open spec fn hits(&self, pity: u32, roll: u32) -> bool {
        roll < self.chance_at(pity) || pity + 1 == self.hard_pity
    }

    /// A five-star is the featured item: by guarantee, or by the second sample.
    pub open spec fn features(&self, guaranteed: bool, featured_roll: u32) -> bool {
        guaranteed || featured_roll < self.featured_chance
    }

    /// Number of samples a warp consumes: a second one only to decide an
    /// unguaranteed five-star.
    pub open spec fn cost(&self, st: TrackState, roll: u32) -> nat {
        if self.hits(st.pity, roll) && !st.guaranteed {
            2
        } else {
            1
        }
    }

    /// `src` can feed a warp from `st`: it never runs dry, or it still holds
    /// the one or two samples that the warp consumes.
    pub open spec fn can_draw_from<S: SampleSource>(&self, st: TrackState, src: &S) -> bool {
        match src.upcoming() {
            Some(rest) => rest.len() >= 1 && rest.len() >= self.cost(st, rest[0]),
            None => true,
        }
    }

    /// The outcome of a warp from `st` given its samples. `featured_roll`
    /// matters only when `cost` is 2.
    pub open spec fn settle(&self, st: TrackState, roll: u32, featured_roll: u32) -> Draw {
        if !self.hits(st.pity, roll) {
            Draw {
                next: TrackState { pity: (st.pity + 1) as u32, guaranteed: st.guaranteed },
                event: DrawEvent::Miss,
            }
        } else if self.features(st.guaranteed, featured_roll) {
            Draw { next: TrackState { pity: 0, guaranteed: false }, event: DrawEvent::Featured }
        } else {
            Draw { next: TrackState { pity: 0, guaranteed: true }, event: DrawEvent::NonFeatured }
        }
    }

    /// The character track: 0.6% base, ramp above 74, hard pity at 90,
    /// an even chance for the featured character.
    pub open spec fn spec_character() -> TrackConfig {
        TrackConfig {
            base_chance: 6_000,
            soft_pity: 74,
            hard_pity: 90,
            ramp_increment: 60_000,
            featured_chance: 500_000,
        }
    }

    /// The lightcone track: 0.8% base, ramp above 64, hard pity at 80,
    /// three in four for the featured lightcone.
    pub open spec fn spec_lightcone() -> TrackConfig {
        TrackConfig {
            base_chance: 8_000,
            soft_pity: 64,
            hard_pity: 80,
            ramp_increment: 60_000,
            featured_chance: 750_000,
        }
    }

    /// The rules of the character track.
    #[verifier::when_used_as_spec(spec_character)]
    pub fn character() -> (cfg: Self)
        ensures
            cfg == Self::spec_character(),
    {
        TrackConfig {
            base_chance: 6_000,
            soft_pity: 74,
            hard_pity: 90,
            ramp_increment: 60_000,
            featured_chance: 500_000,
        }
    }

    /// The rules of the lightcone track.
    #[verifier::when_used_as_spec(spec_lightcone)]
    pub fn lightcone() -> (cfg: Self)
        ensures
            cfg == Self::spec_lightcone(),
    {
        TrackConfig {
            base_chance: 8_000,
            soft_pity: 64,
            hard_pity: 80,
            ramp_increment: 60_000,
            featured_chance: 750_000,
        }
    }

    /// The five-star chance of a warp made at `pity`.
    pub fn effective_chance(&self, pity: u32) -> (chance: u32)
        ensures
            chance == self.chance_at(pity),
            chance <= PPM,
    {
        let excess: u64 = if pity > self.soft_pity {
            (pity - self.soft_pity) as u64
        } else {
            0
        };
        let increment: u64 = self.ramp_increment as u64;
        assert(increment * excess <= 0xFFFF_FFFF * 0xFFFF_FFFF) by (nonlinear_arith)
            requires
                increment <= 0xFFFF_FFFF,
                excess <= 0xFFFF_FFFF,
        ;
        let ramped: u64 = self.base_chance as u64 + increment * excess;
        if ramped > PPM as u64 {
            PPM
        } else {
            ramped as u32
        }
    }

    /// Whether a warp made at `pity` with sample `roll` is a five-star.
    pub fn is_hit(&self, pity: u32, roll: u32) -> (hit: bool)
        ensures
            hit == self.hits(pity, roll),
    {
        roll < self.effective_chance(pity) || (pity < u32::MAX && pity + 1 == self.hard_pity)
    }

    /// Whether a five-star is the featured item.
    pub fn is_featured(&self, guaranteed: bool, featured_roll: u32) -> (featured: bool)
        ensures
            featured == self.features(guaranteed, featured_roll),
    {
        guaranteed || featured_roll < self.featured_chance
    }

    /// One warp from `st` with both samples given up front.
    pub fn step(&self, st: TrackState, roll: u32, featured_roll: u32) -> (out: Draw)
        requires
            st.pity < self.hard_pity,
        ensures
            out == self.settle(st, roll, featured_roll),
            out.next.pity < self.hard_pity,
    {
        if !self.is_hit(st.pity, roll) {
            Draw {
                next: TrackState { pity: st.pity + 1, guaranteed: st.guaranteed },
                event: DrawEvent::Miss,
            }
        } else if self.is_featured(st.guaranteed, featured_roll) {
            Draw { next: TrackState { pity: 0, guaranteed: false }, event: DrawEvent::Featured }
        } else {
            Draw { next: TrackState { pity: 0, guaranteed: true }, event: DrawEvent::NonFeatured }
        }
    }

    /// One warp from `st`, taking its samples from `src`: one to decide the
    /// five-star, and a second only when an unguaranteed five-star has to be
    /// decided between featured and not.
    pub fn draw<S: SampleSource>(&self, st: TrackState, src: &mut S) -> (out: Draw)
        requires
            st.pity < self.hard_pity,
            old(src).inv(),
            self.can_draw_from(st, old(src)),
        ensures
            final(src).inv(),
            out.next.pity < self.hard_pity,
            ({
                let at = old(src).drawn().len() as int;
                let roll = final(src).drawn()[at];
                let featured_roll = final(src).drawn()[at + 1];
                &&& advanced(old(src), final(src), self.cost(st, roll))
                &&& out == self.settle(st, roll, featured_roll)
            }),
    {
        let ghost start = *src;
        let roll = src.next_sample();
        let ghost mid = *src;
        proof {
            lemma_advanced_by_one(&start, &mid, roll);
        }
        let featured_roll = if self.is_hit(st.pity, roll) && !st.guaranteed {
            let second = src.next_sample();
            proof {
                lemma_advanced_by_one(&mid, &*src, second);
                lemma_advanced_twice(&start, &mid, &*src, 1, 1);
            }
            second
        } else {
            roll
        };
        assert(src.drawn()[start.drawn().len() as int] == roll) by {
            assert(src.drawn().take(mid.drawn().len() as int)[start.drawn().len() as int]
                == roll);
        }
        self.step(st, roll, featured_roll)
    }
}

/// On the warp that reaches hard pity every sample is a five-star, and the
/// pity counter starts over.
pub proof fn lemma_hard_pity_hits(cfg: TrackConfig, st: TrackState, roll: u32, featured_roll: u32)
    requires
        st.pity + 1 == cfg.hard_pity,
    ensures
        cfg.hits(st.pity, roll),
        cfg.settle(st, roll, featured_roll).event != DrawEvent::Miss,
        cfg.settle(st, roll, featured_roll).next.pity == 0,
{
}

/// The pity counter stays below hard pity: a warp either resets it on a
/// five-star or raises it by one, and the warp that would reach hard pity
/// is always a five-star.
pub proof fn lemma_pity_stays_below_hard_pity(
    cfg: TrackConfig,
    st: TrackState,
    roll: u32,
    featured_roll: u32,
)
    requires
        st.pity < cfg.hard_pity,
    ensures
        cfg.settle(st, roll, featured_roll).next.pity < cfg.hard_pity,
        cfg.hits(st.pity, roll) <==> cfg.settle(st, roll, featured_roll).next.pity == 0,
        !cfg.hits(st.pity, roll) ==> cfg.settle(st, roll, featured_roll).next.pity == st.pity + 1,
{
}

/// Up to the soft-pity threshold the chance is the base chance.
pub proof fn lemma_chance_flat_to_soft_pity(cfg: TrackConfig, pity: u32)
    requires
        pity <= cfg.soft_pity,
    ensures
        cfg.ramped_chance(pity) == cfg.base_chance,
        cfg.chance_at(pity) == if cfg.base_chance > PPM {
            PPM
        } else {
            cfg.base_chance
        },
{
}

/// Above the threshold each further pity point adds exactly one increment
/// to the chance, as long as the result stays within certainty.
pub proof fn lemma_chance_ramp_step(cfg: TrackConfig, pity: u32)
    requires
        cfg.soft_pity <= pity < u32::MAX,
        cfg.ramped_chance((pity + 1) as u32) <= PPM,
    ensures
        cfg.chance_at((pity + 1) as u32) == cfg.chance_at(pity) + cfg.ramp_increment,
{
    let excess = cfg.excess(pity);
    assert(cfg.excess((pity + 1) as u32) == excess + 1);
    assert(cfg.ramp_increment * (excess + 1) == cfg.ramp_increment * excess + cfg.ramp_increment)
        by (nonlinear_arith);
    assert(cfg.ramp_increment * excess >= 0) by (nonlinear_arith)
        requires
            excess >= 0,
    ;
}

/// The chance never falls as pity grows, so a sample that is a five-star
/// at one pity value is a five-star at every higher one.
pub proof fn lemma_chance_monotonic(cfg: TrackConfig, low: u32, high: u32, roll: u32)
    requires
        low <= high,
    ensures
        cfg.chance_at(low) <= cfg.chance_at(high),
        roll < cfg.chance_at(low) ==> roll < cfg.chance_at(high),
{
    let a = cfg.excess(low);
    let b = cfg.excess(high);
    assert(cfg.ramp_increment * a <= cfg.ramp_increment * b) by (nonlinear_arith)
        requires
            0 <= a <= b,
    ;
}

/// Under the published rules the chance stays short of certainty below
/// hard pity, so the cap never applies and the ramp is exact: 0.6% plus 6%
/// per point above 74 for the character, 0.8% plus 6% per point above 64
/// for the lightcone.
pub proof fn lemma_published_chances_are_never_capped(pity: u32)
    ensures
        pity < 90 ==> {
            &&& TrackConfig::character().chance_at(pity) < PPM
            &&& TrackConfig::character().chance_at(pity) == 6_000 + 60_000
                * TrackConfig::character().excess(pity)
        },
        pity < 80 ==> {
            &&& TrackConfig::lightcone().chance_at(pity) < PPM
            &&& TrackConfig::lightcone().chance_at(pity) == 8_000 + 60_000
                * TrackConfig::lightcone().excess(pity)
        },
{
}

/// A chance of certainty makes every legal sample a five-star.
pub proof fn lemma_certain_chance_hits(cfg: TrackConfig, pity: u32, roll: u32)
    requires
        cfg.chance_at(pity) == PPM,
        roll < PPM,
    ensures
        cfg.hits(pity, roll),
{
}

/// A five-star under the guarantee is the featured item whatever the
/// second sample, and uses the guarantee up.
pub proof fn lemma_guaranteed_hit_is_featured(
    cfg: TrackConfig,
    st: TrackState,
    roll: u32,
    featured_roll: u32,
)
    requires
        st.guaranteed,
        cfg.hits(st.pity, roll),
    ensures
        cfg.cost(st, roll) == 1,
        cfg.settle(st, roll, featured_roll) == (Draw {
            next: TrackState { pity: 0, guaranteed: false },
            event: DrawEvent::Featured,
        }),
{
}

/// Without the guarantee the second sample decides a five-star: under the
/// featured chance it is the featured item, otherwise it is not and the
/// next five-star is guaranteed.
pub proof fn lemma_unguaranteed_hit_is_decided_by_second_sample(
    cfg: TrackConfig,
    st: TrackState,
    roll: u32,
    featured_roll: u32,
)
    requires
        !st.guaranteed,
        cfg.hits(st.pity, roll),
    ensures
        cfg.cost(st, roll) == 2,
        featured_roll < cfg.featured_chance ==> cfg.settle(st, roll, featured_roll) == (Draw {
            next: TrackState { pity: 0, guaranteed: false },
            event: DrawEvent::Featured,
        }),
        featured_roll >= cfg.featured_chance ==> cfg.settle(st, roll, featured_roll) == (Draw {
            next: TrackState { pity: 0, guaranteed: true },
            event: DrawEvent::NonFeatured,
        }),
{
}

} // verus!
