//! Sources of uniform samples: the thread-local generator, and a fixed
//! script that replays a chosen stream.

use rand::Rng;
use vstd::prelude::*;

verus! {

/// Denominator of every probability in this crate. A chance is a whole
/// number of parts per million; a uniform sample is an integer in `[0, PPM)`.
pub const PPM: u32 = 1_000_000;

/// Every element is a legal uniform sample.
pub open spec fn samples_valid(samples: Seq<u32>) -> bool {
    forall|i: int| 0 <= i < samples.len() ==> samples[i] < PPM
}

/// A stream of independent uniform samples in `[0, PPM)`.
///
/// The contract is stated over the history of the stream: `drawn` is every
/// sample handed out so far, and each call to `next_sample` appends one. A
/// source that knows what it will hand out says so in `upcoming`.
pub trait SampleSource: Sized {
    /// The samples handed out so far, oldest first.
    spec fn drawn(&self) -> Seq<u32>;

    /// The samples still to come, for a source that knows them; such a
    /// source runs dry when they are used up. `None` for a source that
    /// never runs dry and does not know its future.
    spec fn upcoming(&self) -> Option<Seq<u32>>;

    /// Internal consistency of the source.
    spec fn inv(&self) -> bool;

    /// A consistent source has only ever handed out legal samples.
    proof fn lemma_drawn_valid(&self)
        requires
            self.inv(),
        ensures
            samples_valid(self.drawn()),
    ;

    /// Hands out the next sample.
    fn next_sample(&mut self) -> (sample: u32)
        requires
            old(self).inv(),
            old(self).upcoming() matches Some(rest) ==> rest.len() > 0,
        ensures
            final(self).inv(),
            sample < PPM,
            final(self).drawn() == old(self).drawn().push(sample),
            final(self).upcoming() == match old(self).upcoming() {
                Some(rest) => Some(rest.skip(1)),
                None => None,
            },
            old(self).upcoming() matches Some(rest) ==> sample == rest[0],
    ;
}

/// The source can hand out at least `count` more samples.
pub open spec fn can_supply<S: SampleSource>(src: &S, count: nat) -> bool {
    match src.upcoming() {
        Some(rest) => count <= rest.len(),
        None => true,
    }
}

/// `after` is `before` with exactly `count` more samples handed out: the
/// history has grown by that many, and where the future was known they are
/// its first `count`, now gone from it.
pub open spec fn advanced<S: SampleSource>(before: &S, after: &S, count: nat) -> bool {
    let start = before.drawn().len() as int;
    &&& after.drawn().len() == start + count
    &&& after.drawn().take(start) == before.drawn()
    &&& match before.upcoming() {
        Some(rest) => {
            &&& count <= rest.len()
            &&& after.drawn().skip(start) == rest.take(count as int)
            &&& after.upcoming() == Some(rest.skip(count as int))
        },
        None => after.upcoming() is None,
    }
}

/// One call of `next_sample` hands out exactly one sample.
pub proof fn lemma_advanced_by_one<S: SampleSource>(before: &S, after: &S, sample: u32)
    requires
        can_supply(before, 1),
        after.drawn() == before.drawn().push(sample),
        after.upcoming() == match before.upcoming() {
            Some(rest) => Some(rest.skip(1)),
            None => None,
        },
        before.upcoming() matches Some(rest) ==> sample == rest[0],
    ensures
        advanced(before, after, 1),
{
    let start = before.drawn().len() as int;
    assert(after.drawn().take(start) =~= before.drawn());
    match before.upcoming() {
        Some(rest) => {
            assert(after.drawn().skip(start) =~= rest.take(1));
        },
        None => {},
    }
}

/// Handing out samples composes: `first` of them and then `second` more is
/// `first + second` of them.
pub proof fn lemma_advanced_twice<S: SampleSource>(
    before: &S,
    between: &S,
    after: &S,
    first: nat,
    second: nat,
)
    requires
        advanced(before, between, first),
        advanced(between, after, second),
    ensures
        advanced(before, after, first + second),
{
    let start = before.drawn().len() as int;
    let mid = between.drawn().len() as int;
    assert(after.drawn().take(start) =~= after.drawn().take(mid).take(start));
    match before.upcoming() {
        Some(rest) => {
            let later = rest.skip(first as int);
            assert(later.skip(second as int) =~= rest.skip((first + second) as int));
            assert(after.drawn().skip(start) =~= rest.take((first + second) as int)) by {
                assert forall|i: int| 0 <= i < first + second implies after.drawn().skip(start)[i]
                    == rest[i] by {
                    if i < first {
                        assert(after.drawn().take(mid)[start + i] == between.drawn()[start + i]);
                        assert(between.drawn().skip(start)[i] == rest.take(first as int)[i]);
                    } else {
                        assert(after.drawn().skip(mid)[i - first] == later.take(second as int)[i
                            - first]);
                    }
                }
            }
        },
        None => {},
    }
}

/// A source that has not moved has handed out nothing more.
pub proof fn lemma_advanced_by_nothing<S: SampleSource>(src: &S)
    ensures
        advanced(src, src, 0),
{
    let start = src.drawn().len() as int;
    assert(src.drawn().take(start) =~= src.drawn());
    match src.upcoming() {
        Some(rest) => {
            assert(src.drawn().skip(start) =~= rest.take(0));
            assert(rest.skip(0) =~= rest);
        },
        None => {},
    }
}

/// Trusted: calls `rand::Rng::gen_range` on the generator that
/// `rand::thread_rng()` returns, with the half-open range `low..high`.
///
/// The contract claims what the generator's sampling of an integer range
/// shows: it returns `low` plus an offset below `high - low`, so the result
/// is at least `low` and below `high`. An empty range makes it panic, and
/// `requires` excludes it. Which value of the range comes back, and that
/// the values are uniform and independent, is not stated.
#[verifier::external_body]
fn uniform_in(low: u32, high: u32) -> (sample: u32)
    requires
        low < high,
    ensures
        low <= sample < high,
{
    rand::thread_rng().gen_range(low..high)
}

/// Samples from the thread-local generator. Never runs dry.
pub struct ThreadSamples {
    history: Ghost<Seq<u32>>,
}

impl ThreadSamples {
    /// A source that has handed out nothing yet.
    pub fn new() -> (src: Self)
        ensures
            src.inv(),
            src.drawn() == Seq::<u32>::empty(),
            src.upcoming() is None,
    {
        ThreadSamples { history: Ghost(Seq::empty()) }
    }
}

impl SampleSource for ThreadSamples {
    closed spec fn drawn(&self) -> Seq<u32> {
        self.history@
    }

    open spec fn upcoming(&self) -> Option<Seq<u32>> {
        None
    }

    closed spec fn inv(&self) -> bool {
        samples_valid(self.history@)
    }

    proof fn lemma_drawn_valid(&self) {
    }

    fn next_sample(&mut self) -> (sample: u32) {
        let sample = uniform_in(0, PPM);
        proof {
            self.history@ = self.history@.push(sample);
        }
        sample
    }
}

/// Replays a fixed script of samples, front to back.
pub struct ScriptedSamples {
    script: Vec<u32>,
    next: usize,
}

impl ScriptedSamples {
    /// Wraps `script`, or refuses it when an entry is not a legal sample.
    pub fn new(script: Vec<u32>) -> (made: Option<Self>)
        ensures
            made is Some <==> samples_valid(script@),
            made matches Some(src) ==> {
                &&& src.inv()
                &&& src.drawn() == Seq::<u32>::empty()
                &&& src.upcoming() == Some(script@)
            },
    {
        let mut i: usize = 0;
        while i < script.len()
            invariant
                i <= script.len(),
                forall|j: int| 0 <= j < i ==> script@[j] < PPM,
            decreases script.len() - i,
        {
            if script[i] >= PPM {
                return None;
            }
            i += 1;
        }
        let src = ScriptedSamples { script, next: 0 };
        assert(src.script@.take(0) =~= Seq::<u32>::empty());
        assert(src.script@.skip(0) =~= src.script@);
        Some(src)
    }

    /// Number of samples handed out so far.
    pub fn consumed(&self) -> (count: usize)
        requires
            self.inv(),
        ensures
            count == self.drawn().len(),
    {
        self.next
    }

    /// Number of samples still to be handed out.
    pub fn left(&self) -> (count: usize)
        requires
            self.inv(),
        ensures
            self.upcoming() matches Some(rest) && rest.len() == count,
    {
        self.script.len() - self.next
    }
}

impl SampleSource for ScriptedSamples {
    closed spec fn drawn(&self) -> Seq<u32> {
        self.script@.take(self.next as int)
    }

    closed spec fn upcoming(&self) -> Option<Seq<u32>> {
        Some(self.script@.skip(self.next as int))
    }

    closed spec fn inv(&self) -> bool {
        &&& self.next <= self.script@.len()
        &&& samples_valid(self.script@)
    }

    proof fn lemma_drawn_valid(&self) {
    }

    fn next_sample(&mut self) -> (sample: u32) {
        assert(self.next < self.script.len());
        let sample = self.script[self.next];
        self.next = self.next + 1;
        proof {
            let script = self.script@;
            let at = old(self).next as int;
            assert(script.take(at + 1) =~= script.take(at).push(sample));
            assert(script.skip(at + 1) =~= script.skip(at).skip(1));
        }
        sample
    }
}

} // verus!
