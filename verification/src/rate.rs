//! Rolling hash-rate bookkeeping: a bounded history of the most recent
//! per-thread rate samples, in whole hashes per second, and its mean.
//!
//! The surrounding process measures instantaneous rates from wall-clock
//! time; only finite, non-negative whole-number rates reach this module, so
//! samples are plain integers here.

use vstd::prelude::*;

verus! {

/// The most samples the history retains; pushing beyond this evicts the
/// oldest sample.
pub const HISTORY_CAPACITY: usize = 100;

/// The sum of a sequence of rate samples.
pub open spec fn sum_seq(s: Seq<u64>) -> int
    decreases s.len(),
{
    if s.len() == 0 {
        0
    } else {
        s[0] + sum_seq(s.skip(1))
    }
}

/// The mean of a sequence of rate samples, rounded toward zero; an empty
/// sequence has mean 0.
pub open spec fn spec_mean(s: Seq<u64>) -> int {
    if s.len() == 0 {
        0
    } else {
        sum_seq(s) / s.len() as int
    }
}

/// One push into a history holding at most `HISTORY_CAPACITY` samples: a
/// full history first evicts its oldest sample.
pub open spec fn spec_push(s: Seq<u64>, x: u64) -> Seq<u64> {
    if s.len() < HISTORY_CAPACITY {
        s.push(x)
    } else {
        s.skip(1).push(x)
    }
}

/// The history after a whole sequence of pushes, oldest first.
pub open spec fn spec_pushes(s: Seq<u64>, xs: Seq<u64>) -> Seq<u64>
    decreases xs.len(),
{
    if xs.len() == 0 {
        s
    } else {
        spec_pushes(spec_push(s, xs[0]), xs.skip(1))
    }
}

/// A bounded rolling history of recent rate samples, oldest first.
#[derive(Clone)]
pub struct HashRateHistory {
    samples: Vec<u64>,
}

impl View for HashRateHistory {
    type V = Seq<u64>;

    closed spec fn view(&self) -> Seq<u64> {
        self.samples@
    }
}

impl HashRateHistory {
    /// The history never holds more than `HISTORY_CAPACITY` samples.
    pub open spec fn wf(&self) -> bool {
        self@.len() <= HISTORY_CAPACITY
    }

    /// An empty history.
    pub fn new() -> (r: Self)
        ensures
            r@ == Seq::<u64>::empty(),
            r.wf(),
    {
        HashRateHistory { samples: Vec::new() }
    }

    /// The mean of the stored samples, or 0 when none are stored (avoiding
    /// a division by zero).
    pub fn get_hashrate(&self) -> (r: u64)
        requires
            self.wf(),
        ensures
            r == spec_mean(self@),
    {
        if self.samples.len() == 0 {
            return 0;
        }
        let total = sum_samples(&self.samples);
        let count = self.samples.len() as u128;
        let mean = total / count;
        proof {
            lemma_sum_bound(self@);
            assert(sum_seq(self@) / (self@.len() as int) <= u64::MAX) by (nonlinear_arith)
                requires
                    sum_seq(self@) <= self@.len() * (u64::MAX as int),
                    self@.len() > 0,
            ;
        }
        mean as u64
    }

    /// Record one rate sample, evicting the oldest sample when the history
    /// is full.
    pub fn push_hashrate(&mut self, hashrate: u64)
        requires
            old(self).wf(),
        ensures
            final(self)@ == spec_push(old(self)@, hashrate),
            final(self).wf(),
    {
        if self.samples.len() >= HISTORY_CAPACITY {
            self.samples.remove(0);
        }
        self.samples.push(hashrate);
    }
}

/// The sum of every sample; it cannot overflow its 128-bit accumulator.
fn sum_samples(samples: &Vec<u64>) -> (r: u128)
    ensures
        r == sum_seq(samples@),
{
    let mut total: u128 = 0;
    let mut i: usize = 0;
    while i < samples.len()
        invariant
            0 <= i <= samples@.len(),
            total == sum_seq(samples@.take(i as int)),
            total <= i * (u64::MAX as int),
        decreases samples@.len() - i,
    {
        proof {
            lemma_sum_take_step(samples@, i as int);
        }
        total = total + samples[i] as u128;
        i = i + 1;
    }
    proof {
        assert(samples@.take(samples@.len() as int) =~= samples@);
    }
    total
}

/// Summing one more sample adds its value.
proof fn lemma_sum_take_step(s: Seq<u64>, i: int)
    requires
        0 <= i < s.len(),
    ensures
        sum_seq(s.take(i + 1)) == sum_seq(s.take(i)) + s[i],
    decreases i,
{
    if i == 0 {
        assert(s.take(1).skip(1) =~= Seq::<u64>::empty());
        assert(s.take(0) =~= Seq::<u64>::empty());
    } else {
        lemma_sum_take_step(s.skip(1), i - 1);
        assert(s.take(i + 1).skip(1) =~= s.skip(1).take(i));
        assert(s.take(i).skip(1) =~= s.skip(1).take(i - 1));
        assert(s.skip(1)[i - 1] == s[i]);
    }
}

/// The sum of a sample sequence is bounded by its length times the largest
/// sample value.
proof fn lemma_sum_bound(s: Seq<u64>)
    ensures
        0 <= sum_seq(s) <= s.len() * (u64::MAX as int),
    decreases s.len(),
{
    if s.len() > 0 {
        lemma_sum_bound(s.skip(1));
    }
}

/// Law: once at least `HISTORY_CAPACITY` samples have been pushed, the
/// history holds exactly the most recent `HISTORY_CAPACITY` of them, in
/// order, whatever it held before.
pub proof fn lemma_retains_most_recent(s: Seq<u64>, xs: Seq<u64>)
    requires
        s.len() <= HISTORY_CAPACITY,
        xs.len() >= HISTORY_CAPACITY,
    ensures
        spec_pushes(s, xs) == xs.skip(xs.len() - HISTORY_CAPACITY),
{
    lemma_pushes_shape(s, xs);
    assert((s + xs).skip(s.len() + xs.len() - HISTORY_CAPACITY) =~= xs.skip(
        xs.len() - HISTORY_CAPACITY,
    ));
}

/// The history after any run of pushes is the tail of everything ever
/// held, cut to capacity.
proof fn lemma_pushes_shape(s: Seq<u64>, xs: Seq<u64>)
    requires
        s.len() <= HISTORY_CAPACITY,
    ensures
        spec_pushes(s, xs) == if s.len() + xs.len() <= HISTORY_CAPACITY {
            s + xs
        } else {
            (s + xs).skip(s.len() + xs.len() - HISTORY_CAPACITY)
        },
    decreases xs.len(),
{
    if xs.len() == 0 {
        assert(s + xs =~= s);
    } else {
        let s1 = spec_push(s, xs[0]);
        lemma_pushes_shape(s1, xs.skip(1));
        if s.len() < HISTORY_CAPACITY {
            assert(s1 + xs.skip(1) =~= s + xs);
            if s1.len() + xs.len() - 1 > HISTORY_CAPACITY {
                assert((s1 + xs.skip(1)).skip(s1.len() + xs.skip(1).len() - HISTORY_CAPACITY)
                    =~= (s + xs).skip(s.len() + xs.len() - HISTORY_CAPACITY));
            }
        } else {
            assert(s1 + xs.skip(1) =~= (s + xs).skip(1));
            if s1.len() + xs.len() - 1 <= HISTORY_CAPACITY {
                // The history was full and exactly one sample was pushed:
                // both shapes are the same one-step tail.
                assert(xs.len() == 1);
                assert((s + xs).skip(s.len() + xs.len() - HISTORY_CAPACITY) =~= (s + xs).skip(1));
            } else {
                assert((s1 + xs.skip(1)).skip(s1.len() + xs.skip(1).len() - HISTORY_CAPACITY)
                    =~= (s + xs).skip(s.len() + xs.len() - HISTORY_CAPACITY));
            }
        }
    }
}

} // verus!
