//! The per-worker mining attempt: candidate hashing, solution capture and
//! the final submission report, as one verified state machine.
//!
//! The surrounding thread drives it: it acquires the job, calls
//! `run_batch` between cancellation checkpoints, measures wall-clock time,
//! and ships the finished report. Every decision about candidates,
//! solutions and the covered range is made here.

use vstd::prelude::*;

use crate::application::CurrentJob;
use crate::counter::{
    base36_upper, increment_byte_string, iter_increment, lemma_base36_upper_in_alphabet,
    lemma_increment_len, lemma_increment_value, spec_base36_upper, spec_increment,
    suffix_in_alphabet,
};
use crate::digest::{
    bytes_as_chars, count_leading_zero_bits, hex_lower_bytes, lemma_leading_zero_bits_bound,
    sha256_digest, sha256_of, sha245_to_string, spec_leading_zero_bits,
};
use crate::packets::{Job, Solution, SolutionModel, SubmittionPacket, solutions_view};

verus! {

/// The difficulty threshold: a candidate is a solution when its digest has
/// at least this many leading zero bits.
pub const MINIMUM_ZERO_BIT_LENGTH: u32 = 26;

/// How many candidates are hashed between two cancellation checkpoints.
pub const CHECKPOINT_INTERVAL: u64 = 10000;

/// How many backoff ticks are waited out after a failed job request.
pub const BACKOFF_TICKS: u32 = 1000;

/// How long one backoff tick lasts, in milliseconds.
pub const BACKOFF_TICK_MILLIS: u64 = 10;

/// The bytes a string spells when each character is read as ASCII.
pub open spec fn chars_as_bytes(s: Seq<char>) -> Seq<u8> {
    Seq::new(s.len(), |i: int| s[i] as u8)
}

/// The mathematical state of a mining attempt.
#[verifier::ext_equal]
pub ghost struct AttemptModel {
    /// The job being searched.
    pub job: Job,
    /// The fixed operator-identifier bytes at the front of every
    /// candidate.
    pub prefix: Seq<u8>,
    /// The mutable counter suffix; `prefix + suffix` is the candidate
    /// hashed next.
    pub suffix: Seq<u8>,
    /// The next logical step to process.
    pub next_nounce: u64,
    /// The last step actually processed, or the range start before any
    /// step ran.
    pub latest_nounce: u64,
    /// Every solution captured so far, in capture order.
    pub solutions: Seq<SolutionModel>,
    /// The difficulty threshold of this attempt.
    pub threshold: u32,
}

/// One search step: hash the candidate, capture it when its digest meets
/// the threshold, and advance the counter suffix by one.
pub open spec fn spec_step(m: AttemptModel, now: u64) -> AttemptModel {
    let digest = sha256_of(m.prefix + m.suffix);
    let count = spec_leading_zero_bits(digest);
    let solutions = if count >= m.threshold {
        m.solutions.push(
            SolutionModel {
                sha256: bytes_as_chars(hex_lower_bytes(digest)),
                nounce: bytes_as_chars(m.suffix),
                leading_zero_bit_length: count,
                time: now,
            },
        )
    } else {
        m.solutions
    };
    AttemptModel {
        suffix: spec_increment(m.suffix),
        next_nounce: (m.next_nounce + 1) as u64,
        latest_nounce: m.next_nounce,
        solutions,
        ..m
    }
}

/// The attempt state after `k` search steps.
pub open spec fn spec_run(m: AttemptModel, k: nat, now: u64) -> AttemptModel
    decreases k,
{
    if k == 0 {
        m
    } else {
        spec_step(spec_run(m, (k - 1) as nat, now), now)
    }
}

/// One mining attempt against a single job.
pub struct JobAttempt {
    job: Job,
    prefix_len: usize,
    buffer: Vec<u8>,
    next_nounce: u64,
    latest_nounce: u64,
    solutions: Vec<Solution>,
    threshold: u32,
}

impl View for JobAttempt {
    type V = AttemptModel;

    closed spec fn view(&self) -> AttemptModel {
        AttemptModel {
            job: self.job,
            prefix: self.buffer@.take(self.prefix_len as int),
            suffix: self.buffer@.skip(self.prefix_len as int),
            next_nounce: self.next_nounce,
            latest_nounce: self.latest_nounce,
            solutions: solutions_view(self.solutions@),
            threshold: self.threshold,
        }
    }
}

impl JobAttempt {
    /// The attempt's internal invariant: the identifier prefix fits the
    /// buffer, the job range is non-empty, the counter suffix is drawn
    /// from the alphabet, and progress stays within the range.
    pub closed spec fn wf(&self) -> bool {
        &&& self.prefix_len <= self.buffer@.len()
        &&& suffix_in_alphabet(self.buffer@.skip(self.prefix_len as int))
        &&& self.job.nounce_start < self.job.nounce_end
        &&& self.job.nounce_start <= self.next_nounce <= self.job.nounce_end
        &&& self.latest_nounce == if self.next_nounce == self.job.nounce_start {
            self.job.nounce_start
        } else {
            (self.next_nounce - 1) as u64
        }
    }

    /// Start an attempt: the candidate buffer is the operator-identifier
    /// bytes followed by the uppercase base-36 rendering of the range
    /// start, and no step has run yet.
    pub fn with_threshold(student_number: &str, job: Job, threshold: u32) -> (r: Self)
        requires
            student_number.is_ascii(),
            job.nounce_start < job.nounce_end,
            student_number@.len() + 64 <= usize::MAX,
        ensures
            r.wf(),
            r@.job == job,
            r@.threshold == threshold,
            r@.prefix == chars_as_bytes(student_number@),
            r@.suffix == spec_base36_upper(job.nounce_start as nat),
            r@.next_nounce == job.nounce_start,
            r@.latest_nounce == job.nounce_start,
            r@.solutions == Seq::<SolutionModel>::empty(),
    {
        broadcast use vstd::string::is_ascii_spec_bytes;

        let mut buffer = student_number.as_bytes_vec();
        let prefix_len = buffer.len();
        let ghost prefix = buffer@;
        let mut suffix = base36_upper(job.nounce_start);
        proof {
            lemma_base36_upper_in_alphabet(job.nounce_start as nat);
        }
        buffer.append(&mut suffix);
        let r = JobAttempt {
            job,
            prefix_len,
            buffer,
            next_nounce: job.nounce_start,
            latest_nounce: job.nounce_start,
            solutions: Vec::new(),
            threshold,
        };
        proof {
            assert(r.buffer@.take(prefix_len as int) =~= prefix);
            assert(r.buffer@.skip(prefix_len as int) =~= spec_base36_upper(
                job.nounce_start as nat,
            ));
            assert(prefix =~= chars_as_bytes(student_number@));
            assert(solutions_view(Seq::<Solution>::empty()) =~= Seq::<SolutionModel>::empty());
        }
        r
    }

    /// Start an attempt at the configured difficulty threshold.
    pub fn new(student_number: &str, job: Job) -> (r: Self)
        requires
            student_number.is_ascii(),
            job.nounce_start < job.nounce_end,
            student_number@.len() + 64 <= usize::MAX,
        ensures
            r.wf(),
            r@.job == job,
            r@.threshold == MINIMUM_ZERO_BIT_LENGTH,
            r@.prefix == chars_as_bytes(student_number@),
            r@.suffix == spec_base36_upper(job.nounce_start as nat),
            r@.next_nounce == job.nounce_start,
            r@.latest_nounce == job.nounce_start,
            r@.solutions == Seq::<SolutionModel>::empty(),
    {
        Self::with_threshold(student_number, job, MINIMUM_ZERO_BIT_LENGTH)
    }

    /// Whether every step of the range has been processed.
    pub fn finished(&self) -> (r: bool)
        ensures
            r == (self@.next_nounce == self@.job.nounce_end),
    {
        self.next_nounce == self.job.nounce_end
    }

    /// A copy of the counter suffix.
    fn suffix_vec(&self) -> (r: Vec<u8>)
        requires
            self.prefix_len <= self.buffer@.len(),
        ensures
            r@ == self.buffer@.skip(self.prefix_len as int),
    {
        let mut out: Vec<u8> = Vec::new();
        let mut i: usize = self.prefix_len;
        while i < self.buffer.len()
            invariant
                self.prefix_len <= i <= self.buffer@.len(),
                out@ == self.buffer@.subrange(self.prefix_len as int, i as int),
            decreases self.buffer@.len() - i,
        {
            out.push(self.buffer[i]);
            proof {
                assert(self.buffer@.subrange(self.prefix_len as int, i + 1)
                    =~= self.buffer@.subrange(self.prefix_len as int, i as int).push(
                    self.buffer@[i as int],
                ));
            }
            i = i + 1;
        }
        proof {
            assert(self.buffer@.subrange(self.prefix_len as int, self.buffer@.len() as int)
                =~= self.buffer@.skip(self.prefix_len as int));
        }
        out
    }

    /// Process exactly one candidate: hash it, capture a solution when the
    /// digest meets the threshold, and advance the counter.
    pub fn step(&mut self, now: u64)
        requires
            old(self).wf(),
            old(self)@.next_nounce < old(self)@.job.nounce_end,
            old(self)@.prefix.len() + old(self)@.suffix.len() < usize::MAX,
        ensures
            final(self).wf(),
            final(self)@ == spec_step(old(self)@, now),
            final(self)@.suffix.len() <= old(self)@.suffix.len() + 1,
    {
        let ghost m = old(self)@;
        proof {
            assert(self.buffer@.take(self.prefix_len as int) + self.buffer@.skip(
                self.prefix_len as int,
            ) =~= self.buffer@);
        }
        let digest = sha256_digest(self.buffer.as_slice());
        let count = count_leading_zero_bits(digest.as_slice());
        if count >= self.threshold {
            let sha256 = sha245_to_string(digest.as_slice());
            let suffix = self.suffix_vec();
            proof {
                assert forall|i: int| 0 <= i < suffix@.len() implies suffix@[i] < 128 by {
                    assert(crate::counter::in_alphabet(suffix@[i]));
                }
            }
            let nounce = crate::digest::ascii_to_string(suffix);
            let solution = Solution {
                sha256,
                nounce,
                leading_zero_bit_length: count,
                time: now,
            };
            self.solutions.push(solution);
            proof {
                let digest_model = sha256_of(m.prefix + m.suffix);
                assert(self.solutions@.last()@ =~~= SolutionModel {
                    sha256: bytes_as_chars(hex_lower_bytes(digest_model)),
                    nounce: bytes_as_chars(m.suffix),
                    leading_zero_bit_length: spec_leading_zero_bits(digest_model),
                    time: now,
                });
                assert(solutions_view(self.solutions@) =~~= solutions_view(
                    old(self).solutions@,
                ).push(self.solutions@.last()@));
            }
        }
        let prefix_len = self.prefix_len;
        increment_byte_string(&mut self.buffer, prefix_len);
        self.latest_nounce = self.next_nounce;
        self.next_nounce = self.next_nounce + 1;
        proof {
            lemma_increment_value(m.suffix);
            lemma_increment_len(m.suffix);
            assert(self.buffer@.take(self.prefix_len as int) =~= m.prefix);
            assert(self.buffer@.skip(self.prefix_len as int) =~= spec_increment(m.suffix));
            assert(self@ =~~= spec_step(m, now));
        }
    }

    /// Run up to `budget` search steps, stopping early when the range is
    /// exhausted. Returns how many steps ran. This is the stretch between
    /// two cancellation checkpoints: the caller re-checks the stop signal
    /// between batches.
    pub fn run_batch(&mut self, budget: u64, now: u64) -> (steps: u64)
        requires
            old(self).wf(),
            old(self)@.prefix.len() + old(self)@.suffix.len() + budget <= usize::MAX,
        ensures
            final(self).wf(),
            steps == if budget <= old(self)@.job.nounce_end - old(self)@.next_nounce {
                budget as int
            } else {
                old(self)@.job.nounce_end - old(self)@.next_nounce
            },
            final(self)@ == spec_run(old(self)@, steps as nat, now),
    {
        let ghost m = old(self)@;
        let remaining = self.job.nounce_end - self.next_nounce;
        let n = if budget <= remaining {
            budget
        } else {
            remaining
        };
        let mut i: u64 = 0;
        while i < n
            invariant
                0 <= i <= n,
                n <= budget,
                self.wf(),
                m.next_nounce + n <= m.job.nounce_end,
                m.prefix.len() + m.suffix.len() + budget <= usize::MAX,
                self@ == spec_run(m, i as nat, now),
                self@.prefix == m.prefix,
                self@.job == m.job,
                self@.next_nounce == m.next_nounce + i,
                self@.suffix.len() <= m.suffix.len() + i,
            decreases n - i,
        {
            self.step(now);
            i = i + 1;
        }
        n
    }

    /// The snapshot published for external observers: job identity, how
    /// far the search has come, and how many solutions it found.
    pub fn current_job_snapshot(&self) -> (r: CurrentJob)
        requires
            self.wf(),
        ensures
            r.job_number == self@.job.number,
            r.size == self@.job.size,
            r.progress == self@.next_nounce - self@.job.nounce_start,
            r.solutions == self@.solutions.len(),
    {
        CurrentJob {
            progress: self.next_nounce - self.job.nounce_start,
            size: self.job.size,
            job_number: self.job.number,
            solutions: self.solutions.len(),
        }
    }

    /// The length of the whole candidate buffer, identifier prefix plus
    /// counter suffix.
    pub fn candidate_len(&self) -> (r: usize)
        requires
            self.wf(),
        ensures
            r == self@.prefix.len() + self@.suffix.len(),
    {
        proof {
            assert(self.buffer@.take(self.prefix_len as int) + self.buffer@.skip(
                self.prefix_len as int,
            ) =~= self.buffer@);
        }
        self.buffer.len()
    }

    /// Borrow every solution captured so far, in capture order.
    pub fn solutions(&self) -> (r: &Vec<Solution>)
        ensures
            solutions_view(r@) == self@.solutions,
    {
        &self.solutions
    }

    /// How many candidates have been hashed: the distance from the range
    /// start to the last step processed.
    pub fn hashes_processed(&self) -> (r: u64)
        requires
            self.wf(),
        ensures
            r == self@.latest_nounce - self@.job.nounce_start,
    {
        self.latest_nounce - self.job.nounce_start
    }

    /// Finish the attempt: the submission report covers the range from
    /// `nounce_start` through the last step processed, inclusive, and
    /// carries every captured solution.
    pub fn into_submission(
        self,
        name: &String,
        student_number: &String,
        thread_hashes_per_second: u64,
        total_hashes_per_second: u64,
    ) -> (r: SubmittionPacket)
        requires
            self.wf(),
        ensures
            r.job_n == self@.job.number,
            r.name@ == name@,
            r.student_number@ == student_number@,
            r.thread_hashes_per_second == thread_hashes_per_second,
            r.total_hashes_per_second == total_hashes_per_second,
            r.nounce_start == self@.job.nounce_start,
            r.nounce_end == self@.latest_nounce + 1,
            solutions_view(r.solutions@) == self@.solutions,
    {
        SubmittionPacket {
            job_n: self.job.number,
            name: crate::packets::clone_string(name),
            student_number: crate::packets::clone_string(student_number),
            thread_hashes_per_second,
            total_hashes_per_second,
            nounce_start: self.job.nounce_start,
            nounce_end: self.latest_nounce + 1,
            solutions: self.solutions,
        }
    }
}

/// What one tick of the job-acquisition backoff decides.
pub enum BackoffDecision {
    /// A stop was requested: leave the worker loop now.
    Exit,
    /// Keep waiting: sleep one tick and ask again.
    Sleep,
    /// The backoff ceiling is spent: retry job acquisition.
    Retry,
}

/// Decide one tick of the backoff loop that follows a failed job request.
/// A pending stop request always wins, so a stop set mid-backoff is
/// honored within one tick; otherwise the worker sleeps until the ceiling
/// of `BACKOFF_TICKS` ticks is spent, then retries.
pub fn backoff_step(tick: u32, stop_requested: bool) -> (d: BackoffDecision)
    ensures
        stop_requested ==> d is Exit,
        !stop_requested && tick < BACKOFF_TICKS ==> d is Sleep,
        !stop_requested && tick >= BACKOFF_TICKS ==> d is Retry,
{
    if stop_requested {
        BackoffDecision::Exit
    } else if tick < BACKOFF_TICKS {
        BackoffDecision::Sleep
    } else {
        BackoffDecision::Retry
    }
}

/// Law: at threshold zero every candidate is a solution, so `k` steps
/// capture exactly `k` solutions.
pub proof fn lemma_threshold_zero_catches_all(m: AttemptModel, k: nat, now: u64)
    requires
        m.threshold == 0,
    ensures
        spec_run(m, k, now).solutions.len() == m.solutions.len() + k,
        spec_run(m, k, now).threshold == 0,
    decreases k,
{
    if k > 0 {
        lemma_threshold_zero_catches_all(m, (k - 1) as nat, now);
        let prev = spec_run(m, (k - 1) as nat, now);
        lemma_leading_zero_bits_bound(sha256_of(prev.prefix + prev.suffix));
    }
}

/// Every captured solution's leading-zero-bit count meets the attempt's
/// threshold.
pub open spec fn solutions_meet_threshold(m: AttemptModel) -> bool {
    forall|i: int|
        0 <= i < m.solutions.len() ==> (#[trigger] m.solutions[i]).leading_zero_bit_length
            >= m.threshold
}

/// Law: every solution ever placed in the list met the difficulty
/// threshold, however many steps run.
pub proof fn lemma_solutions_meet_threshold(m: AttemptModel, k: nat, now: u64)
    requires
        solutions_meet_threshold(m),
    ensures
        solutions_meet_threshold(spec_run(m, k, now)),
        spec_run(m, k, now).threshold == m.threshold,
    decreases k,
{
    if k > 0 {
        lemma_solutions_meet_threshold(m, (k - 1) as nat, now);
    }
}

/// Law: a run of steps keeps the job and prefix, advances progress one
/// step at a time, and drives the counter suffix through exactly the
/// iterated increments of its starting state — so no candidate is ever
/// hashed twice.
pub proof fn lemma_spec_run_progress(m: AttemptModel, k: nat, now: u64)
    requires
        m.next_nounce + k <= m.job.nounce_end,
    ensures
        spec_run(m, k, now).job == m.job,
        spec_run(m, k, now).prefix == m.prefix,
        spec_run(m, k, now).threshold == m.threshold,
        spec_run(m, k, now).next_nounce == m.next_nounce + k,
        spec_run(m, k, now).suffix == iter_increment(m.suffix, k),
    decreases k,
{
    if k > 0 {
        lemma_spec_run_progress(m, (k - 1) as nat, now);
    }
}

} // verus!
