//! The shared application state and the worker-pool lifecycle rules: how
//! the pool reconciles its worker count against the desired count, how
//! operator input changes that state, and how the aggregate hash rate is
//! read from it.
//!
//! Here a worker handle is the data the rest of the system reads of a
//! worker — its lifecycle state, its published job snapshot and its rate
//! history. The OS thread behind a handle, the locks around these cells,
//! and the maintenance loop's sleeps live outside the library; the
//! decisions of each maintenance iteration are made here.

use vstd::prelude::*;

use crate::log::Logger;
use crate::packets::PoolStatusResponsePacket;
use crate::rate::{HashRateHistory, spec_mean};

verus! {

/// The lifecycle of one mining worker. A worker starts in `NotStated`,
/// moves to `Mining` when a job begins executing, and only the pool
/// manager ever sets `StopSignal`, which is terminal: the worker observes
/// it at its next cancellation checkpoint and exits.
#[derive(PartialEq, Eq, Structural, Debug, Clone, Copy)]
pub enum ThreadState {
    NotStated,
    Mining,
    StopSignal,
}

/// The job snapshot a worker publishes for external observers.
#[derive(Clone, Copy)]
pub struct CurrentJob {
    pub progress: u64,
    pub size: u64,
    pub job_number: u64,
    pub solutions: usize,
}

/// What the rest of the system holds of one mining worker: its published
/// job snapshot, its lifecycle state and its hash-rate history.
#[derive(Clone)]
pub struct MiningThread {
    pub current_job: Option<CurrentJob>,
    pub state: ThreadState,
    pub hash_rate_history: HashRateHistory,
}

/// The handle a worker is retired through: the same handle with its state
/// forced to `StopSignal`.
pub open spec fn stopped(t: MiningThread) -> MiningThread {
    MiningThread { state: ThreadState::StopSignal, ..t }
}

/// The single shared application record.
pub struct Application {
    pub student_number: String,
    pub name: String,
    pub quitting: bool,
    pub threads_cleaned_up: bool,
    pub threads: Vec<MiningThread>,
    pub expected_thread_count: usize,
    pub log: Logger,
    pub pool_status: Option<PoolStatusResponsePacket>,
}

/// The sum of every worker's own mean hash rate.
pub open spec fn sum_means(ts: Seq<MiningThread>) -> int
    decreases ts.len(),
{
    if ts.len() == 0 {
        0
    } else {
        spec_mean(ts[0].hash_rate_history@) + sum_means(ts.skip(1))
    }
}

/// The aggregate hash rate of a pool: the arithmetic mean of each
/// worker's own mean rate, rounded toward zero, or 0 with no workers.
pub open spec fn spec_total_hashrate(ts: Seq<MiningThread>) -> int {
    if ts.len() == 0 {
        0
    } else {
        sum_means(ts) / ts.len() as int
    }
}

impl Application {
    /// The state's internal invariant: the log and every worker's rate
    /// history are within their bounds.
    pub open spec fn wf(&self) -> bool {
        &&& self.log.wf()
        &&& forall|i: int|
            0 <= i < self.threads@.len() ==> (#[trigger] self.threads@[i]).hash_rate_history.wf()
    }

    /// A fresh application record with no workers spawned yet.
    pub fn start(student_number: String, thread_count: usize, name: String) -> (r: Self)
        ensures
            r.wf(),
            r.student_number == student_number,
            r.name == name,
            !r.quitting,
            !r.threads_cleaned_up,
            r.threads@.len() == 0,
            r.expected_thread_count == thread_count,
            r.log@ == Seq::<crate::log::LogMessage>::empty(),
            r.pool_status is None,
    {
        Application {
            name,
            student_number,
            quitting: false,
            threads_cleaned_up: false,
            threads: Vec::new(),
            expected_thread_count: thread_count,
            log: Logger::new(),
            pool_status: None,
        }
    }

    /// The aggregate hash rate across the pool: the mean of each active
    /// worker's own mean rate, or 0 when there are no workers.
    pub fn total_hashrate(&self) -> (r: u64)
        requires
            self.wf(),
        ensures
            r == spec_total_hashrate(self.threads@),
    {
        if self.threads.len() == 0 {
            return 0;
        }
        let mut total: u128 = 0;
        let mut i: usize = 0;
        while i < self.threads.len()
            invariant
                self.wf(),
                0 <= i <= self.threads@.len(),
                total == sum_means(self.threads@.take(i as int)),
                total <= i * (u64::MAX as int),
            decreases self.threads@.len() - i,
        {
            let thread_rate = self.threads[i].hash_rate_history.get_hashrate();
            proof {
                lemma_sum_means_take_step(self.threads@, i as int);
            }
            total = total + thread_rate as u128;
            i = i + 1;
        }
        let count = self.threads.len() as u128;
        proof {
            assert(self.threads@.take(self.threads@.len() as int) =~= self.threads@);
            assert(sum_means(self.threads@) / (self.threads@.len() as int) <= u64::MAX)
                by (nonlinear_arith)
                requires
                    0 <= sum_means(self.threads@) <= self.threads@.len() * (u64::MAX as int),
                    self.threads@.len() > 0,
            ;
        }
        (total / count) as u64
    }

    /// One spawning pass of the maintenance loop: append a fresh handle
    /// for every missing slot until the pool holds the desired count.
    /// Existing handles and every other field are untouched. The caller
    /// starts one OS thread per fresh handle.
    pub fn spawn_missing(&mut self)
        requires
            old(self).wf(),
        ensures
            final(self).wf(),
            *final(self) == (Application { threads: final(self).threads, ..*old(self) }),
            final(self).threads@.len() == if old(self).threads@.len()
                >= old(self).expected_thread_count {
                old(self).threads@.len() as int
            } else {
                old(self).expected_thread_count as int
            },
            forall|i: int|
                0 <= i < old(self).threads@.len() ==> final(self).threads@[i] == old(
                    self,
                ).threads@[i],
            forall|i: int|
                old(self).threads@.len() <= i < final(self).threads@.len() ==> {
                    &&& (#[trigger] final(self).threads@[i]).state is NotStated
                    &&& final(self).threads@[i].current_job is None
                    &&& final(self).threads@[i].hash_rate_history@ == Seq::<u64>::empty()
                },
    {
        while self.threads.len() < self.expected_thread_count
            invariant
                old(self).wf(),
                *self == (Application { threads: self.threads, ..*old(self) }),
                old(self).threads@.len() <= self.threads@.len(),
                old(self).threads@.len() < old(self).expected_thread_count ==> self.threads@.len()
                    <= old(self).expected_thread_count,
                old(self).threads@.len() >= old(self).expected_thread_count ==> self.threads@.len()
                    == old(self).threads@.len(),
                forall|i: int|
                    0 <= i < old(self).threads@.len() ==> self.threads@[i] == old(
                        self,
                    ).threads@[i],
                forall|i: int|
                    old(self).threads@.len() <= i < self.threads@.len() ==> {
                        &&& (#[trigger] self.threads@[i]).state is NotStated
                        &&& self.threads@[i].current_job is None
                        &&& self.threads@[i].hash_rate_history@ == Seq::<u64>::empty()
                    },
            decreases old(self).expected_thread_count - self.threads@.len(),
        {
            let handle = MiningThread {
                current_job: None,
                state: ThreadState::NotStated,
                hash_rate_history: HashRateHistory::new(),
            };
            self.threads.push(handle);
        }
    }

    /// One shrinking pass of the maintenance loop: when the pool holds
    /// more workers than desired, pop the most recently added handle and
    /// signal it to stop. The caller blocks joining that worker's thread
    /// before asking again, so removals stay sequential. Returns the
    /// signaled handle, or nothing when the pool is not oversized.
    pub fn retire_one(&mut self) -> (r: Option<MiningThread>)
        requires
            old(self).wf(),
        ensures
            final(self).wf(),
            *final(self) == (Application { threads: final(self).threads, ..*old(self) }),
            old(self).threads@.len() > old(self).expected_thread_count ==> {
                &&& final(self).threads@ == old(self).threads@.drop_last()
                &&& r matches Some(t) && t == stopped(old(self).threads@.last())
            },
            old(self).threads@.len() <= old(self).expected_thread_count ==> {
                &&& final(self).threads@ == old(self).threads@
                &&& r is None
            },
    {
        if self.threads.len() > self.expected_thread_count {
            let popped = self.threads.pop();
            match popped {
                Some(mut t) => {
                    t.state = ThreadState::StopSignal;
                    Some(t)
                },
                None => None,
            }
        } else {
            None
        }
    }

    /// The quit check that ends every maintenance iteration: once
    /// quitting is requested the desired count is forced to zero, and
    /// when the last worker has drained, cleanup is marked complete and
    /// the maintenance loop may end.
    pub fn quit_check(&mut self) -> (done: bool)
        requires
            old(self).wf(),
        ensures
            final(self).wf(),
            final(self).threads@ == old(self).threads@,
            !old(self).quitting ==> *final(self) == *old(self) && !done,
            old(self).quitting ==> {
                &&& final(self).expected_thread_count == 0
                &&& *final(self) == (Application {
                    expected_thread_count: 0,
                    threads_cleaned_up: final(self).threads_cleaned_up,
                    ..*old(self)
                })
                &&& done == (old(self).threads@.len() == 0)
                &&& final(self).threads_cleaned_up == (old(self).threads_cleaned_up || done)
            },
    {
        if self.quitting {
            self.expected_thread_count = 0;
            if self.threads.len() == 0 {
                self.threads_cleaned_up = true;
                return true;
            }
        }
        false
    }

    /// Whether the external interface may shut down: quitting was
    /// requested and the pool has fully drained.
    pub fn ui_should_exit(&self) -> (r: bool)
        ensures
            r == (self.quitting && self.threads_cleaned_up),
    {
        self.quitting && self.threads_cleaned_up
    }

    /// Store the most recent pool status snapshot for the status display.
    pub fn set_pool_status(&mut self, status: PoolStatusResponsePacket)
        requires
            old(self).wf(),
        ensures
            final(self).wf(),
            *final(self) == (Application {
                pool_status: final(self).pool_status,
                ..*old(self)
            }),
            final(self).pool_status matches Some(s) && s == status,
    {
        self.pool_status = Some(status);
    }
}

/// What operator input may ask of the pool.
pub enum InputEvent {
    /// Begin a graceful shutdown.
    Quit,
    /// Ask for one more worker.
    IncreaseThreads,
    /// Ask for one fewer worker; at zero the request is ignored.
    DecreaseThreads,
}

impl Application {
    /// Apply one operator input event: quitting sets the quitting flag,
    /// and the desired worker count moves up or down by one, never below
    /// zero.
    pub fn handle_input(&mut self, event: InputEvent)
        requires
            old(self).wf(),
            event is IncreaseThreads ==> old(self).expected_thread_count < usize::MAX,
        ensures
            final(self).wf(),
            match event {
                InputEvent::Quit => *final(self) == (Application {
                    quitting: true,
                    ..*old(self)
                }),
                InputEvent::IncreaseThreads => *final(self) == (Application {
                    expected_thread_count: (old(self).expected_thread_count + 1) as usize,
                    ..*old(self)
                }),
                InputEvent::DecreaseThreads => *final(self) == (Application {
                    expected_thread_count: if old(self).expected_thread_count == 0 {
                        0
                    } else {
                        (old(self).expected_thread_count - 1) as usize
                    },
                    ..*old(self)
                }),
            },
    {
        match event {
            InputEvent::Quit => {
                self.quitting = true;
            },
            InputEvent::IncreaseThreads => {
                self.expected_thread_count = self.expected_thread_count + 1;
            },
            InputEvent::DecreaseThreads => {
                if self.expected_thread_count != 0 {
                    self.expected_thread_count = self.expected_thread_count - 1;
                }
            },
        }
    }
}

/// Summing one more worker's mean adds exactly that mean.
proof fn lemma_sum_means_take_step(ts: Seq<MiningThread>, i: int)
    requires
        0 <= i < ts.len(),
    ensures
        sum_means(ts.take(i + 1)) == sum_means(ts.take(i)) + spec_mean(
            ts[i].hash_rate_history@,
        ),
    decreases i,
{
    if i == 0 {
        assert(ts.take(1).skip(1) =~= Seq::<MiningThread>::empty());
        assert(ts.take(0) =~= Seq::<MiningThread>::empty());
    } else {
        lemma_sum_means_take_step(ts.skip(1), i - 1);
        assert(ts.take(i + 1).skip(1) =~= ts.skip(1).take(i));
        assert(ts.take(i).skip(1) =~= ts.skip(1).take(i - 1));
        assert(ts.skip(1)[i - 1] == ts[i]);
    }
}

} // verus!
