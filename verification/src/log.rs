//! The append-only event log the core publishes solutions, information and
//! errors into. An external presentation layer drains or snapshots it; the
//! log itself never renders anything.

use vstd::prelude::*;

verus! {

/// The most messages the log retains; adding beyond this drops the oldest.
pub const LOG_CAPACITY: usize = 100;

/// One event published by the core.
#[derive(Clone)]
pub enum LogMessage {
    /// A candidate whose digest met the difficulty threshold.
    Solution { hash: String, nounce: String, leading_zero_bit_length: u32 },
    /// Informational text.
    Info(String),
    /// An error report, such as a failed exchange with the coordinator.
    Error(String),
}

/// A bounded queue of log messages, oldest first.
pub struct Logger {
    messages: Vec<LogMessage>,
}

impl View for Logger {
    type V = Seq<LogMessage>;

    closed spec fn view(&self) -> Seq<LogMessage> {
        self.messages@
    }
}

/// A log about to receive one more message: a full log first drops its
/// oldest entry.
pub open spec fn spec_trim(s: Seq<LogMessage>) -> Seq<LogMessage> {
    if s.len() >= LOG_CAPACITY {
        s.skip(1)
    } else {
        s
    }
}

impl Logger {
    /// The log never holds more than `LOG_CAPACITY` messages.
    pub open spec fn wf(&self) -> bool {
        self@.len() <= LOG_CAPACITY
    }

    /// An empty log.
    pub fn new() -> (r: Self)
        ensures
            r@ == Seq::<LogMessage>::empty(),
            r.wf(),
    {
        Logger { messages: Vec::new() }
    }

    /// Record a found solution.
    pub fn solution(&mut self, hash: &String, nounce: &String, leading_zero_bit_length: u32)
        requires
            old(self).wf(),
        ensures
            final(self).wf(),
            final(self)@.len() == spec_trim(old(self)@).len() + 1,
            final(self)@.take(final(self)@.len() - 1) == spec_trim(old(self)@),
            final(self)@.last() matches LogMessage::Solution { hash: h, nounce: n, leading_zero_bit_length: l }
                && h@ == hash@ && n@ == nounce@ && l == leading_zero_bit_length,
    {
        let hash = hash.clone();
        let nounce = nounce.clone();

        self.clear_if_too_large();

        self.messages.push(LogMessage::Solution { hash, nounce, leading_zero_bit_length });
        proof {
            assert(self@.take(self@.len() - 1) =~= spec_trim(old(self)@));
        }
    }

    /// Record an error report.
    pub fn error(&mut self, message: &str)
        requires
            old(self).wf(),
        ensures
            final(self).wf(),
            final(self)@.len() == spec_trim(old(self)@).len() + 1,
            final(self)@.take(final(self)@.len() - 1) == spec_trim(old(self)@),
            final(self)@.last() matches LogMessage::Error(m) && m@ == message@,
    {
        self.clear_if_too_large();
        self.messages.push(LogMessage::Error(message.to_owned()));
        proof {
            assert(self@.take(self@.len() - 1) =~= spec_trim(old(self)@));
        }
    }

    /// Record informational text.
    pub fn info(&mut self, message: &str)
        requires
            old(self).wf(),
        ensures
            final(self).wf(),
            final(self)@.len() == spec_trim(old(self)@).len() + 1,
            final(self)@.take(final(self)@.len() - 1) == spec_trim(old(self)@),
            final(self)@.last() matches LogMessage::Info(m) && m@ == message@,
    {
        self.clear_if_too_large();
        self.messages.push(LogMessage::Info(message.to_owned()));
        proof {
            assert(self@.take(self@.len() - 1) =~= spec_trim(old(self)@));
        }
    }

    /// How many messages the log holds.
    pub fn len(&mut self) -> (r: usize)
        ensures
            *final(self) == *old(self),
            r == old(self)@.len(),
    {
        self.messages.len()
    }

    /// Remove and return the oldest message.
    pub fn pop(&mut self) -> (r: LogMessage)
        requires
            old(self)@.len() > 0,
        ensures
            final(self)@ == old(self)@.skip(1),
            r == old(self)@[0],
    {
        self.messages.remove(0)
    }

    /// Borrow every message, oldest first.
    pub fn get(&self) -> (r: &Vec<LogMessage>)
        ensures
            r@ == self@,
    {
        &self.messages
    }

    /// Drop the oldest message when the log is full, making room for one
    /// more.
    fn clear_if_too_large(&mut self)
        requires
            old(self).wf(),
        ensures
            final(self)@ == spec_trim(old(self)@),
            final(self)@.len() < LOG_CAPACITY,
    {
        if self.len() >= LOG_CAPACITY {
            self.pop();
        }
    }
}

} // verus!
