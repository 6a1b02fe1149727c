//! The job-protocol data model: the request and response packets the
//! coordinator exchanges with this client, and the classification of how an
//! exchange ended.
//!
//! The transport (HTTP and JSON encoding) lives outside the library; it
//! hands a delivered response, or the kind of failure, back as plain
//! values.

use vstd::prelude::*;

verus! {

/// Asks the coordinator for a job.
pub struct JobRequestPacket {
    pub student_number: String,
    pub name: String,
}

/// A coordinator-assigned, exclusive numeric search range.
///
/// A well-formed job covers the non-empty range
/// `[nounce_start, nounce_end)`.
#[derive(Clone, Copy)]
pub struct Job {
    pub number: u64,
    pub size: u64,
    pub nounce_start: u64,
    pub nounce_end: u64,
}

/// The coordinator's answer to a job request: a job, or an explicit
/// application-level rejection carrying a message.
pub enum JobResponsePacket {
    Success(Job),
    Error(String),
}

/// Announces this client to the coordinator.
pub struct BootRequest {
    pub student_number: String,
    pub name: String,
}

/// The coordinator's acknowledgment of a boot or shutdown announcement.
pub struct CommandResponse {
    pub ok: bool,
    pub msg: Option<String>,
}

/// Announces that this client is leaving.
pub struct ShutdownRequest {
    pub name: String,
    pub student_number: String,
}

/// A candidate whose digest met the difficulty threshold.
pub struct Solution {
    /// The digest, as its 64-character lowercase hex rendering.
    pub sha256: String,
    /// The literal candidate suffix that produced the digest.
    pub nounce: String,
    /// How many leading zero bits the digest has.
    pub leading_zero_bit_length: u32,
    /// When the solution was found, in milliseconds since the epoch.
    pub time: u64,
}

/// The mathematical shape of a solution: the characters of its two strings
/// and its plain numbers.
#[verifier::ext_equal]
pub ghost struct SolutionModel {
    pub sha256: Seq<char>,
    pub nounce: Seq<char>,
    pub leading_zero_bit_length: int,
    pub time: u64,
}

impl View for Solution {
    type V = SolutionModel;

    open spec fn view(&self) -> SolutionModel {
        SolutionModel {
            sha256: self.sha256@,
            nounce: self.nounce@,
            leading_zero_bit_length: self.leading_zero_bit_length as int,
            time: self.time,
        }
    }
}

/// The views of a sequence of solutions.
pub open spec fn solutions_view(s: Seq<Solution>) -> Seq<SolutionModel> {
    s.map_values(|sol: Solution| sol@)
}

/// The report sent to the coordinator when a job attempt ends, covering
/// the actually-searched range and every solution found in it.
pub struct SubmittionPacket {
    pub job_n: u64,
    pub name: String,
    pub student_number: String,
    /// This thread's hash rate over the whole attempt, in hashes per
    /// second.
    pub thread_hashes_per_second: u64,
    /// The aggregate hash rate across all active threads, in hashes per
    /// second.
    pub total_hashes_per_second: u64,
    pub nounce_start: u64,
    pub nounce_end: u64,
    pub solutions: Vec<Solution>,
}

/// The coordinator's answer to a submission.
pub struct SubmittionResponsePacket {
    pub success: bool,
}

/// Asks the coordinator for aggregate pool statistics.
pub struct PoolStatusRequestPacket {
    pub student_number: String,
}

/// Aggregate pool statistics, consumed by the external status display.
#[derive(Clone, Copy)]
pub struct PoolStatusResponsePacket {
    pub completed_jobs: u64,
    pub user_total_shares: u64,
    pub pool_total_shares: u64,
    pub pool_best_zero_length: u32,
    /// This operator's aggregate hash rate as the pool sees it, in hashes
    /// per second.
    pub user_total_hash_rate: u64,
}

/// How one request/response exchange with the coordinator ended, as the
/// transport reports it: the response was delivered and decoded, or the
/// exchange could not complete, or the response did not match the expected
/// shape.
pub enum ExchangeOutcome<T> {
    Delivered(T),
    TransportFailed,
    DecodeFailed,
}

/// Why a call against the coordinator failed: the exchange could not
/// complete, the response did not decode, or the coordinator explicitly
/// rejected the request with a message.
pub enum ProtocolError {
    Transport,
    Decode,
    Application(String),
}

/// Classify the outcome of a job request: a delivered job is the one
/// success; every other outcome is the failure it reports. The caller's
/// retry path treats all three failures uniformly; the distinction is kept
/// for logging.
pub fn classify_job_outcome(outcome: ExchangeOutcome<JobResponsePacket>) -> (r: Result<
    Job,
    ProtocolError,
>)
    ensures
        match outcome {
            ExchangeOutcome::Delivered(JobResponsePacket::Success(job)) => r
                matches Ok(j) && j == job,
            ExchangeOutcome::Delivered(JobResponsePacket::Error(m)) => r matches Err(
                ProtocolError::Application(msg),
            ) && msg@ == m@,
            ExchangeOutcome::TransportFailed => r matches Err(ProtocolError::Transport),
            ExchangeOutcome::DecodeFailed => r matches Err(ProtocolError::Decode),
        },
{
    match outcome {
        ExchangeOutcome::Delivered(JobResponsePacket::Success(job)) => Ok(job),
        ExchangeOutcome::Delivered(JobResponsePacket::Error(m)) => Err(
            ProtocolError::Application(m),
        ),
        ExchangeOutcome::TransportFailed => Err(ProtocolError::Transport),
        ExchangeOutcome::DecodeFailed => Err(ProtocolError::Decode),
    }
}

/// Build the boot announcement for this operator and machine.
pub fn boot_request(student_number: &String, name: &String) -> (r: BootRequest)
    ensures
        r.student_number@ == student_number@,
        r.name@ == name@,
{
    BootRequest { student_number: clone_string(student_number), name: clone_string(name) }
}

/// Build the shutdown announcement for this operator and machine.
pub fn shutdown_request(student_number: &String, name: &String) -> (r: ShutdownRequest)
    ensures
        r.student_number@ == student_number@,
        r.name@ == name@,
{
    ShutdownRequest { name: clone_string(name), student_number: clone_string(student_number) }
}

/// Build a job request for this operator and machine.
pub fn job_request_packet(student_number: &String, name: &String) -> (r: JobRequestPacket)
    ensures
        r.student_number@ == student_number@,
        r.name@ == name@,
{
    JobRequestPacket { student_number: clone_string(student_number), name: clone_string(name) }
}

/// Build a pool-status request for this operator.
pub fn pool_status_request(student_number: &String) -> (r: PoolStatusRequestPacket)
    ensures
        r.student_number@ == student_number@,
{
    PoolStatusRequestPacket { student_number: clone_string(student_number) }
}

/// A copy of a string with the same characters.
pub fn clone_string(s: &String) -> (r: String)
    ensures
        r@ == s@,
{
    s.clone()
}

} // verus!
