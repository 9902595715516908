//! Core data of the ledger: identities, job records, and the error taxonomy.

use vstd::prelude::*;

verus! {

/// An opaque, equality-comparable principal (a client, a freelancer, or the
/// admin). The registry never creates identities; callers supply them and the
/// registry only stores and compares them.
#[derive(Clone, Copy, PartialEq, Eq, Structural, Debug, Hash)]
pub struct Identity {
    pub id: u64,
}

impl Identity {
    pub fn new(id: u64) -> (r: Identity)
        ensures
            r == (Identity { id }),
    {
        Identity { id }
    }
}

/// The lifecycle stage of a job.
///
/// `Created` is part of the vocabulary but no operation of the registry ever
/// produces it: jobs enter the registry already `InEscrow`, and `Completed`
/// and `Cancelled` are terminal.
#[derive(Clone, Copy, PartialEq, Eq, Structural, Debug)]
pub enum JobStatus {
    Created,
    InEscrow,
    Completed,
    Cancelled,
}

/// Why an operation was refused. Every failure aborts the whole operation
/// and leaves the registry untouched.
#[derive(Clone, Copy, PartialEq, Eq, Structural, Debug)]
pub enum EscrowError {
    /// The caller could not prove control of the required identity.
    Unauthorized,
    /// A job was created with an amount that is zero or negative.
    InvalidAmount,
    /// A job was created under a `job_id` that is already taken.
    DuplicateJob,
    /// The referenced `job_id` is not in the registry.
    JobNotFound,
    /// The job is not `InEscrow`, so it can no longer be approved or cancelled.
    InvalidStateTransition,
    /// `set_admin` was called before any `initialize`.
    AdminNotSet,
}

/// One escrow agreement. `amount` is positive and fixed at creation;
/// `job_id` is the record's unique key in the registry.
#[derive(Debug, Eq, PartialEq)]
pub struct Job {
    pub client: Identity,
    pub freelancer: Identity,
    pub amount: i128,
    pub status: JobStatus,
    pub job_id: String,
}

/// The mathematical image of a [`Job`]: the same fields over `int` and
/// `Seq<char>`.
#[verifier::ext_equal]
pub ghost struct JobView {
    pub client: Identity,
    pub freelancer: Identity,
    pub amount: int,
    pub status: JobStatus,
    pub job_id: Seq<char>,
}

impl View for Job {
    type V = JobView;

    open spec fn view(&self) -> JobView {
        JobView {
            client: self.client,
            freelancer: self.freelancer,
            amount: self.amount as int,
            status: self.status,
            job_id: self.job_id@,
        }
    }
}

/// Whether `user` takes part in the job `j`, as its client or its freelancer.
pub open spec fn involves(j: JobView, user: Identity) -> bool {
    j.client == user || j.freelancer == user
}

} // verus!
