//! The job registry: owner of the job map and of the admin singleton.
//!
//! The registry is an explicit store object. Its mathematical state is a
//! [`RegistryView`]: a map from job identifier to [`JobView`] plus the
//! optional admin identity. Every operation's contract is stated against
//! that view, with the outcome and the successor state given by the
//! `*_result` and `*_post` spec functions below, so that the exact
//! behaviour on every input is pinned down.

use vstd::prelude::*;
use vstd::pervasive::VecAdditionalExecFns;

use crate::authority::AuthorityGate;
use crate::job::EscrowError;
use crate::job::Identity;
use crate::job::Job;
use crate::job::JobStatus;
use crate::job::JobView;
use crate::job::involves;

verus! {

/// The mathematical state of a registry: the job map and the admin.
#[verifier::ext_equal]
pub ghost struct RegistryView {
    pub jobs: Map<Seq<char>, JobView>,
    pub admin: Option<Identity>,
}

/// The job map that a sequence of records denotes: each record keyed by its
/// `job_id`. When a key occurs more than once, the later record wins; the
/// registry keeps the keys distinct, so that case never arises for it.
pub open spec fn jobs_map(s: Seq<Job>) -> Map<Seq<char>, JobView>
    decreases s.len(),
{
    if s.len() == 0 {
        Map::empty()
    } else {
        jobs_map(s.drop_last()).insert(s.last().job_id@, s.last()@)
    }
}

/// No two records share a `job_id`.
pub open spec fn distinct_job_ids(s: Seq<Job>) -> bool {
    forall|i: int, j: int| 0 <= i < j < s.len() ==> s[i].job_id@ != s[j].job_id@
}

/// The job that `create_job` enters into the registry: the caller's fields,
/// with status `InEscrow`.
pub open spec fn new_job_view(
    client: Identity,
    freelancer: Identity,
    amount: int,
    job_id: Seq<char>,
) -> JobView {
    JobView { client, freelancer, amount, status: JobStatus::InEscrow, job_id }
}

/// The same job with another status; all other fields kept.
pub open spec fn with_status(j: JobView, status: JobStatus) -> JobView {
    JobView { client: j.client, freelancer: j.freelancer, amount: j.amount, status, job_id: j.job_id }
}

/// Outcome of `initialize`: succeeds exactly when the call is authorized by
/// the admin being installed.
pub open spec fn initialize_result(auth: Set<Identity>, admin: Identity) -> Result<
    (),
    EscrowError,
> {
    if auth.contains(admin) {
        Ok(())
    } else {
        Err(EscrowError::Unauthorized)
    }
}

/// State after a successful `initialize`: the admin is installed (an earlier
/// admin, if any, is silently overwritten) and the jobs are untouched.
pub open spec fn initialize_post(pre: RegistryView, admin: Identity) -> RegistryView {
    RegistryView { jobs: pre.jobs, admin: Some(admin) }
}

/// Outcome of `create_job`: the client must have authorized the call, the
/// amount must be positive, and the `job_id` must be free — checked in that
/// order, each failure with its own error.
pub open spec fn create_result(
    pre: RegistryView,
    auth: Set<Identity>,
    client: Identity,
    amount: int,
    job_id: Seq<char>,
) -> Result<(), EscrowError> {
    if !auth.contains(client) {
        Err(EscrowError::Unauthorized)
    } else if amount <= 0 {
        Err(EscrowError::InvalidAmount)
    } else if pre.jobs.contains_key(job_id) {
        Err(EscrowError::DuplicateJob)
    } else {
        Ok(())
    }
}

/// State after a successful `create_job`: the new job is in the map under
/// `job_id`, in escrow; everything else is untouched.
pub open spec fn create_post(
    pre: RegistryView,
    client: Identity,
    freelancer: Identity,
    amount: int,
    job_id: Seq<char>,
) -> RegistryView {
    RegistryView {
        jobs: pre.jobs.insert(job_id, new_job_view(client, freelancer, amount, job_id)),
        admin: pre.admin,
    }
}

/// Outcome shared by `approve_job` and `cancel_job`: the job must exist, its
/// own client must have authorized the call, and it must still be in escrow —
/// checked in that order, each failure with its own error.
pub open spec fn finish_result(
    pre: RegistryView,
    auth: Set<Identity>,
    job_id: Seq<char>,
) -> Result<(), EscrowError> {
    if !pre.jobs.contains_key(job_id) {
        Err(EscrowError::JobNotFound)
    } else if !auth.contains(pre.jobs[job_id].client) {
        Err(EscrowError::Unauthorized)
    } else if pre.jobs[job_id].status != JobStatus::InEscrow {
        Err(EscrowError::InvalidStateTransition)
    } else {
        Ok(())
    }
}

/// State after a successful `approve_job` (status `Completed`) or
/// `cancel_job` (status `Cancelled`): only the job's status changes.
pub open spec fn finish_post(pre: RegistryView, job_id: Seq<char>, status: JobStatus) -> RegistryView {
    RegistryView {
        jobs: pre.jobs.insert(job_id, with_status(pre.jobs[job_id], status)),
        admin: pre.admin,
    }
}

/// Outcome of `set_admin`: an admin must already be set, and the *current*
/// admin must have authorized the call.
pub open spec fn set_admin_result(pre: RegistryView, auth: Set<Identity>) -> Result<
    (),
    EscrowError,
> {
    match pre.admin {
        Option::None => Err(EscrowError::AdminNotSet),
        Option::Some(a) => if auth.contains(a) {
            Ok(())
        } else {
            Err(EscrowError::Unauthorized)
        },
    }
}

/// State after a successful `set_admin`: the new admin replaces the old one;
/// the jobs are untouched.
pub open spec fn set_admin_post(pre: RegistryView, new_admin: Identity) -> RegistryView {
    RegistryView { jobs: pre.jobs, admin: Some(new_admin) }
}

proof fn lemma_jobs_map_contains(s: Seq<Job>, k: Seq<char>)
    ensures
        jobs_map(s).contains_key(k) <==> (exists|i: int| 0 <= i < s.len() && s[i].job_id@ == k),
    decreases s.len(),
{
    if s.len() > 0 {
        lemma_jobs_map_contains(s.drop_last(), k);
        if s.last().job_id@ == k {
            assert(s[s.len() - 1].job_id@ == k);
        } else {
            if exists|i: int| 0 <= i < s.len() && s[i].job_id@ == k {
                let i = choose|i: int| 0 <= i < s.len() && s[i].job_id@ == k;
                assert(s.drop_last()[i].job_id@ == k);
            }
            if exists|i: int| 0 <= i < s.drop_last().len() && s.drop_last()[i].job_id@ == k {
                let i = choose|i: int| 0 <= i < s.drop_last().len() && s.drop_last()[i].job_id@
                    == k;
                assert(s[i].job_id@ == k);
            }
        }
    }
}

proof fn lemma_jobs_map_index(s: Seq<Job>, i: int)
    requires
        distinct_job_ids(s),
        0 <= i < s.len(),
    ensures
        jobs_map(s).contains_key(s[i].job_id@),
        jobs_map(s)[s[i].job_id@] == s[i]@,
    decreases s.len(),
{
    if i < s.len() - 1 {
        assert(distinct_job_ids(s.drop_last()));
        lemma_jobs_map_index(s.drop_last(), i);
        assert(s.drop_last()[i] == s[i]);
        assert(s[i].job_id@ != s.last().job_id@);
    }
}

proof fn lemma_jobs_map_push(s: Seq<Job>, j: Job)
    ensures
        jobs_map(s.push(j)) == jobs_map(s).insert(j.job_id@, j@),
{
    assert(s.push(j).drop_last() =~= s);
    assert(s.push(j).last() == j);
}

proof fn lemma_jobs_map_update(s: Seq<Job>, i: int, j: Job)
    requires
        distinct_job_ids(s),
        0 <= i < s.len(),
        j.job_id@ == s[i].job_id@,
    ensures
        jobs_map(s.update(i, j)) == jobs_map(s).insert(j.job_id@, j@),
    decreases s.len(),
{
    let t = s.update(i, j);
    if i == s.len() - 1 {
        assert(t.drop_last() =~= s.drop_last());
        assert(t.last() == j);
        assert(jobs_map(s).insert(j.job_id@, j@) =~= jobs_map(s.drop_last()).insert(
            j.job_id@,
            j@,
        ));
    } else {
        assert(distinct_job_ids(s.drop_last()));
        lemma_jobs_map_update(s.drop_last(), i, j);
        assert(t.drop_last() =~= s.drop_last().update(i, j));
        assert(t.last() == s.last());
        assert(j.job_id@ != s.last().job_id@);
        assert(jobs_map(s.drop_last()).insert(j.job_id@, j@).insert(
            s.last().job_id@,
            s.last()@,
        ) =~= jobs_map(s.drop_last()).insert(s.last().job_id@, s.last()@).insert(j.job_id@, j@));
    }
}

/// The records of `s` in which `user` takes part, in their order in `s`.
pub open spec fn user_jobs_seq(s: Seq<Job>, user: Identity) -> Seq<Job>
    decreases s.len(),
{
    if s.len() == 0 {
        Seq::empty()
    } else if involves(s.last()@, user) {
        user_jobs_seq(s.drop_last(), user).push(s.last())
    } else {
        user_jobs_seq(s.drop_last(), user)
    }
}

proof fn lemma_user_jobs(s: Seq<Job>, user: Identity)
    requires
        distinct_job_ids(s),
    ensures
        ({
            let r = user_jobs_seq(s, user);
            let m = jobs_map(s);
            &&& forall|i: int|
                0 <= i < r.len() ==> {
                    &&& m.contains_key((#[trigger] r[i]).job_id@)
                    &&& r[i]@ == m[r[i].job_id@]
                    &&& involves(r[i]@, user)
                }
            &&& forall|k: Seq<char>|
                m.contains_key(k) && involves(#[trigger] m[k], user) ==> exists|i: int|
                    0 <= i < r.len() && r[i].job_id@ == k
            &&& forall|i: int, j: int| 0 <= i < j < r.len() ==> r[i].job_id@ != r[j].job_id@
        }),
    decreases s.len(),
{
    if s.len() > 0 {
        let s0 = s.drop_last();
        let last = s.last();
        let r0 = user_jobs_seq(s0, user);
        let m0 = jobs_map(s0);
        let r = user_jobs_seq(s, user);
        let m = jobs_map(s);
        assert(distinct_job_ids(s0));
        lemma_user_jobs(s0, user);
        assert(!m0.contains_key(last.job_id@)) by {
            lemma_jobs_map_contains(s0, last.job_id@);
            assert forall|i: int| 0 <= i < s0.len() implies s0[i].job_id@ != last.job_id@ by {
                assert(s[i].job_id@ != s[s.len() - 1].job_id@);
            }
        }
        assert(forall|i: int|
            0 <= i < r0.len() ==> (#[trigger] r0[i]).job_id@ != last.job_id@);
        if involves(last@, user) {
            assert(r == r0.push(last));
            assert forall|k: Seq<char>|
                m.contains_key(k) && involves(#[trigger] m[k], user) implies exists|i: int|
                0 <= i < r.len() && r[i].job_id@ == k by {
                if k == last.job_id@ {
                    assert(r[r.len() - 1].job_id@ == k);
                } else {
                    let i = choose|i: int| 0 <= i < r0.len() && r0[i].job_id@ == k;
                    assert(r[i].job_id@ == k);
                }
            }
        } else {
            assert(r == r0);
            assert forall|k: Seq<char>|
                m.contains_key(k) && involves(#[trigger] m[k], user) implies exists|i: int|
                0 <= i < r.len() && r[i].job_id@ == k by {
                assert(k != last.job_id@);
                let i = choose|i: int| 0 <= i < r0.len() && r0[i].job_id@ == k;
                assert(r[i].job_id@ == k);
            }
        }
    }
}

/// The registry. It owns all persistent state of the ledger: the collection
/// of jobs (keys unique, insertion order irrelevant) and the admin singleton.
pub struct EscrowContract {
    jobs: Vec<Job>,
    admin: Option<Identity>,
}

impl View for EscrowContract {
    type V = RegistryView;

    closed spec fn view(&self) -> RegistryView {
        RegistryView { jobs: jobs_map(self.jobs@), admin: self.admin }
    }
}

impl EscrowContract {
    /// Well-formedness: job identifiers are unique, every stored amount is
    /// positive, and no stored job is in the never-produced `Created` state.
    /// Constructors establish it and every operation preserves it.
    pub closed spec fn wf(&self) -> bool {
        &&& distinct_job_ids(self.jobs@)
        &&& forall|i: int|
            0 <= i < self.jobs@.len() ==> (#[trigger] self.jobs@[i]).amount > 0
        &&& forall|i: int|
            0 <= i < self.jobs@.len() ==> (#[trigger] self.jobs@[i]).status != JobStatus::Created
    }

    /// An empty registry: no jobs, no admin.
    pub fn new() -> (r: EscrowContract)
        ensures
            r.wf(),
            r@.jobs == Map::<Seq<char>, JobView>::empty(),
            r@.admin is None,
    {
        EscrowContract { jobs: Vec::new(), admin: None }
    }

    /// Install `admin` as the contract admin. The call must be authorized by
    /// `admin` itself; a registry that already has an admin is silently
    /// overwritten (replacing the admin under authorization of the current
    /// one is what `set_admin` is for).
    pub fn initialize(&mut self, gate: &AuthorityGate, admin: Identity) -> (r: Result<
        (),
        EscrowError,
    >)
        requires
            old(self).wf(),
        ensures
            final(self).wf(),
            r == initialize_result(gate@, admin),
            final(self)@ == (if r is Ok {
                initialize_post(old(self)@, admin)
            } else {
                old(self)@
            }),
    {
        match gate.require(admin) {
            Err(e) => Err(e),
            Ok(()) => {
                self.admin = Some(admin);
                Ok(())
            },
        }
    }

    /// The current admin, if one was ever installed.
    pub fn get_admin(&self) -> (r: Option<Identity>)
        ensures
            r == self@.admin,
    {
        self.admin
    }

    /// Replace the admin. Fails with `AdminNotSet` when no admin exists yet,
    /// and with `Unauthorized` when the *current* admin did not authorize the
    /// call. On success the new admin is installed and the jobs are untouched.
    pub fn set_admin(&mut self, gate: &AuthorityGate, new_admin: Identity) -> (r: Result<
        (),
        EscrowError,
    >)
        requires
            old(self).wf(),
        ensures
            final(self).wf(),
            r == set_admin_result(old(self)@, gate@),
            final(self)@ == (if r is Ok {
                set_admin_post(old(self)@, new_admin)
            } else {
                old(self)@
            }),
    {
        let current = match self.admin {
            None => {
                return Err(EscrowError::AdminNotSet);
            },
            Some(a) => a,
        };
        match gate.require(current) {
            Err(e) => Err(e),
            Ok(()) => {
                self.admin = Some(new_admin);
                Ok(())
            },
        }
    }

    /// The index of the record with this `job_id`, if it is present.
    fn find_index(&self, job_id: &String) -> (r: Option<usize>)
        ensures
            match r {
                Some(i) => i < self.jobs@.len() && self.jobs@[i as int].job_id@ == job_id@,
                None => forall|i: int|
                    0 <= i < self.jobs@.len() ==> (#[trigger] self.jobs@[i]).job_id@ != job_id@,
            },
    {
        let mut i: usize = 0;
        while i < self.jobs.len()
            invariant
                0 <= i <= self.jobs@.len(),
                forall|j: int| 0 <= j < i ==> (#[trigger] self.jobs@[j]).job_id@ != job_id@,
            decreases self.jobs@.len() - i,
        {
            if self.jobs[i].job_id == *job_id {
                return Some(i);
            }
            i = i + 1;
        }
        None
    }

    /// Create a new job and lock its amount in escrow. The call must be
    /// authorized by `client`, the amount must be positive, and `job_id` must
    /// not be taken; each check fails with its own error and leaves the
    /// registry untouched. On success the job is stored under `job_id` with
    /// status `InEscrow`. The value transfer itself is settled outside this
    /// ledger; only the locked amount is recorded here.
    pub fn create_job(
        &mut self,
        gate: &AuthorityGate,
        client: Identity,
        freelancer: Identity,
        amount: i128,
        job_id: String,
    ) -> (r: Result<(), EscrowError>)
        requires
            old(self).wf(),
        ensures
            final(self).wf(),
            r == create_result(old(self)@, gate@, client, amount as int, job_id@),
            final(self)@ == (if r is Ok {
                create_post(old(self)@, client, freelancer, amount as int, job_id@)
            } else {
                old(self)@
            }),
    {
        match gate.require(client) {
            Err(e) => {
                return Err(e);
            },
            Ok(()) => {},
        }
        if amount <= 0 {
            return Err(EscrowError::InvalidAmount);
        }
        proof {
            lemma_jobs_map_contains(self.jobs@, job_id@);
        }
        match self.find_index(&job_id) {
            Some(_) => {
                return Err(EscrowError::DuplicateJob);
            },
            None => {},
        }
        let ghost pre = self.jobs@;
        let job = Job { client, freelancer, amount, status: JobStatus::InEscrow, job_id };
        let ghost gjob = job;
        self.jobs.push(job);
        proof {
            lemma_jobs_map_push(pre, gjob);
            assert(distinct_job_ids(self.jobs@)) by {
                assert(forall|i: int|
                    0 <= i < pre.len() ==> self.jobs@[i] == pre[i]);
            }
        }
        Ok(())
    }

    /// Mark the job as `Completed`: the client confirms the work and the
    /// locked amount is (conceptually) released to the freelancer. The job
    /// must exist, its own client must have authorized the call, and it must
    /// still be `InEscrow`; each check fails with its own error and leaves
    /// the registry untouched.
    pub fn approve_job(&mut self, gate: &AuthorityGate, job_id: &String) -> (r: Result<
        (),
        EscrowError,
    >)
        requires
            old(self).wf(),
        ensures
            final(self).wf(),
            r == finish_result(old(self)@, gate@, job_id@),
            final(self)@ == (if r is Ok {
                finish_post(old(self)@, job_id@, JobStatus::Completed)
            } else {
                old(self)@
            }),
    {
        self.finish_job(gate, job_id, JobStatus::Completed)
    }

    /// Mark the job as `Cancelled`: the client withdraws and the locked
    /// amount is (conceptually) returned to the client. Same checks and
    /// errors as `approve_job`.
    pub fn cancel_job(&mut self, gate: &AuthorityGate, job_id: &String) -> (r: Result<
        (),
        EscrowError,
    >)
        requires
            old(self).wf(),
        ensures
            final(self).wf(),
            r == finish_result(old(self)@, gate@, job_id@),
            final(self)@ == (if r is Ok {
                finish_post(old(self)@, job_id@, JobStatus::Cancelled)
            } else {
                old(self)@
            }),
    {
        self.finish_job(gate, job_id, JobStatus::Cancelled)
    }

    /// Shared body of `approve_job` and `cancel_job`: move the job out of
    /// escrow into the terminal `status`.
    fn finish_job(&mut self, gate: &AuthorityGate, job_id: &String, status: JobStatus) -> (r:
        Result<(), EscrowError>)
        requires
            old(self).wf(),
            status == JobStatus::Completed || status == JobStatus::Cancelled,
        ensures
            final(self).wf(),
            r == finish_result(old(self)@, gate@, job_id@),
            final(self)@ == (if r is Ok {
                finish_post(old(self)@, job_id@, status)
            } else {
                old(self)@
            }),
    {
        proof {
            lemma_jobs_map_contains(self.jobs@, job_id@);
        }
        let idx = match self.find_index(job_id) {
            None => {
                return Err(EscrowError::JobNotFound);
            },
            Some(i) => i,
        };
        proof {
            lemma_jobs_map_index(self.jobs@, idx as int);
        }
        match gate.require(self.jobs[idx].client) {
            Err(e) => {
                return Err(e);
            },
            Ok(()) => {},
        }
        let in_escrow = self.jobs[idx].status == JobStatus::InEscrow;
        if !in_escrow {
            return Err(EscrowError::InvalidStateTransition);
        }
        let ghost pre = self.jobs@;
        let j = &self.jobs[idx];
        let updated = Job {
            client: j.client,
            freelancer: j.freelancer,
            amount: j.amount,
            status,
            job_id: j.job_id.clone(),
        };
        let ghost gupdated = updated;
        self.jobs.set(idx, updated);
        proof {
            lemma_jobs_map_update(pre, idx as int, gupdated);
            assert(gupdated@ == with_status(jobs_map(pre)[job_id@], status));
            assert(distinct_job_ids(self.jobs@)) by {
                assert(forall|i: int|
                    0 <= i < pre.len() ==> (#[trigger] self.jobs@[i]).job_id@ == pre[i].job_id@);
            }
        }
        Ok(())
    }

    /// The job stored under `job_id`, if any. A pure, unauthorized read:
    /// job data holds no secrets in this design.
    pub fn get_job(&self, job_id: &String) -> (r: Option<Job>)
        requires
            self.wf(),
        ensures
            match r {
                Some(job) => self@.jobs.contains_key(job_id@) && job@ == self@.jobs[job_id@],
                None => !self@.jobs.contains_key(job_id@),
            },
    {
        proof {
            lemma_jobs_map_contains(self.jobs@, job_id@);
        }
        match self.find_index(job_id) {
            None => None,
            Some(i) => {
                proof {
                    lemma_jobs_map_index(self.jobs@, i as int);
                }
                let j = &self.jobs[i];
                Some(
                    Job {
                        client: j.client,
                        freelancer: j.freelancer,
                        amount: j.amount,
                        status: j.status,
                        job_id: j.job_id.clone(),
                    },
                )
            },
        }
    }

    /// Every job in which `user` takes part, as client or as freelancer —
    /// exactly those, each under its registry entry, with no identifier
    /// repeated. A pure, unauthorized read over the whole registry.
    pub fn get_user_jobs(&self, user: Identity) -> (r: Vec<Job>)
        requires
            self.wf(),
        ensures
            forall|i: int|
                0 <= i < r@.len() ==> {
                    &&& self@.jobs.contains_key((#[trigger] r@[i]).job_id@)
                    &&& r@[i]@ == self@.jobs[r@[i].job_id@]
                    &&& involves(r@[i]@, user)
                },
            forall|k: Seq<char>|
                self@.jobs.contains_key(k) && involves(#[trigger] self@.jobs[k], user)
                    ==> exists|i: int| 0 <= i < r@.len() && r@[i].job_id@ == k,
            forall|i: int, j: int| 0 <= i < j < r@.len() ==> r@[i].job_id@ != r@[j].job_id@,
    {
        let mut r: Vec<Job> = Vec::new();
        let mut i: usize = 0;
        while i < self.jobs.len()
            invariant
                0 <= i <= self.jobs@.len(),
                r@ == user_jobs_seq(self.jobs@.take(i as int), user),
            decreases self.jobs@.len() - i,
        {
            let ghost prefix = self.jobs@.take(i as int);
            let j = &self.jobs[i];
            if j.client == user || j.freelancer == user {
                let copy = Job {
                    client: j.client,
                    freelancer: j.freelancer,
                    amount: j.amount,
                    status: j.status,
                    job_id: j.job_id.clone(),
                };
                proof {
                    assert(copy == self.jobs@[i as int]);
                }
                r.push(copy);
            }
            proof {
                assert(self.jobs@.take(i + 1 as int).drop_last() =~= prefix);
                assert(self.jobs@.take(i + 1 as int).last() == self.jobs@[i as int]);
            }
            i = i + 1;
        }
        proof {
            assert(self.jobs@.take(self.jobs@.len() as int) =~= self.jobs@);
            lemma_user_jobs(self.jobs@, user);
        }
        r
    }
}

/// Well-formedness carries the data invariants of the ledger out to its
/// mathematical state: every job on record locks a positive amount, none is
/// in the never-produced `Created` state, and each is keyed by its own
/// `job_id`.
pub proof fn lemma_registry_invariant(c: &EscrowContract)
    requires
        c.wf(),
    ensures
        forall|k: Seq<char>|
            c@.jobs.contains_key(k) ==> {
                &&& (#[trigger] c@.jobs[k]).amount > 0
                &&& c@.jobs[k].status != JobStatus::Created
                &&& c@.jobs[k].job_id == k
            },
{
    assert forall|k: Seq<char>| c@.jobs.contains_key(k) implies {
        &&& (#[trigger] c@.jobs[k]).amount > 0
        &&& c@.jobs[k].status != JobStatus::Created
        &&& c@.jobs[k].job_id == k
    } by {
        lemma_jobs_map_contains(c.jobs@, k);
        let i = choose|i: int| 0 <= i < c.jobs@.len() && c.jobs@[i].job_id@ == k;
        lemma_jobs_map_index(c.jobs@, i);
    }
}

} // verus!
