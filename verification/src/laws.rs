//! The laws of the ledger: proofs that the operation contracts compose into
//! the lifecycle guarantees of the registry.
//!
//! Each operation of [`crate::registry::EscrowContract`] promises its exact
//! outcome and successor state through the `*_result` and `*_post` spec
//! functions. The lemmas here chain those promises: what a lookup finds
//! after a creation, what a second creation or a second transition runs
//! into, and who can move the admin after a succession.

use vstd::prelude::*;

use crate::job::EscrowError;
use crate::job::Identity;
use crate::job::JobStatus;
use crate::registry::RegistryView;
use crate::registry::create_post;
use crate::registry::create_result;
use crate::registry::finish_post;
use crate::registry::finish_result;
use crate::registry::initialize_post;
use crate::registry::new_job_view;
use crate::registry::set_admin_post;
use crate::registry::set_admin_result;

verus! {

/// After a successful `create_job`, a `get_job` under the same `job_id`
/// finds a job carrying exactly the input fields, with status `InEscrow`.
pub proof fn lemma_create_then_get(
    pre: RegistryView,
    auth: Set<Identity>,
    client: Identity,
    freelancer: Identity,
    amount: int,
    job_id: Seq<char>,
)
    requires
        create_result(pre, auth, client, amount, job_id) is Ok,
    ensures
        ({
            let post = create_post(pre, client, freelancer, amount, job_id);
            &&& post.jobs.contains_key(job_id)
            &&& post.jobs[job_id] == new_job_view(client, freelancer, amount, job_id)
            &&& post.jobs[job_id].client == client
            &&& post.jobs[job_id].freelancer == freelancer
            &&& post.jobs[job_id].amount == amount
            &&& post.jobs[job_id].status == JobStatus::InEscrow
        }),
{
}

/// A creation with a zero or negative amount is always refused with
/// `InvalidAmount`, whatever the other fields; the operation's contract adds
/// that a refused call leaves the registry untouched.
pub proof fn lemma_create_invalid_amount(
    pre: RegistryView,
    auth: Set<Identity>,
    client: Identity,
    amount: int,
    job_id: Seq<char>,
)
    requires
        auth.contains(client),
        amount <= 0,
    ensures
        create_result(pre, auth, client, amount, job_id) == Err::<(), EscrowError>(
            EscrowError::InvalidAmount,
        ),
{
}

/// A second creation under a `job_id` already taken never succeeds, whatever
/// the other fields; when the second caller is authorized and its amount is
/// valid, the refusal is `DuplicateJob`. The first job's record is not
/// touched by the refused attempt.
pub proof fn lemma_create_duplicate(
    pre: RegistryView,
    auth1: Set<Identity>,
    client1: Identity,
    freelancer1: Identity,
    amount1: int,
    auth2: Set<Identity>,
    client2: Identity,
    amount2: int,
    job_id: Seq<char>,
)
    requires
        create_result(pre, auth1, client1, amount1, job_id) is Ok,
    ensures
        ({
            let post = create_post(pre, client1, freelancer1, amount1, job_id);
            &&& !(create_result(post, auth2, client2, amount2, job_id) is Ok)
            &&& (auth2.contains(client2) && amount2 > 0) ==> create_result(
                post,
                auth2,
                client2,
                amount2,
                job_id,
            ) == Err::<(), EscrowError>(EscrowError::DuplicateJob)
            &&& post.jobs[job_id] == new_job_view(client1, freelancer1, amount1, job_id)
        }),
{
}

/// Approving a job in escrow completes it and touches nothing else; the
/// terminal state is final: a second approval is never accepted, and a caller
/// authorized by the job's client is told `InvalidStateTransition`.
pub proof fn lemma_approve_then_approve(
    pre: RegistryView,
    auth: Set<Identity>,
    auth2: Set<Identity>,
    job_id: Seq<char>,
)
    requires
        finish_result(pre, auth, job_id) is Ok,
    ensures
        ({
            let post = finish_post(pre, job_id, JobStatus::Completed);
            &&& post.jobs[job_id].status == JobStatus::Completed
            &&& post.jobs[job_id].client == pre.jobs[job_id].client
            &&& post.jobs[job_id].freelancer == pre.jobs[job_id].freelancer
            &&& post.jobs[job_id].amount == pre.jobs[job_id].amount
            &&& forall|k: Seq<char>|
                k != job_id ==> post.jobs.contains_key(k) == pre.jobs.contains_key(k)
                    && (pre.jobs.contains_key(k) ==> post.jobs[k] == pre.jobs[k])
            &&& !(finish_result(post, auth2, job_id) is Ok)
            &&& auth2.contains(pre.jobs[job_id].client) ==> finish_result(post, auth2, job_id)
                == Err::<(), EscrowError>(EscrowError::InvalidStateTransition)
        }),
{
}

/// Cancelling a job in escrow is terminal too: after it, an approval is never
/// accepted, and a caller authorized by the job's client is told
/// `InvalidStateTransition`.
pub proof fn lemma_cancel_then_approve(
    pre: RegistryView,
    auth: Set<Identity>,
    auth2: Set<Identity>,
    job_id: Seq<char>,
)
    requires
        finish_result(pre, auth, job_id) is Ok,
    ensures
        ({
            let post = finish_post(pre, job_id, JobStatus::Cancelled);
            &&& post.jobs[job_id].status == JobStatus::Cancelled
            &&& post.jobs[job_id].amount == pre.jobs[job_id].amount
            &&& !(finish_result(post, auth2, job_id) is Ok)
            &&& auth2.contains(pre.jobs[job_id].client) ==> finish_result(post, auth2, job_id)
                == Err::<(), EscrowError>(EscrowError::InvalidStateTransition)
        }),
{
}

/// An `approve_job` or `cancel_job` aimed at a `job_id` that is not in the
/// registry fails with `JobNotFound`, whoever authorized the call.
pub proof fn lemma_missing_job(pre: RegistryView, auth: Set<Identity>, job_id: Seq<char>)
    requires
        !pre.jobs.contains_key(job_id),
    ensures
        finish_result(pre, auth, job_id) == Err::<(), EscrowError>(EscrowError::JobNotFound),
{
}

/// A record, once on the ledger, is never deleted and never reassigned.
/// Whichever operation runs, its successor state keeps every existing
/// `job_id` on record: a permitted creation only adds a fresh key, a
/// finishing transition only moves the status of its own job, and the admin
/// operations leave the job map alone.
pub proof fn lemma_records_persist(
    pre: RegistryView,
    auth: Set<Identity>,
    client: Identity,
    freelancer: Identity,
    amount: int,
    job_id: Seq<char>,
    status: JobStatus,
    admin: Identity,
)
    ensures
        create_result(pre, auth, client, amount, job_id) is Ok ==> !pre.jobs.contains_key(job_id),
        forall|k: Seq<char>|
            pre.jobs.contains_key(k) ==> create_post(
                pre,
                client,
                freelancer,
                amount,
                job_id,
            ).jobs.contains_key(k) && finish_post(pre, job_id, status).jobs.contains_key(k),
        forall|k: Seq<char>|
            pre.jobs.contains_key(k) && k != job_id ==> create_post(
                pre,
                client,
                freelancer,
                amount,
                job_id,
            ).jobs[k] == pre.jobs[k] && finish_post(pre, job_id, status).jobs[k] == pre.jobs[k],
        finish_post(pre, job_id, status).jobs[job_id].client == pre.jobs[job_id].client,
        finish_post(pre, job_id, status).jobs[job_id].freelancer == pre.jobs[job_id].freelancer,
        finish_post(pre, job_id, status).jobs[job_id].amount == pre.jobs[job_id].amount,
        finish_post(pre, job_id, status).jobs[job_id].job_id == pre.jobs[job_id].job_id,
        initialize_post(pre, admin).jobs == pre.jobs,
        set_admin_post(pre, admin).jobs == pre.jobs,
{
}

/// `set_admin` succeeds exactly when an admin exists and that *current*
/// admin authorized the call.
pub proof fn lemma_set_admin_requires_current(pre: RegistryView, auth: Set<Identity>)
    ensures
        set_admin_result(pre, auth) is Ok <==> (pre.admin matches Some(a) && auth.contains(a)),
{
}

/// After a successful `set_admin`, the new admin is in charge: a further
/// admin change succeeds exactly when the *new* admin authorizes it, so an
/// old admin that is a different identity can no longer move it.
pub proof fn lemma_set_admin_succession(
    pre: RegistryView,
    auth2: Set<Identity>,
    new_admin: Identity,
)
    ensures
        set_admin_post(pre, new_admin).admin == Some(new_admin),
        set_admin_post(pre, new_admin).jobs == pre.jobs,
        set_admin_result(set_admin_post(pre, new_admin), auth2) is Ok <==> auth2.contains(
            new_admin,
        ),
{
}

} // verus!
