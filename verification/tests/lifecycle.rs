use escrow::authority::AuthorityGate;
use escrow::job::EscrowError;
use escrow::job::Identity;
use escrow::job::JobStatus;
use escrow::registry::EscrowContract;

/// A gate like the ones the host environment would build: proof of control
/// for every identity handed in.
fn gate_for(ids: &[Identity]) -> AuthorityGate {
    let mut gate = AuthorityGate::new();
    for id in ids {
        gate.grant(*id);
    }
    gate
}

fn ids_of(jobs: &[escrow::job::Job]) -> Vec<String> {
    jobs.iter().map(|j| j.job_id.clone()).collect()
}

#[test]
fn test_create_job() {
    let admin = Identity::new(0);
    let client_addr = Identity::new(1);
    let freelancer_addr = Identity::new(2);
    let gate = gate_for(&[admin, client_addr, freelancer_addr]);
    let job_id = "JOB001".to_string();

    let mut contract = EscrowContract::new();
    contract.initialize(&gate, admin).unwrap();
    contract
        .create_job(&gate, client_addr, freelancer_addr, 1000, job_id.clone())
        .unwrap();

    let job = contract.get_job(&job_id);
    assert!(job.is_some());

    let job = job.unwrap();
    assert_eq!(job.client, client_addr);
    assert_eq!(job.freelancer, freelancer_addr);
    assert_eq!(job.amount, 1000);
    assert_eq!(job.status, JobStatus::InEscrow);
}

#[test]
fn test_approve_job() {
    let admin = Identity::new(0);
    let client_addr = Identity::new(1);
    let freelancer_addr = Identity::new(2);
    let gate = gate_for(&[admin, client_addr, freelancer_addr]);
    let job_id = "JOB001".to_string();

    let mut contract = EscrowContract::new();
    contract.initialize(&gate, admin).unwrap();
    contract
        .create_job(&gate, client_addr, freelancer_addr, 1000, job_id.clone())
        .unwrap();

    contract.approve_job(&gate, &job_id).unwrap();

    let job = contract.get_job(&job_id);
    assert!(job.is_some());

    let job = job.unwrap();
    assert_eq!(job.status, JobStatus::Completed);
}

#[test]
fn test_cancel_job() {
    let admin = Identity::new(0);
    let client_addr = Identity::new(1);
    let freelancer_addr = Identity::new(2);
    let gate = gate_for(&[admin, client_addr, freelancer_addr]);
    let job_id = "JOB001".to_string();

    let mut contract = EscrowContract::new();
    contract.initialize(&gate, admin).unwrap();
    contract
        .create_job(&gate, client_addr, freelancer_addr, 1000, job_id.clone())
        .unwrap();

    contract.cancel_job(&gate, &job_id).unwrap();

    let job = contract.get_job(&job_id);
    assert!(job.is_some());

    let job = job.unwrap();
    assert_eq!(job.status, JobStatus::Cancelled);
}

#[test]
fn test_create_job_zero_amount_rejected() {
    let client = Identity::new(1);
    let freelancer = Identity::new(2);
    let gate = gate_for(&[client]);

    let mut contract = EscrowContract::new();
    let r = contract.create_job(&gate, client, freelancer, 0, "J1".to_string());
    assert_eq!(r, Err(EscrowError::InvalidAmount));
    assert!(contract.get_job(&"J1".to_string()).is_none());
}

#[test]
fn test_create_job_negative_amount_rejected() {
    let client = Identity::new(1);
    let freelancer = Identity::new(2);
    let gate = gate_for(&[client]);

    let mut contract = EscrowContract::new();
    let r = contract.create_job(&gate, client, freelancer, -250, "J1".to_string());
    assert_eq!(r, Err(EscrowError::InvalidAmount));
    assert!(contract.get_job(&"J1".to_string()).is_none());
}

#[test]
fn test_create_job_duplicate_rejected() {
    let client = Identity::new(1);
    let freelancer = Identity::new(2);
    let other_client = Identity::new(3);
    let other_freelancer = Identity::new(4);
    let gate = gate_for(&[client, other_client]);
    let job_id = "J1".to_string();

    let mut contract = EscrowContract::new();
    contract
        .create_job(&gate, client, freelancer, 1000, job_id.clone())
        .unwrap();

    let r = contract.create_job(&gate, other_client, other_freelancer, 77, job_id.clone());
    assert_eq!(r, Err(EscrowError::DuplicateJob));

    let first = contract.get_job(&job_id).unwrap();
    assert_eq!(first.client, client);
    assert_eq!(first.freelancer, freelancer);
    assert_eq!(first.amount, 1000);
    assert_eq!(first.status, JobStatus::InEscrow);
}

#[test]
fn test_create_job_unauthorized() {
    let client = Identity::new(1);
    let freelancer = Identity::new(2);
    let gate = gate_for(&[freelancer]);

    let mut contract = EscrowContract::new();
    let r = contract.create_job(&gate, client, freelancer, 1000, "J1".to_string());
    assert_eq!(r, Err(EscrowError::Unauthorized));
    assert!(contract.get_job(&"J1".to_string()).is_none());
}

#[test]
fn test_approve_job_twice_rejected() {
    let client = Identity::new(1);
    let freelancer = Identity::new(2);
    let gate = gate_for(&[client]);
    let job_id = "J1".to_string();

    let mut contract = EscrowContract::new();
    contract
        .create_job(&gate, client, freelancer, 1000, job_id.clone())
        .unwrap();
    contract.approve_job(&gate, &job_id).unwrap();

    let r = contract.approve_job(&gate, &job_id);
    assert_eq!(r, Err(EscrowError::InvalidStateTransition));
    let job = contract.get_job(&job_id).unwrap();
    assert_eq!(job.status, JobStatus::Completed);
}

#[test]
fn test_cancel_then_approve_rejected() {
    let client = Identity::new(1);
    let freelancer = Identity::new(2);
    let gate = gate_for(&[client]);
    let job_id = "J1".to_string();

    let mut contract = EscrowContract::new();
    contract
        .create_job(&gate, client, freelancer, 1000, job_id.clone())
        .unwrap();
    contract.cancel_job(&gate, &job_id).unwrap();

    let r = contract.approve_job(&gate, &job_id);
    assert_eq!(r, Err(EscrowError::InvalidStateTransition));
    let job = contract.get_job(&job_id).unwrap();
    assert_eq!(job.status, JobStatus::Cancelled);
}

#[test]
fn test_transition_missing_job_rejected() {
    let client = Identity::new(1);
    let gate = gate_for(&[client]);
    let job_id = "NOPE".to_string();

    let mut contract = EscrowContract::new();
    assert_eq!(
        contract.approve_job(&gate, &job_id),
        Err(EscrowError::JobNotFound)
    );
    assert_eq!(
        contract.cancel_job(&gate, &job_id),
        Err(EscrowError::JobNotFound)
    );
}

#[test]
fn test_approve_job_requires_jobs_client() {
    let client = Identity::new(1);
    let freelancer = Identity::new(2);
    let outsider = Identity::new(9);
    let create_gate = gate_for(&[client]);
    let outsider_gate = gate_for(&[outsider, freelancer]);
    let job_id = "J1".to_string();

    let mut contract = EscrowContract::new();
    contract
        .create_job(&create_gate, client, freelancer, 1000, job_id.clone())
        .unwrap();

    let r = contract.approve_job(&outsider_gate, &job_id);
    assert_eq!(r, Err(EscrowError::Unauthorized));
    let job = contract.get_job(&job_id).unwrap();
    assert_eq!(job.status, JobStatus::InEscrow);
}

#[test]
fn test_get_user_jobs_exact_set() {
    let alice = Identity::new(1);
    let bob = Identity::new(2);
    let carol = Identity::new(3);
    let dave = Identity::new(4);
    let gate = gate_for(&[alice, bob, carol]);

    let mut contract = EscrowContract::new();
    contract
        .create_job(&gate, alice, bob, 100, "A".to_string())
        .unwrap();
    contract
        .create_job(&gate, alice, carol, 200, "B".to_string())
        .unwrap();
    contract
        .create_job(&gate, carol, alice, 300, "C".to_string())
        .unwrap();
    contract
        .create_job(&gate, bob, carol, 400, "D".to_string())
        .unwrap();

    let alice_jobs = contract.get_user_jobs(alice);
    let mut alice_ids = ids_of(&alice_jobs);
    alice_ids.sort();
    assert_eq!(alice_ids, vec!["A".to_string(), "B".to_string(), "C".to_string()]);
    for job in &alice_jobs {
        assert!(job.client == alice || job.freelancer == alice);
        assert_eq!(job, &contract.get_job(&job.job_id).unwrap());
    }

    let bob_jobs = contract.get_user_jobs(bob);
    let mut bob_ids = ids_of(&bob_jobs);
    bob_ids.sort();
    assert_eq!(bob_ids, vec!["A".to_string(), "D".to_string()]);

    let dave_jobs = contract.get_user_jobs(dave);
    assert!(dave_jobs.is_empty());
}

#[test]
fn test_initialize_requires_admin_auth() {
    let admin = Identity::new(7);
    let gate = AuthorityGate::new();

    let mut contract = EscrowContract::new();
    let r = contract.initialize(&gate, admin);
    assert_eq!(r, Err(EscrowError::Unauthorized));
    assert_eq!(contract.get_admin(), None);
}

#[test]
fn test_set_admin_before_initialize_rejected() {
    let new_admin = Identity::new(8);
    let gate = gate_for(&[new_admin]);

    let mut contract = EscrowContract::new();
    let r = contract.set_admin(&gate, new_admin);
    assert_eq!(r, Err(EscrowError::AdminNotSet));
    assert_eq!(contract.get_admin(), None);
}

#[test]
fn test_set_admin_succession() {
    let old_admin = Identity::new(7);
    let new_admin = Identity::new(8);
    let old_gate = gate_for(&[old_admin]);
    let new_gate = gate_for(&[new_admin]);

    let mut contract = EscrowContract::new();
    contract.initialize(&old_gate, old_admin).unwrap();
    assert_eq!(contract.get_admin(), Some(old_admin));

    // The new admin cannot install itself.
    assert_eq!(
        contract.set_admin(&new_gate, new_admin),
        Err(EscrowError::Unauthorized)
    );

    // The current admin hands over.
    contract.set_admin(&old_gate, new_admin).unwrap();
    assert_eq!(contract.get_admin(), Some(new_admin));

    // The old admin can no longer move it.
    assert_eq!(
        contract.set_admin(&old_gate, old_admin),
        Err(EscrowError::Unauthorized)
    );

    // The new admin can.
    contract.set_admin(&new_gate, old_admin).unwrap();
    assert_eq!(contract.get_admin(), Some(old_admin));
}

#[test]
fn test_initialize_overwrites_admin() {
    // `initialize` is not single-shot: a second call authorized by the
    // incoming admin silently overwrites the singleton.
    let first = Identity::new(1);
    let second = Identity::new(2);
    let gate = gate_for(&[first, second]);

    let mut contract = EscrowContract::new();
    contract.initialize(&gate, first).unwrap();
    contract.initialize(&gate, second).unwrap();
    assert_eq!(contract.get_admin(), Some(second));
}

#[test]
fn test_gate_require() {
    let known = Identity::new(5);
    let unknown = Identity::new(6);
    let gate = gate_for(&[known]);
    assert_eq!(gate.require(known), Ok(()));
    assert_eq!(gate.require(unknown), Err(EscrowError::Unauthorized));
}

#[test]
fn test_full_lifecycle_scenario() {
    let admin = Identity::new(10);
    let client = Identity::new(11);
    let freelancer = Identity::new(12);
    let admin_gate = gate_for(&[admin]);
    let client_gate = gate_for(&[client]);
    let job_id = "J1".to_string();

    let mut contract = EscrowContract::new();
    contract.initialize(&admin_gate, admin).unwrap();

    assert_eq!(
        contract.create_job(&client_gate, client, freelancer, 1000, job_id.clone()),
        Ok(())
    );

    let job = contract.get_job(&job_id).unwrap();
    assert_eq!(job.client, client);
    assert_eq!(job.freelancer, freelancer);
    assert_eq!(job.amount, 1000);
    assert_eq!(job.status, JobStatus::InEscrow);

    assert_eq!(contract.approve_job(&client_gate, &job_id), Ok(()));
    assert_eq!(
        contract.get_job(&job_id).unwrap().status,
        JobStatus::Completed
    );

    assert_eq!(
        contract.cancel_job(&client_gate, &job_id),
        Err(EscrowError::InvalidStateTransition)
    );
}
