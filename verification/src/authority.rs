//! The authority gate: the capability check in front of every mutation.
//!
//! A gate value holds the set of identities whose control the surrounding
//! execution environment confirmed for the current call. Registry operations
//! consult it first and abort on refusal, so a rejected caller finds the
//! ledger exactly as it was.

use vstd::prelude::*;

use crate::job::EscrowError;
use crate::job::Identity;

verus! {

/// The set of identities whose control was proven to the surrounding
/// environment for the current invocation. A fresh one is built per call.
pub struct AuthorityGate {
    authorized: Vec<Identity>,
}

impl View for AuthorityGate {
    type V = Set<Identity>;

    closed spec fn view(&self) -> Set<Identity> {
        self.authorized@.to_set()
    }
}

impl AuthorityGate {
    /// Whether this gate carries proof of control for `id`.
    pub open spec fn authorizes(&self, id: Identity) -> bool {
        self@.contains(id)
    }

    /// A gate that authorizes nobody.
    pub fn new() -> (g: AuthorityGate)
        ensures
            g@ == Set::<Identity>::empty(),
    {
        let g = AuthorityGate { authorized: Vec::new() };
        proof {
            assert(g.authorized@.to_set() =~= Set::<Identity>::empty());
        }
        g
    }

    /// Record that the environment confirmed control of `id` for this call.
    pub fn grant(&mut self, id: Identity)
        ensures
            final(self)@ == old(self)@.insert(id),
    {
        proof {
            old(self).authorized@.lemma_push_to_set_commute(id);
        }
        self.authorized.push(id);
    }

    /// Pass when this invocation proved control of `id`, and refuse with
    /// `Unauthorized` when it did not; the caller then aborts before it
    /// touches any state.
    pub fn require(&self, id: Identity) -> (r: Result<(), EscrowError>)
        ensures
            r is Ok <==> self.authorizes(id),
            r is Err ==> r == Err::<(), EscrowError>(EscrowError::Unauthorized),
    {
        let mut i: usize = 0;
        while i < self.authorized.len()
            invariant
                0 <= i <= self.authorized.len(),
                forall|j: int| 0 <= j < i ==> self.authorized@[j] != id,
            decreases self.authorized.len() - i,
        {
            if self.authorized[i] == id {
                assert(self.authorized@.contains(id));
                return Ok(());
            }
            i = i + 1;
        }
        proof {
            assert(!self.authorized@.contains(id));
        }
        Err(EscrowError::Unauthorized)
    }
}

} // verus!
