use vstd::prelude::*;

use crate::identity::Identifier;

verus! {

/// A predicate over a peer's learned identifier, evaluated during the
/// secure-channel handshake before any channel is handed to the caller.
pub enum TrustPolicy {
    /// Accepts every peer.
    AllowAll,
    /// Accepts exactly the given identifier.
    TrustIdentifier(Identifier),
    /// Accepts any identifier on the list.
    TrustIdentifiers(Vec<Identifier>),
}

/// Whether a policy accepts a peer identifier.
pub open spec fn spec_policy_accepts(policy: TrustPolicy, peer: Identifier) -> bool {
    match policy {
        TrustPolicy::AllowAll => true,
        TrustPolicy::TrustIdentifier(identifier) => identifier == peer,
        TrustPolicy::TrustIdentifiers(identifiers) => identifiers@.contains(peer),
    }
}

impl TrustPolicy {
    pub fn evaluate(&self, peer: &Identifier) -> (r: bool)
        ensures
            r == spec_policy_accepts(*self, *peer),
    {
        match self {
            TrustPolicy::AllowAll => true,
            TrustPolicy::TrustIdentifier(identifier) => identifier.value == peer.value,
            TrustPolicy::TrustIdentifiers(identifiers) => list_contains(identifiers, peer),
        }
    }
}

/// Whether the identifier list holds `peer`.
fn list_contains(identifiers: &Vec<Identifier>, peer: &Identifier) -> (r: bool)
    ensures
        r == identifiers@.contains(*peer),
{
    let n = identifiers.len();
    let mut i: usize = 0;
    while i < n
        invariant
            n == identifiers@.len(),
            0 <= i <= n,
            forall|j: int| 0 <= j < i ==> identifiers@[j] != *peer,
        decreases n - i,
    {
        if identifiers[i].value == peer.value {
            proof {
                assert(identifiers@[i as int] == *peer);
                assert(identifiers@.contains(*peer));
            }
            return true;
        }
        i += 1;
    }
    proof {
        assert(forall|j: int| 0 <= j < identifiers@.len() ==> identifiers@[j] != *peer);
    }
    false
}

} // verus!
