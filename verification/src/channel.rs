use vstd::prelude::*;

use crate::error::IdentityError;
use crate::identity::{import, Identifier, Identity};
use crate::trust_policy::{spec_policy_accepts, TrustPolicy};
use crate::vault::Vault;

verus! {

/// One endpoint of an established secure channel. A value of this type
/// exists only for a handshake in which both key-possession proofs and
/// both trust policies succeeded: no partial channel is ever returned.
/// The peer identifier is the one learned and verified during the
/// handshake, never a self-asserted message field.
pub struct SecureChannel {
    pub local_identifier: Identifier,
    pub peer_identifier: Identifier,
}

impl SecureChannel {
    pub fn peer(&self) -> (r: &Identifier)
        ensures
            *r == self.peer_identifier,
    {
        &self.peer_identifier
    }
}

/// Runs the mutual authenticated handshake between an initiator and a
/// responder (listener side): each side attests possession of its identity
/// key, the attestations are verified, and each side's trust policy is
/// evaluated against the peer's learned identifier. Returns both channel
/// endpoints exactly when every check passes; a policy rejection or proof
/// failure surfaces `AuthenticationFailed` to the initiator and yields no
/// channel at all.
pub fn establish_channel(
    vault: &Vault,
    initiator: &Identity,
    initiator_policy: &TrustPolicy,
    responder: &Identity,
    responder_policy: &TrustPolicy,
) -> (r: Result<(SecureChannel, SecureChannel), IdentityError>)
    requires
        vault.wf(),
        initiator.valid_for(*vault),
        responder.valid_for(*vault),
    ensures
        match r {
            Ok(channels) => {
                &&& spec_policy_accepts(*initiator_policy, responder.identifier)
                &&& spec_policy_accepts(*responder_policy, initiator.identifier)
                &&& channels.0.local_identifier == initiator.identifier
                &&& channels.0.peer_identifier == responder.identifier
                &&& channels.1.local_identifier == responder.identifier
                &&& channels.1.peer_identifier == initiator.identifier
            },
            Err(e) => {
                &&& e == IdentityError::AuthenticationFailed
                &&& !(spec_policy_accepts(*initiator_policy, responder.identifier)
                    && spec_policy_accepts(*responder_policy, initiator.identifier))
            },
        },
{
    let initiator_attestation = match initiator.export(vault) {
        Ok(a) => a,
        Err(_) => {
            return Err(IdentityError::AuthenticationFailed);
        },
    };
    let responder_attestation = match responder.export(vault) {
        Ok(a) => a,
        Err(_) => {
            return Err(IdentityError::AuthenticationFailed);
        },
    };
    let initiator_public = match import(None, &initiator_attestation) {
        Ok(p) => p,
        Err(_) => {
            return Err(IdentityError::AuthenticationFailed);
        },
    };
    let responder_public = match import(None, &responder_attestation) {
        Ok(p) => p,
        Err(_) => {
            return Err(IdentityError::AuthenticationFailed);
        },
    };
    if !responder_policy.evaluate(&initiator_public.identifier) {
        return Err(IdentityError::AuthenticationFailed);
    }
    if !initiator_policy.evaluate(&responder_public.identifier) {
        return Err(IdentityError::AuthenticationFailed);
    }
    Ok(
        (
            SecureChannel {
                local_identifier: initiator.identifier,
                peer_identifier: responder_public.identifier,
            },
            SecureChannel {
                local_identifier: responder.identifier,
                peer_identifier: initiator_public.identifier,
            },
        ),
    )
}

} // verus!
