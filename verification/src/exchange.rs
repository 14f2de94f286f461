use vstd::prelude::*;

use crate::credential::{
    spec_verify_outcome, verify_credential, AttributeSet, Credential,
};
use crate::error::IdentityError;
use crate::identity::{Identifier, Identity, PublicIdentity};
use crate::storage::AttributeStorage;

verus! {

/// The wire message of the credential-exchange protocol: a presented
/// credential, with a flag asking the receiver to present its own
/// credential back along the sender's route.
pub struct PresentCredentialMessage {
    pub credential: Credential,
    pub request_mutual: bool,
}

/// Two credentials that agree field by field, up to views.
pub open spec fn spec_credential_equiv(a: Credential, b: Credential) -> bool {
    &&& a.subject == b.subject
    &&& a.issuer == b.issuer
    &&& a.schema_id == b.schema_id
    &&& a.attributes@ == b.attributes@
    &&& a.expiry == b.expiry
    &&& a.signature.signer == b.signature.signer
    &&& a.signature.message@ == b.signature.message@
}

impl Identity {
    /// Builds the present-credential message from the credential attached
    /// to this identity. Fails with `OperationFailed` exactly when no
    /// credential is attached.
    pub fn present_credential(&self, request_mutual: bool) -> (r: Result<
        PresentCredentialMessage,
        IdentityError,
    >)
        ensures
            match r {
                Ok(m) => {
                    &&& self.credential matches Some(c) && spec_credential_equiv(m.credential, c)
                    &&& m.request_mutual == request_mutual
                },
                Err(e) => {
                    &&& e == IdentityError::OperationFailed
                    &&& self.credential is None
                },
            },
    {
        match &self.credential {
            Some(credential) => Ok(
                PresentCredentialMessage {
                    credential: credential.clone_credential(),
                    request_mutual,
                },
            ),
            None => Err(IdentityError::OperationFailed),
        }
    }
}

/// Whether verification of `credential`, presented by `sender`, succeeds
/// against `trusted` at time `now`.
pub open spec fn spec_verify_outcome_is_ok(
    sender: Identifier,
    trusted: Seq<PublicIdentity>,
    credential: Credential,
    now: u64,
) -> bool {
    spec_verify_outcome(Some(sender), trusted, credential, now) is Ok
}

/// How one verification changes the store: on success the sender's entry
/// is exactly the credential's attribute set, and every other entry is
/// untouched; on failure the store is untouched.
pub open spec fn spec_store_after(
    before: Map<Identifier, AttributeSet>,
    after: Map<Identifier, AttributeSet>,
    sender: Identifier,
    credential: Credential,
    accepted: bool,
) -> bool {
    if accepted {
        &&& after.contains_key(sender)
        &&& after[sender].attributes@ == credential.attributes@
        &&& after[sender].expiry == credential.expiry
        &&& forall|k: Identifier|
            k != sender ==> (#[trigger] after.contains_key(k) <==> before.contains_key(k))
        &&& forall|k: Identifier|
            k != sender && before.contains_key(k) ==> #[trigger] after[k] == before[k]
    } else {
        after == before
    }
}

/// Verifies a credential presented by the channel-verified `sender`
/// against the trusted authorities at time `now`, and on success writes
/// the validated attribute set into the store under the sender's
/// identifier (which the verification has matched against the
/// credential's subject). Returns whether the credential was accepted.
pub fn verify_and_store(
    trusted_authorities: &Vec<PublicIdentity>,
    storage: &mut AttributeStorage,
    sender: &Identifier,
    credential: &Credential,
    now: u64,
) -> (accepted: bool)
    requires
        old(storage).wf(),
    ensures
        final(storage).wf(),
        accepted == (spec_verify_outcome(
            Some(*sender),
            trusted_authorities@,
            *credential,
            now,
        ) is Ok),
        spec_store_after(old(storage)@, final(storage)@, *sender, *credential, accepted),
{
    match verify_credential(Some(sender), trusted_authorities, credential, now) {
        Ok(attribute_set) => {
            storage.put_attributes(sender, attribute_set);
            true
        },
        Err(_) => false,
    }
}

/// The credential-exchange protocol worker: bound to an address, reached
/// through an established secure channel, configured with the authorities
/// it trusts and with one of two modes. In one-way mode it only verifies
/// the peer's credential; in mutual mode it answers a successful
/// presentation that requests it with the credential attached to its own
/// identity. A failed verification is silently dropped: no reply lets an
/// unauthorized peer tell a rejected credential from no response yet.
pub struct CredentialExchangeWorker {
    pub trusted_authorities: Vec<PublicIdentity>,
    pub mutual: bool,
    pub own_credential: Option<Credential>,
}

/// Whether a presentation earns a mutual reply: it was accepted, it asked
/// for one, the worker is in mutual mode, and the worker has a credential
/// to present.
pub open spec fn spec_replies(
    worker: CredentialExchangeWorker,
    message: PresentCredentialMessage,
    accepted: bool,
) -> bool {
    accepted && message.request_mutual && worker.mutual && worker.own_credential is Some
}

impl CredentialExchangeWorker {
    pub fn new(
        trusted_authorities: Vec<PublicIdentity>,
        mutual: bool,
        own_credential: Option<Credential>,
    ) -> (r: CredentialExchangeWorker)
        ensures
            r.trusted_authorities == trusted_authorities,
            r.mutual == mutual,
            r.own_credential == own_credential,
    {
        CredentialExchangeWorker { trusted_authorities, mutual, own_credential }
    }

    /// Handles one present-credential message from the channel-verified
    /// `sender`: verifies it and on success stores the attributes under
    /// the sender; replies with this worker's own credential exactly when
    /// the presentation was accepted, asked for a mutual presentation,
    /// and this worker is in mutual mode with a credential attached.
    pub fn handle_presentation(
        &self,
        storage: &mut AttributeStorage,
        sender: &Identifier,
        message: &PresentCredentialMessage,
        now: u64,
    ) -> (reply: Option<PresentCredentialMessage>)
        requires
            old(storage).wf(),
        ensures
            final(storage).wf(),
            spec_store_after(
                old(storage)@,
                final(storage)@,
                *sender,
                message.credential,
                spec_verify_outcome(
                    Some(*sender),
                    self.trusted_authorities@,
                    message.credential,
                    now,
                ) is Ok,
            ),
            match reply {
                Some(m) => {
                    &&& spec_replies(
                        *self,
                        *message,
                        spec_verify_outcome(
                            Some(*sender),
                            self.trusted_authorities@,
                            message.credential,
                            now,
                        ) is Ok,
                    )
                    &&& self.own_credential matches Some(c) && spec_credential_equiv(
                        m.credential,
                        c,
                    )
                    &&& m.request_mutual == false
                },
                None => !spec_replies(
                    *self,
                    *message,
                    spec_verify_outcome(
                        Some(*sender),
                        self.trusted_authorities@,
                        message.credential,
                        now,
                    ) is Ok,
                ),
            },
    {
        let accepted = verify_and_store(
            &self.trusted_authorities,
            storage,
            sender,
            &message.credential,
            now,
        );
        if accepted && message.request_mutual && self.mutual {
            match &self.own_credential {
                Some(credential) => Some(
                    PresentCredentialMessage {
                        credential: credential.clone_credential(),
                        request_mutual: false,
                    },
                ),
                None => None,
            }
        } else {
            None
        }
    }
}

} // verus!
