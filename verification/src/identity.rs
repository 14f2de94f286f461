use vstd::prelude::*;

use crate::credential::{Credential, CredentialBuilder};
use crate::error::IdentityError;
use crate::vault::{SecretType, Signature, Vault};

verus! {

/// An opaque name for an identity, derived from its public key. Immutable
/// once created; it uniquely names the identity across the system.
#[derive(Clone, Copy, Debug, PartialEq, Eq, Hash, Structural)]
pub struct Identifier {
    pub value: u64,
}

/// How an identifier is derived from a public key.
pub open spec fn spec_identifier_of(public_key: u64) -> Identifier {
    Identifier { value: public_key }
}

pub fn identifier_of(public_key: u64) -> (r: Identifier)
    ensures
        r == spec_identifier_of(public_key),
{
    Identifier { value: public_key }
}

/// A redacted identity: trust material describing a peer or an authority,
/// with no vault access.
#[derive(Clone, Copy, Debug, PartialEq, Eq, Structural)]
pub struct PublicIdentity {
    pub identifier: Identifier,
    pub public_key: u64,
}

impl PublicIdentity {
    pub open spec fn wf(self) -> bool {
        self.identifier == spec_identifier_of(self.public_key)
    }
}

/// The serialized form over which an attestation's proof of possession is
/// signed.
pub open spec fn spec_attestation_payload(identifier: Identifier, public_key: u64) -> Seq<u8> {
    vstd::bytes::spec_u64_to_le_bytes(identifier.value) + vstd::bytes::spec_u64_to_le_bytes(
        public_key,
    )
}

pub fn encode_attestation_payload(identifier: &Identifier, public_key: u64) -> (out: Vec<u8>)
    ensures
        out@ == spec_attestation_payload(*identifier, public_key),
{
    let mut out: Vec<u8> = Vec::new();
    crate::encoding::push_u64(&mut out, identifier.value);
    crate::encoding::push_u64(&mut out, public_key);
    proof {
        assert(out@ =~= spec_attestation_payload(*identifier, public_key));
    }
    out
}

/// A self-contained identity attestation: consumed by [`import`], which
/// verifies the proof of possession before trusting the identifier.
pub struct IdentityAttestation {
    pub identifier: Identifier,
    pub public_key: u64,
    pub possession_proof: Signature,
}

/// When an attestation is accepted by [`import`]: its proof of possession
/// verifies under the contained public key, the identifier is the one the
/// public key derives, and it matches the expected identifier if one is
/// given.
pub open spec fn spec_attestation_valid(
    attestation: IdentityAttestation,
    expected: Option<Identifier>,
) -> bool {
    &&& attestation.possession_proof.verifies(
        attestation.public_key,
        spec_attestation_payload(attestation.identifier, attestation.public_key),
    )
    &&& attestation.identifier == spec_identifier_of(attestation.public_key)
    &&& match expected {
        Some(e) => e == attestation.identifier,
        None => true,
    }
}

/// Verifies an attestation and, on success, yields the trusted public
/// identity it describes. Fails with `AuthenticationFailed` exactly when
/// the proof of possession, the identifier derivation, or the expected
/// identifier does not check out.
pub fn import(expected: Option<&Identifier>, attestation: &IdentityAttestation) -> (r: Result<
    PublicIdentity,
    IdentityError,
>)
    ensures
        match r {
            Ok(p) => {
                &&& spec_attestation_valid(
                    *attestation,
                    match expected {
                        Some(e) => Some(*e),
                        None => None,
                    },
                )
                &&& p.identifier == attestation.identifier
                &&& p.public_key == attestation.public_key
                &&& p.wf()
            },
            Err(e) => {
                &&& e == IdentityError::AuthenticationFailed
                &&& !spec_attestation_valid(
                    *attestation,
                    match expected {
                        Some(e) => Some(*e),
                        None => None,
                    },
                )
            },
        },
{
    let payload = encode_attestation_payload(&attestation.identifier, attestation.public_key);
    if !Vault::verify(attestation.public_key, &payload, &attestation.possession_proof) {
        return Err(IdentityError::AuthenticationFailed);
    }
    if attestation.identifier.value != attestation.public_key {
        return Err(IdentityError::AuthenticationFailed);
    }
    if let Some(e) = expected {
        if e.value != attestation.identifier.value {
            return Err(IdentityError::AuthenticationFailed);
        }
    }
    Ok(PublicIdentity { identifier: attestation.identifier, public_key: attestation.public_key })
}

/// An identity: an identifier bound to vault key material. The identity
/// key proves possession during handshakes and attestations; the
/// credential key signs issued credentials (a separate vault role, equal
/// to the identity key unless provisioned otherwise).
pub struct Identity {
    pub identifier: Identifier,
    pub public_key: u64,
    pub identity_key_id: u64,
    pub credential_key_id: u64,
    pub credential: Option<Credential>,
}

impl Identity {
    /// The identifier is derived from the public key, which is the public
    /// half of the identity key.
    pub open spec fn wf(self) -> bool {
        &&& self.identifier == spec_identifier_of(self.public_key)
        &&& self.public_key == self.identity_key_id
    }

    /// Well-formed and with both key roles present in `vault`.
    pub open spec fn valid_for(self, vault: Vault) -> bool {
        &&& self.wf()
        &&& vault.has_key(self.identity_key_id)
        &&& vault.has_key(self.credential_key_id)
    }

    /// Creates a fresh identity: generates a key, derives the identifier
    /// from its public half. Fails only when the vault does.
    pub fn create(vault: &mut Vault) -> (r: Result<Identity, IdentityError>)
        requires
            old(vault).wf(),
        ensures
            final(vault).wf(),
            forall|k: u64| old(vault).has_key(k) ==> final(vault).has_key(k),
            match r {
                Ok(identity) => {
                    &&& identity.valid_for(*final(vault))
                    &&& identity.credential_key_id == identity.identity_key_id
                    &&& identity.credential is None
                    &&& !old(vault).has_key(identity.identity_key_id)
                },
                Err(e) => {
                    &&& e == IdentityError::OperationFailed
                    &&& old(vault).next_key_id == u64::MAX
                    &&& *final(vault) == *old(vault)
                },
            },
    {
        let key_id = match vault.generate_key(SecretType::Ed25519) {
            Ok(k) => k,
            Err(e) => {
                return Err(e);
            },
        };
        Ok(
            Identity {
                identifier: identifier_of(key_id),
                public_key: key_id,
                identity_key_id: key_id,
                credential_key_id: key_id,
                credential: None,
            },
        )
    }

    pub fn identifier(&self) -> (r: &Identifier)
        ensures
            *r == self.identifier,
    {
        &self.identifier
    }

    /// A redacted view of this identity, usable as trust material.
    pub fn to_public(&self) -> (r: PublicIdentity)
        ensures
            r.identifier == self.identifier,
            r.public_key == self.public_key,
            self.wf() ==> r.wf(),
    {
        PublicIdentity { identifier: self.identifier, public_key: self.public_key }
    }

    /// Attaches a credential for later presentation; replaces any earlier
    /// one.
    pub fn set_credential(&mut self, credential: Credential)
        ensures
            final(self).credential == Some(credential),
            final(self).identifier == old(self).identifier,
            final(self).public_key == old(self).public_key,
            final(self).identity_key_id == old(self).identity_key_id,
            final(self).credential_key_id == old(self).credential_key_id,
    {
        self.credential = Some(credential);
    }

    /// Produces a self-contained attestation of this identity, with a proof
    /// of possession signed by the identity key. Fails with
    /// `OperationFailed` exactly when `vault` lacks the identity key.
    pub fn export(&self, vault: &Vault) -> (r: Result<IdentityAttestation, IdentityError>)
        requires
            vault.wf(),
        ensures
            match r {
                Ok(attestation) => {
                    &&& vault.has_key(self.identity_key_id)
                    &&& attestation.identifier == self.identifier
                    &&& attestation.public_key == self.public_key
                    &&& attestation.possession_proof.signer == self.identity_key_id
                    &&& attestation.possession_proof.message@ == spec_attestation_payload(
                        self.identifier,
                        self.public_key,
                    )
                    &&& self.wf() ==> spec_attestation_valid(attestation, None)
                },
                Err(e) => {
                    &&& e == IdentityError::OperationFailed
                    &&& !vault.has_key(self.identity_key_id)
                },
            },
    {
        let payload = encode_attestation_payload(&self.identifier, self.public_key);
        let possession_proof = match vault.sign(self.identity_key_id, &payload) {
            Ok(s) => s,
            Err(e) => {
                return Err(e);
            },
        };
        Ok(
            IdentityAttestation {
                identifier: self.identifier,
                public_key: self.public_key,
                possession_proof,
            },
        )
    }

    /// Issues a credential over the builder's subject and attributes, signed
    /// with this identity's credential key; the expiry is `now + ttl`.
    /// Fails with `OperationFailed` exactly when `vault` lacks the
    /// credential key.
    pub fn issue_credential(
        &self,
        vault: &Vault,
        builder: CredentialBuilder,
        ttl: u64,
        now: u64,
    ) -> (r: Result<Credential, IdentityError>)
        requires
            vault.wf(),
            now + ttl <= u64::MAX,
        ensures
            match r {
                Ok(c) => {
                    &&& vault.has_key(self.credential_key_id)
                    &&& c.subject == builder.subject
                    &&& c.issuer == self.identifier
                    &&& c.schema_id == builder.schema_id
                    &&& c.attributes@ == builder.attributes@
                    &&& c.expiry == now + ttl
                    &&& c.signature.signer == self.credential_key_id
                    &&& c.signature.message@ == crate::credential::spec_payload_bytes(
                        c.subject,
                        self.identifier,
                        c.schema_id,
                        c.attributes@,
                        c.expiry,
                    )
                },
                Err(e) => {
                    &&& e == IdentityError::OperationFailed
                    &&& !vault.has_key(self.credential_key_id)
                },
            },
    {
        let expiry = now + ttl;
        let payload = crate::credential::encode_payload(
            &builder.subject,
            &self.identifier,
            builder.schema_id,
            &builder.attributes,
            expiry,
        );
        let signature = match vault.sign(self.credential_key_id, &payload) {
            Ok(s) => s,
            Err(e) => {
                return Err(e);
            },
        };
        Ok(
            Credential {
                subject: builder.subject,
                issuer: self.identifier,
                schema_id: builder.schema_id,
                attributes: builder.attributes,
                expiry,
                signature,
            },
        )
    }
}

/// Builds an identity from a chosen key: either one already provisioned in
/// the vault, or a freshly generated one.
pub enum IdentityKeyChoice {
    Existing(u64),
    Random(SecretType),
}

pub struct IdentityBuilder {
    pub key: IdentityKeyChoice,
}

impl IdentityBuilder {
    pub fn new() -> (r: IdentityBuilder)
        ensures
            r.key matches IdentityKeyChoice::Random(t) && t == SecretType::Ed25519,
    {
        IdentityBuilder { key: IdentityKeyChoice::Random(SecretType::Ed25519) }
    }

    pub fn with_existing_key(self, key_id: u64) -> (r: IdentityBuilder)
        ensures
            r.key matches IdentityKeyChoice::Existing(k) && k == key_id,
    {
        IdentityBuilder { key: IdentityKeyChoice::Existing(key_id) }
    }

    pub fn with_random_key(self, secret_type: SecretType) -> (r: IdentityBuilder)
        ensures
            r.key matches IdentityKeyChoice::Random(t) && t == secret_type,
    {
        IdentityBuilder { key: IdentityKeyChoice::Random(secret_type) }
    }

    /// Provisions the chosen key and derives the identifier. With an
    /// existing key, fails with `OperationFailed` exactly when the vault
    /// does not hold it; with a random key, exactly when generation fails.
    pub fn build(self, vault: &mut Vault) -> (r: Result<Identity, IdentityError>)
        requires
            old(vault).wf(),
        ensures
            final(vault).wf(),
            forall|k: u64| old(vault).has_key(k) ==> final(vault).has_key(k),
            match r {
                Ok(identity) => {
                    &&& identity.valid_for(*final(vault))
                    &&& identity.credential_key_id == identity.identity_key_id
                    &&& identity.credential is None
                    &&& (self.key matches IdentityKeyChoice::Existing(k) ==> {
                        &&& identity.identity_key_id == k
                        &&& *final(vault) == *old(vault)
                    })
                },
                Err(e) => {
                    &&& e == IdentityError::OperationFailed
                    &&& match self.key {
                        IdentityKeyChoice::Existing(k) => !old(vault).has_key(k),
                        IdentityKeyChoice::Random(_) => old(vault).next_key_id == u64::MAX,
                    }
                    &&& *final(vault) == *old(vault)
                },
            },
    {
        match self.key {
            IdentityKeyChoice::Existing(key_id) => {
                if !vault.contains_key(key_id) {
                    return Err(IdentityError::OperationFailed);
                }
                Ok(
                    Identity {
                        identifier: identifier_of(key_id),
                        public_key: key_id,
                        identity_key_id: key_id,
                        credential_key_id: key_id,
                        credential: None,
                    },
                )
            },
            IdentityKeyChoice::Random(secret_type) => {
                let key_id = match vault.generate_key(secret_type) {
                    Ok(k) => k,
                    Err(e) => {
                        return Err(e);
                    },
                };
                Ok(
                    Identity {
                        identifier: identifier_of(key_id),
                        public_key: key_id,
                        identity_key_id: key_id,
                        credential_key_id: key_id,
                        credential: None,
                    },
                )
            },
        }
    }
}

} // verus!
