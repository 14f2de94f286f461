use vstd::prelude::*;

use crate::error::IdentityError;
use crate::identity::{Identifier, PublicIdentity};
use crate::vault::{Signature, Vault};

verus! {

use vstd::string::StringSliceAdditionalSpecFns;

/// An ordered attribute map: names to byte values, in insertion order.
/// Lookup returns the first pair with a matching name.
pub struct Attributes {
    pub pairs: Vec<(String, Vec<u8>)>,
}

impl View for Attributes {
    type V = Seq<(Seq<char>, Seq<u8>)>;

    open spec fn view(&self) -> Seq<(Seq<char>, Seq<u8>)> {
        self.pairs.deep_view()
    }
}

/// First-match lookup of `name` among attribute pairs.
pub open spec fn attrs_lookup(s: Seq<(Seq<char>, Seq<u8>)>, name: Seq<char>) -> Option<Seq<u8>>
    decreases s.len(),
{
    if s.len() == 0 {
        None
    } else if s[0].0 == name {
        Some(s[0].1)
    } else {
        attrs_lookup(s.drop_first(), name)
    }
}

/// Lookup ignores a prefix that holds no pair named `name`.
proof fn lemma_attrs_lookup_skip(s: Seq<(Seq<char>, Seq<u8>)>, name: Seq<char>, i: int)
    requires
        0 <= i <= s.len(),
        forall|j: int| 0 <= j < i ==> (#[trigger] s[j]).0 != name,
    ensures
        attrs_lookup(s, name) == attrs_lookup(s.skip(i), name),
    decreases i,
{
    if i > 0 {
        assert(s.drop_first().skip(i - 1) =~= s.skip(i));
        lemma_attrs_lookup_skip(s.drop_first(), name, i - 1);
    } else {
        assert(s.skip(0) =~= s);
    }
}

impl Attributes {
    pub fn new() -> (r: Attributes)
        ensures
            r@.len() == 0,
    {
        Attributes { pairs: Vec::new() }
    }

    /// Appends a pair; an earlier pair with the same name keeps shadowing
    /// lookups.
    pub fn push_attribute(&mut self, name: &str, value: &[u8])
        ensures
            final(self)@ == old(self)@.push((name@, value@)),
    {
        let name_string = name.to_owned();
        let value_vec = vstd::slice::slice_to_vec(value);
        self.pairs.push((name_string, value_vec));
        proof {
            assert(self@ =~~= old(self)@.push((name@, value@)));
        }
    }

    /// First-match lookup by name.
    pub fn get(&self, name: &str) -> (r: Option<&Vec<u8>>)
        ensures
            match r {
                Some(v) => attrs_lookup(self@, name@) == Some(v@),
                None => attrs_lookup(self@, name@) is None,
            },
    {
        let n = self.pairs.len();
        let mut i: usize = 0;
        while i < n
            invariant
                n == self.pairs@.len(),
                0 <= i <= n,
                forall|j: int| 0 <= j < i ==> (#[trigger] self@[j]).0 != name@,
            decreases n - i,
        {
            if crate::encoding::str_eq(self.pairs[i].0.as_str(), name) {
                proof {
                    lemma_attrs_lookup_skip(self@, name@, i as int);
                    assert(self@.skip(i as int)[0] == self@[i as int]);
                }
                return Some(&self.pairs[i].1);
            }
            i += 1;
        }
        proof {
            lemma_attrs_lookup_skip(self@, name@, n as int);
            assert(self@.skip(n as int) =~= Seq::<(Seq<char>, Seq<u8>)>::empty());
        }
        None
    }

    /// The number of attribute pairs.
    pub fn len(&self) -> (r: usize)
        ensures
            r == self@.len(),
    {
        self.pairs.len()
    }

    /// A copy whose view is the same.
    pub fn clone_attributes(&self) -> (r: Attributes)
        ensures
            r@ == self@,
    {
        let mut pairs: Vec<(String, Vec<u8>)> = Vec::new();
        let n = self.pairs.len();
        let mut i: usize = 0;
        while i < n
            invariant
                n == self.pairs@.len(),
                0 <= i <= n,
                pairs.deep_view() == self@.subrange(0, i as int),
            decreases n - i,
        {
            let name = self.pairs[i].0.clone();
            let value = crate::encoding::clone_bytes(&self.pairs[i].1);
            let ghost prev_view = pairs@;
            let ghost prev_dv = pairs.deep_view();
            pairs.push((name, value));
            proof {
                assert(prev_dv.len() == i as int);
                assert(prev_view.len() == i as int);
                assert(pairs@ == prev_view.push((name, value)));
                assert(value.deep_view() =~= self.pairs@[i as int].1.deep_view());
                assert forall|j: int| 0 <= j <= i as int implies pairs.deep_view()[j] == self@[j]
                    by {
                    if j < i as int {
                        assert(pairs@[j] == prev_view[j]);
                        assert(prev_dv[j] == self@.subrange(0, i as int)[j]);
                    } else {
                        assert(pairs@[j] == (name, value));
                    }
                }
                assert(pairs.deep_view() =~= self@.subrange(0, i as int + 1));
            }
            i += 1;
        }
        proof {
            assert(self@.subrange(0, n as int) =~= self@);
        }
        Attributes { pairs }
    }
}

/// A verified attribute set: produced only by successful credential
/// verification, and the unit stored per identifier.
pub struct AttributeSet {
    pub attributes: Attributes,
    pub expiry: u64,
}

impl AttributeSet {
    pub fn attrs(&self) -> (r: &Attributes)
        ensures
            r == &self.attributes,
    {
        &self.attributes
    }

    pub fn expires_at(&self) -> (r: u64)
        ensures
            r == self.expiry,
    {
        self.expiry
    }
}

/// The serialized form of one attribute pair: name length, name bytes
/// (UTF-8), value length, value bytes, lengths as little-endian `u64`.
pub open spec fn spec_attr_pair_bytes(p: (Seq<char>, Seq<u8>)) -> Seq<u8> {
    vstd::bytes::spec_u64_to_le_bytes(vstd::utf8::encode_utf8(p.0).len() as u64)
        + vstd::utf8::encode_utf8(p.0) + vstd::bytes::spec_u64_to_le_bytes(p.1.len() as u64) + p.1
}

/// The serialized form of an attribute sequence, pair by pair in order.
pub open spec fn spec_attrs_bytes(s: Seq<(Seq<char>, Seq<u8>)>) -> Seq<u8>
    decreases s.len(),
{
    if s.len() == 0 {
        Seq::empty()
    } else {
        spec_attr_pair_bytes(s[0]) + spec_attrs_bytes(s.drop_first())
    }
}

proof fn lemma_attrs_bytes_push(s: Seq<(Seq<char>, Seq<u8>)>, p: (Seq<char>, Seq<u8>))
    ensures
        spec_attrs_bytes(s.push(p)) == spec_attrs_bytes(s) + spec_attr_pair_bytes(p),
    decreases s.len(),
{
    if s.len() == 0 {
        assert(s.push(p)[0] == p);
        assert(s.push(p).drop_first() =~= Seq::<(Seq<char>, Seq<u8>)>::empty());
        assert(spec_attrs_bytes(s.push(p)) == spec_attr_pair_bytes(p) + spec_attrs_bytes(
            Seq::<(Seq<char>, Seq<u8>)>::empty(),
        ));
        assert(spec_attrs_bytes(s.push(p)) =~= spec_attrs_bytes(s) + spec_attr_pair_bytes(p));
    } else {
        assert(s.push(p).drop_first() =~= s.drop_first().push(p));
        lemma_attrs_bytes_push(s.drop_first(), p);
        assert(spec_attr_pair_bytes(s[0]) + (spec_attrs_bytes(s.drop_first())
            + spec_attr_pair_bytes(p)) =~= (spec_attr_pair_bytes(s[0]) + spec_attrs_bytes(
            s.drop_first(),
        )) + spec_attr_pair_bytes(p));
    }
}

/// The serialized credential payload: subject, issuer, schema id, attribute
/// count, attribute pairs, expiry. The issuer signs exactly these bytes.
pub open spec fn spec_payload_bytes(
    subject: Identifier,
    issuer: Identifier,
    schema_id: u64,
    attrs: Seq<(Seq<char>, Seq<u8>)>,
    expiry: u64,
) -> Seq<u8> {
    vstd::bytes::spec_u64_to_le_bytes(subject.value) + vstd::bytes::spec_u64_to_le_bytes(
        issuer.value,
    ) + vstd::bytes::spec_u64_to_le_bytes(schema_id) + vstd::bytes::spec_u64_to_le_bytes(
        attrs.len() as u64,
    ) + spec_attrs_bytes(attrs) + vstd::bytes::spec_u64_to_le_bytes(expiry)
}

/// Serializes a credential payload.
pub fn encode_payload(
    subject: &Identifier,
    issuer: &Identifier,
    schema_id: u64,
    attributes: &Attributes,
    expiry: u64,
) -> (out: Vec<u8>)
    ensures
        out@ == spec_payload_bytes(*subject, *issuer, schema_id, attributes@, expiry),
{
    let mut out: Vec<u8> = Vec::new();
    crate::encoding::push_u64(&mut out, subject.value);
    crate::encoding::push_u64(&mut out, issuer.value);
    crate::encoding::push_u64(&mut out, schema_id);
    let n = attributes.len();
    crate::encoding::push_u64(&mut out, n as u64);
    let ghost header = out@;
    let mut i: usize = 0;
    while i < n
        invariant
            n == attributes@.len(),
            0 <= i <= n,
            out@ == header + spec_attrs_bytes(attributes@.subrange(0, i as int)),
        decreases n - i,
    {
        let pair_name: &String = &attributes.pairs[i].0;
        let mut name_bytes = pair_name.as_str().as_bytes_vec();
        crate::encoding::push_u64(&mut out, name_bytes.len() as u64);
        out.append(&mut name_bytes);
        let value: &Vec<u8> = &attributes.pairs[i].1;
        crate::encoding::push_u64(&mut out, value.len() as u64);
        let mut value_bytes = crate::encoding::clone_bytes(value);
        out.append(&mut value_bytes);
        proof {
            let s = attributes@;
            assert(s.subrange(0, i as int + 1) =~= s.subrange(0, i as int).push(s[i as int]));
            lemma_attrs_bytes_push(s.subrange(0, i as int), s[i as int]);
            assert(out@ =~= header + spec_attrs_bytes(s.subrange(0, i as int + 1)));
        }
        i += 1;
    }
    crate::encoding::push_u64(&mut out, expiry);
    proof {
        assert(attributes@.subrange(0, n as int) =~= attributes@);
        assert(out@ =~= spec_payload_bytes(*subject, *issuer, schema_id, attributes@, expiry));
    }
    out
}

/// A signed attestation binding a subject identifier to attributes, with an
/// issuer and an expiry. Only expiry ends its validity; there is no
/// deletion.
pub struct Credential {
    pub subject: Identifier,
    pub issuer: Identifier,
    pub schema_id: u64,
    pub attributes: Attributes,
    pub expiry: u64,
    pub signature: Signature,
}

impl Credential {
    pub fn builder(subject: Identifier) -> (b: CredentialBuilder)
        ensures
            b.subject == subject,
            b.schema_id == 0,
            b.attributes@.len() == 0,
    {
        CredentialBuilder { subject, schema_id: 0, attributes: Attributes::new() }
    }

    pub fn subject(&self) -> (r: &Identifier)
        ensures
            *r == self.subject,
    {
        &self.subject
    }

    pub fn issuer(&self) -> (r: &Identifier)
        ensures
            *r == self.issuer,
    {
        &self.issuer
    }

    /// A copy whose fields agree with this credential up to views.
    pub fn clone_credential(&self) -> (r: Credential)
        ensures
            r.subject == self.subject,
            r.issuer == self.issuer,
            r.schema_id == self.schema_id,
            r.attributes@ == self.attributes@,
            r.expiry == self.expiry,
            r.signature.signer == self.signature.signer,
            r.signature.message@ == self.signature.message@,
    {
        Credential {
            subject: self.subject,
            issuer: self.issuer,
            schema_id: self.schema_id,
            attributes: self.attributes.clone_attributes(),
            expiry: self.expiry,
            signature: self.signature.clone_signature(),
        }
    }
}

/// Accumulates the subject, schema id and attributes of a credential to be
/// issued.
pub struct CredentialBuilder {
    pub subject: Identifier,
    pub schema_id: u64,
    pub attributes: Attributes,
}

impl CredentialBuilder {
    pub fn with_attribute(self, name: &str, value: &[u8]) -> (r: CredentialBuilder)
        ensures
            r.subject == self.subject,
            r.schema_id == self.schema_id,
            r.attributes@ == self.attributes@.push((name@, value@)),
    {
        let mut attributes = self.attributes;
        attributes.push_attribute(name, value);
        CredentialBuilder { subject: self.subject, schema_id: self.schema_id, attributes }
    }

    pub fn with_schema_id(self, schema_id: u64) -> (r: CredentialBuilder)
        ensures
            r.subject == self.subject,
            r.schema_id == schema_id,
            r.attributes@ == self.attributes@,
    {
        CredentialBuilder { subject: self.subject, schema_id, attributes: self.attributes }
    }
}

/// The public key under which a credential of `issuer` must verify: that of
/// the first trusted authority with the issuer's identifier, if any.
pub open spec fn spec_authority_key(trusted: Seq<PublicIdentity>, issuer: Identifier) -> Option<
    u64,
>
    decreases trusted.len(),
{
    if trusted.len() == 0 {
        None
    } else if trusted[0].identifier == issuer {
        Some(trusted[0].public_key)
    } else {
        spec_authority_key(trusted.drop_first(), issuer)
    }
}

/// Whether `issuer` is in the trusted-authority set.
pub open spec fn spec_issuer_trusted(trusted: Seq<PublicIdentity>, issuer: Identifier) -> bool {
    spec_authority_key(trusted, issuer) is Some
}

/// The issuer is trusted exactly when some trusted authority carries its
/// identifier.
pub proof fn lemma_issuer_trusted_iff(trusted: Seq<PublicIdentity>, issuer: Identifier)
    ensures
        spec_issuer_trusted(trusted, issuer) <==> exists|i: int|
            0 <= i < trusted.len() && (#[trigger] trusted[i]).identifier == issuer,
    decreases trusted.len(),
{
    if trusted.len() > 0 {
        lemma_issuer_trusted_iff(trusted.drop_first(), issuer);
        if trusted[0].identifier != issuer {
            if exists|i: int| 0 <= i < trusted.len() && (#[trigger] trusted[i]).identifier
                == issuer {
                let i = choose|i: int|
                    0 <= i < trusted.len() && (#[trigger] trusted[i]).identifier == issuer;
                assert(trusted.drop_first()[i - 1].identifier == issuer);
            }
            if exists|i: int|
                0 <= i < trusted.drop_first().len() && (#[trigger] trusted.drop_first()[
                    i
                ]).identifier == issuer {
                let i = choose|i: int|
                    0 <= i < trusted.drop_first().len() && (#[trigger] trusted.drop_first()[
                        i
                    ]).identifier == issuer;
                assert(trusted[i + 1].identifier == issuer);
            }
        }
    }
}

proof fn lemma_authority_key_skip(trusted: Seq<PublicIdentity>, issuer: Identifier, i: int)
    requires
        0 <= i <= trusted.len(),
        forall|j: int| 0 <= j < i ==> (#[trigger] trusted[j]).identifier != issuer,
    ensures
        spec_authority_key(trusted, issuer) == spec_authority_key(trusted.skip(i), issuer),
    decreases i,
{
    if i > 0 {
        assert(trusted.drop_first().skip(i - 1) =~= trusted.skip(i));
        lemma_authority_key_skip(trusted.drop_first(), issuer, i - 1);
    } else {
        assert(trusted.skip(0) =~= trusted);
    }
}

/// The verification decision for a credential, in the order the checks run:
/// expiry strictly after `now`, else `Expired`; issuer among the trusted
/// authorities, else `UntrustedIssuer` (without its key the signature
/// cannot even be checked); signature over the recomputed payload under the
/// authority's key, else `InvalidSignature`; subject as expected if an
/// expected subject is given, else `SubjectMismatch`.
pub open spec fn spec_verify_outcome(
    expected_subject: Option<Identifier>,
    trusted: Seq<PublicIdentity>,
    c: Credential,
    now: u64,
) -> Result<(), IdentityError> {
    if c.expiry <= now {
        Err(IdentityError::Expired)
    } else {
        match spec_authority_key(trusted, c.issuer) {
            None => Err(IdentityError::UntrustedIssuer),
            Some(key) => if !c.signature.verifies(
                key,
                spec_payload_bytes(c.subject, c.issuer, c.schema_id, c.attributes@, c.expiry),
            ) {
                Err(IdentityError::InvalidSignature)
            } else {
                match expected_subject {
                    Some(e) => if e != c.subject {
                        Err(IdentityError::SubjectMismatch)
                    } else {
                        Ok(())
                    },
                    None => Ok(()),
                }
            },
        }
    }
}

/// Looks up the public key of the first trusted authority carrying
/// `issuer`.
pub fn find_authority_key(trusted_authorities: &Vec<PublicIdentity>, issuer: &Identifier) -> (r:
    Option<u64>)
    ensures
        r == spec_authority_key(trusted_authorities@, *issuer),
{
    let n = trusted_authorities.len();
    let mut i: usize = 0;
    while i < n
        invariant
            n == trusted_authorities@.len(),
            0 <= i <= n,
            forall|j: int|
                0 <= j < i ==> (#[trigger] trusted_authorities@[j]).identifier != *issuer,
        decreases n - i,
    {
        if trusted_authorities[i].identifier.value == issuer.value {
            proof {
                lemma_authority_key_skip(trusted_authorities@, *issuer, i as int);
                assert(trusted_authorities@.skip(i as int)[0] == trusted_authorities@[i as int]);
            }
            return Some(trusted_authorities[i].public_key);
        }
        i += 1;
    }
    proof {
        lemma_authority_key_skip(trusted_authorities@, *issuer, n as int);
        assert(trusted_authorities@.skip(n as int) =~= Seq::<PublicIdentity>::empty());
    }
    None
}

/// Law: a credential whose issuer is not in the trusted-authority set is
/// rejected as `UntrustedIssuer`, whatever its signature says — for any
/// credential that has not already expired (an expired credential is
/// rejected as `Expired` before the issuer is even looked at).
pub proof fn lemma_verify_untrusted_issuer(
    expected_subject: Option<Identifier>,
    trusted: Seq<PublicIdentity>,
    c: Credential,
    now: u64,
)
    requires
        now < c.expiry,
        forall|i: int| 0 <= i < trusted.len() ==> (#[trigger] trusted[i]).identifier != c.issuer,
    ensures
        spec_verify_outcome(expected_subject, trusted, c, now) == Err::<(), IdentityError>(
            IdentityError::UntrustedIssuer,
        ),
{
    if spec_issuer_trusted(trusted, c.issuer) {
        lemma_issuer_trusted_iff(trusted, c.issuer);
        let i = choose|i: int|
            0 <= i < trusted.len() && (#[trigger] trusted[i]).identifier == c.issuer;
        assert(false);
    }
}

/// Law: a credential whose expiry is not later than `now` — in particular
/// any expiry earlier than the current time — is rejected as `Expired`,
/// even with a valid signature and a trusted issuer.
pub proof fn lemma_verify_expired(
    expected_subject: Option<Identifier>,
    trusted: Seq<PublicIdentity>,
    c: Credential,
    now: u64,
)
    requires
        c.expiry <= now,
    ensures
        spec_verify_outcome(expected_subject, trusted, c, now) == Err::<(), IdentityError>(
            IdentityError::Expired,
        ),
{
}

/// Law: a credential exactly as issued — signed over its own payload under
/// the key that the trusted-authority set holds for its issuer — verifies
/// successfully before its expiry, against its own subject or against no
/// expected subject. Together with the contracts of
/// [`crate::identity::Identity::issue_credential`] and
/// [`verify_credential`], issuing and then verifying immediately returns
/// exactly the attributes supplied at issuance.
pub proof fn lemma_issue_then_verify(
    expected_subject: Option<Identifier>,
    trusted: Seq<PublicIdentity>,
    c: Credential,
    issuer_key: u64,
    now: u64,
)
    requires
        spec_authority_key(trusted, c.issuer) == Some(issuer_key),
        c.signature.signer == issuer_key,
        c.signature.message@ == spec_payload_bytes(
            c.subject,
            c.issuer,
            c.schema_id,
            c.attributes@,
            c.expiry,
        ),
        now < c.expiry,
        expected_subject matches Some(e) ==> e == c.subject,
    ensures
        spec_verify_outcome(expected_subject, trusted, c, now) == Ok::<(), IdentityError>(()),
{
}

/// Verifies a credential against the trusted-authority set at time `now`,
/// and optionally against an expected subject. On success returns exactly
/// the attribute set the credential carries; on failure returns the error
/// of the first check that failed and no attributes at all.
pub fn verify_credential(
    expected_subject: Option<&Identifier>,
    trusted_authorities: &Vec<PublicIdentity>,
    credential: &Credential,
    now: u64,
) -> (r: Result<AttributeSet, IdentityError>)
    ensures
        match r {
            Ok(a) => {
                &&& spec_verify_outcome(
                    match expected_subject {
                        Some(exp) => Some(*exp),
                        None => None,
                    },
                    trusted_authorities@,
                    *credential,
                    now,
                ) == Ok::<(), IdentityError>(())
                &&& a.attributes@ == credential.attributes@
                &&& a.expiry == credential.expiry
            },
            Err(e) => spec_verify_outcome(
                match expected_subject {
                    Some(exp) => Some(*exp),
                    None => None,
                },
                trusted_authorities@,
                *credential,
                now,
            ) == Err::<(), IdentityError>(e),
        },
{
    if credential.expiry <= now {
        return Err(IdentityError::Expired);
    }
    let key = match find_authority_key(trusted_authorities, &credential.issuer) {
        Some(k) => k,
        None => {
            return Err(IdentityError::UntrustedIssuer);
        },
    };
    let payload = encode_payload(
        &credential.subject,
        &credential.issuer,
        credential.schema_id,
        &credential.attributes,
        credential.expiry,
    );
    if !Vault::verify(key, &payload, &credential.signature) {
        return Err(IdentityError::InvalidSignature);
    }
    if let Some(expected) = expected_subject {
        if expected.value != credential.subject.value {
            return Err(IdentityError::SubjectMismatch);
        }
    }
    Ok(
        AttributeSet {
            attributes: credential.attributes.clone_attributes(),
            expiry: credential.expiry,
        },
    )
}

} // verus!
