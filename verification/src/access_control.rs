use vstd::prelude::*;

use crate::credential::{attrs_lookup, AttributeSet};
use crate::identity::Identifier;
use crate::storage::AttributeStorage;

verus! {

/// The conjunction of required (name, value) pairs that must all be
/// present and equal in a sender's stored attribute set for a message to
/// be admitted.
pub struct CredentialAccessControl {
    pub required_attributes: Vec<(String, Vec<u8>)>,
}

/// Whether a stored attribute sequence satisfies every required pair.
pub open spec fn spec_required_match(
    required: Seq<(Seq<char>, Seq<u8>)>,
    attrs: Seq<(Seq<char>, Seq<u8>)>,
) -> bool {
    forall|i: int|
        0 <= i < required.len() ==> attrs_lookup(attrs, (#[trigger] required[i]).0) == Some(
            required[i].1,
        )
}

/// Whether the store authorizes `sender`: it holds an attribute set for
/// the sender, and every required pair matches in it.
pub open spec fn spec_authorized(
    required: Seq<(Seq<char>, Seq<u8>)>,
    store: Map<Identifier, AttributeSet>,
    sender: Identifier,
) -> bool {
    &&& store.contains_key(sender)
    &&& spec_required_match(required, store[sender].attributes@)
}

impl CredentialAccessControl {
    pub fn new(required_attributes: Vec<(String, Vec<u8>)>) -> (r: CredentialAccessControl)
        ensures
            r.required_attributes == required_attributes,
    {
        CredentialAccessControl { required_attributes }
    }

    /// Decides whether a message from the channel-verified `sender` may be
    /// delivered: exactly when the store holds attributes for the sender
    /// and every required pair is present with an equal value.
    pub fn is_authorized(&self, storage: &AttributeStorage, sender: &Identifier) -> (r: bool)
        requires
            storage.wf(),
        ensures
            r == spec_authorized(self.required_attributes.deep_view(), storage@, *sender),
    {
        let stored = match storage.get_attributes(sender) {
            Some(s) => s,
            None => {
                return false;
            },
        };
        let n = self.required_attributes.len();
        let mut i: usize = 0;
        while i < n
            invariant
                n == self.required_attributes@.len(),
                0 <= i <= n,
                storage.wf(),
                storage@.contains_key(*sender),
                stored.attributes@ == storage@[*sender].attributes@,
                forall|j: int|
                    0 <= j < i ==> attrs_lookup(
                        storage@[*sender].attributes@,
                        (#[trigger] self.required_attributes.deep_view()[j]).0,
                    ) == Some(self.required_attributes.deep_view()[j].1),
            decreases n - i,
        {
            let required_value: &Vec<u8> = &self.required_attributes[i].1;
            proof {
                assert(self.required_attributes.deep_view()[i as int]
                    == (self.required_attributes@[i as int].0@, self.required_attributes@[
                    i as int
                ].1.deep_view()));
                assert(self.required_attributes@[i as int].1.deep_view() =~= required_value@);
            }
            match stored.attrs().get(self.required_attributes[i].0.as_str()) {
                Some(found) => {
                    if !crate::encoding::bytes_eq(found, required_value) {
                        proof {
                            assert(attrs_lookup(
                                storage@[*sender].attributes@,
                                self.required_attributes.deep_view()[i as int].0,
                            ) != Some(self.required_attributes.deep_view()[i as int].1));
                        }
                        return false;
                    }
                },
                None => {
                    proof {
                        assert(attrs_lookup(
                            storage@[*sender].attributes@,
                            self.required_attributes.deep_view()[i as int].0,
                        ) != Some(self.required_attributes.deep_view()[i as int].1));
                    }
                    return false;
                },
            }
            i += 1;
        }
        true
    }
}

/// A per-message gate on delivery to or from a worker.
pub enum AccessControl {
    /// Admits every message.
    AllowAll,
    /// Admits no message; as an outbound gate it prevents relaying.
    DenyAll,
    /// Admits messages whose sender's stored attributes match every
    /// required pair.
    Credential(CredentialAccessControl),
}

/// Whether a gate admits a message from `sender` given the store contents.
pub open spec fn spec_gate_allows(
    gate: AccessControl,
    store: Map<Identifier, AttributeSet>,
    sender: Identifier,
) -> bool {
    match gate {
        AccessControl::AllowAll => true,
        AccessControl::DenyAll => false,
        AccessControl::Credential(c) => spec_authorized(
            c.required_attributes.deep_view(),
            store,
            sender,
        ),
    }
}

impl AccessControl {
    pub fn allows(&self, storage: &AttributeStorage, sender: &Identifier) -> (r: bool)
        requires
            storage.wf(),
        ensures
            r == spec_gate_allows(*self, storage@, *sender),
    {
        match self {
            AccessControl::AllowAll => true,
            AccessControl::DenyAll => false,
            AccessControl::Credential(c) => c.is_authorized(storage, sender),
        }
    }
}

/// Law: the credential gate denies a sender with no stored attributes;
/// denies a sender whose stored set fails any required pair; and admits a
/// sender exactly when the store holds its attributes and every required
/// pair matches.
pub proof fn lemma_credential_gate_cases(
    required: Seq<(Seq<char>, Seq<u8>)>,
    store: Map<Identifier, AttributeSet>,
    sender: Identifier,
)
    ensures
        !store.contains_key(sender) ==> !spec_authorized(required, store, sender),
        store.contains_key(sender) && (exists|i: int|
            0 <= i < required.len() && attrs_lookup(
                store[sender].attributes@,
                (#[trigger] required[i]).0,
            ) != Some(required[i].1)) ==> !spec_authorized(required, store, sender),
        spec_authorized(required, store, sender) <==> (store.contains_key(sender)
            && spec_required_match(required, store[sender].attributes@)),
{
}

} // verus!
