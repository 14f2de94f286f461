use vstd::prelude::*;

use crate::error::IdentityError;

verus! {

/// Kinds of key material a vault can provision.
#[derive(Clone, Copy, Debug, PartialEq, Eq, Structural)]
pub enum SecretType {
    Ed25519,
    NistP256,
}

/// A signature produced by a vault key.
///
/// This in-memory backend models a signature as the signing key's public
/// half together with the exact message that was signed: verification
/// succeeds precisely when the claimed public key and the message both
/// match. The decision logic built on top never looks inside a signature
/// except through [`Vault::verify`].
pub struct Signature {
    pub signer: u64,
    pub message: Vec<u8>,
}

impl Signature {
    /// Whether this signature verifies under `public_key` for `message`.
    pub open spec fn verifies(self, public_key: u64, message: Seq<u8>) -> bool {
        self.signer == public_key && self.message@ == message
    }

    pub fn clone_signature(&self) -> (r: Signature)
        ensures
            r.signer == self.signer,
            r.message@ == self.message@,
    {
        let message = crate::encoding::clone_bytes(&self.message);
        Signature { signer: self.signer, message }
    }
}

/// One provisioned key of the vault: an opaque handle plus the public half.
pub struct VaultKey {
    pub key_id: u64,
    pub public_key: u64,
    pub secret_type: SecretType,
}

/// An in-memory vault backend.
///
/// Any backend offering `generate_key`, `sign`, `verify` and `delete_key`
/// is interchangeable; this one keeps its keys in process memory and draws
/// both the key handle and the public half from one fresh counter.
pub struct Vault {
    pub keys: Vec<VaultKey>,
    pub next_key_id: u64,
}

impl Vault {
    /// Well-formedness: handles are unique and fresh below the counter, and
    /// each key's public half equals its handle (how this backend derives
    /// public keys).
    pub open spec fn wf(self) -> bool {
        &&& forall|i: int|
            0 <= i < self.keys@.len() ==> (#[trigger] self.keys@[i]).key_id < self.next_key_id
        &&& forall|i: int, j: int|
            0 <= i < j < self.keys@.len() ==> (#[trigger] self.keys@[i]).key_id
                != (#[trigger] self.keys@[j]).key_id
        &&& forall|i: int|
            0 <= i < self.keys@.len() ==> (#[trigger] self.keys@[i]).public_key
                == self.keys@[i].key_id
    }

    /// Whether the vault currently holds a key under `key_id`.
    pub open spec fn has_key(self, key_id: u64) -> bool {
        exists|i: int| 0 <= i < self.keys@.len() && (#[trigger] self.keys@[i]).key_id == key_id
    }

    pub fn create() -> (v: Vault)
        ensures
            v.wf(),
            v.keys@.len() == 0,
            v.next_key_id == 0,
    {
        Vault { keys: Vec::new(), next_key_id: 0 }
    }

    /// Provisions a fresh key pair and returns its handle. Fails with
    /// `OperationFailed` exactly when the backend has exhausted its handle
    /// space.
    pub fn generate_key(&mut self, secret_type: SecretType) -> (r: Result<u64, IdentityError>)
        requires
            old(self).wf(),
        ensures
            final(self).wf(),
            match r {
                Ok(key_id) => {
                    &&& key_id == old(self).next_key_id
                    &&& !old(self).has_key(key_id)
                    &&& final(self).has_key(key_id)
                    &&& final(self).keys@ == old(self).keys@.push(
                        VaultKey { key_id, public_key: key_id, secret_type },
                    )
                    &&& final(self).next_key_id == old(self).next_key_id + 1
                    &&& forall|k: u64| old(self).has_key(k) ==> final(self).has_key(k)
                },
                Err(e) => {
                    &&& e == IdentityError::OperationFailed
                    &&& old(self).next_key_id == u64::MAX
                    &&& *final(self) == *old(self)
                },
            },
    {
        if self.next_key_id == u64::MAX {
            return Err(IdentityError::OperationFailed);
        }
        let key_id = self.next_key_id;
        self.keys.push(VaultKey { key_id, public_key: key_id, secret_type });
        self.next_key_id = key_id + 1;
        proof {
            assert(self.keys@[self.keys@.len() - 1].key_id == key_id);
            assert forall|k: u64| old(self).has_key(k) implies self.has_key(k) by {
                let i = choose|i: int|
                    0 <= i < old(self).keys@.len() && (#[trigger] old(self).keys@[i]).key_id == k;
                assert(self.keys@[i].key_id == k);
            }
        }
        Ok(key_id)
    }

    /// Whether the vault currently holds a key under `key_id`.
    pub fn contains_key(&self, key_id: u64) -> (r: bool)
        ensures
            r == self.has_key(key_id),
    {
        let n = self.keys.len();
        let mut i: usize = 0;
        while i < n
            invariant
                n == self.keys@.len(),
                0 <= i <= n,
                forall|j: int| 0 <= j < i ==> (#[trigger] self.keys@[j]).key_id != key_id,
            decreases n - i,
        {
            if self.keys[i].key_id == key_id {
                return true;
            }
            i += 1;
        }
        false
    }

    /// Signs `message` with the key under `key_id`. Fails with
    /// `OperationFailed` exactly when the vault holds no such key.
    pub fn sign(&self, key_id: u64, message: &Vec<u8>) -> (r: Result<Signature, IdentityError>)
        requires
            self.wf(),
        ensures
            match r {
                Ok(sig) => {
                    &&& self.has_key(key_id)
                    &&& sig.signer == key_id
                    &&& sig.message@ == message@
                    &&& sig.verifies(key_id, message@)
                },
                Err(e) => {
                    &&& e == IdentityError::OperationFailed
                    &&& !self.has_key(key_id)
                },
            },
    {
        let n = self.keys.len();
        let mut i: usize = 0;
        while i < n
            invariant
                n == self.keys@.len(),
                0 <= i <= n,
                self.wf(),
                forall|j: int| 0 <= j < i ==> (#[trigger] self.keys@[j]).key_id != key_id,
            decreases n - i,
        {
            if self.keys[i].key_id == key_id {
                let message = crate::encoding::clone_bytes(message);
                return Ok(Signature { signer: self.keys[i].public_key, message });
            }
            i += 1;
        }
        Err(IdentityError::OperationFailed)
    }

    /// Checks a signature against a public key and a message. Pure: the
    /// outcome depends only on the three arguments.
    pub fn verify(public_key: u64, message: &Vec<u8>, signature: &Signature) -> (r: bool)
        ensures
            r == signature.verifies(public_key, message@),
    {
        if signature.signer != public_key {
            return false;
        }
        let same = crate::encoding::bytes_eq(&signature.message, message);
        same
    }

    /// Removes the key under `key_id`. Fails with `OperationFailed` exactly
    /// when the vault holds no such key.
    pub fn delete_key(&mut self, key_id: u64) -> (r: Result<(), IdentityError>)
        requires
            old(self).wf(),
        ensures
            final(self).wf(),
            final(self).next_key_id == old(self).next_key_id,
            match r {
                Ok(()) => {
                    &&& old(self).has_key(key_id)
                    &&& !final(self).has_key(key_id)
                },
                Err(e) => {
                    &&& e == IdentityError::OperationFailed
                    &&& !old(self).has_key(key_id)
                    &&& *final(self) == *old(self)
                },
            },
    {
        let n = self.keys.len();
        let mut i: usize = 0;
        while i < n
            invariant
                *self == *old(self),
                n == self.keys@.len(),
                0 <= i <= n,
                self.wf(),
                forall|j: int| 0 <= j < i ==> (#[trigger] self.keys@[j]).key_id != key_id,
            decreases n - i,
        {
            if self.keys[i].key_id == key_id {
                let ghost prev = self.keys@;
                self.keys.remove(i);
                proof {
                    prev.remove_ensures(i as int);
                    assert forall|j: int|
                        0 <= j < self.keys@.len() implies (#[trigger] self.keys@[j]).key_id
                        != key_id && self.keys@[j].key_id < self.next_key_id
                        && self.keys@[j].public_key == self.keys@[j].key_id by {
                        if j < i {
                            assert(self.keys@[j] == prev[j]);
                        } else {
                            assert(self.keys@[j] == prev[j + 1]);
                            assert(prev[i as int].key_id != prev[j + 1].key_id);
                        }
                    }
                    assert forall|j: int, k: int|
                        0 <= j < k < self.keys@.len() implies (#[trigger] self.keys@[j]).key_id
                        != (#[trigger] self.keys@[k]).key_id by {
                        let j2: int = if j < i { j } else { j + 1 };
                        let k2: int = if k < i { k } else { k + 1 };
                        assert(self.keys@[j] == prev[j2]);
                        assert(self.keys@[k] == prev[k2]);
                        assert(prev[j2].key_id != prev[k2].key_id);
                    }
                }
                return Ok(());
            }
            i += 1;
        }
        Err(IdentityError::OperationFailed)
    }
}

} // verus!
