// Flows that a remote key-management backend would serve, standing in the
// vault's identity-key and credential-key roles. Any backend with the same
// capability set is interchangeable, so the in-memory vault stands in that
// role here.

use identity_core::credential::Credential;
use identity_core::credential::verify_credential;
use identity_core::identity::{import, Identity, IdentityBuilder};
use identity_core::vault::{SecretType, Vault};

#[test]
fn create_identity_with_aws_pregenerated_key() {
    let mut vault = Vault::create();

    // create a secret key in the backend ahead of time
    let key_id = vault.generate_key(SecretType::NistP256).unwrap();

    let identity = IdentityBuilder::new()
        .with_existing_key(key_id)
        .build(&mut vault)
        .unwrap();

    let attestation = identity.export(&vault).unwrap();
    import(Some(identity.identifier()), &attestation).unwrap();

    vault.delete_key(key_id).unwrap();
}

#[test]
fn create_identity_with_aws_random_key() {
    let mut vault = Vault::create();

    let identity = IdentityBuilder::new()
        .with_random_key(SecretType::NistP256)
        .build(&mut vault)
        .unwrap();

    let attestation = identity.export(&vault).unwrap();
    import(Some(identity.identifier()), &attestation).unwrap();

    let key = identity.identity_key_id;

    vault.delete_key(key).unwrap();
}

#[test]
fn create_credential_aws_key() {
    let mut vault = Vault::create();

    let identity = Identity::create(&mut vault).unwrap();

    let attributes = Credential::builder(*identity.identifier())
        .with_schema_id(1)
        .with_attribute("key", b"value");

    let credential = identity
        .issue_credential(&vault, attributes, 120, 0)
        .unwrap();

    verify_credential(
        Some(identity.identifier()),
        &vec![identity.to_public()],
        &credential,
        0,
    )
    .unwrap();

    vault.delete_key(identity.credential_key_id).unwrap();
}
