use identity_core::access_control::{AccessControl, CredentialAccessControl};
use identity_core::channel::establish_channel;
use identity_core::credential::{verify_credential, Credential};
use identity_core::error::IdentityError;
use identity_core::exchange::CredentialExchangeWorker;
use identity_core::identity::{identifier_of, import, Identity};
use identity_core::kafka_outlet::{
    kafka_default_outlet_addr, kafka_default_outlet_server, CreateCommand,
};
use identity_core::node::{Delivery, Message, Node, Worker, WorkerKind};
use identity_core::storage::AttributeStorage;
use identity_core::trust_policy::TrustPolicy;
use identity_core::vault::{SecretType, Vault};

fn issued_set(
    vault: &Vault,
    authority: &Identity,
    subject: &Identity,
    name: &str,
    value: &[u8],
    expiry: u64,
) -> identity_core::credential::AttributeSet {
    let builder = Credential::builder(*subject.identifier()).with_attribute(name, value);
    let credential = authority.issue_credential(vault, builder, expiry, 0).unwrap();
    verify_credential(
        Some(subject.identifier()),
        &vec![authority.to_public()],
        &credential,
        0,
    )
    .unwrap()
}

#[test]
fn vault_signs_and_verifies() {
    let mut vault = Vault::create();
    let key = vault.generate_key(SecretType::Ed25519).unwrap();
    let other = vault.generate_key(SecretType::NistP256).unwrap();

    let message = vec![1u8, 2, 3];
    let signature = vault.sign(key, &message).unwrap();
    assert!(Vault::verify(key, &message, &signature));
    assert!(!Vault::verify(other, &message, &signature));
    assert!(!Vault::verify(key, &vec![1u8, 2, 4], &signature));

    vault.delete_key(key).unwrap();
    assert_eq!(
        vault.sign(key, &message).err().unwrap(),
        IdentityError::OperationFailed
    );
    assert_eq!(
        vault.delete_key(key).err().unwrap(),
        IdentityError::OperationFailed
    );
    // the other key is untouched
    assert!(vault.contains_key(other));
}

#[test]
fn attestation_import_checks_the_proof() {
    let mut vault = Vault::create();
    let identity = Identity::create(&mut vault).unwrap();

    let attestation = identity.export(&vault).unwrap();
    let trusted = import(None, &attestation).unwrap();
    assert_eq!(trusted.identifier, *identity.identifier());
    assert_eq!(trusted.public_key, identity.public_key);

    // a claimed identifier that the public key does not derive is refused
    let mut forged = identity.export(&vault).unwrap();
    forged.identifier = identifier_of(identity.public_key + 1);
    assert_eq!(
        import(None, &forged).err().unwrap(),
        IdentityError::AuthenticationFailed
    );

    // an unexpected identifier is refused
    let other = Identity::create(&mut vault).unwrap();
    let attestation = identity.export(&vault).unwrap();
    assert_eq!(
        import(Some(other.identifier()), &attestation).err().unwrap(),
        IdentityError::AuthenticationFailed
    );
}

#[test]
fn storage_is_last_write_wins() {
    let mut vault = Vault::create();
    let authority = Identity::create(&mut vault).unwrap();
    let subject = Identity::create(&mut vault).unwrap();
    let bystander = Identity::create(&mut vault).unwrap();

    let first = issued_set(&vault, &authority, &subject, "role", b"user", 50);
    let second = issued_set(&vault, &authority, &subject, "role", b"admin", 90);
    let other = issued_set(&vault, &authority, &bystander, "role", b"guest", 70);

    let mut storage = AttributeStorage::new();
    assert!(storage.get_attributes(subject.identifier()).is_none());

    storage.put_attributes(subject.identifier(), first);
    storage.put_attributes(bystander.identifier(), other);
    storage.put_attributes(subject.identifier(), second);

    let stored = storage.get_attributes(subject.identifier()).unwrap();
    assert_eq!(stored.attrs().get("role").unwrap().as_slice(), b"admin");
    assert_eq!(stored.expires_at(), 90);

    let untouched = storage.get_attributes(bystander.identifier()).unwrap();
    assert_eq!(untouched.attrs().get("role").unwrap().as_slice(), b"guest");
}

#[test]
fn credential_gate_requires_every_pair() {
    let mut vault = Vault::create();
    let authority = Identity::create(&mut vault).unwrap();
    let subject = Identity::create(&mut vault).unwrap();

    let builder = Credential::builder(*subject.identifier())
        .with_attribute("is_superuser", b"true")
        .with_attribute("team", b"blue");
    let credential = authority.issue_credential(&vault, builder, 100, 0).unwrap();
    let set = verify_credential(
        Some(subject.identifier()),
        &vec![authority.to_public()],
        &credential,
        0,
    )
    .unwrap();

    let mut storage = AttributeStorage::new();
    let gate = CredentialAccessControl::new(vec![
        ("is_superuser".to_string(), b"true".to_vec()),
        ("team".to_string(), b"blue".to_vec()),
    ]);

    // nothing stored for the sender: denied
    assert!(!gate.is_authorized(&storage, subject.identifier()));

    storage.put_attributes(subject.identifier(), set);
    // every pair present and equal: allowed
    assert!(gate.is_authorized(&storage, subject.identifier()));

    // a required pair missing from the stored set: denied
    let wider = CredentialAccessControl::new(vec![
        ("is_superuser".to_string(), b"true".to_vec()),
        ("clearance".to_string(), b"top".to_vec()),
    ]);
    assert!(!wider.is_authorized(&storage, subject.identifier()));

    // a required pair present with another value: denied
    let wrong_value = CredentialAccessControl::new(vec![(
        "is_superuser".to_string(),
        b"false".to_vec(),
    )]);
    assert!(!wrong_value.is_authorized(&storage, subject.identifier()));

    // no required pairs: any sender with stored attributes is allowed,
    // an unknown sender is not
    let empty = CredentialAccessControl::new(vec![]);
    assert!(empty.is_authorized(&storage, subject.identifier()));
    assert!(!empty.is_authorized(&storage, authority.identifier()));
}

#[test]
fn trust_policies_accept_and_reject() {
    let a = identifier_of(10);
    let b = identifier_of(11);
    let c = identifier_of(12);

    assert!(TrustPolicy::AllowAll.evaluate(&a));
    assert!(TrustPolicy::TrustIdentifier(a).evaluate(&a));
    assert!(!TrustPolicy::TrustIdentifier(a).evaluate(&b));
    let list = TrustPolicy::TrustIdentifiers(vec![a, b]);
    assert!(list.evaluate(&a));
    assert!(list.evaluate(&b));
    assert!(!list.evaluate(&c));
    assert!(!TrustPolicy::TrustIdentifiers(vec![]).evaluate(&a));
}

#[test]
fn channel_needs_both_policies_to_accept() {
    let mut vault = Vault::create();
    let initiator = Identity::create(&mut vault).unwrap();
    let responder = Identity::create(&mut vault).unwrap();
    let stranger = Identity::create(&mut vault).unwrap();

    let (initiator_end, responder_end) = establish_channel(
        &vault,
        &initiator,
        &TrustPolicy::TrustIdentifier(*responder.identifier()),
        &responder,
        &TrustPolicy::TrustIdentifiers(vec![*initiator.identifier()]),
    )
    .unwrap();
    assert_eq!(*initiator_end.peer(), *responder.identifier());
    assert_eq!(*responder_end.peer(), *initiator.identifier());

    // the initiator expected somebody else: no channel
    let rejected = establish_channel(
        &vault,
        &initiator,
        &TrustPolicy::TrustIdentifier(*stranger.identifier()),
        &responder,
        &TrustPolicy::AllowAll,
    );
    assert_eq!(rejected.err().unwrap(), IdentityError::AuthenticationFailed);

    // the responder's policy rejects the initiator: no channel
    let rejected = establish_channel(
        &vault,
        &initiator,
        &TrustPolicy::AllowAll,
        &responder,
        &TrustPolicy::TrustIdentifiers(vec![*stranger.identifier()]),
    );
    assert_eq!(rejected.err().unwrap(), IdentityError::AuthenticationFailed);
}

#[test]
fn presentation_needs_an_attached_credential() {
    let mut vault = Vault::create();
    let identity = Identity::create(&mut vault).unwrap();
    assert_eq!(
        identity.present_credential(false).err().unwrap(),
        IdentityError::OperationFailed
    );
}

#[test]
fn one_way_worker_stores_but_never_replies() {
    let mut vault = Vault::create();
    let authority = Identity::create(&mut vault).unwrap();
    let mut client = Identity::create(&mut vault).unwrap();

    let builder = Credential::builder(*client.identifier()).with_attribute("is_user", b"true");
    let credential = authority.issue_credential(&vault, builder, 100, 0).unwrap();
    client.set_credential(credential);

    let worker = CredentialExchangeWorker::new(vec![authority.to_public()], false, None);
    let mut storage = AttributeStorage::new();

    // the sender asks for a mutual presentation, but the worker is one-way
    let message = client.present_credential(true).unwrap();
    let reply = worker.handle_presentation(&mut storage, client.identifier(), &message, 0);
    assert!(reply.is_none());
    assert!(storage.get_attributes(client.identifier()).is_some());
}

#[test]
fn rejected_presentation_writes_nothing() {
    let mut vault = Vault::create();
    let authority = Identity::create(&mut vault).unwrap();
    let rogue_authority = Identity::create(&mut vault).unwrap();
    let mut client = Identity::create(&mut vault).unwrap();

    let builder = Credential::builder(*client.identifier()).with_attribute("is_user", b"true");
    let credential = rogue_authority
        .issue_credential(&vault, builder, 100, 0)
        .unwrap();
    client.set_credential(credential);

    let worker = CredentialExchangeWorker::new(vec![authority.to_public()], true, None);
    let mut storage = AttributeStorage::new();

    let message = client.present_credential(true).unwrap();
    let reply = worker.handle_presentation(&mut storage, client.identifier(), &message, 0);
    // silently dropped: no reply, and nothing stored
    assert!(reply.is_none());
    assert!(storage.get_attributes(client.identifier()).is_none());
}

#[test]
fn no_presentation_means_no_delivery() {
    let mut vault = Vault::create();
    let silent = Identity::create(&mut vault).unwrap();
    let mut storage = AttributeStorage::new();

    let mut node = Node::new();
    node.start_worker(Worker {
        address: "guarded".to_string(),
        inbound: AccessControl::Credential(CredentialAccessControl::new(vec![(
            "is_user".to_string(),
            b"true".to_vec(),
        )])),
        outbound: AccessControl::DenyAll,
        kind: WorkerKind::Mailbox(Vec::new()),
    })
    .unwrap();

    for _ in 0..3 {
        let outcome = node
            .deliver(
                &mut storage,
                silent.identifier(),
                &vec!["guarded".to_string()],
                Message::Text("ping".to_string()),
                0,
            )
            .unwrap();
        assert!(matches!(outcome, Delivery::Dropped));
    }
    for worker in &node.workers {
        if let WorkerKind::Mailbox(delivered) = &worker.kind {
            assert_eq!(delivered.len(), 0);
        }
    }
}

#[test]
fn routing_failures_and_gates() {
    let mut vault = Vault::create();
    let sender = Identity::create(&mut vault).unwrap();
    let mut storage = AttributeStorage::new();

    let mut node = Node::new();
    node.start_worker(Worker {
        address: "open".to_string(),
        inbound: AccessControl::AllowAll,
        outbound: AccessControl::AllowAll,
        kind: WorkerKind::Mailbox(Vec::new()),
    })
    .unwrap();
    node.start_worker(Worker {
        address: "sealed".to_string(),
        inbound: AccessControl::DenyAll,
        outbound: AccessControl::AllowAll,
        kind: WorkerKind::Mailbox(Vec::new()),
    })
    .unwrap();
    node.start_worker(Worker {
        address: "no_relay".to_string(),
        inbound: AccessControl::AllowAll,
        outbound: AccessControl::DenyAll,
        kind: WorkerKind::Mailbox(Vec::new()),
    })
    .unwrap();

    // a second worker under a taken address is refused
    let refused = node.start_worker(Worker {
        address: "open".to_string(),
        inbound: AccessControl::AllowAll,
        outbound: AccessControl::AllowAll,
        kind: WorkerKind::Mailbox(Vec::new()),
    });
    assert_eq!(refused.err().unwrap(), IdentityError::RoutingFailure);

    // an unknown address anywhere on the route is a routing failure
    let missing = node.deliver(
        &mut storage,
        sender.identifier(),
        &vec!["nowhere".to_string()],
        Message::Text("hi".to_string()),
        0,
    );
    assert_eq!(missing.err().unwrap(), IdentityError::RoutingFailure);
    let missing_hop = node.deliver(
        &mut storage,
        sender.identifier(),
        &vec!["open".to_string(), "nowhere".to_string()],
        Message::Text("hi".to_string()),
        0,
    );
    assert_eq!(missing_hop.err().unwrap(), IdentityError::RoutingFailure);

    // a deny-all inbound gate drops the message
    let dropped = node
        .deliver(
            &mut storage,
            sender.identifier(),
            &vec!["sealed".to_string()],
            Message::Text("hi".to_string()),
            0,
        )
        .unwrap();
    assert!(matches!(dropped, Delivery::Dropped));

    // a deny-all outbound gate on an intermediate hop prevents relaying
    let not_relayed = node
        .deliver(
            &mut storage,
            sender.identifier(),
            &vec!["no_relay".to_string(), "open".to_string()],
            Message::Text("hi".to_string()),
            0,
        )
        .unwrap();
    assert!(matches!(not_relayed, Delivery::Dropped));

    // the same gate at the final hop admits delivery: nothing is forwarded
    let delivered = node
        .deliver(
            &mut storage,
            sender.identifier(),
            &vec!["open".to_string(), "no_relay".to_string()],
            Message::Text("hi".to_string()),
            0,
        )
        .unwrap();
    assert!(matches!(delivered, Delivery::Delivered(None)));

    // admitted messages land in the mailbox in arrival order
    node.deliver(
        &mut storage,
        sender.identifier(),
        &vec!["open".to_string()],
        Message::Text("first".to_string()),
        0,
    )
    .unwrap();
    node.deliver(
        &mut storage,
        sender.identifier(),
        &vec!["open".to_string()],
        Message::Text("second".to_string()),
        0,
    )
    .unwrap();
    for worker in &node.workers {
        if worker.address == "open" {
            if let WorkerKind::Mailbox(delivered) = &worker.kind {
                assert_eq!(delivered.len(), 2);
                assert!(matches!(&delivered[0], Message::Text(t) if t == "first"));
                assert!(matches!(&delivered[1], Message::Text(t) if t == "second"));
            }
        }
    }
}

#[test]
fn kafka_outlet_command_builds_the_request() {
    let command = CreateCommand {
        node_name: "n1".to_string(),
        addr: kafka_default_outlet_addr(),
        bootstrap_server: kafka_default_outlet_server(),
    };
    let request = command.run();
    assert_eq!(request.node_name, "n1");
    assert_eq!(request.path, "/node/services/kafka_outlet");
    assert_eq!(request.service_name, "KafkaOutlet");
    assert_eq!(request.service_address, "kafka_outlet");
    assert_eq!(request.bootstrap_server, "127.0.0.1:9092");
}

#[test]
fn stopped_worker_accepts_nothing_further() {
    let mut vault = Vault::create();
    let sender = Identity::create(&mut vault).unwrap();
    let mut storage = AttributeStorage::new();

    let mut node = Node::new();
    node.start_worker(Worker {
        address: "short_lived".to_string(),
        inbound: AccessControl::AllowAll,
        outbound: AccessControl::AllowAll,
        kind: WorkerKind::Mailbox(Vec::new()),
    })
    .unwrap();

    let delivered = node
        .deliver(
            &mut storage,
            sender.identifier(),
            &vec!["short_lived".to_string()],
            Message::Text("hi".to_string()),
            0,
        )
        .unwrap();
    assert!(matches!(delivered, Delivery::Delivered(None)));

    node.stop_worker(&"short_lived".to_string()).unwrap();
    let gone = node.deliver(
        &mut storage,
        sender.identifier(),
        &vec!["short_lived".to_string()],
        Message::Text("hi".to_string()),
        0,
    );
    assert_eq!(gone.err().unwrap(), IdentityError::RoutingFailure);
    assert_eq!(
        node.stop_worker(&"short_lived".to_string()).err().unwrap(),
        IdentityError::RoutingFailure
    );
}
