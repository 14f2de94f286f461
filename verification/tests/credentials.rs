use identity_core::access_control::{AccessControl, CredentialAccessControl};
use identity_core::channel::establish_channel;
use identity_core::credential::Credential;
use identity_core::exchange::{verify_and_store, CredentialExchangeWorker};
use identity_core::identity::Identity;
use identity_core::node::{Delivery, Message, Node, Worker, WorkerKind};
use identity_core::storage::AttributeStorage;
use identity_core::trust_policy::TrustPolicy;
use identity_core::vault::Vault;

fn mailbox_len(node: &Node, address: &str) -> usize {
    for worker in &node.workers {
        if worker.address == address {
            if let WorkerKind::Mailbox(delivered) = &worker.kind {
                return delivered.len();
            }
        }
    }
    panic!("no mailbox worker at {}", address);
}

#[test]
fn full_flow_oneway() {
    let mut vault = Vault::create();
    let mut authenticated_attribute_storage = AttributeStorage::new();

    let authority = Identity::create(&mut vault).unwrap();
    let server = Identity::create(&mut vault).unwrap();

    let authorities = vec![authority.to_public()];
    let mut node = Node::new();
    node.start_worker(Worker {
        address: "credential_exchange".to_string(),
        inbound: AccessControl::AllowAll,
        outbound: AccessControl::DenyAll,
        kind: WorkerKind::Exchange(CredentialExchangeWorker::new(authorities, false, None)),
    })
    .unwrap();

    let mut client = Identity::create(&mut vault).unwrap();
    let (_channel, server_end) = establish_channel(
        &vault,
        &client,
        &TrustPolicy::TrustIdentifier(*server.identifier()),
        &server,
        &TrustPolicy::AllowAll,
    )
    .unwrap();

    let credential_builder = Credential::builder(*client.identifier());
    let credential = credential_builder.with_attribute("is_superuser", b"true");

    let credential = authority.issue_credential(&vault, credential, 3600, 0).unwrap();

    client.set_credential(credential);

    let message = client.present_credential(false).unwrap();
    let sender = *server_end.peer();
    let outcome = node
        .deliver(
            &mut authenticated_attribute_storage,
            &sender,
            &vec!["credential_exchange".to_string()],
            Message::Present(message),
            0,
        )
        .unwrap();
    assert!(matches!(outcome, Delivery::Delivered(None)));

    let attrs = authenticated_attribute_storage
        .get_attributes(client.identifier())
        .unwrap();

    let val = attrs.attrs().get("is_superuser").unwrap();

    assert_eq!(val.as_slice(), b"true");
}

#[test]
fn full_flow_twoway() {
    let mut vault = Vault::create();
    let mut authenticated_attribute_storage_client_1 = AttributeStorage::new();
    let mut storage2 = AttributeStorage::new();

    let authority = Identity::create(&mut vault).unwrap();
    let mut client2 = Identity::create(&mut vault).unwrap();

    let credential2 =
        Credential::builder(*client2.identifier()).with_attribute("is_admin", b"true");

    let credential2 = authority.issue_credential(&vault, credential2, 3600, 0).unwrap();
    let worker_credential2 = credential2.clone_credential();
    client2.set_credential(credential2);

    let authorities = vec![authority.to_public()];
    let mut node2 = Node::new();
    node2
        .start_worker(Worker {
            address: "credential_exchange".to_string(),
            inbound: AccessControl::AllowAll,
            outbound: AccessControl::DenyAll,
            kind: WorkerKind::Exchange(CredentialExchangeWorker::new(
                authorities.clone(),
                true,
                Some(worker_credential2),
            )),
        })
        .unwrap();

    let mut client1 = Identity::create(&mut vault).unwrap();

    let credential1 = Credential::builder(*client1.identifier()).with_attribute("is_user", b"true");

    let credential1 = authority.issue_credential(&vault, credential1, 3600, 0).unwrap();
    client1.set_credential(credential1);

    let (client1_end, client2_end) = establish_channel(
        &vault,
        &client1,
        &TrustPolicy::AllowAll,
        &client2,
        &TrustPolicy::AllowAll,
    )
    .unwrap();

    let message = client1.present_credential(true).unwrap();
    let outcome = node2
        .deliver(
            &mut storage2,
            client2_end.peer(),
            &vec!["credential_exchange".to_string()],
            Message::Present(message),
            0,
        )
        .unwrap();
    let reply = match outcome {
        Delivery::Delivered(Some(reply)) => reply,
        _ => panic!("expected a mutual credential presentation back"),
    };

    let attrs1 = storage2.get_attributes(client1.identifier()).unwrap();

    assert_eq!(attrs1.attrs().get("is_user").unwrap().as_slice(), b"true");
    assert_eq!(attrs1.attrs().len(), 1);
    assert!(storage2.get_attributes(client2.identifier()).is_none());

    let accepted = verify_and_store(
        &authorities,
        &mut authenticated_attribute_storage_client_1,
        client1_end.peer(),
        &reply.credential,
        0,
    );
    assert!(accepted);

    let attrs2 = authenticated_attribute_storage_client_1
        .get_attributes(client2.identifier())
        .unwrap();

    assert_eq!(attrs2.attrs().get("is_admin").unwrap().as_slice(), b"true");
    assert_eq!(attrs2.attrs().len(), 1);
    assert!(authenticated_attribute_storage_client_1
        .get_attributes(client1.identifier())
        .is_none());
}

#[test]
fn access_control() {
    let mut vault = Vault::create();
    let mut storage = AttributeStorage::new();
    let authority = Identity::create(&mut vault).unwrap();
    let server = Identity::create(&mut vault).unwrap();

    let authorities = vec![authority.to_public()];

    let mut node = Node::new();
    node.start_worker(Worker {
        address: "credential_exchange".to_string(),
        inbound: AccessControl::AllowAll,
        outbound: AccessControl::DenyAll,
        kind: WorkerKind::Exchange(CredentialExchangeWorker::new(authorities, false, None)),
    })
    .unwrap();

    let mut client = Identity::create(&mut vault).unwrap();
    let (_channel, server_end) = establish_channel(
        &vault,
        &client,
        &TrustPolicy::TrustIdentifier(*server.identifier()),
        &server,
        &TrustPolicy::AllowAll,
    )
    .unwrap();

    let credential_builder = Credential::builder(*client.identifier());
    let credential = credential_builder.with_attribute("is_superuser", b"true");

    let credential = authority.issue_credential(&vault, credential, 100, 0).unwrap();

    client.set_credential(credential);

    let required_attributes = vec![("is_superuser".to_string(), b"true".to_vec())];
    let access_control = CredentialAccessControl::new(required_attributes);

    node.start_worker(Worker {
        address: "counter".to_string(),
        inbound: AccessControl::Credential(access_control),
        outbound: AccessControl::DenyAll,
        kind: WorkerKind::Mailbox(Vec::new()),
    })
    .unwrap();
    node.start_worker(Worker {
        address: "child".to_string(),
        inbound: AccessControl::AllowAll,
        outbound: AccessControl::AllowAll,
        kind: WorkerKind::Mailbox(Vec::new()),
    })
    .unwrap();
    assert_eq!(mailbox_len(&node, "counter"), 0);

    let sender = *server_end.peer();
    let route = vec!["child".to_string(), "counter".to_string()];
    let outcome = node
        .deliver(
            &mut storage,
            &sender,
            &route,
            Message::Text("Hello".to_string()),
            0,
        )
        .unwrap();
    assert!(matches!(outcome, Delivery::Dropped));
    assert_eq!(mailbox_len(&node, "counter"), 0);

    let message = client.present_credential(false).unwrap();
    let outcome = node
        .deliver(
            &mut storage,
            &sender,
            &vec!["credential_exchange".to_string()],
            Message::Present(message),
            0,
        )
        .unwrap();
    assert!(matches!(outcome, Delivery::Delivered(None)));

    let outcome = node
        .deliver(
            &mut storage,
            &sender,
            &route,
            Message::Text("Hello".to_string()),
            0,
        )
        .unwrap();
    assert!(matches!(outcome, Delivery::Delivered(None)));
    assert_eq!(mailbox_len(&node, "counter"), 1);
}
