use offline_first_sdk::common::AgentId;
use offline_first_sdk::mesh_transport::connection::ConnectionManager;
use offline_first_sdk::mesh_transport::qos::{DeliveryGuarantee, QosClass, QosManager, QosProfile};
use offline_first_sdk::mesh_transport::security::{
    decrypt, encrypt, generate_nonce, generate_symmetric_key, AccessControlEntry, AccessControlList,
    EncryptedMessage, SecurityError,
};
use std::time::Duration;

#[test]
fn test_qos_profile() {
    let profile = QosProfile::real_time(Duration::from_millis(100));
    assert_eq!(profile.class, QosClass::RealTime);
    assert!(!profile.droppable);
}

#[test]
fn test_qos_manager_enqueue_dequeue() {
    let mut manager = QosManager::new();
    let payload = vec![1, 2, 3];
    let profile = QosProfile::best_effort();
    manager.enqueue(payload.clone(), profile.clone()).unwrap();
    let (dequeued, dequeued_profile) = manager.dequeue().unwrap();
    assert_eq!(dequeued, payload);
    assert_eq!(dequeued_profile.class, profile.class);
}

#[test]
fn test_priority_order() {
    let mut manager = QosManager::new();
    let low = QosProfile::best_effort();
    let high = QosProfile::control();

    manager.enqueue(vec![1], low.clone()).unwrap();
    manager.enqueue(vec![2], high.clone()).unwrap();

    let (payload, profile) = manager.dequeue().unwrap();
    assert_eq!(payload, vec![2]);
    assert_eq!(profile.class, QosClass::Control);
}

#[test]
fn qos_profiles_have_documented_fields() {
    let be = QosProfile::best_effort();
    assert_eq!(be.class, QosClass::BestEffort);
    assert_eq!(be.delivery, DeliveryGuarantee::AtMostOnce);
    assert!(be.droppable);
    let ctl = QosProfile::control();
    assert_eq!(ctl.delivery, DeliveryGuarantee::ExactlyOnce);
    assert_eq!(ctl.ttl, Some(Duration::from_secs(30)));
    assert_eq!(QosClass::default(), QosClass::BestEffort);
}

#[test]
fn qos_congestion_drops_droppable_and_serves_next_class() {
    let mut manager = QosManager::new();
    manager.enqueue(vec![1], QosProfile::best_effort()).unwrap();
    manager.enqueue(vec![2], QosProfile::real_time(Duration::from_millis(5))).unwrap();
    manager.update_congestion(90);
    assert_eq!(manager.stats().congestion_events, 1);
    // real-time message is not droppable: it is served first
    let (p, prof) = manager.dequeue().unwrap();
    assert_eq!(p, vec![2]);
    assert_eq!(prof.class, QosClass::RealTime);
    // the best-effort message is droppable: it is dropped, nothing is served
    assert!(manager.dequeue().is_none());
    assert_eq!(manager.stats().messages_dropped, 1);
    assert!(manager.dequeue().is_none());
}

#[test]
fn qos_congestion_tries_the_same_class_after_a_drop() {
    let mut m = QosManager::new();
    m.update_congestion(80);
    m.enqueue(vec![1], QosProfile { droppable: true, ..QosProfile::control() }).unwrap();
    m.enqueue(vec![2], QosProfile::control()).unwrap();
    m.enqueue(vec![3], QosProfile::real_time(Duration::from_millis(100))).unwrap();
    let (p, prof) = m.dequeue().unwrap();
    assert_eq!(p, vec![2]);
    assert_eq!(prof.class, QosClass::Control);
    assert!(!prof.droppable);
    assert_eq!(m.stats().messages_dropped, 1);
    assert_eq!(m.dequeue().unwrap().0, vec![3]);
    assert!(m.dequeue().is_none());
}

#[test]
fn qos_fifo_within_a_class() {
    let mut manager = QosManager::new();
    manager.enqueue(vec![1], QosProfile::best_effort()).unwrap();
    manager.enqueue(vec![2], QosProfile::best_effort()).unwrap();
    assert_eq!(manager.dequeue().unwrap().0, vec![1]);
    assert_eq!(manager.dequeue().unwrap().0, vec![2]);
    assert!(manager.dequeue().is_none());
}

#[test]
fn qos_moderate_congestion_is_not_an_event_and_drops_nothing() {
    let mut manager = QosManager::new();
    manager.update_congestion(70);
    manager.enqueue(vec![7], QosProfile::best_effort()).unwrap();
    assert_eq!(manager.dequeue().unwrap().0, vec![7]);
    assert_eq!(manager.stats().congestion_events, 0);
    assert_eq!(manager.stats().messages_dropped, 0);
}

#[test]
fn test_symmetric_encryption() {
    let key = generate_symmetric_key();
    let nonce = generate_nonce();
    let plaintext = b"secret message";
    let ciphertext = encrypt(&key, &nonce, plaintext).unwrap();
    assert_eq!(ciphertext.len(), plaintext.len() + 16);
    let decrypted = decrypt(&key, &nonce, &ciphertext).unwrap();
    assert_eq!(decrypted, plaintext);
}

#[test]
fn test_encrypted_message() {
    let key = generate_symmetric_key();
    let plaintext = b"hello";
    let enc = EncryptedMessage::encrypt_with_key(plaintext, &key).unwrap();
    let decrypted = enc.decrypt_with_key(&key).unwrap();
    assert_eq!(decrypted, plaintext);
}

#[test]
fn encryption_changes_the_bytes_and_adds_a_tag() {
    let key = [7u8; 32];
    let nonce = [1u8; 12];
    let c = encrypt(&key, &nonce, b"abc").unwrap();
    assert_eq!(c.len(), 3 + 16);
    assert_ne!(&c[..3], b"abc");
    let m = EncryptedMessage::encrypt_with_nonce(b"abc", &key, &nonce).unwrap();
    assert_eq!(m.ciphertext, c);
    assert_eq!(m.nonce, nonce.to_vec());
}

#[test]
fn decryption_with_wrong_key_or_bad_nonce_fails() {
    let key = [7u8; 32];
    let other = [8u8; 32];
    let enc = EncryptedMessage::encrypt_with_key(b"payload", &key).unwrap();
    assert!(matches!(enc.decrypt_with_key(&other), Err(SecurityError::Decryption)));
    let bad = EncryptedMessage { nonce: vec![0; 5], ephemeral_public_key: None, ciphertext: enc.ciphertext.clone() };
    assert!(matches!(bad.decrypt_with_key(&key), Err(SecurityError::InvalidNonceLength)));
}

#[test]
fn acl_grants_only_matching_entries() {
    let mut acl = AccessControlList::new();
    acl.add_entry(AccessControlEntry {
        agent_id: AgentId(1),
        permissions: vec!["read".to_string()],
        resource: "crdt/doc".to_string(),
    });
    acl.add_entry(AccessControlEntry {
        agent_id: AgentId(2),
        permissions: vec!["write".to_string(), "admin".to_string()],
        resource: "crdt/*".to_string(),
    });
    assert!(acl.check_permission(AgentId(1), "crdt/doc", "read"));
    assert!(!acl.check_permission(AgentId(1), "crdt/doc", "write"));
    assert!(!acl.check_permission(AgentId(1), "crdt/other", "read"));
    assert!(acl.check_permission(AgentId(2), "crdt/anything", "admin"));
    assert!(acl.check_permission(AgentId(2), "crdt/", "write"));
    assert!(!acl.check_permission(AgentId(2), "admin/keys", "admin"));
    assert!(!acl.check_permission(AgentId(2), "crdt", "admin"));
    assert!(!acl.check_permission(AgentId(3), "crdt/doc", "read"));
}

#[test]
fn acl_wildcard_covers_only_its_prefix() {
    let mut acl = AccessControlList::new();
    acl.add_entry(AccessControlEntry {
        agent_id: AgentId(1),
        permissions: vec!["read".to_string()],
        resource: "crdt/*".to_string(),
    });
    assert!(acl.check_permission(AgentId(1), "crdt/doc1", "read"));
    assert!(!acl.check_permission(AgentId(1), "admin/keys", "read"));
    acl.add_entry(AccessControlEntry { agent_id: AgentId(1), permissions: vec!["read".to_string()], resource: "*".to_string() });
    assert!(acl.check_permission(AgentId(1), "admin/keys", "read"));
}

#[test]
fn connection_table_adds_gets_removes_and_lists() {
    let mut m: ConnectionManager<&str> = ConnectionManager::new();
    m.add_connection(AgentId(1), "10.0.0.1:80");
    m.add_connection(AgentId(2), "10.0.0.2:80");
    m.add_connection(AgentId(1), "10.0.0.9:80");
    assert_eq!(m.get_connection(&AgentId(1)), Some(&"10.0.0.9:80"));
    let mut peers: Vec<u64> = m.connected_peers().iter().map(|p| p.0).collect();
    peers.sort();
    assert_eq!(peers, vec![1, 2]);
    m.remove_connection(&AgentId(1));
    assert_eq!(m.get_connection(&AgentId(1)), None);
    assert_eq!(m.connected_peers().len(), 1);
}
