use conclave::node::{NodeError, RelayNode};

#[test]
fn test_node_lifecycle() {
    let mut node = RelayNode::new("test-peer-id".to_string());

    assert!(!node.is_active());

    node.start().unwrap();
    assert!(node.is_active());

    node.stop().unwrap();
    assert!(!node.is_active());
}

#[test]
fn test_peer_tracking() {
    let mut node = RelayNode::new("test-peer-id".to_string());
    node.start().unwrap();

    node.peer_connected("peer-1".to_string()).unwrap();
    node.peer_connected("peer-2".to_string()).unwrap();

    let peers = node.connected_peers();
    assert_eq!(peers.len(), 2);

    node.peer_disconnected("peer-1").unwrap();

    let peers = node.connected_peers();
    assert_eq!(peers.len(), 1);
}

#[test]
fn test_event_caching() {
    let mut node = RelayNode::new("test-peer-id".to_string());
    node.start().unwrap();

    let events = vec![]; // Empty for now, would be SignedEvent in real usage
    node.cache_events("campaign-1".to_string(), events).unwrap();

    assert!(node.get_cached_events("campaign-1").is_some());
}

#[test]
fn start_and_stop_are_idempotent() {
    let mut node = RelayNode::new("n".to_string());
    node.start().unwrap();
    node.start().unwrap();
    assert!(node.is_active());
    node.stop().unwrap();
    node.stop().unwrap();
    assert!(!node.is_active());
}

#[test]
fn reconnecting_peer_is_listed_once() {
    let mut node = RelayNode::new("n".to_string());
    node.peer_connected_at("p".to_string(), 1).unwrap();
    node.peer_connected_at("p".to_string(), 2).unwrap();
    node.peer_connected_at("q".to_string(), 3).unwrap();
    let mut peers = node.connected_peers();
    peers.sort();
    assert_eq!(peers, vec!["p".to_string(), "q".to_string()]);
    node.peer_disconnected("absent").unwrap();
    assert_eq!(node.connected_peers().len(), 2);
}

#[test]
fn stopped_node_refuses_caching_and_relay() {
    let mut node = RelayNode::new("n".to_string());
    assert!(matches!(node.cache_events("c".to_string(), vec![]), Err(NodeError::NotInitialized)));
    assert!(node.get_cached_events("c").is_none());
    assert!(matches!(node.sync_to_peer("p", "c"), Err(NodeError::NotInitialized)));
    let event = conclave::protocol::SignedEvent::new(1, 1, 1, "a".to_string(), "{}".to_string());
    assert!(matches!(node.relay_event(event.clone(), &[]), Err(NodeError::NotInitialized)));
    node.start().unwrap();
    assert!(node.relay_event(event, &["p".to_string()]).is_ok());
    assert_eq!(node.sync_to_peer("p", "c").unwrap().len(), 0);
}

#[test]
fn cache_replaces_earlier_events() {
    let mut node = RelayNode::new("n".to_string());
    node.start().unwrap();
    let event = conclave::protocol::SignedEvent::new(1, 1, 1, "a".to_string(), "{}".to_string());
    node.cache_events("c".to_string(), vec![event.clone(), event]).unwrap();
    assert_eq!(node.get_cached_events("c").unwrap().len(), 2);
    node.cache_events("c".to_string(), vec![]).unwrap();
    assert_eq!(node.get_cached_events("c").unwrap().len(), 0);
    assert!(node.get_cached_events("d").is_none());
}
