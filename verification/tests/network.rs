use conclave::network::{
    filter_from_sequence, route_rpc, rpc_outcome, rpc_response, sync_answer, CampaignDbHandle,
    EventSyncRequest, NetworkError, NetworkRequest, NetworkResponse, NetworkState, RpcRequest,
    RpcResponse, RpcRoute, TransportAction, TransportEvent,
};
use conclave::protocol::SignedEvent;

fn event(seq: u64) -> SignedEvent {
    SignedEvent::new(seq, 1, seq, "a".to_string(), "{}".to_string())
}

#[test]
fn db_handle_keeps_path() {
    assert_eq!(CampaignDbHandle::new("/tmp/c.db").path, "/tmp/c.db");
}

#[test]
fn connections_are_tracked() {
    let mut st: NetworkState<u8, u8> = NetworkState::new();
    assert!(matches!(st.check_connected("p"), Err(NetworkError::ConnectionFailed(t)) if t == "Not connected to peer"));
    st.connection_established("p".to_string());
    st.connection_established("p".to_string());
    st.connection_established("q".to_string());
    assert!(st.is_connected("p"));
    assert!(st.check_connected("p").is_ok());
    assert_eq!(st.connected_peers().len(), 2);
    st.connection_closed("p");
    assert!(!st.is_connected("p"));
    assert_eq!(st.connected_peers(), vec!["q".to_string()]);
}

#[test]
fn pending_requests_settle_once() {
    let mut st: NetworkState<&str, &str> = NetworkState::new();
    st.sync_sent("7".to_string(), 5, "sync-reply");
    assert_eq!(st.rpc_sent("rpc-reply"), 0);
    assert!(st.sync_settled("8").is_none());
    let p = st.sync_settled("7").unwrap();
    assert_eq!(p.campaign_id, 5);
    assert_eq!(p.reply, "sync-reply");
    assert!(st.sync_settled("7").is_none());
    assert_eq!(st.rpc_settled(4), None);
    assert_eq!(st.rpc_settled(0), Some("rpc-reply"));
    assert_eq!(st.rpc_settled(0), None);
}

#[test]
fn sync_request_asks_from_sequence() {
    match NetworkState::<(), ()>::sync_request(9, 4) {
        NetworkRequest::Sync(r) => {
            assert_eq!(r.campaign_id, 9);
            assert_eq!(r.from_sequence, 4);
            assert!(r.to_sequence.is_none());
        }
        _ => panic!("expected a sync request"),
    }
}

#[test]
fn sync_answers_keep_later_events_in_order() {
    let kept = filter_from_sequence(vec![event(1), event(5), event(3), event(7)], 3);
    let seqs: Vec<u64> = kept.iter().map(|e| e.sequence_number).collect();
    assert_eq!(seqs, vec![5, 3, 7]);
}

#[test]
fn rpc_outcomes() {
    let ok = rpc_outcome(RpcResponse { request_id: 1, result: Some("{}".to_string()), error: None });
    assert_eq!(ok.unwrap(), "{}");
    match rpc_outcome(RpcResponse { request_id: 1, result: None, error: None }) {
        Err(NetworkError::ConnectionFailed(t)) => assert_eq!(t, "RPC error"),
        _ => panic!(),
    }
    match rpc_outcome(RpcResponse { request_id: 1, result: None, error: Some("boom".to_string()) }) {
        Err(NetworkError::ConnectionFailed(t)) => assert_eq!(t, "boom"),
        _ => panic!(),
    }
    let r = rpc_response(4, Err("bad".to_string()));
    assert_eq!(r.request_id, 4);
    assert!(r.result.is_none());
    assert_eq!(r.error.as_deref(), Some("bad"));
}

fn refused(route: RpcRoute) -> String {
    match route {
        RpcRoute::Refuse(t) => t,
        other => panic!("expected a refusal, got {:?}", other),
    }
}

#[test]
fn rpc_routing() {
    let id = "550e8400-e29b-41d4-a716-446655440000";
    let params = format!("{{\"campaign_id\":\"{}\"}}", id);
    let expected = uuid::Uuid::parse_str(id).unwrap().as_u128();
    assert!(matches!(route_rpc("get_members", &params, true), RpcRoute::GetMembers(c) if c == expected));
    assert!(matches!(route_rpc("get_max_sequence", &params, true), RpcRoute::GetMaxSequence(c) if c == expected));
    assert!(matches!(route_rpc("get_campaign_info", &params, true), RpcRoute::GetCampaignInfo(c) if c == expected));
    assert_eq!(refused(route_rpc("get_members", &params, false)), "No database configured");
    assert_eq!(refused(route_rpc("get_members", "{}", true)), "Missing campaign_id parameter");
    assert_eq!(refused(route_rpc("get_members", "{\"campaign_id\":\"nope\"}", true)), "Invalid campaign ID");
    assert_eq!(refused(route_rpc("frobnicate", &params, true)), "Unknown method: frobnicate");
}

#[test]
fn error_messages() {
    assert_eq!(NetworkError::ConnectionFailed("x".to_string()).message(), "Connection failed: x");
    assert_eq!(NetworkError::ChannelClosed.message(), "Channel closed");
    assert_eq!(NetworkError::Libp2pError("y".to_string()).message(), "libp2p error: y");
    let io = NetworkError::from_io_error(&std::io::Error::new(std::io::ErrorKind::Other, "disk"));
    assert!(matches!(&io, NetworkError::IoError(t) if t == "disk"));
    assert_eq!(io.message(), "IO error: disk");
    assert_eq!(NetworkError::IoError("d".to_string()).message(), "IO error: d");
    let bad: serde_json::Error = serde_json::from_str::<serde_json::Value>("{").unwrap_err();
    let text = format!("Serialization error: {}", bad);
    let e = NetworkError::from_json_error(&bad);
    assert_eq!(e.message(), text);
    assert_eq!(NetworkError::SerializationError("s".to_string()).message(), "Serialization error: s");
}

#[test]
fn rpc_ids_count_up() {
    let mut st: NetworkState<u8, u8> = NetworkState::new();
    assert_eq!(st.rpc_sent(10), 0);
    assert_eq!(st.rpc_sent(11), 1);
    assert_eq!(st.rpc_settled(0), Some(10));
    assert_eq!(st.rpc_sent(12), 2);
    assert_eq!(st.rpc_settled(1), Some(11));
    assert_eq!(st.rpc_settled(2), Some(12));
}

#[test]
fn events_drive_peers_and_shared_set() {
    let mut st: NetworkState<u8, u8> = NetworkState::new();
    assert!(matches!(st.handle_event(TransportEvent::Connected("p".to_string()), false),
        TransportAction::SharePeer(q) if q == "p"));
    assert!(st.is_connected("p"));
    assert!(matches!(st.handle_event(TransportEvent::Disconnected("p".to_string()), false),
        TransportAction::UnsharePeer(q) if q == "p"));
    assert!(!st.is_connected("p"));
    assert!(matches!(st.handle_event(TransportEvent::Other, false), TransportAction::Nothing));
    assert!(matches!(st.handle_event(TransportEvent::Acknowledged, false), TransportAction::Nothing));
}

#[test]
fn incoming_requests_are_answered() {
    let mut st: NetworkState<u8, u8> = NetworkState::new();
    let req = EventSyncRequest { campaign_id: 4, from_sequence: 2, to_sequence: None };
    match st.handle_event(TransportEvent::SyncRequested(req.clone()), false) {
        TransportAction::Respond(NetworkResponse::Sync(r)) => assert!(r.events.is_empty()),
        _ => panic!("expected an empty answer"),
    }
    match st.handle_event(TransportEvent::SyncRequested(req.clone()), true) {
        TransportAction::ReadEvents(r) => assert_eq!((r.campaign_id, r.from_sequence), (4, 2)),
        _ => panic!("expected a read"),
    }
    match sync_answer(&req, Some(vec![event(1), event(2), event(3)])) {
        NetworkResponse::Sync(r) => {
            assert_eq!(r.events.iter().map(|e| e.sequence_number).collect::<Vec<_>>(), vec![2, 3])
        }
        _ => panic!("expected a sync answer"),
    }
    match sync_answer(&req, None) {
        NetworkResponse::Sync(r) => assert!(r.events.is_empty()),
        _ => panic!("expected a sync answer"),
    }
    match st.handle_event(TransportEvent::EventReceived(event(9)), false) {
        TransportAction::DeliverEvent(e, NetworkResponse::Ack) => assert_eq!(e.sequence_number, 9),
        _ => panic!("expected delivery and ack"),
    }
    let call = RpcRequest { method: "nope".to_string(), params: "{}".to_string(), request_id: 5 };
    match st.handle_event(TransportEvent::RpcRequested(call), true) {
        TransportAction::Respond(NetworkResponse::Rpc(r)) => {
            assert_eq!(r.request_id, 5);
            assert_eq!(r.error.as_deref(), Some("Unknown method: nope"));
            assert!(r.result.is_none());
        }
        _ => panic!("expected a refusal"),
    }
    let params = "{\"campaign_id\":\"67e55044-10b1-426f-9247-bb680e5fe0c8\"}".to_string();
    let call = RpcRequest { method: "get_members".to_string(), params, request_id: 6 };
    match st.handle_event(TransportEvent::RpcRequested(call), true) {
        TransportAction::AnswerRpc(6, RpcRoute::GetMembers(id)) => {
            assert_eq!(id, 0x67e5504410b1426f9247bb680e5fe0c8)
        }
        _ => panic!("expected an answer route"),
    }
}

#[test]
fn answers_and_failures_settle_waiting_requests() {
    let mut st: NetworkState<u8, u8> = NetworkState::new();
    st.sync_sent("o1".to_string(), 3, 30);
    st.sync_sent("o2".to_string(), 4, 40);
    match st.handle_event(TransportEvent::SyncAnswered("o1".to_string(), vec![event(1)]), false) {
        TransportAction::SettleSync(p, Ok(events)) => {
            assert_eq!((p.campaign_id, p.reply), (3, 30));
            assert_eq!(events.len(), 1);
        }
        _ => panic!("expected settlement"),
    }
    assert!(matches!(
        st.handle_event(TransportEvent::SyncAnswered("o1".to_string(), vec![]), false),
        TransportAction::Nothing
    ));
    match st.handle_event(TransportEvent::RequestFailed("o2".to_string(), "Timeout".to_string()), false) {
        TransportAction::SettleSync(p, Err(e)) => {
            assert_eq!(p.reply, 40);
            assert_eq!(e.message(), "Connection failed: Sync failed: Timeout");
        }
        _ => panic!("expected a failure"),
    }
    let id = st.rpc_sent(70);
    let answer = RpcResponse { request_id: id, result: Some("1".to_string()), error: None };
    match st.handle_event(TransportEvent::RpcAnswered(answer.clone()), false) {
        TransportAction::SettleRpc(h, Ok(v)) => assert_eq!((h, v.as_str()), (70, "1")),
        _ => panic!("expected an rpc settlement"),
    }
    assert!(matches!(st.handle_event(TransportEvent::RpcAnswered(answer), false), TransportAction::Nothing));
}
