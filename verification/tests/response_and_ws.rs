use viz_graphql::response::GraphQLResponse;
use viz_graphql::subscription::{
    EngineMessage, Protocol, SecWebsocketProtocol, SessionAction, SessionEvent, WsFrame,
    encode_outbound, inbound_bytes, session_step,
};

#[test]
fn cache_control_set_for_error_free_result() {
    let resp = GraphQLResponse {
        ok: true,
        cache_control: Some("max-age=60".to_string()),
        http_headers: vec![],
    };
    let headers = resp.response_headers();
    assert_eq!(headers.len(), 1);
    assert_eq!(headers[0].0, "cache-control");
    assert_eq!(headers[0].1, "max-age=60");
}

#[test]
fn cache_control_omitted_for_result_with_errors() {
    let resp = GraphQLResponse {
        ok: false,
        cache_control: Some("max-age=60".to_string()),
        http_headers: vec![],
    };
    assert!(resp.response_headers().is_empty());
}

#[test]
fn invalid_cache_control_value_is_dropped() {
    let resp = GraphQLResponse {
        ok: true,
        cache_control: Some("max-age=60\r\nevil".to_string()),
        http_headers: vec![],
    };
    assert!(resp.response_headers().is_empty());
}

#[test]
fn custom_headers_filtered_by_syntax() {
    let resp = GraphQLResponse {
        ok: false,
        cache_control: None,
        http_headers: vec![
            ("x-good".to_string(), "yes".to_string()),
            ("bad name".to_string(), "yes".to_string()),
            ("x-bad-value".to_string(), "a\nb".to_string()),
        ],
    };
    let headers = resp.response_headers();
    assert_eq!(headers.len(), 1);
    assert_eq!(headers[0].0, "x-good");
    assert_eq!(headers[0].1, "yes");
}

#[test]
fn missing_negotiation_header_defaults_to_legacy() {
    let p = SecWebsocketProtocol::decode(None);
    assert_eq!(p.0, Protocol::SubscriptionsTransportWS);
}

#[test]
fn unknown_negotiation_value_defaults_to_legacy() {
    let value = "something-else".to_string();
    let p = SecWebsocketProtocol::decode(Some(&value));
    assert_eq!(p.0, Protocol::SubscriptionsTransportWS);
}

#[test]
fn known_negotiation_values_select_their_protocol() {
    let legacy = "graphql-ws".to_string();
    assert_eq!(
        SecWebsocketProtocol::decode(Some(&legacy)).0,
        Protocol::SubscriptionsTransportWS
    );
    let current = "graphql-transport-ws".to_string();
    assert_eq!(
        SecWebsocketProtocol::decode(Some(&current)).0,
        Protocol::GraphQLWS
    );
}

#[test]
fn protocol_encode_round_trips() {
    for p in [Protocol::SubscriptionsTransportWS, Protocol::GraphQLWS] {
        let advertised = SecWebsocketProtocol(p).encode();
        assert_eq!(SecWebsocketProtocol::decode(Some(&advertised)).0, p);
    }
    assert_eq!(SecWebsocketProtocol::name(), "sec-websocket-protocol");
}

#[test]
fn close_frame_keeps_code_and_reason() {
    match encode_outbound(EngineMessage::Close(1000, "done".to_string())) {
        WsFrame::Close(code, reason) => {
            assert_eq!(code, 1000);
            assert_eq!(reason, "done");
        }
        _ => panic!("a close message must become a close frame"),
    }
    match encode_outbound(EngineMessage::Text("hi".to_string())) {
        WsFrame::Text(t) => assert_eq!(t, "hi"),
        _ => panic!("a text message must become a text frame"),
    }
}

#[test]
fn inbound_frames_filtered_to_bytes() {
    assert_eq!(
        inbound_bytes(WsFrame::Text("ab".to_string())),
        Some(b"ab".to_vec())
    );
    assert_eq!(
        inbound_bytes(WsFrame::Binary(vec![1, 2, 3])),
        Some(vec![1, 2, 3])
    );
    assert_eq!(inbound_bytes(WsFrame::Close(1000, "x".to_string())), None);
    assert_eq!(inbound_bytes(WsFrame::Other), None);
}

#[test]
fn session_steps_cover_the_bridge() {
    match session_step(SessionEvent::Inbound(WsFrame::Text("q".to_string()))) {
        SessionAction::FeedEngine(b) => assert_eq!(b, b"q".to_vec()),
        _ => panic!("text frames feed the engine"),
    }
    assert!(matches!(
        session_step(SessionEvent::Inbound(WsFrame::Other)),
        SessionAction::DropFrame
    ));
    assert!(matches!(
        session_step(SessionEvent::InboundError),
        SessionAction::CloseInput
    ));
    match session_step(SessionEvent::EngineOutput(EngineMessage::Close(
        4400,
        "bad".to_string(),
    ))) {
        SessionAction::Send(WsFrame::Close(code, reason)) => {
            assert_eq!(code, 4400);
            assert_eq!(reason, "bad");
        }
        _ => panic!("engine close output must be sent as a close frame"),
    }
    assert!(matches!(
        session_step(SessionEvent::EngineDone),
        SessionAction::End
    ));
}
