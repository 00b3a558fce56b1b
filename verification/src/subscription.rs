//! The subscription bridge: negotiating a sub-protocol from a header
//! value and deciding, for each transport or engine event, what the
//! message loop does next. The loop itself performs the transport work
//! and feeds every event through [`session_step`].

use vstd::prelude::*;

verus! {

/// The two sub-protocol variants of GraphQL over WebSocket.
#[derive(Debug, Clone, Copy, PartialEq, Eq, Structural, Hash)]
pub enum Protocol {
    /// The legacy subscriptions-transport-ws protocol, advertised as
    /// `graphql-ws`.
    SubscriptionsTransportWS,
    /// The newer protocol, advertised as `graphql-transport-ws`.
    GraphQLWS,
}

pub open spec fn spec_protocol_name(p: Protocol) -> Seq<char> {
    match p {
        Protocol::SubscriptionsTransportWS => "graphql-ws"@,
        Protocol::GraphQLWS => "graphql-transport-ws"@,
    }
}

pub open spec fn spec_parse_protocol(s: Seq<char>) -> Option<Protocol> {
    if s == "graphql-ws"@ {
        Some(Protocol::SubscriptionsTransportWS)
    } else if s == "graphql-transport-ws"@ {
        Some(Protocol::GraphQLWS)
    } else {
        None
    }
}

/// The protocol a negotiation header selects: a missing or unknown value
/// falls back to the legacy protocol.
pub open spec fn spec_negotiate(h: Option<Seq<char>>) -> Protocol {
    match h {
        Some(s) => match spec_parse_protocol(s) {
            Some(p) => p,
            None => Protocol::SubscriptionsTransportWS,
        },
        None => Protocol::SubscriptionsTransportWS,
    }
}

pub fn parse_protocol(s: &String) -> (r: Option<Protocol>)
    ensures
        r == spec_parse_protocol(s@),
{
    let legacy: String = "graphql-ws".to_owned();
    let current: String = "graphql-transport-ws".to_owned();
    if s.eq(&legacy) {
        Some(Protocol::SubscriptionsTransportWS)
    } else if s.eq(&current) {
        Some(Protocol::GraphQLWS)
    } else {
        None
    }
}

/// The Sec-WebSocket-Protocol header: carries the negotiated sub-protocol.
#[derive(Debug, Clone, Copy, PartialEq, Eq, Structural, Hash)]
pub struct SecWebsocketProtocol(pub Protocol);

impl SecWebsocketProtocol {
    /// The negotiation header's name.
    pub fn name() -> (r: String)
        ensures
            r@ == "sec-websocket-protocol"@,
    {
        "sec-websocket-protocol".to_owned()
    }

    /// Decode the header's value; a missing or unknown value falls back
    /// to the legacy protocol.
    pub fn decode(value: Option<&String>) -> (r: SecWebsocketProtocol)
        ensures
            r.0 == spec_negotiate(
                match value {
                    Some(s) => Some(s@),
                    None => None,
                },
            ),
    {
        match value {
            Some(s) => match parse_protocol(s) {
                Some(p) => SecWebsocketProtocol(p),
                None => SecWebsocketProtocol(Protocol::SubscriptionsTransportWS),
            },
            None => SecWebsocketProtocol(Protocol::SubscriptionsTransportWS),
        }
    }

    /// The header value this protocol advertises.
    pub fn encode(&self) -> (r: String)
        ensures
            r@ == spec_protocol_name(self.0),
    {
        match self.0 {
            Protocol::SubscriptionsTransportWS => "graphql-ws".to_owned(),
            Protocol::GraphQLWS => "graphql-transport-ws".to_owned(),
        }
    }
}

/// Negotiation round trip: the value a protocol advertises negotiates
/// back to that same protocol.
pub proof fn lemma_protocol_round_trip(p: Protocol)
    ensures
        spec_negotiate(Some(spec_protocol_name(p))) == p,
{
    reveal_strlit("graphql-ws");
    reveal_strlit("graphql-transport-ws");
    assert("graphql-ws"@.len() == 10);
    assert("graphql-transport-ws"@.len() == 20);
    assert("graphql-transport-ws"@ != "graphql-ws"@);
}

/// A message the subscription engine produces for the client.
pub enum EngineMessage {
    Text(String),
    Close(u16, String),
}

/// A transport frame, as the bridge models it.
pub enum WsFrame {
    Text(String),
    Binary(Vec<u8>),
    Close(u16, String),
    Other,
}

/// Translate an engine message to the transport frame that carries it: a
/// close frame keeps its code and its reason text.
pub fn encode_outbound(m: EngineMessage) -> (r: WsFrame)
    ensures
        (m matches EngineMessage::Text(t) ==> r matches WsFrame::Text(t2) && t2 == t),
        (m matches EngineMessage::Close(c, reason) ==> r matches WsFrame::Close(c2, r2) && c2 == c
            && r2 == reason),
{
    match m {
        EngineMessage::Text(t) => WsFrame::Text(t),
        EngineMessage::Close(c, reason) => WsFrame::Close(c, reason),
    }
}

/// The bytes an inbound frame feeds to the engine: text and binary frames
/// pass through as their bytes; any other frame is filtered out.
pub fn inbound_bytes(f: WsFrame) -> (r: Option<Vec<u8>>)
    ensures
        (f matches WsFrame::Text(t) ==> r matches Some(b) && b@ == vstd::utf8::encode_utf8(t@)),
        (f matches WsFrame::Binary(bs) ==> r matches Some(b) && b == bs),
        (f matches WsFrame::Close(c, s) ==> r is None),
        (f is Other ==> r is None),
{
    match f {
        WsFrame::Text(t) => Some(t.as_str().as_bytes_vec()),
        WsFrame::Binary(bs) => Some(bs),
        WsFrame::Close(_, _) => None,
        WsFrame::Other => None,
    }
}

/// One event of a subscription session.
pub enum SessionEvent {
    /// A frame arrived from the transport.
    Inbound(WsFrame),
    /// The transport failed while reading.
    InboundError,
    /// The engine produced a message.
    EngineOutput(EngineMessage),
    /// The engine's output sequence ended.
    EngineDone,
}

/// What the bridge does next.
pub enum SessionAction {
    /// Hand these bytes to the protocol engine.
    FeedEngine(Vec<u8>),
    /// Ignore the frame and keep reading.
    DropFrame,
    /// Treat the inbound sequence as closed; no error is propagated.
    CloseInput,
    /// Send this frame, best-effort: a send failure is ignored.
    Send(WsFrame),
    /// The session is over.
    End,
}

/// The bridge's decision for one event: accepted inbound bytes feed the
/// engine, other frames are dropped, a transport error closes the
/// engine's input rather than failing, engine output is sent, and the
/// session ends only when the engine stops producing output.
pub fn session_step(e: SessionEvent) -> (a: SessionAction)
    ensures
        (e matches SessionEvent::Inbound(f) ==> (match f {
            WsFrame::Text(t) => a matches SessionAction::FeedEngine(b) && b@
                == vstd::utf8::encode_utf8(t@),
            WsFrame::Binary(bs) => a matches SessionAction::FeedEngine(b) && b == bs,
            WsFrame::Close(c, s) => a is DropFrame,
            WsFrame::Other => a is DropFrame,
        })),
        (e is InboundError ==> a is CloseInput),
        (e matches SessionEvent::EngineOutput(m) ==> (match m {
            EngineMessage::Text(t) => a matches SessionAction::Send(fr) && fr matches
                WsFrame::Text(t2) && t2 == t,
            EngineMessage::Close(c, reason) => a matches SessionAction::Send(fr) && fr matches
                WsFrame::Close(c2, r2) && c2 == c && r2 == reason,
        })),
        (e is EngineDone ==> a is End),
{
    match e {
        SessionEvent::Inbound(f) => match inbound_bytes(f) {
            Some(b) => SessionAction::FeedEngine(b),
            None => SessionAction::DropFrame,
        },
        SessionEvent::InboundError => SessionAction::CloseInput,
        SessionEvent::EngineOutput(m) => SessionAction::Send(encode_outbound(m)),
        SessionEvent::EngineDone => SessionAction::End,
    }
}

} // verus!
