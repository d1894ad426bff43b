use plnk::socket::{
    build_subscribe_packet, classify_engine_frame, origin, socket_query, websocket_scheme, EngineFrame, PacketStep,
    SocketSession,
};

#[test]
fn engine_frames_are_read_by_their_type() {
    assert_eq!(classify_engine_frame(""), EngineFrame::Empty);
    assert_eq!(classify_engine_frame("0{\"sid\":\"a\"}"), EngineFrame::Open("{\"sid\":\"a\"}".into()));
    assert_eq!(classify_engine_frame("1"), EngineFrame::Close);
    assert_eq!(classify_engine_frame("2"), EngineFrame::Ping);
    assert_eq!(classify_engine_frame("6"), EngineFrame::Quiet);
    assert_eq!(classify_engine_frame("40"), EngineFrame::Message("0".into()));
    assert_eq!(
        classify_engine_frame("9zz"),
        EngineFrame::Unknown { kind: '9', summary: "type=9 raw=9zz".into() }
    );
}

#[test]
fn subscribe_packet_matches_serde_json() {
    let mut headers = serde_json::Map::new();
    headers.insert("Authorization".into(), serde_json::Value::String("Bearer tok\"en".into()));
    let mut request = serde_json::Map::new();
    request.insert("method".into(), serde_json::Value::String("get".into()));
    request.insert("url".into(), serde_json::Value::String("/api/boards/b1?subscribe=true".into()));
    request.insert("data".into(), serde_json::Value::Object(serde_json::Map::new()));
    request.insert("headers".into(), serde_json::Value::Object(headers));
    let payload =
        serde_json::Value::Array(vec![serde_json::Value::String("get".into()), serde_json::Value::Object(request)]);
    let expected = format!("421{}", serde_json::to_string(&payload).unwrap());
    assert_eq!(build_subscribe_packet("tok\"en", "b1"), expected);
}

#[test]
fn namespace_connect_sends_the_subscription_once() {
    let mut s = SocketSession::new();
    match s.on_packet("0{\"sid\":\"n\"}", "tok", "b1") {
        PacketStep::Connected { subscribe, .. } => assert_eq!(subscribe, Some(build_subscribe_packet("tok", "b1"))),
        other => panic!("{other:?}"),
    }
    assert!(s.namespace_connected && s.subscribe_sent);
    match s.on_packet("0", "tok", "b1") {
        PacketStep::Connected { subscribe, .. } => assert_eq!(subscribe, None),
        other => panic!("{other:?}"),
    }
}

#[test]
fn acks_events_and_errors() {
    let mut s = SocketSession::new();
    assert_eq!(
        s.on_packet("31[{\"statusCode\":200}]", "t", "b"),
        PacketStep::Ack { id: 1, payload: "[{\"statusCode\":200}]".into(), board: true }
    );
    assert_eq!(s.on_packet("37[]", "t", "b"), PacketStep::Ack { id: 7, payload: "[]".into(), board: false });
    assert_eq!(s.on_packet("3abc", "t", "b"), PacketStep::Fail("ack packet missing payload: 3abc".into()));
    assert_eq!(
        s.on_packet("3x[1]", "t", "b"),
        PacketStep::Fail("ack packet id parse failed: invalid digit found in string: 3x[1]".into())
    );
    assert_eq!(
        s.on_packet("2[\"cardUpdate\",{}]", "t", "b"),
        PacketStep::Event { payload: "[\"cardUpdate\",{}]".into(), summary: "2[\"cardUpdate\",{}]".into() }
    );
    assert_eq!(s.on_packet("2x", "t", "b"), PacketStep::Other { summary: "2x".into() });
    assert_eq!(s.on_packet("44{}", "t", "b"), PacketStep::Fail("socket connect error packet: 44{}".into()));
}

#[test]
fn socket_url_parts() {
    assert_eq!(websocket_scheme("http"), Ok("ws".to_string()));
    assert_eq!(websocket_scheme("https"), Ok("wss".to_string()));
    assert_eq!(websocket_scheme("wss"), Ok("wss".to_string()));
    assert_eq!(websocket_scheme("ftp"), Err("unsupported websocket URL scheme: ftp".to_string()));
    assert_eq!(origin("https", "planka.example", None), "https://planka.example");
    assert_eq!(origin("http", "localhost", Some(3000)), "http://localhost:3000");
    assert_eq!(socket_query()[0], ("EIO", "4"));
    assert_eq!(socket_query().len(), 5);
}
