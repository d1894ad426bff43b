//! The live socket's protocol: engine.io frames carrying socket.io packets,
//! the board subscription request, and what each packet asks of the
//! client. JSON bodies are handed on as text.

use vstd::prelude::*;

use crate::detail::{cat, cat3};
use crate::explorer::{json_string_literal, spec_json_string, spec_truncate, truncate};
use crate::text::{chars_of, push_char, push_str, string_from_chars};
use crate::transport::{parse_u64, spec_parse_u64};

verus! {

/// The acknowledgement id of the board subscription request.
pub const SUBSCRIBE_ACK_ID: u64 = 1;

/// The query of the socket URL: the engine.io protocol version, the
/// websocket transport, and the sails.io SDK it speaks as.
pub fn socket_query() -> (r: Vec<(&'static str, &'static str)>)
    ensures
        r@ == seq![
            ("EIO", "4"),
            ("transport", "websocket"),
            ("__sails_io_sdk_version", "1.2.1"),
            ("__sails_io_sdk_platform", "node"),
            ("__sails_io_sdk_language", "javascript"),
        ],
{
    let mut v: Vec<(&'static str, &'static str)> = Vec::new();
    v.push(("EIO", "4"));
    v.push(("transport", "websocket"));
    v.push(("__sails_io_sdk_version", "1.2.1"));
    v.push(("__sails_io_sdk_platform", "node"));
    v.push(("__sails_io_sdk_language", "javascript"));
    assert(v@ =~= seq![
        ("EIO", "4"),
        ("transport", "websocket"),
        ("__sails_io_sdk_version", "1.2.1"),
        ("__sails_io_sdk_platform", "node"),
        ("__sails_io_sdk_language", "javascript"),
    ]);
    v
}

/// The websocket scheme for a server URL's scheme: `ws` for `http`, `wss`
/// for `https`, a websocket scheme as it is; any other is refused.
pub open spec fn spec_websocket_scheme(scheme: Seq<char>) -> Result<Seq<char>, Seq<char>> {
    if scheme == "http"@ {
        Ok("ws"@)
    } else if scheme == "https"@ {
        Ok("wss"@)
    } else if scheme == "ws"@ || scheme == "wss"@ {
        Ok(scheme)
    } else {
        Err("unsupported websocket URL scheme: "@ + scheme)
    }
}

/// The websocket scheme for a server URL's scheme.
pub fn websocket_scheme(scheme: &str) -> (r: Result<String, String>)
    ensures
        match (r, spec_websocket_scheme(scheme@)) {
            (Ok(a), Ok(b)) => a@ == b,
            (Err(a), Err(b)) => a@ == b,
            _ => false,
        },
{
    if crate::text::str_eq(scheme, "http") {
        Ok("ws".to_string())
    } else if crate::text::str_eq(scheme, "https") {
        Ok("wss".to_string())
    } else if crate::text::str_eq(scheme, "ws") || crate::text::str_eq(scheme, "wss") {
        Ok(scheme.to_string())
    } else {
        Err(cat("unsupported websocket URL scheme: ", scheme))
    }
}

/// The `Origin` of a server: its scheme, host and, when the URL names one,
/// its port.
pub open spec fn spec_origin(scheme: Seq<char>, host: Seq<char>, port: Option<u16>) -> Seq<char> {
    match port {
        Some(p) => scheme + "://"@ + host + ":"@ + crate::text::decimal(p as nat),
        None => scheme + "://"@ + host,
    }
}

/// The `Origin` header of a server.
pub fn origin(scheme: &str, host: &str, port: Option<u16>) -> (r: String)
    ensures
        r@ == spec_origin(scheme@, host@, port),
{
    let mut out = cat3(scheme, "://", host);
    match port {
        Some(p) => {
            push_str(&mut out, ":");
            crate::text::push_decimal(&mut out, p as u64);
        },
        None => {},
    }
    out
}

/// An engine.io text frame, by its type character.
#[derive(Debug, Clone, PartialEq, Eq)]
pub enum EngineFrame {
    /// An empty frame.
    Empty,
    /// The session opens; the JSON body follows.
    Open(String),
    /// The server closes the session.
    Close,
    /// A ping, to be answered with a pong.
    Ping,
    /// A pong, upgrade or no-op frame: nothing to do.
    Quiet,
    /// A socket.io packet.
    Message(String),
    /// Another type: its character, and a summary for the event log.
    Unknown { kind: char, summary: String },
}

/// A text without its first character.
pub open spec fn tail(s: Seq<char>) -> Seq<char> {
    s.drop_first()
}

/// What an engine.io frame is.
pub open spec fn frame_is(text: Seq<char>, r: EngineFrame) -> bool {
    if text.len() == 0 {
        r is Empty
    } else {
        let c = text[0];
        if c == '0' {
            r matches EngineFrame::Open(body) && body@ == tail(text)
        } else if c == '1' {
            r is Close
        } else if c == '2' {
            r is Ping
        } else if c == '3' || c == '5' || c == '6' {
            r is Quiet
        } else if c == '4' {
            r matches EngineFrame::Message(p) && p@ == tail(text)
        } else {
            r matches EngineFrame::Unknown { kind, summary } && kind == c && summary@ == "type="@ + seq![c]
                + " raw="@ + spec_truncate(text, 120)
        }
    }
}

/// The text from its second character on.
fn after_first(cs: &Vec<char>) -> (r: String)
    requires
        cs@.len() > 0,
    ensures
        r@ == cs@.drop_first(),
{
    let mut out = String::new();
    let mut i: usize = 1;
    while i < cs.len()
        invariant
            1 <= i <= cs.len(),
            out@ == cs@.subrange(1, i as int),
        decreases cs.len() - i,
    {
        push_char(&mut out, cs[i]);
        assert(cs@.subrange(1, i as int).push(cs@[i as int]) =~= cs@.subrange(1, i + 1));
        i = i + 1;
    }
    assert(cs@.subrange(1, i as int) =~= cs@.drop_first());
    out
}

/// Reads the type of an engine.io text frame.
pub fn classify_engine_frame(text: &str) -> (r: EngineFrame)
    ensures
        frame_is(text@, r),
{
    let cs = chars_of(text);
    if cs.len() == 0 {
        return EngineFrame::Empty;
    }
    let c = cs[0];
    if c == '0' {
        EngineFrame::Open(after_first(&cs))
    } else if c == '1' {
        EngineFrame::Close
    } else if c == '2' {
        EngineFrame::Ping
    } else if c == '3' || c == '5' || c == '6' {
        EngineFrame::Quiet
    } else if c == '4' {
        EngineFrame::Message(after_first(&cs))
    } else {
        let mut summary = String::new();
        push_str(&mut summary, "type=");
        push_char(&mut summary, c);
        push_str(&mut summary, " raw=");
        let shown = truncate(text, 120);
        push_str(&mut summary, shown.as_str());
        assert(summary@ =~= "type="@ + seq![c] + " raw="@ + spec_truncate(text@, 120));
        EngineFrame::Unknown { kind: c, summary }
    }
}

/// The path of the board subscription request.
pub open spec fn subscribe_url(board_id: Seq<char>) -> Seq<char> {
    "/api/boards/"@ + board_id + "?subscribe=true"@
}

/// The socket.io event packet that subscribes to a board: a `get` of the
/// board's URL with the token, acknowledged under the subscription id; its
/// JSON object lists its keys in order, as `serde_json` writes a map.
pub open spec fn subscribe_packet(token: Seq<char>, board_id: Seq<char>) -> Seq<char> {
    "421[\"get\",{\"data\":{},\"headers\":{\"Authorization\":"@ + spec_json_string("Bearer "@ + token)
        + "},\"method\":\"get\",\"url\":"@ + spec_json_string(subscribe_url(board_id)) + "}]"@
}

/// Writes the packet that subscribes to board `board_id` with `token`.
pub fn build_subscribe_packet(token: &str, board_id: &str) -> (r: String)
    ensures
        r@ == subscribe_packet(token@, board_id@),
{
    let auth = cat("Bearer ", token);
    let url = cat3("/api/boards/", board_id, "?subscribe=true");
    let mut out = String::new();
    push_str(&mut out, "421[\"get\",{\"data\":{},\"headers\":{\"Authorization\":");
    push_str(&mut out, json_string_literal(auth.as_str()).as_str());
    push_str(&mut out, "},\"method\":\"get\",\"url\":");
    push_str(&mut out, json_string_literal(url.as_str()).as_str());
    push_str(&mut out, "}]");
    out
}

/// The message of `str::parse::<u64>`'s error for a text it refuses.
pub uninterp spec fn spec_u64_parse_error(s: Seq<char>) -> Seq<char>;

/// Calls `str::parse::<u64>` on a text it refuses and renders its error
/// (`ParseIntError`'s `Display`), which depends on the text alone.
#[verifier::external_body]
fn u64_parse_error(s: &str) -> (r: String)
    requires
        spec_parse_u64(s@) is None,
    ensures
        r@ == spec_u64_parse_error(s@),
{
    s.parse::<u64>().err().map(|e| e.to_string()).unwrap_or_default()
}

/// What a socket.io packet asks of the client.
#[derive(Debug, Clone, PartialEq, Eq)]
pub enum PacketStep {
    /// The namespace is connected: log it, and send the subscription when
    /// it was not sent yet.
    Connected { summary: String, subscribe: Option<String> },
    /// The packet is malformed or refuses the connection: the socket fails
    /// with this message.
    Fail(String),
    /// An acknowledgement, with its id and JSON payload array; `board`
    /// when it answers the board subscription.
    Ack { id: u64, payload: String, board: bool },
    /// An event, with its JSON payload array; `summary` is logged when the
    /// array does not start with the event's name.
    Event { payload: String, summary: String },
    /// Any other packet, logged.
    Other { summary: String },
}

/// The position of the first `[` in `s`, or -1.
pub open spec fn bracket_index(s: Seq<char>) -> int
    decreases s.len(),
{
    if s.len() == 0 {
        -1
    } else {
        let i = bracket_index(s.drop_last());
        if i >= 0 {
            i
        } else if s.last() == '[' {
            s.len() - 1
        } else {
            -1
        }
    }
}

/// What the client does with a socket.io packet, having sent the
/// subscription before or not.
pub open spec fn packet_step(packet: Seq<char>, subscribed: bool, token: Seq<char>, board_id: Seq<char>, r: PacketStep) -> bool {
    let first = if packet.len() > 0 {
        Some(packet[0])
    } else {
        None
    };
    if first == Some('0') {
        &&& r matches PacketStep::Connected { summary, subscribe }
        &&& summary@ == spec_truncate(packet, 120)
        &&& subscribe matches Some(p) ==> p@ == subscribe_packet(token, board_id)
        &&& subscribe is Some <==> !subscribed
    } else if first == Some('4') {
        r matches PacketStep::Fail(m) && m@ == "socket connect error packet: "@ + spec_truncate(packet, 200)
    } else if first == Some('3') {
        let rest = tail(packet);
        let i = bracket_index(rest);
        if i < 0 {
            r matches PacketStep::Fail(m) && m@ == "ack packet missing payload: "@ + spec_truncate(packet, 160)
        } else {
            match spec_parse_u64(rest.take(i)) {
                Some(id) => r matches PacketStep::Ack { id: got, payload, board } && got == id && payload@
                    == rest.skip(i) && board == (id == SUBSCRIBE_ACK_ID),
                None => r matches PacketStep::Fail(m) && m@ == "ack packet id parse failed: "@
                    + spec_u64_parse_error(rest.take(i)) + ": "@ + spec_truncate(packet, 160),
            }
        }
    } else if first == Some('2') && packet.len() > 1 && packet[1] == '[' {
        r matches PacketStep::Event { payload, summary } && payload@ == tail(packet) && summary@ == spec_truncate(
            packet,
            160,
        )
    } else {
        r matches PacketStep::Other { summary } && summary@ == spec_truncate(packet, 160)
    }
}

/// What is known of a socket session.
#[derive(Debug, Clone, PartialEq, Eq)]
pub struct SocketSession {
    /// The engine session id, once the engine opened.
    pub engine_sid: Option<String>,
    pub namespace_connected: bool,
    pub subscribe_sent: bool,
}

impl SocketSession {
    /// A session before anything was received.
    pub fn new() -> (r: Self)
        ensures
            r.engine_sid is None && !r.namespace_connected && !r.subscribe_sent,
    {
        SocketSession { engine_sid: None, namespace_connected: false, subscribe_sent: false }
    }

    /// Notes that the engine opened with session id `sid`.
    pub fn engine_opened(&mut self, sid: String)
        ensures
            final(self).engine_sid == Some(sid),
            final(self).namespace_connected == old(self).namespace_connected,
            final(self).subscribe_sent == old(self).subscribe_sent,
    {
        self.engine_sid = Some(sid);
    }

    /// Reads a socket.io packet: a namespace connect marks the namespace
    /// connected and the subscription sent.
    pub fn on_packet(&mut self, packet: &str, token: &str, board_id: &str) -> (r: PacketStep)
        ensures
            packet_step(packet@, old(self).subscribe_sent, token@, board_id@, r),
            final(self).engine_sid == old(self).engine_sid,
            final(self).namespace_connected == (old(self).namespace_connected || (packet@.len() > 0 && packet@[0]
                == '0')),
            final(self).subscribe_sent == (old(self).subscribe_sent || (packet@.len() > 0 && packet@[0] == '0')),
    {
        let cs = chars_of(packet);
        if cs.len() > 0 && cs[0] == '0' {
            self.namespace_connected = true;
            let summary = truncate(packet, 120);
            let subscribe = if !self.subscribe_sent {
                self.subscribe_sent = true;
                Some(build_subscribe_packet(token, board_id))
            } else {
                None
            };
            return PacketStep::Connected { summary, subscribe };
        }
        if cs.len() > 0 && cs[0] == '4' {
            return PacketStep::Fail(cat("socket connect error packet: ", truncate(packet, 200).as_str()));
        }
        if cs.len() > 0 && cs[0] == '3' {
            let ghost rest = tail(packet@);
            let mut i: usize = 1;
            assert(rest.take(0) =~= Seq::<char>::empty());
            while i < cs.len() && cs[i] != '['
                invariant
                    1 <= i <= cs.len(),
                    cs@ == packet@,
                    rest == tail(packet@),
                    bracket_index(rest.take(i - 1)) == -1,
                decreases cs.len() - i,
            {
                assert(rest.take(i as int).drop_last() =~= rest.take(i - 1));
                assert(rest.take(i as int).last() == cs@[i as int]);
                i = i + 1;
            }
            if i == cs.len() {
                assert(rest.take(i - 1) =~= rest);
                return PacketStep::Fail(cat("ack packet missing payload: ", truncate(packet, 160).as_str()));
            }
            assert(rest.take(i as int).drop_last() =~= rest.take(i - 1));
            assert(bracket_index(rest.take(i as int)) == i - 1);
            proof {
                lemma_bracket_extends(rest, i as int);
            }
            let mut digits = String::new();
            let mut j: usize = 1;
            while j < i
                invariant
                    1 <= j <= i,
                    i < cs.len(),
                    cs@ == packet@,
                    digits@ == cs@.subrange(1, j as int),
                decreases i - j,
            {
                push_char(&mut digits, cs[j]);
                assert(cs@.subrange(1, j as int).push(cs@[j as int]) =~= cs@.subrange(1, j + 1));
                j = j + 1;
            }
            assert(digits@ =~= rest.take(i - 1));
            let mut payload = String::new();
            let mut k: usize = i;
            while k < cs.len()
                invariant
                    i <= k <= cs.len(),
                    cs@ == packet@,
                    payload@ == cs@.subrange(i as int, k as int),
                decreases cs.len() - k,
            {
                push_char(&mut payload, cs[k]);
                assert(cs@.subrange(i as int, k as int).push(cs@[k as int]) =~= cs@.subrange(i as int, k + 1));
                k = k + 1;
            }
            assert(payload@ =~= rest.skip(i - 1));
            return match parse_u64(digits.as_str()) {
                Some(id) => PacketStep::Ack { id, payload, board: id == SUBSCRIBE_ACK_ID },
                None => {
                    let mut m = String::new();
                    push_str(&mut m, "ack packet id parse failed: ");
                    push_str(&mut m, u64_parse_error(digits.as_str()).as_str());
                    push_str(&mut m, ": ");
                    push_str(&mut m, truncate(packet, 160).as_str());
                    PacketStep::Fail(m)
                },
            };
        }
        if cs.len() > 1 && cs[0] == '2' && cs[1] == '[' {
            return PacketStep::Event { payload: after_first(&cs), summary: truncate(packet, 160) };
        }
        PacketStep::Other { summary: truncate(packet, 160) }
    }
}

proof fn lemma_bracket_upto(s: Seq<char>, k: int, n: int)
    requires
        1 <= k <= n <= s.len(),
        bracket_index(s.take(k)) == k - 1,
    ensures
        bracket_index(s.take(n)) == k - 1,
    decreases n - k,
{
    if n > k {
        lemma_bracket_upto(s, k, n - 1);
        assert(s.take(n).drop_last() =~= s.take(n - 1));
    }
}

proof fn lemma_bracket_extends(s: Seq<char>, k: int)
    requires
        1 <= k <= s.len(),
        bracket_index(s.take(k)) == k - 1,
    ensures
        bracket_index(s) == k - 1,
{
    lemma_bracket_upto(s, k, s.len() as int);
    assert(s.take(s.len() as int) =~= s);
}

} // verus!
