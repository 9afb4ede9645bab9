//! The multiplexed frame protocol between client and server.
//!
//! A frame is a payload length (4 bytes, big-endian), a stream id (8 bytes,
//! big-endian) and the payload. Stream 0 carries control messages. A length of
//! `0xFFFFFFFF` marks a closed stream and has no payload.

use vstd::prelude::*;
use vstd::slice::*;
use vstd::string::*;
use vstd::utf8::*;
use crate::config::Protocol;
use crate::text::{decimal, decimal_text, text_from_utf8};
use crate::wire::{be_bytes, be_value, lemma_be_value_bound, lemma_pow256_values, push_be, read_be};

verus! {

/// Largest payload that a frame may announce (1 MB).
pub const MAX_PAYLOAD_SIZE: u32 = 1_048_576;

/// The stream that carries control messages.
pub const CONTROL_STREAM: u64 = 0;

/// The length that marks a closed stream.
pub const FRAME_TYPE_STREAM_CLOSE: u32 = 0xFFFF_FFFF;

const MSG_AUTH: u8 = 1;

const MSG_AUTH_OK: u8 = 2;

const MSG_AUTH_FAILED: u8 = 3;

const MSG_OPEN_TUNNEL: u8 = 4;

const MSG_TUNNEL_OPENED: u8 = 5;

const MSG_CLOSE_TUNNEL: u8 = 6;

const MSG_NEW_CONNECTION: u8 = 7;

const MSG_PING: u8 = 9;

const MSG_PONG: u8 = 10;

/// A control message or the data of one stream.
#[derive(Debug, Clone, PartialEq, Eq)]
pub enum Frame {
    /// A control message (stream 0).
    Control(Message),
    /// Data of one player connection.
    Data { stream_id: u64, payload: Vec<u8> },
    /// A stream was closed.
    StreamClose { stream_id: u64 },
}

/// The control messages.
#[derive(Debug, Clone, PartialEq, Eq)]
pub enum Message {
    /// The client authenticates. With a `client_uuid` the server consults its
    /// pre-auth cache before it accepts.
    Auth { secret: String, client_uuid: Option<String> },
    /// The server accepts.
    AuthOk,
    /// The server refuses.
    AuthFailed { reason: String },
    /// The client asks for a tunnel.
    OpenTunnel { tunnel_id: u32, remote_port: u16, protocol: TunnelProtocol },
    /// The server has opened a tunnel.
    TunnelOpened { tunnel_id: u32 },
    /// Either side closes a tunnel.
    CloseTunnel { tunnel_id: u32 },
    /// The server announces a player connection and its stream.
    NewConnection { tunnel_id: u32, stream_id: u64, is_udp: bool },
    /// Heartbeat.
    Ping,
    /// Answer to a heartbeat.
    Pong,
}

/// The transport of a tunnel as the wire names it.
#[derive(Debug, Clone, Copy, PartialEq, Eq, Structural)]
pub enum TunnelProtocol {
    Tcp,
    Udp,
    Both,
}

/// The wire's name for a configured transport.
pub open spec fn protocol_on_wire(p: Protocol) -> TunnelProtocol {
    match p {
        Protocol::Tcp => TunnelProtocol::Tcp,
        Protocol::Udp => TunnelProtocol::Udp,
        Protocol::Both => TunnelProtocol::Both,
    }
}

impl From<Protocol> for TunnelProtocol {
    fn from(p: Protocol) -> (r: Self) {
        match p {
            Protocol::Tcp => TunnelProtocol::Tcp,
            Protocol::Udp => TunnelProtocol::Udp,
            Protocol::Both => TunnelProtocol::Both,
        }
    }
}

impl vstd::std_specs::convert::FromSpecImpl<Protocol> for TunnelProtocol {
    open spec fn obeys_from_spec() -> bool {
        true
    }

    open spec fn from_spec(p: Protocol) -> Self {
        protocol_on_wire(p)
    }
}

/// Why bytes are no control message.
#[derive(Debug, Clone, Copy, PartialEq, Eq)]
pub enum DecodeError {
    Empty,
    AuthTooShort,
    AuthTooShortForUuid,
    UuidNotUtf8,
    SecretNotUtf8,
    ReasonNotUtf8,
    OpenTunnelTooShort,
    UnknownProtocol(u8),
    TunnelOpenedTooShort,
    CloseTunnelTooShort,
    NewConnectionTooShort,
    UnknownMessageType(u8),
}

/// Why a reader yields no frame.
#[derive(Debug, Clone, Copy, PartialEq, Eq)]
pub enum FrameError {
    LengthMissing,
    StreamIdMissing,
    TooLarge(u32),
    PayloadMissing,
    BadMessage(DecodeError),
}

/// A control message with its texts as character sequences.
pub enum MessageView {
    Auth { secret: Seq<char>, client_uuid: Option<Seq<char>> },
    AuthOk,
    AuthFailed { reason: Seq<char> },
    OpenTunnel { tunnel_id: u32, remote_port: u16, protocol: TunnelProtocol },
    TunnelOpened { tunnel_id: u32 },
    CloseTunnel { tunnel_id: u32 },
    NewConnection { tunnel_id: u32, stream_id: u64, is_udp: bool },
    Ping,
    Pong,
}

/// A frame with its contents as sequences.
pub enum FrameView {
    Control(MessageView),
    Data { stream_id: u64, payload: Seq<u8> },
    StreamClose { stream_id: u64 },
}

impl View for Message {
    type V = MessageView;

    open spec fn view(&self) -> MessageView {
        match self {
            Message::Auth { secret, client_uuid } => MessageView::Auth {
                secret: secret@,
                client_uuid: match client_uuid {
                    Some(u) => Some(u@),
                    None => None,
                },
            },
            Message::AuthOk => MessageView::AuthOk,
            Message::AuthFailed { reason } => MessageView::AuthFailed { reason: reason@ },
            Message::OpenTunnel { tunnel_id, remote_port, protocol } => MessageView::OpenTunnel {
                tunnel_id: *tunnel_id,
                remote_port: *remote_port,
                protocol: *protocol,
            },
            Message::TunnelOpened { tunnel_id } => MessageView::TunnelOpened {
                tunnel_id: *tunnel_id,
            },
            Message::CloseTunnel { tunnel_id } => MessageView::CloseTunnel {
                tunnel_id: *tunnel_id,
            },
            Message::NewConnection { tunnel_id, stream_id, is_udp } => MessageView::NewConnection {
                tunnel_id: *tunnel_id,
                stream_id: *stream_id,
                is_udp: *is_udp,
            },
            Message::Ping => MessageView::Ping,
            Message::Pong => MessageView::Pong,
        }
    }
}

impl View for Frame {
    type V = FrameView;

    open spec fn view(&self) -> FrameView {
        match self {
            Frame::Control(m) => FrameView::Control(m@),
            Frame::Data { stream_id, payload } => FrameView::Data {
                stream_id: *stream_id,
                payload: payload@,
            },
            Frame::StreamClose { stream_id } => FrameView::StreamClose { stream_id: *stream_id },
        }
    }
}

/// The byte that names a transport.
pub open spec fn protocol_code(p: TunnelProtocol) -> u8 {
    match p {
        TunnelProtocol::Tcp => 1,
        TunnelProtocol::Udp => 2,
        TunnelProtocol::Both => 3,
    }
}

/// The transport that a byte names.
pub open spec fn protocol_of_code(b: u8) -> Option<TunnelProtocol> {
    if b == 1 {
        Some(TunnelProtocol::Tcp)
    } else if b == 2 {
        Some(TunnelProtocol::Udp)
    } else if b == 3 {
        Some(TunnelProtocol::Both)
    } else {
        None
    }
}

/// The bytes of an optional client UUID: none at all where it is absent.
pub open spec fn uuid_bytes(u: Option<Seq<char>>) -> Seq<u8> {
    match u {
        Some(t) => encode_utf8(t),
        None => Seq::empty(),
    }
}

/// The byte that names a message's kind.
pub open spec fn message_code(m: MessageView) -> u8 {
    match m {
        MessageView::Auth { .. } => 1,
        MessageView::AuthOk => 2,
        MessageView::AuthFailed { .. } => 3,
        MessageView::OpenTunnel { .. } => 4,
        MessageView::TunnelOpened { .. } => 5,
        MessageView::CloseTunnel { .. } => 6,
        MessageView::NewConnection { .. } => 7,
        MessageView::Ping => 9,
        MessageView::Pong => 10,
    }
}

/// What follows the kind byte of a message.
pub open spec fn message_body(m: MessageView) -> Seq<u8> {
    match m {
        MessageView::Auth { secret, client_uuid } => be_bytes(uuid_bytes(client_uuid).len(), 2)
            + uuid_bytes(client_uuid) + encode_utf8(secret),
        MessageView::AuthFailed { reason } => encode_utf8(reason),
        MessageView::OpenTunnel { tunnel_id, remote_port, protocol } => be_bytes(
            tunnel_id as nat,
            4,
        ) + be_bytes(remote_port as nat, 2) + seq![protocol_code(protocol)],
        MessageView::TunnelOpened { tunnel_id } => be_bytes(tunnel_id as nat, 4),
        MessageView::CloseTunnel { tunnel_id } => be_bytes(tunnel_id as nat, 4),
        MessageView::NewConnection { tunnel_id, stream_id, is_udp } => be_bytes(
            tunnel_id as nat,
            4,
        ) + be_bytes(stream_id as nat, 8) + seq![
            if is_udp {
                1u8
            } else {
                0u8
            },
        ],
        _ => Seq::empty(),
    }
}

/// The bytes of a message: its kind, then its body.
pub open spec fn message_bytes(m: MessageView) -> Seq<u8> {
    seq![message_code(m)] + message_body(m)
}

/// The `Auth` message that a body holds.
pub open spec fn auth_of_body(p: Seq<u8>) -> Result<MessageView, DecodeError> {
    let n = be_value(p.subrange(0, 2)) as int;
    if p.len() < 2 {
        Err(DecodeError::AuthTooShort)
    } else if p.len() < 2 + n {
        Err(DecodeError::AuthTooShortForUuid)
    } else if n > 0 && !valid_utf8(p.subrange(2, 2 + n)) {
        Err(DecodeError::UuidNotUtf8)
    } else if !valid_utf8(p.skip(2 + n)) {
        Err(DecodeError::SecretNotUtf8)
    } else {
        Ok(
            MessageView::Auth {
                secret: decode_utf8(p.skip(2 + n)),
                client_uuid: if n > 0 {
                    Some(decode_utf8(p.subrange(2, 2 + n)))
                } else {
                    None
                },
            },
        )
    }
}

/// The message that bytes hold: the inverse of [`message_bytes`], which also
/// ignores what follows a body of fixed length.
pub open spec fn message_of_bytes(data: Seq<u8>) -> Result<MessageView, DecodeError> {
    let p = data.skip(1);
    if data.len() == 0 {
        Err(DecodeError::Empty)
    } else if data[0] == 1 {
        auth_of_body(p)
    } else if data[0] == 2 {
        Ok(MessageView::AuthOk)
    } else if data[0] == 3 {
        if valid_utf8(p) {
            Ok(MessageView::AuthFailed { reason: decode_utf8(p) })
        } else {
            Err(DecodeError::ReasonNotUtf8)
        }
    } else if data[0] == 4 {
        if p.len() < 7 {
            Err(DecodeError::OpenTunnelTooShort)
        } else {
            match protocol_of_code(p[6]) {
                Some(protocol) => Ok(
                    MessageView::OpenTunnel {
                        tunnel_id: be_value(p.subrange(0, 4)) as u32,
                        remote_port: be_value(p.subrange(4, 6)) as u16,
                        protocol,
                    },
                ),
                None => Err(DecodeError::UnknownProtocol(p[6])),
            }
        }
    } else if data[0] == 5 {
        if p.len() < 4 {
            Err(DecodeError::TunnelOpenedTooShort)
        } else {
            Ok(MessageView::TunnelOpened { tunnel_id: be_value(p.subrange(0, 4)) as u32 })
        }
    } else if data[0] == 6 {
        if p.len() < 4 {
            Err(DecodeError::CloseTunnelTooShort)
        } else {
            Ok(MessageView::CloseTunnel { tunnel_id: be_value(p.subrange(0, 4)) as u32 })
        }
    } else if data[0] == 7 {
        if p.len() < 12 {
            Err(DecodeError::NewConnectionTooShort)
        } else {
            Ok(
                MessageView::NewConnection {
                    tunnel_id: be_value(p.subrange(0, 4)) as u32,
                    stream_id: be_value(p.subrange(4, 12)) as u64,
                    is_udp: p.len() > 12 && p[12] != 0,
                },
            )
        }
    } else if data[0] == 9 {
        Ok(MessageView::Ping)
    } else if data[0] == 10 {
        Ok(MessageView::Pong)
    } else {
        Err(DecodeError::UnknownMessageType(data[0]))
    }
}

/// What a failed decoding is reported as.
pub open spec fn decode_error_text(e: DecodeError) -> Seq<char> {
    match e {
        DecodeError::Empty => "empty control message"@,
        DecodeError::AuthTooShort => "Auth payload too short"@,
        DecodeError::AuthTooShortForUuid => "Auth payload too short for UUID"@,
        DecodeError::UuidNotUtf8 => "invalid UTF-8 in client_uuid"@,
        DecodeError::SecretNotUtf8 => "invalid UTF-8 in secret"@,
        DecodeError::ReasonNotUtf8 => "invalid UTF-8 in auth fail"@,
        DecodeError::OpenTunnelTooShort => "OpenTunnel too short"@,
        DecodeError::UnknownProtocol(b) => "unknown protocol: "@ + decimal_text(b as nat),
        DecodeError::TunnelOpenedTooShort => "TunnelOpened too short"@,
        DecodeError::CloseTunnelTooShort => "CloseTunnel too short"@,
        DecodeError::NewConnectionTooShort => "NewConnection too short"@,
        DecodeError::UnknownMessageType(b) => "unknown control message type: "@ + decimal_text(
            b as nat,
        ),
    }
}

/// What a failed read is reported as.
pub open spec fn frame_error_text(e: FrameError) -> Seq<char> {
    match e {
        FrameError::LengthMissing => "failed to read frame length"@,
        FrameError::StreamIdMissing => "failed to read stream_id"@,
        FrameError::TooLarge(n) => "frame too large: "@ + decimal_text(n as nat) + " bytes"@,
        FrameError::PayloadMissing => "failed to read frame payload"@,
        FrameError::BadMessage(d) => decode_error_text(d),
    }
}

impl DecodeError {
    /// What the failure is reported as.
    pub fn message(&self) -> (text: String)
        ensures
            text@ == decode_error_text(*self),
    {
        match self {
            DecodeError::Empty => "empty control message".to_string(),
            DecodeError::AuthTooShort => "Auth payload too short".to_string(),
            DecodeError::AuthTooShortForUuid => "Auth payload too short for UUID".to_string(),
            DecodeError::UuidNotUtf8 => "invalid UTF-8 in client_uuid".to_string(),
            DecodeError::SecretNotUtf8 => "invalid UTF-8 in secret".to_string(),
            DecodeError::ReasonNotUtf8 => "invalid UTF-8 in auth fail".to_string(),
            DecodeError::OpenTunnelTooShort => "OpenTunnel too short".to_string(),
            DecodeError::UnknownProtocol(b) => {
                let mut text = "unknown protocol: ".to_string();
                text.append(decimal(*b as u64).as_str());
                text
            },
            DecodeError::TunnelOpenedTooShort => "TunnelOpened too short".to_string(),
            DecodeError::CloseTunnelTooShort => "CloseTunnel too short".to_string(),
            DecodeError::NewConnectionTooShort => "NewConnection too short".to_string(),
            DecodeError::UnknownMessageType(b) => {
                let mut text = "unknown control message type: ".to_string();
                text.append(decimal(*b as u64).as_str());
                text
            },
        }
    }
}

impl FrameError {
    /// What the failure is reported as.
    pub fn message(&self) -> (text: String)
        ensures
            text@ == frame_error_text(*self),
    {
        match self {
            FrameError::LengthMissing => "failed to read frame length".to_string(),
            FrameError::StreamIdMissing => "failed to read stream_id".to_string(),
            FrameError::TooLarge(n) => {
                let mut text = "frame too large: ".to_string();
                text.append(decimal(*n as u64).as_str());
                text.append(" bytes");
                text
            },
            FrameError::PayloadMissing => "failed to read frame payload".to_string(),
            FrameError::BadMessage(d) => d.message(),
        }
    }
}

/// Appends a slice.
fn push_slice(out: &mut Vec<u8>, bytes: &[u8])
    ensures
        final(out)@ == old(out)@ + bytes@,
{
    out.extend_from_slice(bytes);
    assert(out@ =~= old(out)@ + bytes@);
}

/// The text that the bytes from `from` up to `to` hold.
fn text_between(data: &[u8], from: usize, to: usize) -> (r: Option<String>)
    requires
        from <= to <= data@.len(),
    ensures
        match r {
            Some(s) => valid_utf8(data@.subrange(from as int, to as int)) && s@ == decode_utf8(
                data@.subrange(from as int, to as int),
            ),
            None => !valid_utf8(data@.subrange(from as int, to as int)),
        },
{
    text_from_utf8(slice_to_vec(slice_subrange(data, from, to)))
}

impl TunnelProtocol {
    /// The byte that names this transport.
    pub fn code(&self) -> (b: u8)
        ensures
            b == protocol_code(*self),
    {
        match self {
            TunnelProtocol::Tcp => 1,
            TunnelProtocol::Udp => 2,
            TunnelProtocol::Both => 3,
        }
    }
}

impl Message {
    /// The bytes of this message.
    pub fn encode(&self) -> (bytes: Vec<u8>)
        ensures
            bytes@ == message_bytes(self@),
    {
        let mut out: Vec<u8> = Vec::new();
        match self {
            Message::Auth { secret, client_uuid } => {
                out.push(MSG_AUTH);
                match client_uuid {
                    Some(uuid) => {
                        let uuid_bytes = uuid.as_str().as_bytes();
                        push_be(&mut out, uuid_bytes.len() as u64, 2);
                        push_slice(&mut out, uuid_bytes);
                    },
                    None => {
                        push_be(&mut out, 0, 2);
                    },
                }
                push_slice(&mut out, secret.as_str().as_bytes());
            },
            Message::AuthOk => {
                out.push(MSG_AUTH_OK);
            },
            Message::AuthFailed { reason } => {
                out.push(MSG_AUTH_FAILED);
                push_slice(&mut out, reason.as_str().as_bytes());
            },
            Message::OpenTunnel { tunnel_id, remote_port, protocol } => {
                out.push(MSG_OPEN_TUNNEL);
                push_be(&mut out, *tunnel_id as u64, 4);
                push_be(&mut out, *remote_port as u64, 2);
                out.push(protocol.code());
            },
            Message::TunnelOpened { tunnel_id } => {
                out.push(MSG_TUNNEL_OPENED);
                push_be(&mut out, *tunnel_id as u64, 4);
            },
            Message::CloseTunnel { tunnel_id } => {
                out.push(MSG_CLOSE_TUNNEL);
                push_be(&mut out, *tunnel_id as u64, 4);
            },
            Message::NewConnection { tunnel_id, stream_id, is_udp } => {
                out.push(MSG_NEW_CONNECTION);
                push_be(&mut out, *tunnel_id as u64, 4);
                push_be(&mut out, *stream_id, 8);
                out.push(
                    if *is_udp {
                        1u8
                    } else {
                        0u8
                    },
                );
            },
            Message::Ping => {
                out.push(MSG_PING);
            },
            Message::Pong => {
                out.push(MSG_PONG);
            },
        }
        assert(out@ =~= message_bytes(self@));
        out
    }

    /// The message that bytes hold.
    pub fn decode(data: &[u8]) -> (r: Result<Message, DecodeError>)
        ensures
            match r {
                Ok(m) => message_of_bytes(data@) == Ok::<MessageView, DecodeError>(m@),
                Err(e) => message_of_bytes(data@) == Err::<MessageView, DecodeError>(e),
            },
    {
        let total: usize = data.len();
        if total == 0 {
            return Err(DecodeError::Empty);
        }
        let kind: u8 = data[0];
        let len: usize = total - 1;
        let ghost p = data@.skip(1);
        proof {
            lemma_pow256_values();
            assert(p.len() == len);
            assert(p =~= data@.subrange(1, total as int));
            if len >= 2 {
                assert(p.subrange(0, 2) =~= data@.subrange(1, 3));
                lemma_be_value_bound(data@.subrange(1, 3));
            }
            if len >= 4 {
                assert(p.subrange(0, 4) =~= data@.subrange(1, 5));
                lemma_be_value_bound(data@.subrange(1, 5));
            }
            if len >= 6 {
                assert(p.subrange(4, 6) =~= data@.subrange(5, 7));
                lemma_be_value_bound(data@.subrange(5, 7));
            }
            if len >= 12 {
                assert(p.subrange(4, 12) =~= data@.subrange(5, 13));
                lemma_be_value_bound(data@.subrange(5, 13));
            }
        }
        match kind {
            MSG_AUTH => {
                if len < 2 {
                    return Err(DecodeError::AuthTooShort);
                }
                let uuid_len: usize = read_be(data, 1, 2) as usize;
                if len < 2 + uuid_len {
                    return Err(DecodeError::AuthTooShortForUuid);
                }
                assert(p.subrange(2, 2 + uuid_len) =~= data@.subrange(3, 3 + uuid_len));
                assert(p.skip(2 + uuid_len as int) =~= data@.subrange(3 + uuid_len, total as int));
                let client_uuid = if uuid_len > 0 {
                    match text_between(data, 3, 3 + uuid_len) {
                        Some(text) => Some(text),
                        None => {
                            return Err(DecodeError::UuidNotUtf8);
                        },
                    }
                } else {
                    None
                };
                match text_between(data, 3 + uuid_len, total) {
                    Some(secret) => Ok(Message::Auth { secret, client_uuid }),
                    None => Err(DecodeError::SecretNotUtf8),
                }
            },
            MSG_AUTH_OK => Ok(Message::AuthOk),
            MSG_AUTH_FAILED => {
                match text_between(data, 1, total) {
                    Some(reason) => Ok(Message::AuthFailed { reason }),
                    None => Err(DecodeError::ReasonNotUtf8),
                }
            },
            MSG_OPEN_TUNNEL => {
                if len < 7 {
                    return Err(DecodeError::OpenTunnelTooShort);
                }
                let tunnel_id: u32 = read_be(data, 1, 4) as u32;
                let remote_port: u16 = read_be(data, 5, 2) as u16;
                let code: u8 = data[7];
                assert(p[6] == code);
                match code {
                    1 => Ok(
                        Message::OpenTunnel {
                            tunnel_id,
                            remote_port,
                            protocol: TunnelProtocol::Tcp,
                        },
                    ),
                    2 => Ok(
                        Message::OpenTunnel {
                            tunnel_id,
                            remote_port,
                            protocol: TunnelProtocol::Udp,
                        },
                    ),
                    3 => Ok(
                        Message::OpenTunnel {
                            tunnel_id,
                            remote_port,
                            protocol: TunnelProtocol::Both,
                        },
                    ),
                    other => Err(DecodeError::UnknownProtocol(other)),
                }
            },
            MSG_TUNNEL_OPENED => {
                if len < 4 {
                    return Err(DecodeError::TunnelOpenedTooShort);
                }
                Ok(Message::TunnelOpened { tunnel_id: read_be(data, 1, 4) as u32 })
            },
            MSG_CLOSE_TUNNEL => {
                if len < 4 {
                    return Err(DecodeError::CloseTunnelTooShort);
                }
                Ok(Message::CloseTunnel { tunnel_id: read_be(data, 1, 4) as u32 })
            },
            MSG_NEW_CONNECTION => {
                if len < 12 {
                    return Err(DecodeError::NewConnectionTooShort);
                }
                let tunnel_id: u32 = read_be(data, 1, 4) as u32;
                let stream_id: u64 = read_be(data, 5, 8);
                let is_udp: bool = len > 12 && data[13] != 0;
                Ok(Message::NewConnection { tunnel_id, stream_id, is_udp })
            },
            MSG_PING => Ok(Message::Ping),
            MSG_PONG => Ok(Message::Pong),
            other => Err(DecodeError::UnknownMessageType(other)),
        }
    }
}

/// The bytes of a frame. The length field holds the payload's length modulo
/// 2^32.
pub open spec fn frame_bytes(f: FrameView) -> Seq<u8> {
    match f {
        FrameView::Control(m) => be_bytes(message_bytes(m).len(), 4) + be_bytes(
            CONTROL_STREAM as nat,
            8,
        ) + message_bytes(m),
        FrameView::Data { stream_id, payload } => be_bytes(payload.len(), 4) + be_bytes(
            stream_id as nat,
            8,
        ) + payload,
        FrameView::StreamClose { stream_id } => be_bytes(FRAME_TYPE_STREAM_CLOSE as nat, 4)
            + be_bytes(stream_id as nat, 8),
    }
}

/// The length field of a frame's header.
pub open spec fn header_len(b: Seq<u8>) -> u32 {
    be_value(b.subrange(0, 4)) as u32
}

/// The stream id of a frame's header.
pub open spec fn header_stream(b: Seq<u8>) -> u64 {
    be_value(b.subrange(4, 12)) as u64
}

/// How many payload bytes follow a header, or why it is refused.
pub open spec fn payload_after_header(b: Seq<u8>) -> Result<nat, FrameError> {
    if header_len(b) == FRAME_TYPE_STREAM_CLOSE {
        Ok(0)
    } else if header_len(b) > MAX_PAYLOAD_SIZE {
        Err(FrameError::TooLarge(header_len(b)))
    } else {
        Ok(header_len(b) as nat)
    }
}

/// The frame at the start of `b` and the number of bytes that it takes, or why
/// there is none.
pub open spec fn frame_at_start(b: Seq<u8>) -> Result<(FrameView, nat), FrameError> {
    if b.len() < 4 {
        Err(FrameError::LengthMissing)
    } else if b.len() < 12 {
        Err(FrameError::StreamIdMissing)
    } else if header_len(b) == FRAME_TYPE_STREAM_CLOSE {
        Ok((FrameView::StreamClose { stream_id: header_stream(b) }, 12))
    } else if header_len(b) > MAX_PAYLOAD_SIZE {
        Err(FrameError::TooLarge(header_len(b)))
    } else if b.len() < 12 + header_len(b) {
        Err(FrameError::PayloadMissing)
    } else {
        let payload = b.subrange(12, 12 + header_len(b));
        if header_stream(b) == CONTROL_STREAM {
            match message_of_bytes(payload) {
                Ok(m) => Ok((FrameView::Control(m), 12 + header_len(b) as nat)),
                Err(e) => Err(FrameError::BadMessage(e)),
            }
        } else {
            Ok(
                (
                    FrameView::Data { stream_id: header_stream(b), payload },
                    12 + header_len(b) as nat,
                ),
            )
        }
    }
}

/// How many payload bytes follow a frame header.
pub fn frame_payload_len(header: &[u8]) -> (r: Result<usize, FrameError>)
    requires
        header@.len() >= 12,
    ensures
        match r {
            Ok(n) => payload_after_header(header@) == Ok::<nat, FrameError>(n as nat),
            Err(e) => payload_after_header(header@) == Err::<nat, FrameError>(e),
        },
{
    proof {
        lemma_pow256_values();
        lemma_be_value_bound(header@.subrange(0, 4));
    }
    let len: u32 = read_be(header, 0, 4) as u32;
    if len == FRAME_TYPE_STREAM_CLOSE {
        Ok(0)
    } else if len > MAX_PAYLOAD_SIZE {
        Err(FrameError::TooLarge(len))
    } else {
        Ok(len as usize)
    }
}

/// Reads the frame at the start of `reader`. Returns it with the number of
/// bytes that it takes.
pub fn read_frame(reader: &[u8]) -> (r: Result<(Frame, usize), FrameError>)
    ensures
        match r {
            Ok((f, n)) => frame_at_start(reader@) == Ok::<(FrameView, nat), FrameError>(
                (f@, n as nat),
            ),
            Err(e) => frame_at_start(reader@) == Err::<(FrameView, nat), FrameError>(e),
        },
{
    let total: usize = reader.len();
    if total < 4 {
        return Err(FrameError::LengthMissing);
    }
    if total < 12 {
        return Err(FrameError::StreamIdMissing);
    }
    proof {
        lemma_pow256_values();
        lemma_be_value_bound(reader@.subrange(0, 4));
        lemma_be_value_bound(reader@.subrange(4, 12));
    }
    let len: u32 = read_be(reader, 0, 4) as u32;
    let stream_id: u64 = read_be(reader, 4, 8);
    if len == FRAME_TYPE_STREAM_CLOSE {
        return Ok((Frame::StreamClose { stream_id }, 12));
    }
    if len > MAX_PAYLOAD_SIZE {
        return Err(FrameError::TooLarge(len));
    }
    if total - 12 < len as usize {
        return Err(FrameError::PayloadMissing);
    }
    let end: usize = 12 + len as usize;
    let payload = slice_subrange(reader, 12, end);
    if stream_id == CONTROL_STREAM {
        match Message::decode(payload) {
            Ok(m) => Ok((Frame::Control(m), end)),
            Err(e) => Err(FrameError::BadMessage(e)),
        }
    } else {
        Ok((Frame::Data { stream_id, payload: slice_to_vec(payload) }, end))
    }
}

/// Writes a control message as a frame.
pub fn write_control(writer: &mut Vec<u8>, msg: &Message)
    ensures
        final(writer)@ == old(writer)@ + frame_bytes(FrameView::Control(msg@)),
{
    let payload = msg.encode();
    push_be(writer, payload.len() as u64, 4);
    push_be(writer, CONTROL_STREAM, 8);
    push_slice(writer, payload.as_slice());
    assert(writer@ =~= old(writer)@ + frame_bytes(FrameView::Control(msg@)));
}

/// Writes the data of one stream as a frame.
pub fn write_data(writer: &mut Vec<u8>, stream_id: u64, data: &[u8])
    ensures
        final(writer)@ == old(writer)@ + frame_bytes(
            (FrameView::Data { stream_id, payload: data@ }),
        ),
{
    push_be(writer, data.len() as u64, 4);
    push_be(writer, stream_id, 8);
    push_slice(writer, data);
    assert(writer@ =~= old(writer)@ + frame_bytes(FrameView::Data { stream_id, payload: data@ }));
}

/// Writes that a stream was closed.
pub fn write_stream_close(writer: &mut Vec<u8>, stream_id: u64)
    ensures
        final(writer)@ == old(writer)@ + frame_bytes((FrameView::StreamClose { stream_id })),
{
    push_be(writer, FRAME_TYPE_STREAM_CLOSE as u64, 4);
    push_be(writer, stream_id, 8);
    assert(writer@ =~= old(writer)@ + frame_bytes(FrameView::StreamClose { stream_id }));
}

/// Writes any frame.
pub fn write_frame(writer: &mut Vec<u8>, frame: &Frame)
    ensures
        final(writer)@ == old(writer)@ + frame_bytes(frame@),
{
    match frame {
        Frame::Control(msg) => write_control(writer, msg),
        Frame::Data { stream_id, payload } => write_data(writer, *stream_id, payload.as_slice()),
        Frame::StreamClose { stream_id } => write_stream_close(writer, *stream_id),
    }
}

} // verus!
