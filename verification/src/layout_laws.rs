//! Where each byte of a message and of a frame stands.

use vstd::prelude::*;
use vstd::utf8::*;
use vstd::string::*;
use crate::config::Protocol;
use crate::protocol::{decode_error_text, frame_at_start, frame_bytes, frame_error_text,
    message_bytes, message_of_bytes, payload_after_header, protocol_code, protocol_of_code,
    protocol_on_wire, DecodeError, Frame, FrameError, FrameView, Message, MessageView,
    TunnelProtocol};
use crate::text::decimal_text;
use crate::wire::{be_bytes, be_value, lemma_be_bytes_len, pow256};

verus! {

/// A number is written with its most significant byte first.
pub proof fn law_bytes_stand_most_significant_first(x: nat, n: nat, i: int)
    requires
        0 <= i < n,
    ensures
        be_bytes(x, n).len() == n,
        be_bytes(x, n)[i] as nat == (x / pow256((n - 1 - i) as nat)) % 256,
    decreases n,
{
    lemma_be_bytes_len(x, n);
    lemma_be_bytes_len(x / 256, (n - 1) as nat);
    if i < n - 1 {
        law_bytes_stand_most_significant_first(x / 256, (n - 1) as nat, i);
        let m = (n - 2 - i) as nat;
        let p = pow256(m);
        assert(pow256((m + 1) as nat) == 256 * p);
        lemma_pow256_positive(m);
        assert((x / 256) / p == x / (256 * p)) by (nonlinear_arith)
            requires
                p > 0,
        ;
    } else {
        assert(pow256(0) == 1);
        assert(x / 1 == x);
    }
}

proof fn lemma_pow256_positive(n: nat)
    ensures
        pow256(n) > 0,
    decreases n,
{
    if n > 0 {
        lemma_pow256_positive((n - 1) as nat);
    }
}

/// The first byte tells the message, and what follows is in this order: of an `Auth` the
/// length of the UUID in two bytes, the UUID and the secret; of a refusal the reason; of
/// a request for a tunnel its id in four bytes, the port in two and the transport in
/// one; of an announcement the tunnel in four bytes, the stream in eight and the
/// transport in one.
pub proof fn law_messages_have_this_layout(m: MessageView)
    ensures
        message_bytes(m) == (match m {
            MessageView::Auth { secret, client_uuid: Some(u) } => seq![1u8] + be_bytes(
                encode_utf8(u).len(),
                2,
            ) + encode_utf8(u) + encode_utf8(secret),
            MessageView::Auth { secret, client_uuid: None } => seq![1u8] + be_bytes(0, 2)
                + encode_utf8(secret),
            MessageView::AuthOk => seq![2u8],
            MessageView::AuthFailed { reason } => seq![3u8] + encode_utf8(reason),
            MessageView::OpenTunnel { tunnel_id, remote_port, protocol } => seq![4u8] + be_bytes(
                tunnel_id as nat,
                4,
            ) + be_bytes(remote_port as nat, 2) + seq![
                match protocol {
                    TunnelProtocol::Tcp => 1u8,
                    TunnelProtocol::Udp => 2u8,
                    TunnelProtocol::Both => 3u8,
                },
            ],
            MessageView::TunnelOpened { tunnel_id } => seq![5u8] + be_bytes(tunnel_id as nat, 4),
            MessageView::CloseTunnel { tunnel_id } => seq![6u8] + be_bytes(tunnel_id as nat, 4),
            MessageView::NewConnection { tunnel_id, stream_id, is_udp } => seq![7u8] + be_bytes(
                tunnel_id as nat,
                4,
            ) + be_bytes(stream_id as nat, 8) + seq![
                if is_udp {
                    1u8
                } else {
                    0u8
                },
            ],
            MessageView::Ping => seq![9u8],
            MessageView::Pong => seq![10u8],
        }),
{
    match m {
        MessageView::Auth { secret, client_uuid: Some(u) } => {
            assert(message_bytes(m) =~= seq![1u8] + be_bytes(encode_utf8(u).len(), 2)
                + encode_utf8(u) + encode_utf8(secret));
        },
        MessageView::Auth { secret, client_uuid: None } => {
            assert(message_bytes(m) =~= seq![1u8] + be_bytes(0, 2) + encode_utf8(secret));
        },
        MessageView::AuthOk => {
            assert(message_bytes(m) =~= seq![2u8]);
        },
        MessageView::OpenTunnel { tunnel_id, remote_port, protocol } => {
            assert(message_bytes(m) =~= seq![4u8] + be_bytes(tunnel_id as nat, 4) + be_bytes(
                remote_port as nat,
                2,
            ) + seq![protocol_code(protocol)]);
        },
        MessageView::NewConnection { tunnel_id, stream_id, is_udp } => {
            assert(message_bytes(m) =~= seq![7u8] + be_bytes(tunnel_id as nat, 4) + be_bytes(
                stream_id as nat,
                8,
            ) + seq![
                if is_udp {
                    1u8
                } else {
                    0u8
                },
            ]);
        },
        MessageView::Ping => {
            assert(message_bytes(m) =~= seq![9u8]);
        },
        MessageView::Pong => {
            assert(message_bytes(m) =~= seq![10u8]);
        },
        _ => {},
    }
}

/// A frame begins with the length of its payload in four bytes and its stream in eight;
/// then the payload follows. A control message is on stream 0. A closed stream has the
/// largest length there is, and no payload.
pub proof fn law_frames_have_this_layout(f: FrameView)
    ensures
        frame_bytes(f) == (match f {
            FrameView::Control(m) => be_bytes(message_bytes(m).len(), 4) + be_bytes(0, 8)
                + message_bytes(m),
            FrameView::Data { stream_id, payload } => be_bytes(payload.len(), 4) + be_bytes(
                stream_id as nat,
                8,
            ) + payload,
            FrameView::StreamClose { stream_id } => be_bytes(4294967295, 4) + be_bytes(
                stream_id as nat,
                8,
            ),
        }),
{
}

/// A transport is written as a byte and read back; every other byte is refused.
pub proof fn law_transports_have_their_bytes(p: TunnelProtocol, b: u8)
    ensures
        protocol_of_code(protocol_code(p)) == Some(p),
        protocol_of_code(b) is Some <==> 1 <= b <= 3,
        protocol_of_code(b) matches Some(q) ==> protocol_code(q) == b,
        protocol_code(TunnelProtocol::Tcp) == 1,
        protocol_code(TunnelProtocol::Udp) == 2,
{
}

/// A configured transport keeps its name on the wire.
pub proof fn law_configured_transport_goes_on_the_wire(p: Protocol)
    ensures
        protocol_on_wire(p) is Tcp <==> p is Tcp,
        protocol_on_wire(p) is Udp <==> p is Udp,
        protocol_on_wire(p) is Both <==> p is Both,
{
}

/// What is no message is refused for the reason that holds: nothing at all, a body that
/// is too short for its kind, text that is no text, an unknown transport or an unknown
/// kind. Nothing else is refused.
pub proof fn law_messages_are_refused_with_reason(data: Seq<u8>)
    ensures
        ({
            let r = message_of_bytes(data);
            let n = data.len();
            let kind = data[0];
            let uuid_len = be_value(data.skip(1).subrange(0, 2));
            &&& n == 0 ==> r == Err::<MessageView, DecodeError>(DecodeError::Empty)
            &&& n > 0 && kind == 1 && n < 3 ==> r == Err::<MessageView, DecodeError>(
                DecodeError::AuthTooShort,
            )
            &&& n >= 3 && kind == 1 && n < 3 + uuid_len ==> r == Err::<MessageView, DecodeError>(
                DecodeError::AuthTooShortForUuid,
            )
            &&& n > 0 && kind == 3 ==> (r is Ok <==> valid_utf8(data.skip(1)))
            &&& n > 0 && kind == 4 && n < 8 ==> r == Err::<MessageView, DecodeError>(
                DecodeError::OpenTunnelTooShort,
            )
            &&& n >= 8 && kind == 4 ==> (r is Ok <==> 1 <= data[7] <= 3)
            &&& n >= 8 && kind == 4 && !(1 <= data[7] <= 3) ==> r == Err::<MessageView, DecodeError>(
                DecodeError::UnknownProtocol(data[7]),
            )
            &&& n > 0 && kind == 5 ==> (r is Ok <==> n >= 5)
            &&& n > 0 && kind == 6 ==> (r is Ok <==> n >= 5)
            &&& n > 0 && kind == 7 ==> (r is Ok <==> n >= 13)
            &&& n > 0 && (kind == 2 || kind == 9 || kind == 10) ==> r is Ok
            &&& n > 0 && (kind == 0 || kind == 8 || kind > 10) ==> r == Err::<
                MessageView,
                DecodeError,
            >(DecodeError::UnknownMessageType(kind))
        }),
{
}

/// A frame is refused for the reason that holds: the length or the stream is missing, the
/// payload is larger than a megabyte, or part of it is missing. What is left is read: a
/// message on stream 0, and data as it is on every other.
pub proof fn law_frames_are_refused_with_reason(b: Seq<u8>)
    ensures
        ({
            let r = frame_at_start(b);
            let len = be_value(b.subrange(0, 4)) as u32;
            let stream = be_value(b.subrange(4, 12)) as u64;
            &&& b.len() < 4 ==> r == Err::<(FrameView, nat), FrameError>(FrameError::LengthMissing)
            &&& 4 <= b.len() < 12 ==> r == Err::<(FrameView, nat), FrameError>(
                FrameError::StreamIdMissing,
            )
            &&& b.len() >= 12 && len == 4294967295 ==> r == Ok::<(FrameView, nat), FrameError>(
                (FrameView::StreamClose { stream_id: stream }, 12),
            )
            &&& b.len() >= 12 && 1048576 < len < 4294967295 ==> r == Err::<
                (FrameView, nat),
                FrameError,
            >(FrameError::TooLarge(len)) && payload_after_header(b) == Err::<nat, FrameError>(
                FrameError::TooLarge(len),
            )
            &&& 12 <= b.len() < 12 + len && len <= 1048576 ==> r == Err::<
                (FrameView, nat),
                FrameError,
            >(FrameError::PayloadMissing)
            &&& b.len() >= 12 + len && len <= 1048576 && stream != 0 ==> r == Ok::<
                (FrameView, nat),
                FrameError,
            >(
                (
                    FrameView::Data { stream_id: stream, payload: b.subrange(12, 12 + len) },
                    12 + len as nat,
                ),
            )
            &&& b.len() >= 12 + len && len <= 1048576 && stream == 0 ==> match message_of_bytes(
                b.subrange(12, 12 + len),
            ) {
                Ok(m) => r == Ok::<(FrameView, nat), FrameError>(
                    (FrameView::Control(m), 12 + len as nat),
                ),
                Err(e) => r == Err::<(FrameView, nat), FrameError>(FrameError::BadMessage(e)),
            }
            &&& len <= 1048576 ==> payload_after_header(b) == Ok::<nat, FrameError>(len as nat)
            &&& len == 4294967295 ==> payload_after_header(b) == Ok::<nat, FrameError>(0)
        }),
{
}

/// What bytes say is read from where it stands, whatever follows: of a request for a
/// tunnel the id, the port and the transport; of an announcement the tunnel, the stream
/// and, where there is one more byte, the transport; of the others the tunnel.
pub proof fn law_messages_are_read_by_position(data: Seq<u8>, m: MessageView)
    requires
        message_of_bytes(data) == Ok::<MessageView, DecodeError>(m),
    ensures
        data.len() > 0,
        data[0] == 1 <==> m is Auth,
        data[0] == 2 <==> m is AuthOk,
        data[0] == 3 <==> m is AuthFailed,
        data[0] == 4 <==> m is OpenTunnel,
        data[0] == 5 <==> m is TunnelOpened,
        data[0] == 6 <==> m is CloseTunnel,
        data[0] == 7 <==> m is NewConnection,
        data[0] == 9 <==> m is Ping,
        data[0] == 10 <==> m is Pong,
        m matches MessageView::AuthFailed { reason } ==> reason == decode_utf8(data.skip(1)),
        m matches MessageView::OpenTunnel { tunnel_id, remote_port, protocol } ==> {
            &&& tunnel_id == be_value(data.subrange(1, 5)) as u32
            &&& remote_port == be_value(data.subrange(5, 7)) as u16
            &&& protocol is Tcp <==> data[7] == 1
            &&& protocol is Udp <==> data[7] == 2
        },
        m matches MessageView::TunnelOpened { tunnel_id } ==> tunnel_id == be_value(
            data.subrange(1, 5),
        ) as u32,
        m matches MessageView::CloseTunnel { tunnel_id } ==> tunnel_id == be_value(
            data.subrange(1, 5),
        ) as u32,
        m matches MessageView::NewConnection { tunnel_id, stream_id, is_udp } ==> {
            &&& tunnel_id == be_value(data.subrange(1, 5)) as u32
            &&& stream_id == be_value(data.subrange(5, 13)) as u64
            &&& is_udp <==> data.len() > 13 && data[13] != 0
        },
{
    let p = data.skip(1);
    if p.len() >= 4 {
        assert(p.subrange(0, 4) =~= data.subrange(1, 5));
    }
    if p.len() >= 6 {
        assert(p.subrange(4, 6) =~= data.subrange(5, 7));
    }
    if p.len() >= 12 {
        assert(p.subrange(4, 12) =~= data.subrange(5, 13));
    }
}

/// An `Auth` is read as a length, a UUID of that length where it is not zero, and the
/// secret, which is all that follows; both have to be text, the UUID first.
pub proof fn law_auth_is_read_by_position(data: Seq<u8>)
    requires
        data.len() >= 3,
        data[0] == 1,
        data.len() >= 3 + be_value(data.subrange(1, 3)),
    ensures
        ({
            let n = be_value(data.subrange(1, 3)) as int;
            let uuid = data.subrange(3, 3 + n);
            let secret = data.skip(3 + n);
            let r = message_of_bytes(data);
            &&& n > 0 && !valid_utf8(uuid) ==> r == Err::<MessageView, DecodeError>(
                DecodeError::UuidNotUtf8,
            )
            &&& (n == 0 || valid_utf8(uuid)) && !valid_utf8(secret) ==> r == Err::<
                MessageView,
                DecodeError,
            >(DecodeError::SecretNotUtf8)
            &&& (n == 0 || valid_utf8(uuid)) && valid_utf8(secret) ==> r == Ok::<
                MessageView,
                DecodeError,
            >(
                MessageView::Auth {
                    secret: decode_utf8(secret),
                    client_uuid: if n == 0 {
                        None
                    } else {
                        Some(decode_utf8(uuid))
                    },
                },
            )
        }),
{
    let p = data.skip(1);
    let n = be_value(data.subrange(1, 3)) as int;
    assert(p.subrange(0, 2) =~= data.subrange(1, 3));
    assert(p.subrange(2, 2 + n) =~= data.subrange(3, 3 + n));
    assert(p.skip(2 + n) =~= data.skip(3 + n));
}

/// A message stands for what it holds, field by field.
pub proof fn law_messages_stand_for_their_fields(m: Message)
    ensures
        m matches Message::Auth { secret, client_uuid } ==> (m@ matches MessageView::Auth {
            secret: s,
            client_uuid: u,
        } && s == secret@ && (u is Some <==> client_uuid is Some) && (client_uuid is Some ==> u
            == Some(client_uuid->Some_0@))),
        m matches Message::AuthFailed { reason } ==> m@ == (MessageView::AuthFailed {
            reason: reason@,
        }),
        m matches Message::OpenTunnel { tunnel_id, remote_port, protocol } ==> m@ == (
        MessageView::OpenTunnel { tunnel_id, remote_port, protocol }),
        m matches Message::TunnelOpened { tunnel_id } ==> m@ == (MessageView::TunnelOpened {
            tunnel_id,
        }),
        m matches Message::CloseTunnel { tunnel_id } ==> m@ == (MessageView::CloseTunnel {
            tunnel_id,
        }),
        m matches Message::NewConnection { tunnel_id, stream_id, is_udp } ==> m@ == (
        MessageView::NewConnection { tunnel_id, stream_id, is_udp }),
        m is AuthOk <==> m@ is AuthOk,
        m is Ping <==> m@ is Ping,
        m is Pong <==> m@ is Pong,
{
}

/// A frame stands for what it holds, field by field.
pub proof fn law_frames_stand_for_their_fields(f: Frame)
    ensures
        f matches Frame::Control(m) ==> f@ == FrameView::Control(m@),
        f matches Frame::Data { stream_id, payload } ==> f@ == (FrameView::Data {
            stream_id,
            payload: payload@,
        }),
        f matches Frame::StreamClose { stream_id } ==> f@ == (FrameView::StreamClose { stream_id }),
{
}

/// Every refusal of bytes is told in words of its own, with the byte or the length that
/// was refused.
pub proof fn law_refused_bytes_have_their_words(e: DecodeError, f: FrameError)
    ensures
        decode_error_text(e) == (match e {
            DecodeError::Empty => "empty control message"@,
            DecodeError::AuthTooShort => "Auth payload too short"@,
            DecodeError::AuthTooShortForUuid => "Auth payload too short for UUID"@,
            DecodeError::UuidNotUtf8 => "invalid UTF-8 in client_uuid"@,
            DecodeError::SecretNotUtf8 => "invalid UTF-8 in secret"@,
            DecodeError::ReasonNotUtf8 => "invalid UTF-8 in auth fail"@,
            DecodeError::OpenTunnelTooShort => "OpenTunnel too short"@,
            DecodeError::UnknownProtocol(b) => "unknown protocol: "@ + decimal_text(b as nat),
            DecodeError::TunnelOpenedTooShort => "TunnelOpened too short"@,
            DecodeError::CloseTunnelTooShort => "CloseTunnel too short"@,
            DecodeError::NewConnectionTooShort => "NewConnection too short"@,
            DecodeError::UnknownMessageType(b) => "unknown control message type: "@ + decimal_text(
                b as nat,
            ),
        }),
        f is LengthMissing ==> frame_error_text(f) == "failed to read frame length"@,
        f is StreamIdMissing ==> frame_error_text(f) == "failed to read stream_id"@,
        f is PayloadMissing ==> frame_error_text(f) == "failed to read frame payload"@,
        f matches FrameError::TooLarge(n) ==> frame_error_text(f) == "frame too large: "@
            + decimal_text(n as nat) + " bytes"@,
        f matches FrameError::BadMessage(d) ==> frame_error_text(f) == decode_error_text(d),
{
}

} // verus!
