//! What holds of the protocol as a whole: what is written is what is read.

use vstd::prelude::*;
use vstd::utf8::*;
use crate::protocol::{frame_at_start, frame_bytes, header_len, header_stream, message_body,
    message_bytes, message_code, message_of_bytes, payload_after_header, protocol_code, uuid_bytes,
    DecodeError, FrameError, FrameView, MessageView, CONTROL_STREAM, FRAME_TYPE_STREAM_CLOSE,
    MAX_PAYLOAD_SIZE};
use crate::wire::{be_bytes, be_value, lemma_be_bytes_len, lemma_be_roundtrip, lemma_be_value_bound,
    lemma_pow256_values};

verus! {

/// A message whose client UUID, where it has one, is neither empty nor longer
/// than its 16-bit length field can say.
pub open spec fn encodable(m: MessageView) -> bool {
    match m {
        MessageView::Auth { secret, client_uuid } => match client_uuid {
            Some(u) => 0 < encode_utf8(u).len() < 65536,
            None => true,
        },
        _ => true,
    }
}

/// A frame that a reader on the other side takes: its payload is within the
/// limit, data is not on the control stream, and its message is encodable.
pub open spec fn sendable(f: FrameView) -> bool {
    match f {
        FrameView::Control(m) => encodable(m) && message_bytes(m).len() <= MAX_PAYLOAD_SIZE,
        FrameView::Data { stream_id, payload } => stream_id != CONTROL_STREAM && payload.len()
            <= MAX_PAYLOAD_SIZE,
        FrameView::StreamClose { .. } => true,
    }
}

/// Decoding the bytes of an encodable message gives the message.
pub proof fn law_decode_inverts_encode(m: MessageView)
    requires
        encodable(m),
    ensures
        message_of_bytes(message_bytes(m)) == Ok::<MessageView, DecodeError>(m),
{
    let data = message_bytes(m);
    let p = data.skip(1);
    lemma_pow256_values();
    assert(p =~= message_body(m));
    assert(data[0] == message_code(m));
    match m {
        MessageView::Auth { secret, client_uuid } => {
            let u = uuid_bytes(client_uuid);
            let n = u.len();
            lemma_be_bytes_len(n, 2);
            lemma_be_roundtrip(n, 2);
            assert(p.subrange(0, 2) =~= be_bytes(n, 2));
            assert(p.subrange(2, 2 + n as int) =~= u);
            assert(p.skip(2 + n as int) =~= encode_utf8(secret));
            encode_utf8_valid_utf8(secret);
            encode_utf8_decode_utf8(secret);
            if let Some(t) = client_uuid {
                encode_utf8_valid_utf8(t);
                encode_utf8_decode_utf8(t);
            }
        },
        MessageView::AuthFailed { reason } => {
            encode_utf8_valid_utf8(reason);
            encode_utf8_decode_utf8(reason);
        },
        MessageView::OpenTunnel { tunnel_id, remote_port, protocol } => {
            lemma_be_bytes_len(tunnel_id as nat, 4);
            lemma_be_roundtrip(tunnel_id as nat, 4);
            lemma_be_bytes_len(remote_port as nat, 2);
            lemma_be_roundtrip(remote_port as nat, 2);
            assert(p.subrange(0, 4) =~= be_bytes(tunnel_id as nat, 4));
            assert(p.subrange(4, 6) =~= be_bytes(remote_port as nat, 2));
            assert(p[6] == protocol_code(protocol));
        },
        MessageView::TunnelOpened { tunnel_id } => {
            lemma_be_bytes_len(tunnel_id as nat, 4);
            lemma_be_roundtrip(tunnel_id as nat, 4);
            assert(p.subrange(0, 4) =~= be_bytes(tunnel_id as nat, 4));
        },
        MessageView::CloseTunnel { tunnel_id } => {
            lemma_be_bytes_len(tunnel_id as nat, 4);
            lemma_be_roundtrip(tunnel_id as nat, 4);
            assert(p.subrange(0, 4) =~= be_bytes(tunnel_id as nat, 4));
        },
        MessageView::NewConnection { tunnel_id, stream_id, is_udp } => {
            lemma_be_bytes_len(tunnel_id as nat, 4);
            lemma_be_roundtrip(tunnel_id as nat, 4);
            lemma_be_bytes_len(stream_id as nat, 8);
            lemma_be_roundtrip(stream_id as nat, 8);
            assert(p.subrange(0, 4) =~= be_bytes(tunnel_id as nat, 4));
            assert(p.subrange(4, 12) =~= be_bytes(stream_id as nat, 8));
        },
        _ => {},
    }
}

/// Two encodable messages with the same bytes are the same message.
pub proof fn law_encode_is_injective(a: MessageView, b: MessageView)
    requires
        encodable(a),
        encodable(b),
        message_bytes(a) == message_bytes(b),
    ensures
        a == b,
{
    law_decode_inverts_encode(a);
    law_decode_inverts_encode(b);
}

/// Whatever decodes can be sent on: it is encodable, and decoding it again
/// gives the same message.
pub proof fn law_decoded_is_encodable(data: Seq<u8>, m: MessageView)
    requires
        message_of_bytes(data) == Ok::<MessageView, DecodeError>(m),
    ensures
        encodable(m),
        message_of_bytes(message_bytes(m)) == Ok::<MessageView, DecodeError>(m),
{
    let p = data.skip(1);
    if let MessageView::Auth { secret, client_uuid } = m {
        if let Some(u) = client_uuid {
            let n = be_value(p.subrange(0, 2)) as int;
            lemma_pow256_values();
            lemma_be_value_bound(p.subrange(0, 2));
            let b = p.subrange(2, 2 + n);
            decode_utf8_encode_utf8(b);
            assert(encode_utf8(u) == b);
        }
    }
    law_decode_inverts_encode(m);
}

/// A `NewConnection` without its last byte, as older peers send it, is one that
/// is not UDP.
pub proof fn law_short_new_connection_is_tcp(tunnel_id: u32, stream_id: u64)
    ensures
        message_of_bytes(
            seq![7u8] + be_bytes(tunnel_id as nat, 4) + be_bytes(stream_id as nat, 8),
        ) == Ok::<MessageView, DecodeError>(
            (MessageView::NewConnection { tunnel_id, stream_id, is_udp: false }),
        ),
{
    let data = seq![7u8] + be_bytes(tunnel_id as nat, 4) + be_bytes(stream_id as nat, 8);
    let p = data.skip(1);
    lemma_pow256_values();
    lemma_be_bytes_len(tunnel_id as nat, 4);
    lemma_be_roundtrip(tunnel_id as nat, 4);
    lemma_be_bytes_len(stream_id as nat, 8);
    lemma_be_roundtrip(stream_id as nat, 8);
    assert(p.subrange(0, 4) =~= be_bytes(tunnel_id as nat, 4));
    assert(p.subrange(4, 12) =~= be_bytes(stream_id as nat, 8));
}

/// The header of a written frame.
proof fn lemma_written_header(len: nat, stream_id: u64, payload: Seq<u8>, rest: Seq<u8>)
    requires
        len < 4294967296,
    ensures
        ({
            let b = be_bytes(len, 4) + be_bytes(stream_id as nat, 8) + payload + rest;
            &&& b.len() == 12 + payload.len() + rest.len()
            &&& header_len(b) == len
            &&& header_stream(b) == stream_id
            &&& b.subrange(12, 12 + payload.len() as int) == payload
        }),
{
    let b = be_bytes(len, 4) + be_bytes(stream_id as nat, 8) + payload + rest;
    lemma_pow256_values();
    lemma_be_bytes_len(len, 4);
    lemma_be_roundtrip(len, 4);
    lemma_be_bytes_len(stream_id as nat, 8);
    lemma_be_roundtrip(stream_id as nat, 8);
    assert(b.subrange(0, 4) =~= be_bytes(len, 4));
    assert(b.subrange(4, 12) =~= be_bytes(stream_id as nat, 8));
    assert(b.subrange(12, 12 + payload.len() as int) =~= payload);
}

/// Reading what was written gives the frame that was written, and takes exactly
/// its bytes, whatever follows.
pub proof fn law_read_inverts_write(f: FrameView, rest: Seq<u8>)
    requires
        sendable(f),
    ensures
        frame_at_start(frame_bytes(f) + rest) == Ok::<(FrameView, nat), FrameError>(
            (f, frame_bytes(f).len()),
        ),
{
    match f {
        FrameView::Control(m) => {
            let payload = message_bytes(m);
            lemma_written_header(payload.len(), CONTROL_STREAM, payload, rest);
            lemma_be_bytes_len(payload.len(), 4);
            lemma_be_bytes_len(CONTROL_STREAM as nat, 8);
            law_decode_inverts_encode(m);
        },
        FrameView::Data { stream_id, payload } => {
            lemma_written_header(payload.len(), stream_id, payload, rest);
            lemma_be_bytes_len(payload.len(), 4);
            lemma_be_bytes_len(stream_id as nat, 8);
        },
        FrameView::StreamClose { stream_id } => {
            let none = Seq::<u8>::empty();
            lemma_written_header(FRAME_TYPE_STREAM_CLOSE as nat, stream_id, none, rest);
            lemma_be_bytes_len(FRAME_TYPE_STREAM_CLOSE as nat, 4);
            lemma_be_bytes_len(stream_id as nat, 8);
            assert(frame_bytes(f) + rest =~= be_bytes(FRAME_TYPE_STREAM_CLOSE as nat, 4)
                + be_bytes(stream_id as nat, 8) + none + rest);
        },
    }
}

/// The bytes of a sequence of frames, written one after the other.
pub open spec fn all_frame_bytes(fs: Seq<FrameView>) -> Seq<u8>
    decreases fs.len(),
{
    if fs.len() == 0 {
        Seq::empty()
    } else {
        frame_bytes(fs[0]) + all_frame_bytes(fs.drop_first())
    }
}

/// The frames that successive reads of `b` give, as long as they succeed, up to
/// `n` of them.
pub open spec fn frames_read(b: Seq<u8>, n: nat) -> Seq<FrameView>
    decreases n,
{
    if n == 0 {
        Seq::empty()
    } else {
        match frame_at_start(b) {
            Ok((f, taken)) => seq![f] + frames_read(b.skip(taken as int), (n - 1) as nat),
            Err(_) => Seq::empty(),
        }
    }
}

/// A peer that reads frame after frame gets the frames that were written, in
/// order, and nothing else.
pub proof fn law_stream_of_frames_reads_back(fs: Seq<FrameView>, extra: nat)
    requires
        forall|i: int| 0 <= i < fs.len() ==> sendable(#[trigger] fs[i]),
    ensures
        frames_read(all_frame_bytes(fs), fs.len() + extra) == fs,
    decreases fs.len(),
{
    let b = all_frame_bytes(fs);
    if fs.len() == 0 {
        assert(frames_read(b, extra) =~= fs);
    } else {
        let rest = all_frame_bytes(fs.drop_first());
        assert(sendable(fs[0]));
        law_read_inverts_write(fs[0], rest);
        assert(b.skip(frame_bytes(fs[0]).len() as int) =~= rest);
        assert forall|i: int| 0 <= i < fs.drop_first().len() implies sendable(
            #[trigger] fs.drop_first()[i],
        ) by {
            assert(sendable(fs[i + 1]));
        }
        law_stream_of_frames_reads_back(fs.drop_first(), extra);
        assert(seq![fs[0]] + fs.drop_first() =~= fs);
    }
}

/// A reader that has only part of a frame reports what is missing; it never
/// takes the part for a frame.
pub proof fn law_partial_frame_is_refused(f: FrameView, k: int)
    requires
        sendable(f),
        0 <= k < frame_bytes(f).len(),
    ensures
        frame_at_start(frame_bytes(f).take(k)) == Err::<(FrameView, nat), FrameError>(
            if k < 4 {
                FrameError::LengthMissing
            } else if k < 12 {
                FrameError::StreamIdMissing
            } else {
                FrameError::PayloadMissing
            },
        ),
{
    let whole = frame_bytes(f);
    let part = whole.take(k);
    law_read_inverts_write(f, Seq::empty());
    assert(whole + Seq::<u8>::empty() =~= whole);
    if k >= 12 {
        assert(part.subrange(0, 4) =~= whole.subrange(0, 4));
        assert(part.subrange(4, 12) =~= whole.subrange(4, 12));
    }
}

/// The header alone says how long a frame is.
pub proof fn law_header_tells_frame_length(b: Seq<u8>)
    requires
        b.len() >= 12,
        frame_at_start(b) is Ok,
    ensures
        payload_after_header(b.take(12)) == Ok::<nat, FrameError>(
            (frame_at_start(b)->Ok_0.1 - 12) as nat,
        ),
{
    assert(b.take(12).subrange(0, 4) =~= b.subrange(0, 4));
}

} // verus!
