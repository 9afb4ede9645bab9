//! What holds from one end of a tunnel to the other, over the wire.

use vstd::prelude::*;
use crate::auth::{auth_reply, auth_answer, auth_verdict, AuthVerdict, FirstFrame, NANOS_PER_SEC,
    PRE_AUTH_TTL_SECS};
use crate::client::{client_frame_step, ClientAction, ClientView};
use crate::protocol::{frame_at_start, frame_bytes, Frame, FrameView, MessageView};
use crate::protocol_laws::{law_read_inverts_write, sendable};
use crate::registry::ConnRecord;
use crate::server::{frame_step, FrameAction, ServerView};
use crate::stats::StatsView;

verus! {

/// `f` is the frame that a reader takes from what a writer wrote, whatever
/// follows.
pub open spec fn received(written: FrameView, rest: Seq<u8>, f: FrameView) -> bool {
    frame_at_start(frame_bytes(written) + rest) matches Ok(r) && r.0 == f
}

/// A client that knows the secret, and whose announcement still counts, is let in
/// by what it sends.
pub proof fn law_announced_client_is_let_in(
    secret: Seq<char>,
    uuid: Seq<char>,
    cache: Map<Seq<char>, u64>,
    granted: u64,
    now: u64,
    rest: Seq<u8>,
    first: Frame,
)
    requires
        sendable(
            FrameView::Control(MessageView::Auth { secret, client_uuid: Some(uuid) }),
        ),
        received(
            FrameView::Control(MessageView::Auth { secret, client_uuid: Some(uuid) }),
            rest,
            first@,
        ),
        now < granted + PRE_AUTH_TTL_SECS * NANOS_PER_SEC,
    ensures
        auth_verdict(secret, cache.insert(uuid, granted), FirstFrame::Frame(first), now)
            == AuthVerdict::Accepted,
{
    law_read_inverts_write(
        FrameView::Control(MessageView::Auth { secret, client_uuid: Some(uuid) }),
        rest,
    );
}

/// The client hears what the server decided: it takes itself for accepted
/// exactly where the server has accepted it.
pub proof fn law_client_hears_the_verdict(v: AuthVerdict, rest: Seq<u8>, f: FrameView)
    requires
        auth_reply(v) is Some,
        sendable(FrameView::Control(auth_reply(v)->Some_0)),
        received(FrameView::Control(auth_reply(v)->Some_0), rest, f),
    ensures
        auth_answer(f).0 <==> v == AuthVerdict::Accepted,
{
    law_read_inverts_write(FrameView::Control(auth_reply(v)->Some_0), rest);
}

/// What a player sends reaches the local end of the stream, byte for byte.
pub proof fn law_player_data_reaches_local_end(
    stream_id: u64,
    payload: Seq<u8>,
    rest: Seq<u8>,
    f: FrameView,
    pre: ClientView,
    pre_stats: StatsView,
    post: ClientView,
    post_stats: StatsView,
    action: ClientAction,
)
    requires
        sendable(FrameView::Data { stream_id, payload }),
        received(FrameView::Data { stream_id, payload }, rest, f),
        pre.streams.contains(stream_id),
        client_frame_step(pre, pre_stats, f, post, post_stats, action),
    ensures
        action matches ClientAction::ToLocal { stream_id: s, payload: p } && s == stream_id && p@
            == payload,
        post == pre,
{
    law_read_inverts_write(FrameView::Data { stream_id, payload }, rest);
}

/// What the local end sends reaches the player, byte for byte: over the TCP
/// connection of the stream, or at the UDP address of the stream.
pub proof fn law_local_data_reaches_player(
    stream_id: u64,
    payload: Seq<u8>,
    rest: Seq<u8>,
    f: FrameView,
    pre: ServerView,
    pre_reg: Map<u64, ConnRecord>,
    db_id: u32,
    post: ServerView,
    post_reg: Map<u64, ConnRecord>,
    action: FrameAction,
)
    requires
        sendable(FrameView::Data { stream_id, payload }),
        received(FrameView::Data { stream_id, payload }, rest, f),
        frame_step(pre, pre_reg, f, db_id, post, post_reg, action),
    ensures
        pre.streams.contains(stream_id) ==> (action matches FrameAction::ToPlayer {
            stream_id: s,
            payload: p,
        } && s == stream_id && p@ == payload),
        !pre.streams.contains(stream_id) && pre.udp_peers.contains_key(stream_id) ==> (
        action matches FrameAction::ToPeer { peer, payload: p } && peer
            == pre.udp_peers[stream_id] && p@ == payload),
        post == pre,
{
    law_read_inverts_write(FrameView::Data { stream_id, payload }, rest);
}

} // verus!
