//! The session: the decisions taken over one connection. It allocates stream
//! ids, accepts streams the remote opens, forwards frames to their streams,
//! answers pings, and tracks go-away notices. The connection itself is driven
//! from outside: frames read from it are handed to `handle_frame`, frames to
//! write are taken with `take_frame_to_send`, and stream events with
//! `poll_event` and `handle_event`.
use vstd::prelude::*;
use std::collections::{BTreeMap, VecDeque};
use crossbeam_channel::Sender;
use fnv::{FnvHashMap, FnvHashSet};

use crate::channels::{bounded, ChanReceiver, ChanSender, TryRecv};
use crate::config::{Config, ConfigView};
use crate::error::Error;
use crate::fnv_maps;
use crate::frame::{
    ack_bit, bits_have, frame_view, rst_bit, syn_bit, Flag, Flags, Frame, FrameView, GoAwayCode,
    Type,
};
use crate::stream::{
    flags_step, window_ok, window_update_view, EventView, Stream, StreamEvent, StreamState, StreamView,
};
use crate::StreamId;

verus! {

broadcast use vstd::laws_cmp::group_laws_cmp;

/// Which end of the connection a session is: clients open odd stream ids,
/// servers even ones.
#[derive(Debug, Clone, Copy, PartialEq, Eq, Structural)]
pub enum SessionType {
    Client,
    Server,
}

/// A session as values. `streams` holds the ids of the streams the session
/// forwards frames to; ping times are in milliseconds.
#[verifier::ext_equal]
pub struct SessionView {
    pub eof: bool,
    pub shutdown: bool,
    pub remote_go_away: bool,
    pub local_go_away: bool,
    pub next_stream_id: StreamId,
    pub ty: SessionType,
    pub config: ConfigView,
    pub pings: Map<u32, u64>,
    pub ping_id: u32,
    pub last_ping_at: Option<u64>,
    pub streams: Set<StreamId>,
    pub inflight: Set<StreamId>,
    pub pending_streams: Seq<StreamView>,
    pub pending_frames: Seq<FrameView>,
}

// ------------------------------------------------------------ the model

/// The first stream id a session hands out: 1 for a client, 2 for a server.
pub open spec fn first_stream_id(ty: SessionType) -> StreamId {
    match ty {
        SessionType::Client => 1,
        SessionType::Server => 2,
    }
}

/// A new session: alive, no stream, no ping, nothing queued.
pub open spec fn initial_view(config: ConfigView, ty: SessionType) -> SessionView {
    SessionView {
        eof: false,
        shutdown: false,
        remote_go_away: false,
        local_go_away: false,
        next_stream_id: first_stream_id(ty),
        ty,
        config,
        pings: Map::empty(),
        ping_id: 0,
        last_ping_at: None,
        streams: Set::empty(),
        inflight: Set::empty(),
        pending_streams: Seq::empty(),
        pending_frames: Seq::empty(),
    }
}

/// A session that was shut down or whose connection ended.
pub open spec fn is_dead(v: SessionView) -> bool {
    v.shutdown || v.eof
}

/// `v` with one more frame queued to be written.
pub open spec fn queue(v: SessionView, f: FrameView) -> SessionView {
    SessionView { pending_frames: v.pending_frames.push(f), ..v }
}

/// A go-away: no more streams are accepted, and a normal go-away frame is queued.
pub open spec fn go_away_view(v: SessionView) -> SessionView {
    queue(
        SessionView { local_go_away: true, ..v },
        frame_view(Type::GoAway, 0, 0, GoAwayCode::Normal.code()),
    )
}

/// A shutdown: the first one marks the session shut down and sends a go-away;
/// later ones do nothing.
pub open spec fn shutdown_view(v: SessionView) -> SessionView {
    if v.shutdown {
        v
    } else {
        go_away_view(SessionView { shutdown: true, ..v })
    }
}

/// A stream opened here, once it announced itself (a window update with SYN).
pub open spec fn opened_stream(id: StreamId, window: u32) -> StreamView {
    window_update_view(
        StreamView {
            id,
            state: StreamState::Init,
            max_recv_window: window,
            recv_window: window,
            send_window: window,
            buffered: Seq::empty(),
            sent: Seq::empty(),
        },
    )
}

/// A stream the remote opened, once it acknowledged (a window update with ACK).
pub open spec fn accepted_stream(id: StreamId, window: u32) -> StreamView {
    window_update_view(
        StreamView {
            id,
            state: StreamState::SynReceived,
            max_recv_window: window,
            recv_window: window,
            send_window: window,
            buffered: Seq::empty(),
            sent: Seq::empty(),
        },
    )
}

/// Opening a stream: refused once the session is dead or the remote sent a
/// go-away; otherwise the next id is taken and the stream is tracked (and in
/// flight until established).
pub open spec fn open_view(v: SessionView) -> (SessionView, Result<StreamView, Error>) {
    if is_dead(v) {
        (v, Err(Error::SessionShutdown))
    } else if v.remote_go_away {
        (v, Err(Error::RemoteGoAway))
    } else {
        let id = v.next_stream_id;
        (
            SessionView {
                next_stream_id: (id + 2) as u32,
                streams: v.streams.insert(id),
                inflight: v.inflight.insert(id),
                ..v
            },
            Ok(opened_stream(id, v.config.max_stream_window_size)),
        )
    }
}

/// Sending a ping: an answer (ACK) echoes the id it answers; a new ping (SYN)
/// takes the next ping id, wrapping at 2^32. Gives the id sent.
pub open spec fn ping_view(v: SessionView, reply_to: Option<u32>) -> (SessionView, u32) {
    match reply_to {
        Some(id) => (queue(v, frame_view(Type::Ping, ack_bit(), 0, id)), id),
        None => {
            let id = v.ping_id.wrapping_add(1);
            (queue(SessionView { ping_id: id, ..v }, frame_view(Type::Ping, syn_bit(), 0, id)), id)
        },
    }
}

/// Stream ids keep the session's parity: odd for a client, even for a server.
pub open spec fn ids_ok(v: SessionView) -> bool {
    v.next_stream_id % 2 == first_stream_id(v.ty) % 2
}

/// How the frame senders of a session end up after a frame was offered,
/// without waiting, to the sender of stream `id`, which sent on channel
/// `chan`, had been handed `log` before and had waited on `waits` sends: the
/// sender stays, with the frame recorded as taken, or it was dropped (kept in
/// `refused`), with the frame recorded as refused.
pub open spec fn forwarded(
    old_senders: Map<StreamId, ChanSender<Frame>>,
    old_refused: Seq<ChanSender<Frame>>,
    new_senders: Map<StreamId, ChanSender<Frame>>,
    new_refused: Seq<ChanSender<Frame>>,
    id: StreamId,
    chan: int,
    log: Seq<(Frame, bool)>,
    waits: nat,
    f: Frame,
) -> bool {
    if new_senders.contains_key(id) {
        &&& new_senders == old_senders.insert(id, new_senders[id])
        &&& new_senders[id].channel() == chan
        &&& new_senders[id].handed() == log.push((f, true))
        &&& new_senders[id].blocking_sends() == waits
        &&& new_refused == old_refused
    } else {
        &&& new_senders == old_senders.remove(id)
        &&& new_refused.len() == old_refused.len() + 1
        &&& new_refused.drop_last() == old_refused
        &&& new_refused.last().channel() == chan
        &&& new_refused.last().handed() == log.push((f, false))
        &&& new_refused.last().blocking_sends() == waits
    }
}

/// Whether a keep-alive ping is due at `now`: never once the session is
/// dead; at once if none was sent yet; else once the interval has passed.
pub open spec fn ping_due_view(v: SessionView, now: u64) -> bool {
    !is_dead(v) && match v.last_ping_at {
        None => true,
        Some(t) => now >= t + v.config.keepalive_interval_ms,
    }
}

/// A data or window-update frame from the remote. With SYN it opens a
/// stream, refused with RST after a local go-away, else accepted. Then the
/// frame goes to its stream's channel, if the session has a stream of that
/// id; `delivered` says whether the channel took it, and a stream whose
/// channel did not is dropped.
pub open spec fn stream_message_view(v: SessionView, f: FrameView, delivered: bool) -> SessionView {
    let id = f.header.stream_id;
    let syn = bits_have(f.header.flags, syn_bit());
    if syn && v.local_go_away {
        queue(v, frame_view(Type::WindowUpdate, rst_bit(), id, 0))
    } else {
        let w = if syn {
            SessionView {
                streams: v.streams.insert(id),
                pending_streams: v.pending_streams.push(
                    accepted_stream(id, v.config.max_stream_window_size),
                ),
                ..v
            }
        } else {
            v
        };
        if w.streams.contains(id) && !delivered {
            SessionView { streams: w.streams.remove(id), ..w }
        } else {
            w
        }
    }
}

/// A ping from the remote: SYN is answered with ACK and the same id; ACK
/// settles the ping of that id; anything else is ignored.
pub open spec fn ping_frame_view(v: SessionView, f: FrameView) -> SessionView {
    if bits_have(f.header.flags, syn_bit()) {
        ping_view(v, Some(f.header.length)).0
    } else if bits_have(f.header.flags, ack_bit()) {
        SessionView { pings: v.pings.remove(f.header.length), ..v }
    } else {
        v
    }
}

/// A go-away from the remote: a normal one stops new streams; the others
/// change nothing.
pub open spec fn go_away_frame_view(v: SessionView, f: FrameView) -> SessionView {
    if GoAwayCode::from_code(f.header.length) == GoAwayCode::Normal {
        SessionView { remote_go_away: true, ..v }
    } else {
        v
    }
}

/// What a frame from the remote does to the session.
pub open spec fn frame_step(v: SessionView, f: FrameView, delivered: bool) -> SessionView {
    match f.header.ty {
        Type::Data | Type::WindowUpdate => stream_message_view(v, f, delivered),
        Type::Ping => ping_frame_view(v, f),
        Type::GoAway => go_away_frame_view(v, f),
    }
}

/// What an event from a stream does to the session: a frame is queued, a
/// closed stream is dropped, an established one is no longer in flight.
pub open spec fn event_step(v: SessionView, e: EventView) -> SessionView {
    match e {
        EventView::SendFrame(f) => queue(v, f),
        EventView::StateChanged(id, s) => if s == StreamState::Closed {
            SessionView { streams: v.streams.remove(id), ..v }
        } else if s == StreamState::Established {
            SessionView { inflight: v.inflight.remove(id), ..v }
        } else {
            v
        },
        EventView::Flush(_) => v,
    }
}

/// Frames from the remote handled one after the other; `delivered[i]` says
/// whether the channel of its stream took the i-th.
pub open spec fn frames_view(v: SessionView, fs: Seq<FrameView>, delivered: Seq<bool>) -> SessionView
    decreases fs.len(),
{
    if fs.len() == 0 {
        v
    } else {
        frame_step(frames_view(v, fs.drop_last(), delivered.drop_last()), fs.last(), delivered.last())
    }
}

/// Whether `f` is a frame by which the remote opens a stream: data or a
/// window update, with SYN.
pub open spec fn opens_stream(f: FrameView) -> bool {
    (f.header.ty == Type::Data || f.header.ty == Type::WindowUpdate) && bits_have(
        f.header.flags,
        syn_bit(),
    )
}

/// Handing out the oldest accepted stream, if there is one.
pub open spec fn pop_view(v: SessionView) -> (SessionView, Option<StreamView>) {
    if v.pending_streams.len() == 0 {
        (v, None)
    } else {
        (
            SessionView { pending_streams: v.pending_streams.drop_first(), ..v },
            Some(v.pending_streams[0]),
        )
    }
}

/// The streams `k` successive hand-outs give, in the order they come.
pub open spec fn popped(v: SessionView, k: nat) -> Seq<StreamView>
    decreases k,
{
    if k == 0 {
        Seq::empty()
    } else {
        match pop_view(v).1 {
            Some(s) => seq![s] + popped(pop_view(v).0, (k - 1) as nat),
            None => Seq::empty(),
        }
    }
}

// ------------------------------------------------------------ laws

/// Stream ids: a client opens odd ids and a server even ones, each opened id
/// is two above the previous one, and nothing but opening a stream moves the
/// next id. (Every session keeps `ids_ok`: each of its methods ensures it.)
pub proof fn lemma_stream_ids(v: SessionView, f: FrameView, delivered: bool, e: EventView, reply_to: Option<u32>)
    requires
        ids_ok(v),
        v.next_stream_id <= u32::MAX - 2,
    ensures
        open_view(v).1 matches Ok(s) ==> {
            &&& s.id == v.next_stream_id
            &&& s.id % 2 == first_stream_id(v.ty) % 2
            &&& open_view(v).0.next_stream_id == s.id + 2
        },
        ids_ok(open_view(v).0),
        frame_step(v, f, delivered).next_stream_id == v.next_stream_id,
        event_step(v, e).next_stream_id == v.next_stream_id,
        shutdown_view(v).next_stream_id == v.next_stream_id,
        ping_view(v, reply_to).0.next_stream_id == v.next_stream_id,
{
}

/// A new client's first stream is 1, a new server's is 2.
pub proof fn lemma_first_ids(config: ConfigView)
    ensures
        open_view(initial_view(config, SessionType::Client)).1 matches Ok(s) && s.id == 1,
        open_view(initial_view(config, SessionType::Server)).1 matches Ok(s) && s.id == 2,
{
}

/// Shutting down is final: no stream can be opened afterwards, and a second
/// shutdown changes nothing. The first one queues a normal go-away behind
/// the frames already waiting; the connection has not ended, so it is
/// written (see `take_frame_to_send`).
pub proof fn lemma_shutdown_is_final(v: SessionView)
    ensures
        !v.shutdown ==> shutdown_view(v).pending_frames == v.pending_frames.push(
            frame_view(Type::GoAway, 0, 0, GoAwayCode::Normal.code()),
        ),
        shutdown_view(v).eof == v.eof,
        open_view(shutdown_view(v)) == (shutdown_view(v), Err::<StreamView, Error>(
            Error::SessionShutdown,
        )),
        shutdown_view(shutdown_view(v)) == shutdown_view(v),
{
}

/// The end of the connection is final: no stream can be opened and no
/// keep-alive ping is due afterwards.
pub proof fn lemma_end_of_connection_is_final(v: SessionView)
    ensures
        open_view(SessionView { eof: true, ..v }).1 == Err::<StreamView, Error>(Error::SessionShutdown),
        ping_due_view(SessionView { eof: true, ..v }, 0) == false,
{
}

/// After the remote's normal go-away, a live session opens no stream.
pub proof fn lemma_remote_go_away_refuses_open(v: SessionView, f: FrameView, delivered: bool)
    requires
        f.header.ty == Type::GoAway,
        f.header.length == GoAwayCode::Normal.code(),
        !is_dead(v),
    ensures
        open_view(frame_step(v, f, delivered)).1 == Err::<StreamView, Error>(Error::RemoteGoAway),
{
}

/// A ping from the remote is answered with an ACK ping of the same id,
/// queued behind the frames already waiting.
pub proof fn lemma_ping_is_echoed(v: SessionView, f: FrameView, delivered: bool)
    requires
        f.header.ty == Type::Ping,
        bits_have(f.header.flags, syn_bit()),
    ensures
        frame_step(v, f, delivered) == queue(v, frame_view(Type::Ping, ack_bit(), 0, f.header.length)),
{
}

/// An answered ping is settled: its id is no longer in flight.
pub proof fn lemma_ack_settles_ping(v: SessionView, f: FrameView, delivered: bool)
    requires
        f.header.ty == Type::Ping,
        !bits_have(f.header.flags, syn_bit()),
        bits_have(f.header.flags, ack_bit()),
    ensures
        !frame_step(v, f, delivered).pings.contains_key(f.header.length),
{
}

/// After a local go-away, a stream the remote tries to open is refused with
/// RST: no stream is accepted and the frame reaches no stream.
pub proof fn lemma_local_go_away_refuses_streams(v: SessionView, f: FrameView, delivered: bool)
    requires
        v.local_go_away,
        f.header.ty == Type::Data || f.header.ty == Type::WindowUpdate,
        bits_have(f.header.flags, syn_bit()),
    ensures
        frame_step(v, f, delivered) == queue(
            v,
            frame_view(Type::WindowUpdate, rst_bit(), f.header.stream_id, 0),
        ),
{
}

/// A stream the remote opens is accepted, acknowledged and handed out
/// later; the frame that opened it then goes to it (see `handle_frame`).
pub proof fn lemma_remote_opens_are_accepted(v: SessionView, f: FrameView, delivered: bool)
    requires
        f.header.ty == Type::Data || f.header.ty == Type::WindowUpdate,
        !v.local_go_away,
        bits_have(f.header.flags, syn_bit()),
    ensures
        frame_step(v, f, delivered).pending_streams == v.pending_streams.push(
            accepted_stream(f.header.stream_id, v.config.max_stream_window_size),
        ),
        frame_step(v, f, delivered).streams.contains(f.header.stream_id) == delivered,
{
}

/// Streams the remote opens queue up in the order their opening frames
/// came, each as accepted under the id of its frame, while no go-away was
/// sent from here.
pub proof fn lemma_accepted_streams_queue(v: SessionView, fs: Seq<FrameView>, delivered: Seq<bool>)
    requires
        !v.local_go_away,
        delivered.len() == fs.len(),
        forall|i: int| 0 <= i < fs.len() ==> opens_stream(#[trigger] fs[i]),
    ensures
        frames_view(v, fs, delivered).pending_streams == v.pending_streams + Seq::new(
            fs.len(),
            |i: int| accepted_stream(fs[i].header.stream_id, v.config.max_stream_window_size),
        ),
        !frames_view(v, fs, delivered).local_go_away,
        frames_view(v, fs, delivered).config == v.config,
    decreases fs.len(),
{
    if fs.len() > 0 {
        let gs = fs.drop_last();
        assert forall|i: int| 0 <= i < gs.len() implies opens_stream(#[trigger] gs[i]) by {
            assert(gs[i] == fs[i]);
        }
        lemma_accepted_streams_queue(v, gs, delivered.drop_last());
        assert(opens_stream(fs[fs.len() - 1]));
        let w = frames_view(v, gs, delivered.drop_last());
        assert(w.pending_streams.push(
            accepted_stream(fs.last().header.stream_id, v.config.max_stream_window_size),
        ) =~= v.pending_streams + Seq::new(
            fs.len(),
            |i: int| accepted_stream(fs[i].header.stream_id, v.config.max_stream_window_size),
        ));
    }
}

/// Accepted streams are handed out first in, first out: `k` hand-outs give
/// the `k` oldest, in order.
pub proof fn lemma_pending_streams_in_order(v: SessionView, k: nat)
    requires
        k <= v.pending_streams.len(),
    ensures
        popped(v, k) == v.pending_streams.take(k as int),
    decreases k,
{
    if k > 0 {
        let w = pop_view(v).0;
        lemma_pending_streams_in_order(w, (k - 1) as nat);
        assert(seq![v.pending_streams[0]] + w.pending_streams.take(k - 1) =~= v.pending_streams.take(
            k as int,
        ));
    }
}

/// Streams the remote opens are handed out in the order their opening
/// frames came, after those already waiting, each exactly once and under
/// the id of its frame.
pub proof fn lemma_accepted_streams_first_in_first_out(
    v: SessionView,
    fs: Seq<FrameView>,
    delivered: Seq<bool>,
)
    requires
        !v.local_go_away,
        delivered.len() == fs.len(),
        forall|i: int| 0 <= i < fs.len() ==> opens_stream(#[trigger] fs[i]),
    ensures
        ({
            let w = frames_view(v, fs, delivered);
            let out = popped(w, v.pending_streams.len() + fs.len());
            &&& out.len() == v.pending_streams.len() + fs.len()
            &&& out.take(v.pending_streams.len() as int) == v.pending_streams
            &&& forall|i: int|
                0 <= i < fs.len() ==> #[trigger] out[v.pending_streams.len() + i] == accepted_stream(
                    fs[i].header.stream_id,
                    v.config.max_stream_window_size,
                ) && out[v.pending_streams.len() + i].id == fs[i].header.stream_id
        }),
{
    lemma_accepted_streams_queue(v, fs, delivered);
    let w = frames_view(v, fs, delivered);
    let n = v.pending_streams.len() + fs.len();
    lemma_pending_streams_in_order(w, n);
    assert(w.pending_streams.take(n as int) =~= w.pending_streams);
    let out = popped(w, n);
    assert(out.take(v.pending_streams.len() as int) =~= v.pending_streams);
    assert forall|i: int| 0 <= i < fs.len() implies #[trigger] out[v.pending_streams.len() + i]
        == accepted_stream(fs[i].header.stream_id, v.config.max_stream_window_size)
        && out[v.pending_streams.len() + i].id == fs[i].header.stream_id by {
        assert(out[v.pending_streams.len() + i] == w.pending_streams[v.pending_streams.len() + i]);
    }
}

/// A stream opened here announces itself with SYN, one the remote opened
/// answers with ACK and then tells the session it is established; both
/// start on their id with nothing buffered, and with full receive and send
/// windows.
pub proof fn lemma_new_streams_announce(id: StreamId, window: u32)
    ensures
        opened_stream(id, window).state == StreamState::SynSent,
        opened_stream(id, window).sent == seq![
            EventView::SendFrame(frame_view(Type::WindowUpdate, syn_bit(), id, 0)),
        ],
        accepted_stream(id, window).state == StreamState::Established,
        accepted_stream(id, window).sent == seq![
            EventView::SendFrame(frame_view(Type::WindowUpdate, ack_bit(), id, 0)),
            EventView::StateChanged(id, StreamState::Established),
        ],
        opened_stream(id, window).recv_window == window,
        accepted_stream(id, window).recv_window == window,
        opened_stream(id, window).send_window == window,
        accepted_stream(id, window).send_window == window,
        opened_stream(id, window).max_recv_window == window,
        accepted_stream(id, window).max_recv_window == window,
        opened_stream(id, window).id == id,
        accepted_stream(id, window).id == id,
        opened_stream(id, window).buffered.len() == 0,
        accepted_stream(id, window).buffered.len() == 0,
{
    assert(opened_stream(id, window).sent =~= seq![
        EventView::SendFrame(frame_view(Type::WindowUpdate, syn_bit(), id, 0)),
    ]);
    assert(accepted_stream(id, window).sent =~= seq![
        EventView::SendFrame(frame_view(Type::WindowUpdate, ack_bit(), id, 0)),
        EventView::StateChanged(id, StreamState::Established),
    ]);
}

/// A stream opened here is in flight until it is established: opening puts
/// its id in flight; once the remote's ACK came, its next window update
/// carries the ACK on and tells the session it is established, and that
/// event takes the id out of flight.
pub proof fn lemma_opened_streams_leave_flight(v: SessionView, w: StreamView)
    requires
        w.state == StreamState::SynSent,
        window_ok(w),
    ensures
        open_view(v).1 matches Ok(s) ==> open_view(v).0.inflight.contains(s.id),
        ({
            let x = flags_step(w, ack_bit()).0;
            let y = window_update_view(x);
            &&& x.state == StreamState::SynReceived
            &&& y.state == StreamState::Established
            &&& y.sent.last() == EventView::StateChanged(w.id, StreamState::Established)
        }),
        !event_step(v, EventView::StateChanged(w.id, StreamState::Established)).inflight.contains(
            w.id,
        ),
{
    crate::frame::lemma_flag_bits_distinct(Flag::Ack, Flag::Fin);
    crate::frame::lemma_flag_bits_distinct(Flag::Ack, Flag::Rst);
    crate::frame::lemma_flag_bits_distinct(Flag::Ack, Flag::Ack);
}

/// The frames streams hand over are written in the order they came: each is
/// put at the back of the queue, behind the frames already waiting, and
/// nothing else of the session changes.
pub proof fn lemma_stream_frames_keep_their_order(v: SessionView, f: FrameView, g: FrameView)
    ensures
        event_step(v, EventView::SendFrame(f)).pending_frames == v.pending_frames.push(f),
        event_step(v, EventView::SendFrame(f)) == (SessionView {
            pending_frames: v.pending_frames.push(f),
            ..v
        }),
        event_step(event_step(v, EventView::SendFrame(f)), EventView::SendFrame(g)).pending_frames
            == v.pending_frames + seq![f, g],
{
    assert(v.pending_frames.push(f).push(g) =~= v.pending_frames + seq![f, g]);
}

// ------------------------------------------------------------ the session

/// The next stream id, and the end of the connection it belongs to.
struct StreamIds {
    next: StreamId,
    ty: SessionType,
}

impl StreamIds {
    #[verifier::type_invariant]
    closed spec fn inv(self) -> bool {
        self.next % 2 == first_stream_id(self.ty) % 2
    }
}

/// What the loop that hands out accepted streams does next, once it has
/// taken in what the connection and the streams had for it.
pub enum PollOutcome {
    /// Hand out this stream, the oldest the remote opened.
    Accepted(Stream),
    /// Nothing to hand out and nothing came in: wait to be woken.
    Park,
    /// Nothing to hand out, but something came in: go round again.
    Continue,
}

/// The state of a session over one connection.
pub struct Session {
    // Got EOF from the connection.
    eof: bool,
    // Set once the session is closed.
    shutdown: bool,
    // The remote side does not want further streams.
    remote_go_away: bool,
    // We accept no further streams.
    local_go_away: bool,
    // The next stream id we hand out; depends on client or server.
    ids: StreamIds,
    config: Config,
    // Inflight pings: id and when it was sent (milliseconds).
    pings: BTreeMap<u32, u64>,
    ping_id: u32,
    // When the last keep-alive ping was sent (milliseconds).
    last_ping_at: Option<u64>,
    // Maps a stream id to the sending end of its frame channel.
    streams: FnvHashMap<StreamId, ChanSender<Frame>>,
    // Outgoing streams not yet established.
    inflight: FnvHashSet<StreamId>,
    // Streams the remote opened, not yet handed out.
    pending_streams: VecDeque<Stream>,
    // Frames to be written to the connection.
    pending_frames: VecDeque<Frame>,
    // Cloned into every new stream.
    event_sender: ChanSender<StreamEvent>,
    // Receives the events of all streams.
    event_receiver: ChanReceiver<StreamEvent>,
    // The frame senders dropped because their channel refused a frame.
    refused: Ghost<Seq<ChanSender<Frame>>>,
}

impl View for Session {
    type V = SessionView;

    closed spec fn view(&self) -> SessionView {
        SessionView {
            eof: self.eof,
            shutdown: self.shutdown,
            remote_go_away: self.remote_go_away,
            local_go_away: self.local_go_away,
            next_stream_id: self.ids.next,
            ty: self.ids.ty,
            config: self.config@,
            pings: self.pings@,
            ping_id: self.ping_id,
            last_ping_at: self.last_ping_at,
            streams: self.streams@.dom(),
            inflight: self.inflight@,
            pending_streams: self.pending_streams@.map_values(|s: Stream| s@),
            pending_frames: self.pending_frames@.map_values(|f: Frame| f@),
        }
    }
}

impl Session {
    /// The sending end of each stream's frame channel, by stream id.
    pub closed spec fn senders(&self) -> Map<StreamId, ChanSender<Frame>> {
        self.streams@
    }

    /// The frame senders dropped because their channel refused a frame,
    /// oldest first.
    pub closed spec fn refused(&self) -> Seq<ChanSender<Frame>> {
        self.refused@
    }

    /// The streams the remote opened, not yet handed out, oldest first.
    pub closed spec fn pending(&self) -> Seq<Stream> {
        self.pending_streams@
    }

    /// The channel on which the session takes the events of its streams.
    pub closed spec fn event_channel(&self) -> int {
        self.event_receiver.channel()
    }

    /// The channel the session's streams hand their events to.
    pub closed spec fn event_sender_channel(&self) -> int {
        self.event_sender.channel()
    }

    /// Every event the session took off its event channel, oldest first.
    pub closed spec fn events_taken(&self) -> Seq<StreamEvent> {
        self.event_receiver.taken()
    }

    /// How often the session found its event channel empty.
    pub closed spec fn events_empty_count(&self) -> nat {
        self.event_receiver.empty_count()
    }

    /// How often the session found its event channel cut off.
    pub closed spec fn events_cut_count(&self) -> nat {
        self.event_receiver.cut_count()
    }

    /// Whether the session keeps the event channel of `before`.
    pub open spec fn keeps_ends(self, before: Session) -> bool {
        &&& self.event_channel() == before.event_channel()
        &&& self.event_sender_channel() == before.event_sender_channel()
        &&& self.events_taken() == before.events_taken()
    }

    /// Whether the session keeps the frame senders and pending streams of `before`.
    pub open spec fn keeps_senders(self, before: Session) -> bool {
        &&& self.senders() == before.senders()
        &&& self.refused() == before.refused()
        &&& self.pending() == before.pending()
    }

    /// How the frame senders and pending streams of `before` become those of
    /// `self` when a data or window-update frame comes from the remote: after
    /// a local go-away a SYN changes none of them, and neither does a frame
    /// for an unknown stream; a SYN otherwise adds a pending stream whose
    /// frame channel gets a new sender; and the frame is handed to the sender
    /// of its stream (see `forwarded`).
    pub open spec fn forwards(self, before: Session, frame: Frame) -> bool {
        let id = frame@.header.stream_id;
        let syn = bits_have(frame@.header.flags, syn_bit());
        &&& syn && before@.local_go_away ==> self.keeps_senders(before)
        &&& !syn && !before.senders().contains_key(id) ==> self.keeps_senders(before)
        &&& !syn && before.senders().contains_key(id) ==> forwarded(
            before.senders(),
            before.refused(),
            self.senders(),
            self.refused(),
            id,
            before.senders()[id].channel(),
            before.senders()[id].handed(),
            before.senders()[id].blocking_sends(),
            frame,
        ) && self.pending() == before.pending()
        &&& syn && !before@.local_go_away ==> {
            let p = self.pending().last();
            &&& self.pending() == before.pending().push(p)
            &&& p.events_to().channel() == before.event_sender_channel()
            &&& p.received().len() == 0
            &&& forwarded(
                before.senders(),
                before.refused(),
                self.senders(),
                self.refused(),
                id,
                p.frames_from().channel(),
                Seq::empty(),
                0,
                frame,
            )
        }
    }

    /// A new session over a connection, as client or server. Its streams hand
    /// their events to the channel it takes them from.
    pub fn new(config: Config, ty: SessionType) -> (s: Session)
        ensures
            s@ == initial_view(config@, ty),
            ids_ok(s@),
            s.event_channel() == s.event_sender_channel(),
            s.events_taken().len() == 0,
            s.senders() == Map::<StreamId, ChanSender<Frame>>::empty(),
            s.refused().len() == 0,
            s.pending().len() == 0,
    {
        let next_stream_id = match ty {
            SessionType::Client => 1,
            SessionType::Server => 2,
        };
        let (event_sender, event_receiver) = bounded(32);
        let s = Session {
            eof: false,
            shutdown: false,
            remote_go_away: false,
            local_go_away: false,
            ids: StreamIds { next: next_stream_id, ty },
            config,
            pings: BTreeMap::new(),
            ping_id: 0,
            last_ping_at: None,
            streams: fnv_maps::map_new(),
            inflight: fnv_maps::set_new(),
            pending_streams: VecDeque::new(),
            pending_frames: VecDeque::new(),
            event_sender,
            event_receiver,
            refused: Ghost(Seq::empty()),
        };
        proof {
            assert(s@.pending_streams =~= Seq::<StreamView>::empty());
            assert(s@.pending_frames =~= Seq::<FrameView>::empty());
            assert(s@.streams =~= Set::<StreamId>::empty());
            assert(s.senders() =~= Map::<StreamId, ChanSender<Frame>>::empty());
        }
        s
    }

    /// A new server session.
    pub fn new_server(config: Config) -> (s: Session)
        ensures
            s@ == initial_view(config@, SessionType::Server),
            ids_ok(s@),
            s.event_channel() == s.event_sender_channel(),
            s.events_taken().len() == 0,
            s.senders() == Map::<StreamId, ChanSender<Frame>>::empty(),
            s.refused().len() == 0,
            s.pending().len() == 0,
    {
        Self::new(config, SessionType::Server)
    }

    /// A new client session.
    pub fn new_client(config: Config) -> (s: Session)
        ensures
            s@ == initial_view(config@, SessionType::Client),
            ids_ok(s@),
            s.event_channel() == s.event_sender_channel(),
            s.events_taken().len() == 0,
            s.senders() == Map::<StreamId, ChanSender<Frame>>::empty(),
            s.refused().len() == 0,
            s.pending().len() == 0,
    {
        Self::new(config, SessionType::Client)
    }

    /// Whether the session was shut down or its connection ended.
    pub fn is_dead(&self) -> (b: bool)
        ensures
            b == is_dead(self@),
    {
        self.shutdown || self.eof
    }

    /// The id the next opened stream gets.
    pub fn next_stream_id(&self) -> (id: StreamId)
        ensures
            id == self@.next_stream_id,
    {
        self.ids.next
    }

    /// Whether the remote sent a go-away.
    pub fn remote_go_away(&self) -> (b: bool)
        ensures
            b == self@.remote_go_away,
    {
        self.remote_go_away
    }

    /// The session's settings.
    pub fn config(&self) -> (c: &Config)
        ensures
            c@ == self@.config,
    {
        &self.config
    }

    /// Queues a frame to be written to the connection.
    fn send_frame(&mut self, frame: Frame)
        ensures
            final(self)@ == queue(old(self)@, frame@),
            ids_ok(final(self)@),
            final(self).keeps_ends(*old(self)),
            final(self).keeps_senders(*old(self)),
    {
        proof {
            use_type_invariant(&self.ids);
        }
        let ghost f = frame@;
        self.pending_frames.push_back(frame);
        proof {
            assert(self@.pending_frames =~= old(self)@.pending_frames.push(f));
        }
    }

    /// Takes the next frame to write. Once the connection has ended, nothing
    /// can be written: the frame is dropped and none is given; so it is with
    /// nothing queued. A session that was only shut down still writes what it
    /// queued, its go-away first among them.
    pub fn take_frame_to_send(&mut self) -> (r: Option<Frame>)
        ensures
            old(self)@.pending_frames.len() == 0 ==> r is None && final(self)@ == old(self)@,
            old(self)@.pending_frames.len() > 0 ==> {
                &&& final(self)@ == SessionView {
                    pending_frames: old(self)@.pending_frames.drop_first(),
                    ..old(self)@
                }
                &&& old(self)@.eof ==> r is None
                &&& !old(self)@.eof ==> (r matches Some(f) && f@
                    == old(self)@.pending_frames[0])
            },
            ids_ok(final(self)@),
            final(self).keeps_ends(*old(self)),
            final(self).keeps_senders(*old(self)),
    {
        proof {
            use_type_invariant(&self.ids);
        }
        match self.pending_frames.pop_front() {
            None => None,
            Some(frame) => {
                proof {
                    assert(self@.pending_frames =~= old(self)@.pending_frames.drop_first());
                }
                if self.eof {
                    None
                } else {
                    Some(frame)
                }
            },
        }
    }

    /// Puts back a frame the connection could not take yet, to be written first.
    pub fn requeue_frame(&mut self, frame: Frame)
        ensures
            final(self)@ == (SessionView {
                pending_frames: seq![frame@] + old(self)@.pending_frames,
                ..old(self)@
            }),
            ids_ok(final(self)@),
            final(self).keeps_ends(*old(self)),
            final(self).keeps_senders(*old(self)),
    {
        proof {
            use_type_invariant(&self.ids);
        }
        let ghost f = frame@;
        self.pending_frames.push_front(frame);
        proof {
            assert(self@.pending_frames =~= seq![f] + old(self)@.pending_frames);
        }
    }

    /// Closes the session and all its streams, after queueing a go-away: the
    /// session is dead from then on (it opens, accepts and answers nothing
    /// more), but the go-away is still written. A second call does nothing.
    pub fn shutdown(&mut self)
        ensures
            final(self)@ == shutdown_view(old(self)@),
            ids_ok(final(self)@),
            final(self).keeps_ends(*old(self)),
            final(self).keeps_senders(*old(self)),
    {
        proof {
            use_type_invariant(&self.ids);
        }
        if self.shutdown {
            return ;
        }
        self.shutdown = true;
        self.send_go_away();
    }

    /// Stops accepting further streams and tells the remote with a go-away.
    /// It does not close the connection.
    pub fn send_go_away(&mut self)
        ensures
            final(self)@ == go_away_view(old(self)@),
            ids_ok(final(self)@),
            final(self).keeps_ends(*old(self)),
            final(self).keeps_senders(*old(self)),
    {
        proof {
            use_type_invariant(&self.ids);
        }
        self.local_go_away = true;
        let frame = Frame::new_go_away(GoAwayCode::Normal);
        self.send_frame(frame);
    }

    /// Whether a keep-alive ping is due at `now` (milliseconds).
    pub fn ping_due(&self, now: u64) -> (b: bool)
        ensures
            b == ping_due_view(self@, now),
    {
        if self.is_dead() {
            return false;
        }
        match self.last_ping_at {
            Some(ping_at) => now >= ping_at && now - ping_at >= self.config.keepalive_interval_ms(),
            None => true,
        }
    }

    /// Queues a ping: an answer to `ping_id` when given, else a new ping.
    /// Gives the id sent.
    pub fn send_ping(&mut self, ping_id: Option<u32>) -> (id: u32)
        ensures
            (final(self)@, id) == ping_view(old(self)@, ping_id),
            ids_ok(final(self)@),
            final(self).keeps_ends(*old(self)),
            final(self).keeps_senders(*old(self)),
    {
        proof {
            use_type_invariant(&self.ids);
        }
        let (flag, ping_id) = match ping_id {
            Some(ping_id) => (Flag::Ack, ping_id),
            None => {
                self.ping_id = self.ping_id.wrapping_add(1);
                (Flag::Syn, self.ping_id)
            },
        };
        let frame = Frame::new_ping(Flags::from(flag), ping_id);
        self.send_frame(frame);
        ping_id
    }

    /// Records a keep-alive ping sent at `at` (milliseconds).
    pub fn record_ping(&mut self, ping_id: u32, at: u64)
        ensures
            final(self)@ == (SessionView {
                pings: old(self)@.pings.insert(ping_id, at),
                last_ping_at: Some(at),
                ..old(self)@
            }),
            ids_ok(final(self)@),
            final(self).keeps_ends(*old(self)),
            final(self).keeps_senders(*old(self)),
    {
        proof {
            use_type_invariant(&self.ids);
        }
        self.pings.insert(ping_id, at);
        self.last_ping_at = Some(at);
    }

    /// Creates a stream: one the remote opened (`Some(id)`), or one opened
    /// here with the next id. The session keeps the sending end of a new frame
    /// channel whose receiving end the stream gets; the stream hands its events
    /// to the session's event channel, and announces itself at once.
    fn create_stream(&mut self, stream_id: Option<StreamId>) -> (s: Stream)
        requires
            stream_id is None ==> old(self)@.next_stream_id <= u32::MAX - 2,
        ensures
            stream_id matches Some(id) ==> {
                &&& final(self)@ == SessionView {
                    streams: old(self)@.streams.insert(id),
                    ..old(self)@
                }
                &&& s@ == accepted_stream(id, old(self)@.config.max_stream_window_size)
            },
            stream_id is None ==> {
                let id = old(self)@.next_stream_id;
                &&& final(self)@ == SessionView {
                    next_stream_id: (id + 2) as u32,
                    streams: old(self)@.streams.insert(id),
                    ..old(self)@
                }
                &&& s@ == opened_stream(id, old(self)@.config.max_stream_window_size)
            },
            final(self).senders() == old(self).senders().insert(s@.id, final(self).senders()[s@.id]),
            final(self).senders()[s@.id].channel() == s.frames_from().channel(),
            final(self).senders()[s@.id].handed().len() == 0,
            final(self).senders()[s@.id].blocking_sends() == 0,
            s.events_to().channel() == old(self).event_sender_channel(),
            s.received().len() == 0,
            s.frames_from().cut_count() == 0,
            final(self).refused() == old(self).refused(),
            final(self).pending() == old(self).pending(),
            final(self).keeps_ends(*old(self)),
            ids_ok(final(self)@),
    {
        proof {
            use_type_invariant(&self.ids);
        }
        let (stream_id, state) = match stream_id {
            Some(stream_id) => (stream_id, StreamState::SynReceived),
            None => {
                let next_id = self.ids.next;
                self.ids.next = self.ids.next + 2;
                (next_id, StreamState::Init)
            },
        };
        let (frame_sender, frame_receiver) = bounded(8);
        let ghost fs = frame_sender;
        fnv_maps::map_insert(&mut self.streams, stream_id, frame_sender);
        let mut stream = Stream::with_ends(
            stream_id,
            self.event_sender.clone_end(),
            frame_receiver,
            state,
            self.config.max_stream_window_size(),
            self.config.max_stream_window_size(),
        );
        let _ = stream.send_window_update();
        proof {
            use_type_invariant(&self.ids);
            assert(self.senders()[stream_id] == fs);
            assert(self.senders() =~= old(self).senders().insert(stream_id, fs));
        }
        stream
    }

    /// Opens a new stream. Fails once the session is dead, or after the
    /// remote sent a go-away.
    pub fn open_stream(&mut self) -> (r: Result<Stream, Error>)
        requires
            !is_dead(old(self)@) && !old(self)@.remote_go_away ==> old(self)@.next_stream_id
                <= u32::MAX - 2,
        ensures
            match r {
                Ok(s) => open_view(old(self)@) == (final(self)@, Ok::<StreamView, Error>(s@)),
                Err(e) => open_view(old(self)@) == (final(self)@, Err::<StreamView, Error>(e)),
            },
            r matches Ok(s) ==> {
                &&& final(self).senders() == old(self).senders().insert(
                    s@.id,
                    final(self).senders()[s@.id],
                )
                &&& final(self).senders()[s@.id].channel() == s.frames_from().channel()
                &&& final(self).senders()[s@.id].handed().len() == 0
                &&& final(self).senders()[s@.id].blocking_sends() == 0
                &&& s.events_to().channel() == old(self).event_sender_channel()
                &&& s.received().len() == 0
                &&& s.frames_from().cut_count() == 0
                &&& s@.id % 2 == first_stream_id(old(self)@.ty) % 2
            },
            r is Err ==> final(self).senders() == old(self).senders(),
            final(self).refused() == old(self).refused(),
            final(self).pending() == old(self).pending(),
            final(self).keeps_ends(*old(self)),
            ids_ok(final(self)@),
    {
        proof {
            use_type_invariant(&self.ids);
        }
        if self.is_dead() {
            Err(Error::SessionShutdown)
        } else if self.remote_go_away {
            Err(Error::RemoteGoAway)
        } else {
            let stream = self.create_stream(None);
            fnv_maps::set_insert(&mut self.inflight, stream.id());
            Ok(stream)
        }
    }

    /// Settles a frame handed to the sender of stream `id`, taken out of the
    /// map for it: a sender whose channel took the frame (`delivered`) goes
    /// back under `id`; one whose channel refused it is dropped.
    fn settle_forward(&mut self, id: StreamId, sender: ChanSender<Frame>, delivered: bool)
        requires
            !old(self).senders().contains_key(id),
            sender.handed().len() > 0,
            sender.handed().last().1 == delivered,
        ensures
            delivered ==> final(self).senders() == old(self).senders().insert(id, sender)
                && final(self).refused() == old(self).refused(),
            !delivered ==> final(self).senders() == old(self).senders() && final(self).refused()
                == old(self).refused().push(sender),
            final(self)@ == (SessionView {
                streams: if delivered {
                    old(self)@.streams.insert(id)
                } else {
                    old(self)@.streams
                },
                ..old(self)@
            }),
            final(self).pending() == old(self).pending(),
            final(self).keeps_ends(*old(self)),
    {
        if delivered {
            fnv_maps::map_insert(&mut self.streams, id, sender);
        } else {
            self.refused = Ghost(self.refused@.push(sender));
        }
    }

    /// A data or window-update frame from the remote (see
    /// `stream_message_view`); the frame is handed to the sender of its
    /// stream, and that sender dropped exactly when its channel refused it.
    fn handle_stream_message(&mut self, frame: Frame)
        ensures
            final(self)@ == stream_message_view(
                old(self)@,
                frame@,
                final(self)@.streams.contains(frame@.header.stream_id),
            ),
            final(self).forwards(*old(self), frame),
            final(self).keeps_ends(*old(self)),
            ids_ok(final(self)@),
    {
        proof {
            use_type_invariant(&self.ids);
        }
        let ghost f = frame@;
        let ghost fr = frame;
        let stream_id = frame.stream_id();
        if frame.flags().has(Flag::Syn) {
            if self.local_go_away {
                let flags = Flags::from(Flag::Rst);
                let frame = Frame::new_window_update(flags, stream_id, 0);
                self.send_frame(frame);
                return ;
            }
            let stream = self.create_stream(Some(stream_id));
            let ghost sv = stream@;
            let ghost st = stream;
            self.pending_streams.push_back(stream);
            proof {
                assert(self@.pending_streams =~= old(self)@.pending_streams.push(sv));
                assert(self.pending() =~= old(self).pending().push(st));
                assert(self.pending().last() == st);
            }
        }
        let ghost w = *self;
        let ghost wv = self@;
        match fnv_maps::map_take(&mut self.streams, stream_id) {
            Some(sender) => {
                let mut sender = sender;
                let ghost before = sender;
                let delivered = sender.try_send(frame);
                self.settle_forward(stream_id, sender, delivered);
                proof {
                    if delivered {
                        assert(self.senders() =~= w.senders().insert(stream_id, self.senders()[stream_id]));
                        assert(self.senders() =~= old(self).senders().insert(stream_id, self.senders()[stream_id]));
                    } else {
                        assert(w.senders().remove(stream_id) =~= self.senders());
                        assert(old(self).senders().remove(stream_id) =~= self.senders());
                        assert(self.refused().drop_last() =~= w.refused());
                    }
                    if bits_have(f.header.flags, syn_bit()) {
                        assert(before.handed() =~= Seq::<(Frame, bool)>::empty());
                        assert(self.pending() == w.pending());
                    }
                    assert(self@.streams =~= (if delivered { wv.streams } else { wv.streams.remove(stream_id) }));
                }
            },
            None => {
                proof {
                    assert(self.senders() =~= w.senders());
                }
            },
        }
        proof {
            assert(self@ == stream_message_view(old(self)@, f, self@.streams.contains(stream_id)));
        }
    }

    /// A ping from the remote (see `ping_frame_view`).
    fn handle_ping(&mut self, frame: Frame)
        ensures
            final(self)@ == ping_frame_view(old(self)@, frame@),
            ids_ok(final(self)@),
            final(self).keeps_ends(*old(self)),
            final(self).keeps_senders(*old(self)),
    {
        proof {
            use_type_invariant(&self.ids);
        }
        let flags = frame.flags();
        if flags.has(Flag::Syn) {
            // Send the ping back
            self.send_ping(Some(frame.length()));
        } else if flags.has(Flag::Ack) {
            self.pings.remove(&frame.length());
        }
    }

    /// A go-away from the remote (see `go_away_frame_view`).
    fn handle_go_away(&mut self, frame: Frame)
        ensures
            final(self)@ == go_away_frame_view(old(self)@, frame@),
            ids_ok(final(self)@),
            final(self).keeps_ends(*old(self)),
            final(self).keeps_senders(*old(self)),
    {
        proof {
            use_type_invariant(&self.ids);
        }
        match GoAwayCode::from(frame.length()) {
            GoAwayCode::Normal => {
                self.remote_go_away = true;
            },
            GoAwayCode::ProtocolError => {},
            GoAwayCode::InternalError => {},
        }
    }

    /// Handles a frame read from the connection (see `frame_step`); a data
    /// or window-update frame goes to the channel of its stream, which is
    /// dropped exactly when that channel refuses it (see `forwards`).
    pub fn handle_frame(&mut self, frame: Frame)
        ensures
            final(self)@ == frame_step(
                old(self)@,
                frame@,
                final(self)@.streams.contains(frame@.header.stream_id),
            ),
            frame@.header.ty == Type::Data || frame@.header.ty == Type::WindowUpdate
                ==> final(self).forwards(*old(self), frame),
            frame@.header.ty == Type::Ping || frame@.header.ty == Type::GoAway
                ==> final(self).keeps_senders(*old(self)),
            final(self).keeps_ends(*old(self)),
            ids_ok(final(self)@),
    {
        match frame.ty() {
            Type::Data | Type::WindowUpdate => {
                self.handle_stream_message(frame);
            },
            Type::Ping => {
                self.handle_ping(frame);
            },
            Type::GoAway => {
                self.handle_go_away(frame);
            },
        }
    }

    /// Takes the next event a stream sent, if one is waiting; an event
    /// taken is recorded on the session's event channel.
    pub fn poll_event(&mut self) -> (r: Option<StreamEvent>)
        ensures
            final(self)@ == old(self)@,
            match r {
                Some(e) => {
                    &&& final(self).events_taken() == old(self).events_taken().push(e)
                    &&& final(self).events_empty_count() == old(self).events_empty_count()
                    &&& final(self).events_cut_count() == old(self).events_cut_count()
                },
                None => {
                    &&& final(self).events_taken() == old(self).events_taken()
                    &&& (final(self).events_empty_count() == old(self).events_empty_count() + 1
                        && final(self).events_cut_count() == old(self).events_cut_count())
                        || (final(self).events_cut_count() == old(self).events_cut_count() + 1
                        && final(self).events_empty_count() == old(self).events_empty_count())
                },
            },
            final(self).event_channel() == old(self).event_channel(),
            final(self).event_sender_channel() == old(self).event_sender_channel(),
            final(self).keeps_senders(*old(self)),
            ids_ok(final(self)@),
    {
        proof {
            use_type_invariant(&self.ids);
        }
        match self.event_receiver.try_recv() {
            TryRecv::Msg(event) => Some(event),
            // The session holds a sender itself, so the channel is never
            // cut off: both cases mean no event for now.
            TryRecv::Empty => None,
            TryRecv::Disconnected => None,
        }
    }

    /// Handles an event of a stream (see `event_step`). A flush request is
    /// given back: its channel is to be answered once the queue is written.
    pub fn handle_event(&mut self, event: StreamEvent) -> (r: Option<Sender<()>>)
        ensures
            final(self)@ == event_step(old(self)@, event@),
            r is Some <==> event is Flush,
            r matches Some(s) ==> (event matches StreamEvent::Flush((_, t)) && s == t),
            event matches StreamEvent::StateChanged((id, StreamState::Closed))
                ==> final(self).senders() == old(self).senders().remove(id),
            !(event matches StreamEvent::StateChanged((_, StreamState::Closed)))
                ==> final(self).senders() == old(self).senders(),
            final(self).refused() == old(self).refused(),
            final(self).pending() == old(self).pending(),
            final(self).keeps_ends(*old(self)),
            ids_ok(final(self)@),
    {
        proof {
            use_type_invariant(&self.ids);
        }
        let ghost e = event@;
        match event {
            StreamEvent::SendFrame(frame) => {
                self.send_frame(frame);
                None
            },
            StreamEvent::StateChanged((stream_id, state)) => {
                match state {
                    StreamState::Closed => {
                        let _ = fnv_maps::map_take(&mut self.streams, stream_id);
                        proof {
                            assert(self@ == event_step(old(self)@, e));
                        }
                    },
                    StreamState::Established => {
                        fnv_maps::set_remove(&mut self.inflight, stream_id);
                    },
                    _ => {},
                }
                None
            },
            StreamEvent::Flush((_stream_id, responder)) => Some(responder),
        }
    }

    /// Marks the end of the connection: the session is dead from then on.
    pub fn mark_eof(&mut self)
        ensures
            final(self)@ == (SessionView { eof: true, ..old(self)@ }),
            ids_ok(final(self)@),
            final(self).keeps_ends(*old(self)),
            final(self).keeps_senders(*old(self)),
    {
        proof {
            use_type_invariant(&self.ids);
        }
        self.eof = true;
    }

    /// Hands out the oldest stream the remote opened, if any (see `pop_view`).
    pub fn pop_pending_stream(&mut self) -> (r: Option<Stream>)
        ensures
            final(self)@ == pop_view(old(self)@).0,
            match r {
                Some(s) => pop_view(old(self)@).1 == Some(s@) && s == old(self).pending()[0],
                None => pop_view(old(self)@).1 is None,
            },
            final(self).pending() == old(self).pending().drop_first() || old(self).pending().len()
                == 0,
            ids_ok(final(self)@),
            final(self).keeps_ends(*old(self)),
            final(self).senders() == old(self).senders(),
            final(self).refused() == old(self).refused(),
    {
        proof {
            use_type_invariant(&self.ids);
        }
        let r = self.pending_streams.pop_front();
        proof {
            if old(self)@.pending_streams.len() > 0 {
                assert(self@.pending_streams =~= old(self)@.pending_streams.drop_first());
            }
        }
        r
    }

    /// Decides the next move of the loop that hands out accepted streams,
    /// after a round that found the connection (`frames_not_ready`) and the
    /// streams' events (`events_not_ready`) with nothing more for now: the
    /// oldest accepted stream is handed out if there is one; otherwise the
    /// loop parks when both had nothing, and goes round again when not.
    pub fn poll_outcome(&mut self, frames_not_ready: bool, events_not_ready: bool) -> (r: PollOutcome)
        ensures
            final(self)@ == pop_view(old(self)@).0,
            old(self)@.pending_streams.len() > 0 ==> (r matches PollOutcome::Accepted(s) && pop_view(
                old(self)@,
            ).1 == Some(s@) && s == old(self).pending()[0]),
            old(self)@.pending_streams.len() == 0 ==> {
                &&& frames_not_ready && events_not_ready ==> r is Park
                &&& !(frames_not_ready && events_not_ready) ==> r is Continue
            },
            final(self).pending() == old(self).pending().drop_first() || old(self).pending().len()
                == 0,
            ids_ok(final(self)@),
            final(self).keeps_ends(*old(self)),
            final(self).senders() == old(self).senders(),
            final(self).refused() == old(self).refused(),
    {
        match self.pop_pending_stream() {
            Some(stream) => PollOutcome::Accepted(stream),
            None => {
                if frames_not_ready && events_not_ready {
                    PollOutcome::Park
                } else {
                    PollOutcome::Continue
                }
            },
        }
    }
}

} // verus!
