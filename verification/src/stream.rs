//! A logical stream: its state machine, its flow-control windows and the
//! buffer of received data. A stream talks to its session through two
//! channels: frames come in on one, events (frames to send, state changes,
//! flush requests) go out on the other.
use vstd::prelude::*;
use crossbeam_channel::{Receiver, Sender};

use crate::channels::{bounded, ChanReceiver, ChanSender, TryRecv};
use crate::error::Error;
use crate::frame::{
    ack_bit, bits_have, body_bytes, fin_bit, frame_view, rst_bit, syn_bit, Flag, Flags, Frame, FrameView,
    Type,
};
use crate::StreamId;

verus! {

/// Where a stream stands in its life.
#[derive(Debug, Copy, Clone, Eq, PartialEq, Structural)]
pub enum StreamState {
    Init,
    SynSent,
    SynReceived,
    Established,
    LocalClosing,
    RemoteClosing,
    Closed,
    Reset,
}

/// What a stream hands to its session.
pub enum StreamEvent {
    /// A frame to be written to the connection.
    SendFrame(Frame),
    /// The stream reached a new state (closed or reset).
    StateChanged((StreamId, StreamState)),
    /// Flush the stream's frames to the remote side, then answer on the channel.
    Flush((StreamId, Sender<()>)),
}

/// A stream event as values (the answer channel of a flush is left out).
pub enum EventView {
    SendFrame(FrameView),
    StateChanged(StreamId, StreamState),
    Flush(StreamId),
}

impl View for StreamEvent {
    type V = EventView;

    open spec fn view(&self) -> EventView {
        match self {
            StreamEvent::SendFrame(f) => EventView::SendFrame(f@),
            StreamEvent::StateChanged((id, s)) => EventView::StateChanged(*id, *s),
            StreamEvent::Flush((id, _)) => EventView::Flush(*id),
        }
    }
}

/// A stream as values: `buffered` is the received data not yet read, `sent`
/// every event handed to the session's channel, oldest first (whether or not
/// the channel took it).
#[verifier::ext_equal]
pub struct StreamView {
    pub id: StreamId,
    pub state: StreamState,
    pub max_recv_window: u32,
    pub recv_window: u32,
    pub send_window: u32,
    pub buffered: Seq<u8>,
    pub sent: Seq<EventView>,
}

// ------------------------------------------------------------ the model

/// The received data not yet read never exceeds what the receive window
/// has left free.
pub open spec fn window_ok(v: StreamView) -> bool {
    v.recv_window + v.buffered.len() <= v.max_recv_window
}

/// `v` with one more event handed to the session.
pub open spec fn with_event(v: StreamView, e: EventView) -> StreamView {
    StreamView { sent: v.sent.push(e), ..v }
}

/// `v` in state `s`.
pub open spec fn with_state(v: StreamView, s: StreamState) -> StreamView {
    StreamView { state: s, ..v }
}

/// The flags of the next outgoing frame, and the state once they are sent:
/// the first frame of an opened stream carries SYN, the first frame of an
/// accepted stream carries ACK, every other frame no flag.
pub open spec fn outgoing_flags(s: StreamState) -> (StreamState, u16) {
    match s {
        StreamState::Init => (StreamState::SynSent, syn_bit()),
        StreamState::SynReceived => (StreamState::Established, ack_bit()),
        _ => (s, 0),
    }
}

/// The state after an incoming ACK bit (if any) is taken into account.
pub open spec fn after_ack(s: StreamState, bits: u16) -> StreamState {
    if bits_have(bits, ack_bit()) && s == StreamState::SynSent {
        StreamState::SynReceived
    } else {
        s
    }
}

/// Whether a FIN is refused in state `s`: the remote side already closed.
pub open spec fn fin_refused(s: StreamState) -> bool {
    s == StreamState::RemoteClosing || s == StreamState::Closed || s == StreamState::Reset
}

/// What the flags of an incoming frame do to a stream: ACK completes an
/// opening, FIN half-closes (or closes, after a local close), RST resets.
/// Closing or resetting tells the session so.
pub open spec fn flags_step(v: StreamView, bits: u16) -> (StreamView, Result<(), Error>) {
    let s1 = after_ack(v.state, bits);
    if bits_have(bits, fin_bit()) && fin_refused(s1) {
        (with_state(v, s1), Err(Error::UnexpectedFlag))
    } else {
        let s2 = if bits_have(bits, fin_bit()) {
            if s1 == StreamState::LocalClosing {
                StreamState::Closed
            } else {
                StreamState::RemoteClosing
            }
        } else {
            s1
        };
        let s3 = if bits_have(bits, rst_bit()) {
            StreamState::Reset
        } else {
            s2
        };
        let closes = bits_have(bits, rst_bit()) || (bits_have(bits, fin_bit()) && s1
            == StreamState::LocalClosing);
        let w = with_state(v, s3);
        (if closes {
            with_event(w, EventView::StateChanged(v.id, s3))
        } else {
            w
        }, Ok(()))
    }
}

/// What an incoming frame does to a stream. A window update grants send
/// credit (wrapping at 2^32); a data frame must fit the receive window, and
/// its body may not be longer than its length field: the window is charged
/// by the length field, so a longer body would buffer more than the window
/// allows and make the next window update's credit negative.
pub open spec fn frame_step(v: StreamView, f: FrameView) -> (StreamView, Result<(), Error>) {
    match f.header.ty {
        Type::WindowUpdate => {
            let (w, r) = flags_step(v, f.header.flags);
            if r is Err {
                (w, r)
            } else {
                (
                    StreamView {
                        send_window: w.send_window.wrapping_add(f.header.length),
                        ..w
                    },
                    Ok(()),
                )
            }
        },
        Type::Data => {
            let (w, r) = flags_step(v, f.header.flags);
            if r is Err {
                (w, r)
            } else if f.header.length > w.recv_window || body_bytes(f).len() > f.header.length {
                (w, Err(Error::RecvWindowExceeded))
            } else {
                (
                    StreamView {
                        recv_window: (w.recv_window - f.header.length) as u32,
                        buffered: w.buffered + body_bytes(f),
                        ..w
                    },
                    Ok(()),
                )
            }
        },
        _ => (v, Err(Error::InvalidMsgType)),
    }
}

/// Frames handled one after the other, stopping at the first error.
pub open spec fn frames_step(v: StreamView, fs: Seq<FrameView>) -> (StreamView, Result<(), Error>)
    decreases fs.len(),
{
    if fs.len() == 0 {
        (v, Ok(()))
    } else {
        let (w, r) = frames_step(v, fs.drop_last());
        if r is Err {
            (w, r)
        } else {
            frame_step(w, fs.last())
        }
    }
}

/// Handling frames never changes a stream's id nor its maximum receive window.
pub proof fn lemma_frames_keep_identity(v: StreamView, fs: Seq<FrameView>)
    ensures
        frames_step(v, fs).0.id == v.id,
        frames_step(v, fs).0.max_recv_window == v.max_recv_window,
    decreases fs.len(),
{
    if fs.len() > 0 {
        lemma_frames_keep_identity(v, fs.drop_last());
    }
}

/// The credit a window update would grant: what the window lacks to its
/// maximum, once the buffered data is counted.
pub open spec fn window_delta(v: StreamView) -> u32 {
    (v.max_recv_window - v.buffered.len() - v.recv_window) as u32
}

/// Whether a window update may be left out: the credit is less than half the
/// maximum window and the frame would carry no flag.
pub open spec fn window_update_omitted(v: StreamView) -> bool {
    window_delta(v) < v.max_recv_window / 2 && outgoing_flags(v.state).1 == 0
}

/// After a frame went out from state `was`: a stream whose frame carried
/// the ACK of an accepted opening (`SynReceived`) is now established, and
/// tells the session so.
pub open spec fn announced(v: StreamView, was: StreamState) -> StreamView {
    if was == StreamState::SynReceived {
        with_event(v, EventView::StateChanged(v.id, StreamState::Established))
    } else {
        v
    }
}

/// A window update: the receive window is refilled to its maximum less the
/// buffered data, and a window-update frame grants that credit to the remote.
pub open spec fn window_update_view(v: StreamView) -> StreamView {
    if window_update_omitted(v) {
        v
    } else {
        let (s, bits) = outgoing_flags(v.state);
        announced(
            with_event(
                StreamView {
                    state: s,
                    recv_window: (v.max_recv_window - v.buffered.len()) as u32,
                    ..v
                },
                EventView::SendFrame(frame_view(Type::WindowUpdate, bits, v.id, window_delta(v))),
            ),
            v.state,
        )
    }
}

/// The frame that sends `data`.
pub open spec fn data_frame_view(bits: u16, id: StreamId, data: Seq<u8>) -> FrameView {
    FrameView {
        header: frame_view(Type::Data, bits, id, data.len() as u32).header,
        body: Some(data),
    }
}

/// Sending `data`: a data frame with the outgoing flags.
pub open spec fn data_view(v: StreamView, data: Seq<u8>) -> StreamView {
    let (s, bits) = outgoing_flags(v.state);
    announced(
        with_event(with_state(v, s), EventView::SendFrame(data_frame_view(bits, v.id, data))),
        v.state,
    )
}

/// The frame that half-closes the stream: a window update of 0 with FIN
/// added to the outgoing flags.
pub open spec fn close_frame_view(bits: u16, id: StreamId) -> FrameView {
    frame_view(Type::WindowUpdate, bits | fin_bit(), id, 0)
}

/// Whether `close` half-closes from `s`: an opening or open stream.
pub open spec fn closes_locally(s: StreamState) -> bool {
    s == StreamState::SynSent || s == StreamState::SynReceived || s == StreamState::Established
}

// ------------------------------------------------------------ laws

/// Received data is only ever appended: whatever frames come, the data a
/// stream had buffered stays at the front of its buffer.
pub proof fn lemma_received_data_is_appended(v: StreamView, fs: Seq<FrameView>)
    ensures
        frames_step(v, fs).0.buffered.len() >= v.buffered.len(),
        frames_step(v, fs).0.buffered.subrange(0, v.buffered.len() as int) == v.buffered,
    decreases fs.len(),
{
    if fs.len() > 0 {
        lemma_received_data_is_appended(v, fs.drop_last());
        let w = frames_step(v, fs.drop_last()).0;
        let x = frames_step(v, fs).0;
        assert(x.buffered.subrange(0, w.buffered.len() as int) =~= w.buffered);
        assert(x.buffered.subrange(0, v.buffered.len() as int) =~= w.buffered.subrange(
            0,
            v.buffered.len() as int,
        ));
    }
}

/// Handling frames keeps the window invariant.
pub proof fn lemma_frames_keep_window(v: StreamView, fs: Seq<FrameView>)
    requires
        window_ok(v),
    ensures
        window_ok(frames_step(v, fs).0),
    decreases fs.len(),
{
    if fs.len() > 0 {
        lemma_frames_keep_window(v, fs.drop_last());
    }
}

/// What one stream writes, its peer reads: the data frame a stream sends
/// for `data` carries no FIN or RST, so a peer stream whose receive window
/// has room for it takes it without error and appends exactly `data` to its
/// buffer, using that much of its window.
pub proof fn lemma_written_data_is_received(w: StreamView, data: Seq<u8>, r: StreamView)
    requires
        data.len() <= r.recv_window,
    ensures
        ({
            let f = data_frame_view(outgoing_flags(w.state).1, w.id, data);
            let (x, res) = frame_step(r, f);
            &&& res is Ok
            &&& x.buffered == r.buffered + data
            &&& x.recv_window == r.recv_window - data.len()
        }),
{
    let bits = outgoing_flags(w.state).1;
    assert(!bits_have(bits, fin_bit()) && !bits_have(bits, rst_bit())) by {
        crate::frame::lemma_flag_bits_distinct(Flag::Syn, Flag::Fin);
        crate::frame::lemma_flag_bits_distinct(Flag::Syn, Flag::Rst);
        crate::frame::lemma_flag_bits_distinct(Flag::Ack, Flag::Fin);
        crate::frame::lemma_flag_bits_distinct(Flag::Ack, Flag::Rst);
        assert(0u16 & 4u16 == 0u16 && 0u16 & 8u16 == 0u16) by (bit_vector);
    }
}

/// The closing handshake. A FIN from the remote half-closes an opening or
/// open stream (`RemoteClosing`); after a local close (`LocalClosing`) it
/// completes the close (`Closed`) and the session is told. Closing locally
/// after the remote closed also ends in `Closed` (see `close`).
pub proof fn lemma_fin_closes(v: StreamView)
    ensures
        v.state == StreamState::LocalClosing ==> flags_step(v, fin_bit()) == (
            with_event(
                with_state(v, StreamState::Closed),
                EventView::StateChanged(v.id, StreamState::Closed),
            ),
            Ok::<(), Error>(()),
        ),
        closes_locally(v.state) || v.state == StreamState::Init ==> flags_step(v, fin_bit()) == (
            with_state(v, StreamState::RemoteClosing),
            Ok::<(), Error>(()),
        ),
        fin_refused(v.state) ==> flags_step(v, fin_bit()).1 == Err::<(), Error>(
            Error::UnexpectedFlag,
        ),
{
    crate::frame::lemma_flag_bits_distinct(Flag::Fin, Flag::Ack);
    crate::frame::lemma_flag_bits_distinct(Flag::Fin, Flag::Rst);
    crate::frame::lemma_flag_bits_distinct(Flag::Fin, Flag::Fin);
}

/// A RST resets the stream, whatever its state (unless it comes with a FIN
/// the state refuses), and the session is told.
pub proof fn lemma_rst_resets(v: StreamView, bits: u16)
    requires
        bits_have(bits, rst_bit()),
        !(bits_have(bits, fin_bit()) && fin_refused(after_ack(v.state, bits))),
    ensures
        flags_step(v, bits).0.state == StreamState::Reset,
        flags_step(v, bits).1 is Ok,
        flags_step(v, bits).0.sent == v.sent.push(EventView::StateChanged(v.id, StreamState::Reset)),
{
}

/// A window update refills the receive window: unless it is left out, the
/// window and the buffered data add up to the maximum again.
pub proof fn lemma_window_update_refills(v: StreamView)
    requires
        window_ok(v),
    ensures
        window_ok(window_update_view(v)),
        !window_update_omitted(v) ==> window_update_view(v).recv_window
            + window_update_view(v).buffered.len() == v.max_recv_window,
{
}

/// The credit a window update grants is exactly what it adds to the receive
/// window: the maximum window less the unread data and the window that was
/// left. The frame goes out on the stream's own id, after the events already
/// sent, and leaves the window and the unread data adding up to the maximum.
pub proof fn lemma_window_update_grants_what_it_adds(v: StreamView)
    requires
        window_ok(v),
        !window_update_omitted(v),
    ensures
        ({
            let w = window_update_view(v);
            &&& w.sent.len() > v.sent.len()
            &&& w.sent.subrange(0, v.sent.len() as int) == v.sent
            &&& w.sent[v.sent.len() as int] matches EventView::SendFrame(f) && {
                &&& f.header.ty == Type::WindowUpdate
                &&& f.header.stream_id == v.id
                &&& f.header.length == w.recv_window - v.recv_window
                &&& f.header.length == v.max_recv_window - v.buffered.len() - v.recv_window
            }
            &&& w.recv_window + w.buffered.len() == v.max_recv_window
            &&& w.buffered == v.buffered
            &&& w.send_window == v.send_window
        }),
{
    let w = window_update_view(v);
    assert(w.sent.subrange(0, v.sent.len() as int) =~= v.sent);
}

/// Sending data puts exactly that data on the wire, in one data frame on the
/// stream's own id whose length is the data's length, after the events
/// already sent; the windows and the unread data are left as they were.
pub proof fn lemma_data_frame_carries_the_data(v: StreamView, data: Seq<u8>)
    requires
        data.len() <= u32::MAX,
    ensures
        ({
            let w = data_view(v, data);
            &&& w.sent.len() > v.sent.len()
            &&& w.sent.subrange(0, v.sent.len() as int) == v.sent
            &&& w.sent[v.sent.len() as int] matches EventView::SendFrame(f) && {
                &&& f.header.ty == Type::Data
                &&& f.header.stream_id == v.id
                &&& f.header.length == data.len()
                &&& f.body == Some(data)
            }
            &&& w.recv_window == v.recv_window
            &&& w.send_window == v.send_window
            &&& w.buffered == v.buffered
        }),
{
    let w = data_view(v, data);
    assert(w.sent.subrange(0, v.sent.len() as int) =~= v.sent);
}

/// The frame that half-closes a stream is a window update of no credit, on
/// the stream's own id, with FIN set and the given flags kept.
pub proof fn lemma_close_frame_names_its_stream(bits: u16, id: StreamId)
    ensures
        close_frame_view(bits, id).header.ty == Type::WindowUpdate,
        close_frame_view(bits, id).header.stream_id == id,
        close_frame_view(bits, id).header.length == 0,
        bits_have(close_frame_view(bits, id).header.flags, fin_bit()),
        bits_have(close_frame_view(bits, id).header.flags, bits),
{
    let f = close_frame_view(bits, id).header.flags;
    assert(f == bits | 4u16);
    assert(bits_have(bits | 4u16, 4u16) && bits_have(bits | 4u16, bits)) by {
        assert((bits | 4u16) & 4u16 == 4u16) by (bit_vector);
        assert((bits | 4u16) & bits == bits) by (bit_vector);
    }
}

/// A data frame a stream takes in has its whole body appended to the unread
/// data, whatever flags it carries, and its length charged to the receive
/// window; nothing else of the data or the windows changes.
pub proof fn lemma_accepted_data_is_buffered(v: StreamView, f: FrameView)
    requires
        f.header.ty == Type::Data,
        frame_step(v, f).1 is Ok,
    ensures
        frame_step(v, f).0.buffered == v.buffered + match f.body {
            Some(b) => b,
            None => Seq::<u8>::empty(),
        },
        frame_step(v, f).0.recv_window == v.recv_window - f.header.length,
        frame_step(v, f).0.send_window == v.send_window,
        frame_step(v, f).0.id == v.id,
{
}

/// A window update a stream takes in adds its length to the send window
/// (wrapping at 2^32), whatever flags it carries; the unread data and the
/// receive window stay as they were.
pub proof fn lemma_window_update_adds_send_credit(v: StreamView, f: FrameView)
    requires
        f.header.ty == Type::WindowUpdate,
        frame_step(v, f).1 is Ok,
    ensures
        frame_step(v, f).0.send_window as int == (v.send_window + f.header.length) % 0x1_0000_0000,
        frame_step(v, f).0.recv_window == v.recv_window,
        frame_step(v, f).0.buffered == v.buffered,
{
}

// ------------------------------------------------------------ the stream

/// The state and windows of a stream, and its received data.
struct StreamCore {
    id: StreamId,
    state: StreamState,
    max_recv_window: u32,
    recv_window: u32,
    send_window: u32,
    data_buf: Vec<u8>,
}

impl StreamCore {
    #[verifier::type_invariant]
    closed spec fn inv(self) -> bool {
        self.recv_window + self.data_buf@.len() <= self.max_recv_window
    }
}

/// A logical stream of a session.
pub struct Stream {
    core: StreamCore,
    // Sends stream events to the parent session.
    event_sender: ChanSender<StreamEvent>,
    // Receives the frames of this stream from the parent session; once the
    // session drops its end, receiving reports the session gone.
    frame_receiver: ChanReceiver<Frame>,
}

impl View for Stream {
    type V = StreamView;

    /// `sent` is every event handed to the session's channel.
    closed spec fn view(&self) -> StreamView {
        StreamView {
            id: self.core.id,
            state: self.core.state,
            max_recv_window: self.core.max_recv_window,
            recv_window: self.core.recv_window,
            send_window: self.core.send_window,
            buffered: self.core.data_buf@,
            sent: self.event_sender.handed().map_values(|p: (StreamEvent, bool)| p.0@),
        }
    }
}

impl Stream {
    /// Every frame the stream has taken off its channel, oldest first.
    pub closed spec fn received(&self) -> Seq<FrameView> {
        self.frame_receiver.taken().map_values(|f: Frame| f@)
    }

    /// The end on which the stream hands events to its session.
    pub closed spec fn events_to(&self) -> ChanSender<StreamEvent> {
        self.event_sender
    }

    /// The end on which the stream takes its frames.
    pub closed spec fn frames_from(&self) -> ChanReceiver<Frame> {
        self.frame_receiver
    }

    /// The frames taken off the channel since `before`, oldest first.
    pub open spec fn frames_since(self, before: Stream) -> Seq<FrameView> {
        self.received().skip(before.received().len() as int)
    }

    /// The events handed to the session since `before`, with whether the
    /// channel took each.
    pub open spec fn sends_since(self, before: Stream) -> Seq<(StreamEvent, bool)> {
        self.events_to().handed().skip(before.events_to().handed().len() as int)
    }

    /// Whether the channel took every event handed to it since `before`.
    pub open spec fn all_taken_since(self, before: Stream) -> bool {
        forall|i: int| 0 <= i < self.sends_since(before).len() ==> #[trigger] self.sends_since(
            before,
        )[i].1
    }

    /// Whether `self` talks on the same channels as `before` and has taken at
    /// least the frames `before` took.
    pub open spec fn follows(self, before: Stream) -> bool {
        &&& self.events_to().channel() == before.events_to().channel()
        &&& self.frames_from().channel() == before.frames_from().channel()
        &&& before.received().len() <= self.received().len()
        &&& self.received().subrange(0, before.received().len() as int) == before.received()
    }

    /// Whether the frames taken since `before`, handled from `start`, were
    /// taken until the round was over: the channel was found empty or cut
    /// off, a frame failed, or `u64::MAX` frames were handled.
    pub open spec fn drained_since(self, before: Stream, start: StreamView) -> bool {
        ||| self.frames_from().empty_count() == before.frames_from().empty_count() + 1
        ||| self.frames_from().cut_count() == before.frames_from().cut_count() + 1
        ||| frames_step(start, self.frames_since(before)).1 is Err
        ||| self.frames_since(before).len() == u64::MAX
    }

    /// The stream once the frames taken since `before` are handled.
    pub open spec fn after_received(self, before: Stream) -> StreamView {
        frames_step(before@, self.frames_since(before)).0
    }

    /// A new stream on the two given ends.
    pub(crate) fn with_ends(
        id: StreamId,
        event_sender: ChanSender<StreamEvent>,
        frame_receiver: ChanReceiver<Frame>,
        state: StreamState,
        recv_window_size: u32,
        send_window_size: u32,
    ) -> (s: Stream)
        requires
            event_sender.handed().len() == 0,
            frame_receiver.taken().len() == 0,
        ensures
            s.received().len() == 0,
            s@ == (StreamView {
                id,
                state,
                max_recv_window: recv_window_size,
                recv_window: recv_window_size,
                send_window: send_window_size,
                buffered: Seq::empty(),
                sent: Seq::empty(),
            }),
            s.events_to() == event_sender,
            s.frames_from() == frame_receiver,
    {
        let s = Stream {
            core: StreamCore {
                id,
                state,
                max_recv_window: recv_window_size,
                recv_window: recv_window_size,
                send_window: send_window_size,
                data_buf: Vec::new(),
            },
            event_sender,
            frame_receiver,
        };
        proof {
            assert(s@.sent =~= Seq::<EventView>::empty());
        }
        s
    }

    /// A new stream, opened here (`Init`) or accepted from the remote
    /// (`SynReceived`), with full windows and nothing buffered or sent.
    pub fn new(
        id: StreamId,
        event_sender: Sender<StreamEvent>,
        frame_receiver: Receiver<Frame>,
        state: StreamState,
        recv_window_size: u32,
        send_window_size: u32,
    ) -> (s: Stream)
        requires
            state == StreamState::Init || state == StreamState::SynReceived,
        ensures
            s@ == (StreamView {
                id,
                state,
                max_recv_window: recv_window_size,
                recv_window: recv_window_size,
                send_window: send_window_size,
                buffered: Seq::empty(),
                sent: Seq::empty(),
            }),
            s.received() =~= Seq::<FrameView>::empty(),
            s.events_to().handed().len() == 0,
            s.frames_from().cut_count() == 0,
    {
        Stream::with_ends(
            id,
            ChanSender::wrap(event_sender),
            ChanReceiver::wrap(frame_receiver),
            state,
            recv_window_size,
            send_window_size,
        )
    }

    /// The stream's id.
    pub fn id(&self) -> (r: StreamId)
        ensures
            r == self@.id,
    {
        self.core.id
    }

    /// The stream's state.
    pub fn state(&self) -> (r: StreamState)
        ensures
            r == self@.state,
    {
        self.core.state
    }

    /// What is left of the receive window.
    pub fn recv_window(&self) -> (r: u32)
        ensures
            r == self@.recv_window,
    {
        self.core.recv_window
    }

    /// What is left of the send window.
    pub fn send_window(&self) -> (r: u32)
        ensures
            r == self@.send_window,
    {
        self.core.send_window
    }

    /// Hands `event` to the session's channel; fails exactly when the channel
    /// did not take it (the session is gone).
    fn send_event(&mut self, event: StreamEvent) -> (r: Result<(), Error>)
        ensures
            final(self)@ == with_event(old(self)@, event@),
            final(self).received() == old(self).received(),
            final(self).events_to().channel() == old(self).events_to().channel(),
            final(self).frames_from() == old(self).frames_from(),
            final(self).events_to().handed() == old(self).events_to().handed().push(
                (event, r is Ok),
            ),
            r is Err ==> r == Err::<(), Error>(Error::SessionShutdown),
    {
        let ghost e = event;
        let taken = self.event_sender.send(event);
        proof {
            assert(self@.sent =~= old(self)@.sent.push(e@));
        }
        if taken {
            Ok(())
        } else {
            Err(Error::SessionShutdown)
        }
    }

    /// Hands a frame to the session, to be written.
    fn send_frame(&mut self, frame: Frame) -> (r: Result<(), Error>)
        ensures
            final(self)@ == with_event(old(self)@, EventView::SendFrame(frame@)),
            final(self).received() == old(self).received(),
            final(self).events_to().channel() == old(self).events_to().channel(),
            final(self).frames_from() == old(self).frames_from(),
            final(self).events_to().handed().len() == old(self).events_to().handed().len() + 1,
            final(self).events_to().handed().drop_last() == old(self).events_to().handed(),
            final(self).events_to().handed().last().1 == r is Ok,
            r is Err ==> r == Err::<(), Error>(Error::SessionShutdown),
    {
        let event = StreamEvent::SendFrame(frame);
        self.send_event(event)
    }

    /// Picks the flags of the next outgoing frame, and moves the state on.
    fn get_flags(&mut self) -> (f: Flags)
        ensures
            f@ == outgoing_flags(old(self)@.state).1,
            final(self)@ == with_state(old(self)@, outgoing_flags(old(self)@.state).0),
            final(self).received() == old(self).received(),
            final(self).events_to() == old(self).events_to(),
            final(self).frames_from() == old(self).frames_from(),
    {
        proof {
            use_type_invariant(&self.core);
        }
        match self.core.state {
            StreamState::Init => {
                self.core.state = StreamState::SynSent;
                Flags::from(Flag::Syn)
            },
            StreamState::SynReceived => {
                self.core.state = StreamState::Established;
                Flags::from(Flag::Ack)
            },
            _ => Flags::default(),
        }
    }

    /// Tells the session that the stream is established, when the frame just
    /// sent from state `was` carried the ACK of an accepted opening.
    fn announce_established(&mut self, was: StreamState) -> (r: Result<(), Error>)
        ensures
            final(self)@ == announced(old(self)@, was),
            was == StreamState::SynReceived ==> {
                &&& final(self).events_to().handed().len() == old(self).events_to().handed().len() + 1
                &&& final(self).events_to().handed().drop_last() == old(self).events_to().handed()
                &&& final(self).events_to().handed().last().1 == r is Ok
            },
            was != StreamState::SynReceived ==> final(self).events_to() == old(self).events_to()
                && r is Ok,
            r is Err ==> r == Err::<(), Error>(Error::SessionShutdown),
            final(self).received() == old(self).received(),
            final(self).events_to().channel() == old(self).events_to().channel(),
            final(self).frames_from() == old(self).frames_from(),
    {
        if was == StreamState::SynReceived {
            let event = StreamEvent::StateChanged((self.core.id, StreamState::Established));
            self.send_event(event)
        } else {
            Ok(())
        }
    }

    /// Applies the flags of an incoming frame.
    fn process_flags(&mut self, flags: Flags) -> (r: Result<(), Error>)
        ensures
            (final(self)@, r) == flags_step(old(self)@, flags@),
            final(self).received() == old(self).received(),
            final(self).events_to().channel() == old(self).events_to().channel(),
            final(self).frames_from() == old(self).frames_from(),
    {
        proof {
            use_type_invariant(&self.core);
        }
        if flags.has(Flag::Ack) {
            if self.core.state == StreamState::SynSent {
                self.core.state = StreamState::SynReceived;
            }
        }
        let mut close_stream = false;
        if flags.has(Flag::Fin) {
            match self.core.state {
                StreamState::Init
                | StreamState::SynSent
                | StreamState::SynReceived
                | StreamState::Established => {
                    self.core.state = StreamState::RemoteClosing;
                },
                StreamState::LocalClosing => {
                    self.core.state = StreamState::Closed;
                    close_stream = true;
                },
                _ => return Err(Error::UnexpectedFlag),
            }
        }
        if flags.has(Flag::Rst) {
            self.core.state = StreamState::Reset;
            close_stream = true;
        }
        if close_stream {
            let event = StreamEvent::StateChanged((self.core.id, self.core.state));
            let _ = self.send_event(event);
        }
        Ok(())
    }

    /// Sends a half-close: a window update of 0 with FIN.
    fn send_close(&mut self) -> (r: Result<(), Error>)
        ensures
            final(self)@ == with_event(
                with_state(old(self)@, outgoing_flags(old(self)@.state).0),
                EventView::SendFrame(close_frame_view(outgoing_flags(old(self)@.state).1, old(self)@.id)),
            ),
            final(self).received() == old(self).received(),
            final(self).events_to().channel() == old(self).events_to().channel(),
            final(self).frames_from() == old(self).frames_from(),
            final(self).events_to().handed().len() == old(self).events_to().handed().len() + 1,
            final(self).events_to().handed().drop_last() == old(self).events_to().handed(),
            final(self).events_to().handed().last().1 == r is Ok,
            r is Err ==> r == Err::<(), Error>(Error::SessionShutdown),
    {
        let mut flags = self.get_flags();
        flags.add(Flag::Fin);
        let frame = Frame::new_window_update(flags, self.core.id, 0);
        self.send_frame(frame)
    }

    /// Closes the stream from this side. An opening or open stream becomes
    /// `LocalClosing`; a stream the remote already closed becomes `Closed`, and
    /// the session is told. Both send a FIN. Any other state is left as it is.
    /// Fails exactly when the session's channel refused an event, which ends
    /// the sending.
    pub fn close(&mut self) -> (r: Result<(), Error>)
        ensures
            closes_locally(old(self)@.state) ==> final(self)@ == with_event(
                with_state(old(self)@, StreamState::LocalClosing),
                EventView::SendFrame(close_frame_view(0, old(self)@.id)),
            ),
            old(self)@.state == StreamState::RemoteClosing ==> {
                let w = with_event(
                    with_state(old(self)@, StreamState::Closed),
                    EventView::SendFrame(close_frame_view(0, old(self)@.id)),
                );
                let done = with_event(w, EventView::StateChanged(old(self)@.id, StreamState::Closed));
                &&& r is Ok ==> final(self)@ == done
                &&& r is Err ==> (final(self)@ == w || final(self)@ == done)
            },
            !closes_locally(old(self)@.state) && old(self)@.state != StreamState::RemoteClosing
                ==> final(self)@ == old(self)@ && r is Ok,
            r is Ok <==> final(self).all_taken_since(*old(self)),
            r is Err ==> r == Err::<(), Error>(Error::SessionShutdown),
            window_ok(final(self)@),
            final(self).received() == old(self).received(),
            final(self).events_to().channel() == old(self).events_to().channel(),
            final(self).frames_from() == old(self).frames_from(),
    {
        proof {
            use_type_invariant(&self.core);
        }
        let ghost h0 = self.events_to().handed();
        match self.core.state {
            StreamState::SynSent | StreamState::SynReceived | StreamState::Established => {
                self.core.state = StreamState::LocalClosing;
                let r = self.send_close();
                proof {
                    assert(self.sends_since(*old(self)) =~= seq![self.events_to().handed().last()]);
                    assert(self.sends_since(*old(self))[0] == self.events_to().handed().last());
                }
                r?;
            },
            StreamState::RemoteClosing => {
                self.core.state = StreamState::Closed;
                let r = self.send_close();
                let ghost h1 = self.events_to().handed();
                proof {
                    assert(self.sends_since(*old(self)) =~= seq![h1.last()]);
                    assert(self.sends_since(*old(self))[0] == h1.last());
                }
                r?;
                let event = StreamEvent::StateChanged((self.core.id, self.core.state));
                let r = self.send_event(event);
                proof {
                    let ss = self.sends_since(*old(self));
                    assert(ss =~= seq![h1.last(), self.events_to().handed().last()]);
                    assert(ss[0] == h1.last() && ss[1] == self.events_to().handed().last());
                    assert(ss[0].1);
                    assert(ss[1].1 == (r is Ok));
                    if r is Ok {
                        assert forall|i: int| 0 <= i < ss.len() implies #[trigger] ss[i].1 by {
                            if i == 0 {
                            } else {
                                assert(i == 1);
                            }
                        }
                    }
                }
                r?;
            },
            _ => {
                proof {
                    assert(self.sends_since(*old(self)) =~= Seq::<(StreamEvent, bool)>::empty());
                }
            },
        }
        proof {
            use_type_invariant(&self.core);
        }
        Ok(())
    }

    /// Grants the remote the receive credit the stream can take again: the
    /// window is refilled to its maximum less the buffered data. The update is
    /// left out when the credit is under half the maximum window and the frame
    /// would carry no flag. Fails only when the session is gone.
    pub fn send_window_update(&mut self) -> (r: Result<(), Error>)
        ensures
            final(self)@ == window_update_view(old(self)@),
            r is Err ==> r == Err::<(), Error>(Error::SessionShutdown) && !window_update_omitted(
                old(self)@,
            ),
            r is Ok <==> final(self).all_taken_since(*old(self)),
            window_ok(final(self)@),
            final(self).received() == old(self).received(),
            final(self).events_to().channel() == old(self).events_to().channel(),
            final(self).frames_from() == old(self).frames_from(),
    {
        proof {
            use_type_invariant(&self.core);
        }
        let buf_len = self.core.data_buf.len() as u32;
        let delta = self.core.max_recv_window - buf_len - self.core.recv_window;
        // Check if we can omit the update
        let was = self.core.state;
        let flags = self.get_flags();
        if delta < (self.core.max_recv_window / 2) && flags.value() == 0 {
            proof {
                assert(self.sends_since(*old(self)) =~= Seq::<(StreamEvent, bool)>::empty());
            }
            return Ok(());
        }
        // Update our window
        self.core.recv_window = self.core.recv_window + delta;
        let frame = Frame::new_window_update(flags, self.core.id, delta);
        let sent = self.send_frame(frame);
        let ghost h1 = self.events_to().handed();
        let announced = self.announce_established(was);
        proof {
            use_type_invariant(&self.core);
            self.lemma_sends_of_one_frame(*old(self), h1, was, sent, announced);
        }
        if sent.is_err() {
            sent
        } else {
            announced
        }
    }

    /// What the sends of one outgoing frame add up to: the frame, then, when
    /// it carried the ACK of an accepted opening, the announcement.
    proof fn lemma_sends_of_one_frame(
        self,
        before: Stream,
        h1: Seq<(StreamEvent, bool)>,
        was: StreamState,
        sent: Result<(), Error>,
        announced: Result<(), Error>,
    )
        requires
            h1.len() == before.events_to().handed().len() + 1,
            h1.drop_last() == before.events_to().handed(),
            h1.last().1 == sent is Ok,
            was == StreamState::SynReceived ==> {
                &&& self.events_to().handed().len() == h1.len() + 1
                &&& self.events_to().handed().drop_last() == h1
                &&& self.events_to().handed().last().1 == announced is Ok
            },
            was != StreamState::SynReceived ==> self.events_to().handed() == h1 && announced is Ok,
        ensures
            self.all_taken_since(before) <==> (sent is Ok && announced is Ok),
    {
        let h0 = before.events_to().handed();
        let ss = self.sends_since(before);
        if was == StreamState::SynReceived {
            assert(ss =~= seq![h1.last(), self.events_to().handed().last()]);
            assert(ss[0] == h1.last() && ss[1] == self.events_to().handed().last());
            if sent is Ok && announced is Ok {
                assert forall|i: int| 0 <= i < ss.len() implies #[trigger] ss[i].1 by {
                    if i == 0 {
                    } else {
                        assert(i == 1);
                    }
                }
            }
        } else {
            assert(ss =~= seq![h1.last()]);
            assert(ss[0] == h1.last());
        }
    }

    /// Sends `data` in one data frame.
    fn send_data(&mut self, data: &[u8]) -> (r: Result<(), Error>)
        requires
            data@.len() <= u32::MAX,
        ensures
            final(self)@ == data_view(old(self)@, data@),
            final(self).received() == old(self).received(),
            final(self).events_to().channel() == old(self).events_to().channel(),
            final(self).frames_from() == old(self).frames_from(),
            r is Err ==> r == Err::<(), Error>(Error::SessionShutdown),
    {
        let was = self.core.state;
        let flags = self.get_flags();
        let frame = Frame::new_data(flags, self.core.id, vstd::slice::slice_to_vec(data));
        let sent = self.send_frame(frame);
        let announced = self.announce_established(was);
        if sent.is_err() {
            sent
        } else {
            announced
        }
    }

    /// Handles a frame the session forwarded to this stream: window updates
    /// and data are taken in, any other type is refused.
    pub fn handle_frame(&mut self, frame: Frame) -> (r: Result<(), Error>)
        ensures
            (final(self)@, r) == frame_step(old(self)@, frame@),
            window_ok(final(self)@),
            final(self).received() == old(self).received(),
            final(self).events_to().channel() == old(self).events_to().channel(),
            final(self).frames_from() == old(self).frames_from(),
    {
        let r = match frame.ty() {
            Type::WindowUpdate => self.handle_window_update(frame),
            Type::Data => self.handle_data(frame),
            _ => Err(Error::InvalidMsgType),
        };
        proof {
            use_type_invariant(&self.core);
        }
        r
    }

    fn handle_window_update(&mut self, frame: Frame) -> (r: Result<(), Error>)
        requires
            frame@.header.ty == Type::WindowUpdate,
        ensures
            (final(self)@, r) == frame_step(old(self)@, frame@),
            final(self).received() == old(self).received(),
            final(self).events_to().channel() == old(self).events_to().channel(),
            final(self).frames_from() == old(self).frames_from(),
    {
        self.process_flags(frame.flags())?;
        proof {
            use_type_invariant(&self.core);
        }
        self.core.send_window = self.core.send_window.wrapping_add(frame.length());
        Ok(())
    }

    /// Takes in a data frame: refused when it does not fit the receive window,
    /// or when its body is longer than its length field. The window is
    /// charged by the length field, so such a body would leave more data
    /// buffered than the window allows, and the next window update's credit
    /// (the maximum less the window and the buffered data) would fall below
    /// zero; refusing the frame keeps that credit defined (see `frame_step`).
    fn handle_data(&mut self, frame: Frame) -> (r: Result<(), Error>)
        requires
            frame@.header.ty == Type::Data,
        ensures
            (final(self)@, r) == frame_step(old(self)@, frame@),
            final(self).received() == old(self).received(),
            final(self).events_to().channel() == old(self).events_to().channel(),
            final(self).frames_from() == old(self).frames_from(),
    {
        self.process_flags(frame.flags())?;
        proof {
            use_type_invariant(&self.core);
        }
        let length = frame.length();
        if length > self.core.recv_window {
            return Err(Error::RecvWindowExceeded);
        }
        let (_, body) = frame.into_parts();
        match body {
            Some(data) => {
                if data.len() > length as usize {
                    return Err(Error::RecvWindowExceeded);
                }
                self.core.recv_window = self.core.recv_window - length;
                let mut data = data;
                let mut buffered = Vec::new();
                std::mem::swap(&mut self.core.data_buf, &mut buffered);
                buffered.append(&mut data);
                self.core.data_buf = buffered;
            },
            None => {
                self.core.recv_window = self.core.recv_window - length;
            },
        }
        Ok(())
    }

    /// Takes in one outcome of receiving from the frame channel: a frame is
    /// handled (`Ok(true)` to go on, or its error); an empty channel ends the
    /// round (`Ok(false)`); a channel whose sender is gone means the session
    /// is gone.
    fn on_receive(&mut self, outcome: TryRecv<Frame>) -> (r: Result<bool, Error>)
        ensures
            match outcome {
                TryRecv::Msg(f) => final(self)@ == frame_step(old(self)@, f@).0 && r == (match frame_step(
                    old(self)@,
                    f@,
                ).1 {
                    Ok(_) => Ok::<bool, Error>(true),
                    Err(e) => Err::<bool, Error>(e),
                }),
                TryRecv::Empty => final(self)@ == old(self)@ && r == Ok::<bool, Error>(false),
                TryRecv::Disconnected => final(self)@ == old(self)@ && r == Err::<bool, Error>(
                    Error::SessionShutdown,
                ),
            },
            final(self).received() == old(self).received(),
            final(self).events_to().channel() == old(self).events_to().channel(),
            final(self).frames_from() == old(self).frames_from(),
    {
        match outcome {
            TryRecv::Msg(frame) => {
                match self.handle_frame(frame) {
                    Ok(()) => Ok(true),
                    Err(e) => Err(e),
                }
            },
            TryRecv::Empty => Ok(false),
            TryRecv::Disconnected => Err(Error::SessionShutdown),
        }
    }

    /// Handles the frames waiting on the channel, one at a time, until the
    /// channel is found empty; stops at the first error, taking no frame
    /// after the one that failed. `Ok` means the channel was found empty (or
    /// that `u64::MAX` frames were handled in this one call, where the count
    /// ends); `Err(SessionShutdown)` comes exactly when the channel was found
    /// cut off (the session dropped its end).
    fn recv_frames(&mut self) -> (r: Result<(), Error>)
        ensures
            final(self).follows(*old(self)),
            final(self)@ == final(self).after_received(*old(self)),
            final(self)@.id == old(self)@.id,
            final(self)@.max_recv_window == old(self)@.max_recv_window,
            final(self).frames_since(*old(self)).len() > 0 ==> frames_step(
                old(self)@,
                final(self).frames_since(*old(self)).drop_last(),
            ).1 is Ok,
            frames_step(old(self)@, final(self).frames_since(*old(self))).1 is Err ==> r
                == frames_step(old(self)@, final(self).frames_since(*old(self))).1,
            r is Err ==> r == frames_step(old(self)@, final(self).frames_since(*old(self))).1
                || r == Err::<(), Error>(Error::SessionShutdown),
            r is Ok ==> final(self).frames_from().empty_count() == old(self).frames_from().empty_count() + 1
                || final(self).frames_since(*old(self)).len() == u64::MAX,
            final(self).frames_from().empty_count() <= old(self).frames_from().empty_count() + 1,
            final(self).frames_from().empty_count() == old(self).frames_from().empty_count() + 1
                ==> r is Ok,
            final(self).frames_from().cut_count() <= old(self).frames_from().cut_count() + 1,
            final(self).frames_from().cut_count() == old(self).frames_from().cut_count() + 1
                <==> r == Err::<(), Error>(Error::SessionShutdown),
            final(self).drained_since(*old(self), old(self)@),
            window_ok(final(self)@),
    {
        let ghost start = *self;
        let mut count: u64 = 0;
        proof {
            assert(self.received().skip(start.received().len() as int) =~= Seq::<FrameView>::empty());
            assert(self.received().subrange(0, start.received().len() as int) =~= start.received());
        }
        loop
            invariant
                start == *old(self),
                self.follows(start),
                self@.id == start@.id,
                self@.max_recv_window == start@.max_recv_window,
                self.frames_from().cut_count() == start.frames_from().cut_count(),
                self.frames_from().empty_count() == start.frames_from().empty_count(),
                self.frames_since(start).len() == count,
                (self@, Ok::<(), Error>(())) == frames_step(start@, self.frames_since(start)),
            decreases u64::MAX - count,
        {
            proof {
                use_type_invariant(&self.core);
            }
            if count == u64::MAX {
                return Ok(());
            }
            let ghost before = self.received();
            let outcome = self.frame_receiver.try_recv();
            let ghost o = outcome;
            proof {
                let n = start.received().len() as int;
                match o {
                    TryRecv::Msg(f) => {
                        assert(self.received() =~= before.push(f@));
                        assert(self.received().skip(n).drop_last() =~= before.skip(n));
                        assert(self.received().skip(n).last() == f@);
                        assert(self.received().subrange(0, n) =~= before.subrange(0, n));
                    },
                    _ => {
                        assert(self.received() =~= before);
                    },
                }
            }
            let go = self.on_receive(outcome)?;
            if !go {
                return Ok(());
            }
            count = count + 1;
        }
    }

    /// Reads buffered data into `buf`, after taking in the frames waiting on
    /// the channel: as many bytes as both hold, from the front of the buffer.
    /// Then grants the freed credit back (see `send_window_update`). Errors of
    /// the two steps are not reported.
    pub fn read(&mut self, buf: &mut [u8]) -> (n: usize)
        ensures
            final(self).follows(*old(self)),
            ({
                let mid = final(self).after_received(*old(self));
                &&& n == (if old(buf)@.len() < mid.buffered.len() {
                    old(buf)@.len()
                } else {
                    mid.buffered.len() as nat
                })
                &&& final(buf)@.len() == old(buf)@.len()
                &&& final(buf)@.subrange(0, n as int) == mid.buffered.subrange(0, n as int)
                &&& final(buf)@.subrange(n as int, old(buf)@.len() as int) == old(buf)@.subrange(
                    n as int,
                    old(buf)@.len() as int,
                )
                &&& final(self)@ == window_update_view(
                    StreamView { buffered: mid.buffered.skip(n as int), ..mid },
                )
            }),
            final(self).drained_since(*old(self), old(self)@),
            window_ok(final(self)@),
    {
        let _ = self.recv_frames();
        let ghost mid = self@;
        proof {
            use_type_invariant(&self.core);
        }
        let avail = self.core.data_buf.len();
        let n = if buf.len() < avail {
            buf.len()
        } else {
            avail
        };
        let mut head = Vec::new();
        std::mem::swap(&mut self.core.data_buf, &mut head);
        let rest = head.split_off(n);
        self.core.data_buf = rest;
        let ghost old_buf = buf@;
        let mut i: usize = 0;
        while i < n
            invariant
                i <= n,
                n <= buf@.len(),
                buf@.len() == old_buf.len(),
                n <= mid.buffered.len(),
                head@.len() == n,
                head@ == mid.buffered.subrange(0, n as int),
                forall|j: int| 0 <= j < i ==> buf@[j] == head@[j],
                forall|j: int| i <= j < buf@.len() ==> buf@[j] == old_buf[j],
            decreases n - i,
        {
            buf[i] = head[i];
            i = i + 1;
        }
        proof {
            assert(buf@.subrange(0, n as int) =~= mid.buffered.subrange(0, n as int));
            assert(buf@.subrange(n as int, buf@.len() as int) =~= old_buf.subrange(
                n as int,
                old_buf.len() as int,
            ));
            assert(self@ =~= StreamView { buffered: mid.buffered.skip(n as int), ..mid });
        }
        let _ = self.send_window_update();
        n
    }

    /// Writes from `buf`, after taking in the frames waiting on the channel.
    /// With no send credit left, nothing is written (`None`: try again
    /// later). Otherwise as many bytes as the credit allows go out in one data
    /// frame and use up that credit. Errors of the two steps are not reported.
    pub fn write(&mut self, buf: &[u8]) -> (r: Option<usize>)
        ensures
            final(self).follows(*old(self)),
            ({
                let mid = final(self).after_received(*old(self));
                &&& mid.send_window == 0 ==> r is None && final(self)@ == mid
                &&& mid.send_window != 0 ==> {
                    let n = if mid.send_window < buf@.len() {
                        mid.send_window as int
                    } else {
                        buf@.len() as int
                    };
                    let w = data_view(mid, buf@.subrange(0, n));
                    &&& r == Some(n as usize)
                    &&& final(self)@ == StreamView { send_window: (w.send_window - n) as u32, ..w }
                }
            }),
            final(self).drained_since(*old(self), old(self)@),
            window_ok(final(self)@),
    {
        let _ = self.recv_frames();
        proof {
            use_type_invariant(&self.core);
        }
        if self.core.send_window == 0 {
            return None;
        }
        let n = if (self.core.send_window as usize) < buf.len() {
            self.core.send_window as usize
        } else {
            buf.len()
        };
        let data = vstd::slice::slice_subrange(buf, 0, n);
        let _ = self.send_data(data);
        self.core.send_window = self.core.send_window - n as u32;
        Some(n)
    }

    /// Asks the session to flush this stream's frames to the remote, after
    /// taking in the frames waiting on the channel, and waits for the answer.
    /// Fails exactly when the session's channel did not take the request.
    pub fn flush(&mut self) -> (r: Result<(), Error>)
        ensures
            final(self).follows(*old(self)),
            final(self)@ == with_event(
                final(self).after_received(*old(self)),
                EventView::Flush(old(self)@.id),
            ),
            r is Ok <==> final(self).events_to().handed().last().1,
            r is Err ==> r == Err::<(), Error>(Error::SessionShutdown),
            final(self).drained_since(*old(self), old(self)@),
            window_ok(final(self)@),
    {
        let _ = self.recv_frames();
        let ghost mid = *self;
        let (sender, mut receiver) = bounded::<()>(1);
        let event = StreamEvent::Flush((self.core.id, sender.into_inner()));
        let r = match self.send_event(event) {
            Err(e) => Err(e),
            Ok(()) => {
                let _ = receiver.recv();
                Ok(())
            },
        };
        proof {
            use_type_invariant(&self.core);
            assert(self.frames_since(*old(self)) == mid.frames_since(*old(self)));
        }
        r
    }

    /// Resets the stream: sends RST, then takes in the frames waiting on the
    /// channel.
    pub fn shutdown(&mut self)
        ensures
            final(self).follows(*old(self)),
            final(self)@ == frames_step(
                with_event(
                    old(self)@,
                    EventView::SendFrame(frame_view(Type::WindowUpdate, rst_bit(), old(self)@.id, 0)),
                ),
                final(self).frames_since(*old(self)),
            ).0,
            final(self).drained_since(
                *old(self),
                with_event(
                    old(self)@,
                    EventView::SendFrame(frame_view(Type::WindowUpdate, rst_bit(), old(self)@.id, 0)),
                ),
            ),
            window_ok(final(self)@),
    {
        let frame = Frame::new_window_update(Flags::from(Flag::Rst), self.core.id, 0);
        let _ = self.send_frame(frame);
        let _ = self.recv_frames();
    }
}

} // verus!
