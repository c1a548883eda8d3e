//! The channels that connect a session with its streams, from
//! `crossbeam-channel`. Each end keeps a record, written only here, of what
//! went through it: a sending end records every message handed to it and
//! whether the channel took it; a receiving end records every message taken
//! off it, how often it found the channel empty and how often it found every
//! sender gone. Both ends of one channel carry the same channel identity.
//! What comes out of a channel, and whether a send succeeds, depends on
//! other threads: nothing here says which.
use vstd::prelude::*;
use crossbeam_channel::{Receiver, Sender};

verus! {

/// `crossbeam_channel::Sender`: the sending end of a channel.
#[verifier::external_type_specification]
#[verifier::external_body]
#[verifier::reject_recursive_types(T)]
pub struct ExSender<T>(crossbeam_channel::Sender<T>);

/// `crossbeam_channel::Receiver`: the receiving end of a channel.
#[verifier::external_type_specification]
#[verifier::external_body]
#[verifier::reject_recursive_types(T)]
pub struct ExReceiver<T>(crossbeam_channel::Receiver<T>);

/// What an attempt to receive without blocking gave.
pub enum TryRecv<T> {
    /// A message was taken off the channel.
    Msg(T),
    /// The channel holds no message right now.
    Empty,
    /// The channel holds no message and every sender is gone.
    Disconnected,
}

/// The sending end of a channel, with the record of what it was handed.
#[verifier::reject_recursive_types(T)]
pub struct ChanSender<T> {
    inner: Sender<T>,
    chan: Ghost<int>,
    handed: Ghost<Seq<(T, bool)>>,
    waits: Ghost<nat>,
}

/// The receiving end of a channel, with the record of what it took.
#[verifier::reject_recursive_types(T)]
pub struct ChanReceiver<T> {
    inner: Receiver<T>,
    chan: Ghost<int>,
    taken: Ghost<Seq<T>>,
    cut: Ghost<nat>,
    empty: Ghost<nat>,
}

impl<T> ChanSender<T> {
    /// The channel this end sends into.
    pub closed spec fn channel(&self) -> int {
        self.chan@
    }

    /// Every message handed to this end, oldest first, with whether the
    /// channel took it.
    pub closed spec fn handed(&self) -> Seq<(T, bool)> {
        self.handed@
    }

    /// How many messages were handed to this end by a call that waits while
    /// the channel is full (`send`); `try_send` never waits.
    pub closed spec fn blocking_sends(&self) -> nat {
        self.waits@
    }

    /// Wraps the sending end `inner` of some channel; nothing handed yet.
    #[verifier::external_body]
    pub(crate) fn wrap(inner: Sender<T>) -> (s: ChanSender<T>)
        ensures
            s.handed().len() == 0,
            s.blocking_sends() == 0,
    {
        ChanSender { inner, chan: Ghost(arbitrary()), handed: Ghost(Seq::empty()), waits: Ghost(0) }
    }

    /// Calls `Sender::send`: blocks while the channel is full, and gives
    /// `true` once `msg` is in the channel, `false` when every receiver is
    /// gone. Which of the two comes depends on the other end; either way the
    /// message is recorded as handed to this end, with the outcome.
    #[verifier::external_body]
    pub(crate) fn send(&mut self, msg: T) -> (r: bool)
        ensures
            final(self).channel() == old(self).channel(),
            final(self).handed() == old(self).handed().push((msg, r)),
            final(self).blocking_sends() == old(self).blocking_sends() + 1,
    {
        self.inner.send(msg).is_ok()
    }

    /// Calls `Sender::try_send`: gives `true` when `msg` was put in the
    /// channel, `false` when the channel was full or every receiver is gone.
    /// Which depends on the other end; either way the message is recorded as
    /// handed to this end, with the outcome.
    #[verifier::external_body]
    pub(crate) fn try_send(&mut self, msg: T) -> (r: bool)
        ensures
            final(self).channel() == old(self).channel(),
            final(self).handed() == old(self).handed().push((msg, r)),
            final(self).blocking_sends() == old(self).blocking_sends(),
    {
        self.inner.try_send(msg).is_ok()
    }

    /// Calls `Sender::clone`: another sending end of the same channel.
    #[verifier::external_body]
    pub(crate) fn clone_end(&self) -> (c: ChanSender<T>)
        ensures
            c.channel() == self.channel(),
            c.handed().len() == 0,
            c.blocking_sends() == 0,
    {
        ChanSender {
            inner: self.inner.clone(),
            chan: Ghost(self.chan@),
            handed: Ghost(Seq::empty()),
            waits: Ghost(0),
        }
    }

    /// Gives up the record and hands out the plain sending end.
    #[verifier::external_body]
    pub(crate) fn into_inner(self) -> Sender<T> {
        self.inner
    }
}

impl<T> ChanReceiver<T> {
    /// The channel this end receives from.
    pub closed spec fn channel(&self) -> int {
        self.chan@
    }

    /// Every message taken off this end, oldest first.
    pub closed spec fn taken(&self) -> Seq<T> {
        self.taken@
    }

    /// How often this end found the channel empty with every sender gone.
    pub closed spec fn cut_count(&self) -> nat {
        self.cut@
    }

    /// How often this end found the channel empty with a sender still there.
    pub closed spec fn empty_count(&self) -> nat {
        self.empty@
    }

    /// Wraps the receiving end `inner` of some channel; nothing taken yet.
    #[verifier::external_body]
    pub(crate) fn wrap(inner: Receiver<T>) -> (r: ChanReceiver<T>)
        ensures
            r.taken().len() == 0,
            r.cut_count() == 0,
            r.empty_count() == 0,
    {
        ChanReceiver {
            inner,
            chan: Ghost(arbitrary()),
            taken: Ghost(Seq::empty()),
            cut: Ghost(0),
            empty: Ghost(0),
        }
    }

    /// Calls `Receiver::try_recv` and tells its three outcomes apart; a
    /// message taken is recorded, and so is a channel found empty or cut
    /// off. Which outcome comes depends on the other threads.
    #[verifier::external_body]
    pub(crate) fn try_recv(&mut self) -> (r: TryRecv<T>)
        ensures
            final(self).channel() == old(self).channel(),
            match r {
                TryRecv::Msg(m) => final(self).taken() == old(self).taken().push(m)
                    && final(self).cut_count() == old(self).cut_count()
                    && final(self).empty_count() == old(self).empty_count(),
                TryRecv::Empty => final(self).taken() == old(self).taken()
                    && final(self).cut_count() == old(self).cut_count()
                    && final(self).empty_count() == old(self).empty_count() + 1,
                TryRecv::Disconnected => final(self).taken() == old(self).taken()
                    && final(self).cut_count() == old(self).cut_count() + 1
                    && final(self).empty_count() == old(self).empty_count(),
            },
    {
        match self.inner.try_recv() {
            Ok(msg) => TryRecv::Msg(msg),
            Err(crossbeam_channel::TryRecvError::Empty) => TryRecv::Empty,
            Err(crossbeam_channel::TryRecvError::Disconnected) => TryRecv::Disconnected,
        }
    }

    /// Calls `Receiver::recv`: blocks until a message comes (`true`, and it is
    /// recorded as taken) or every sender is gone (`false`, recorded as cut).
    #[verifier::external_body]
    pub(crate) fn recv(&mut self) -> (r: bool)
        ensures
            final(self).channel() == old(self).channel(),
            r ==> final(self).taken().len() == old(self).taken().len() + 1
                && final(self).taken().drop_last() == old(self).taken()
                && final(self).cut_count() == old(self).cut_count(),
            !r ==> final(self).taken() == old(self).taken() && final(self).cut_count()
                == old(self).cut_count() + 1,
            final(self).empty_count() == old(self).empty_count(),
    {
        self.inner.recv().is_ok()
    }
}

/// Calls `crossbeam_channel::bounded(cap)`: a new channel that holds at
/// most `cap` messages; its two ends, with nothing through them yet.
#[verifier::external_body]
pub(crate) fn bounded<T>(cap: usize) -> (ends: (ChanSender<T>, ChanReceiver<T>))
    ensures
        ends.0.channel() == ends.1.channel(),
        ends.0.handed().len() == 0,
        ends.0.blocking_sends() == 0,
        ends.1.taken().len() == 0,
        ends.1.cut_count() == 0,
        ends.1.empty_count() == 0,
{
    let (s, r) = crossbeam_channel::bounded(cap);
    let chan: Ghost<int> = Ghost(arbitrary());
    (
        ChanSender { inner: s, chan, handed: Ghost(Seq::empty()), waits: Ghost(0) },
        ChanReceiver { inner: r, chan, taken: Ghost(Seq::empty()), cut: Ghost(0), empty: Ghost(0) },
    )
}

} // verus!
