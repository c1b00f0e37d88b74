//! The bounded, ordered, backpressured report queue between the
//! resolver/aggregator and the transport.
//!
//! The queue itself is `embassy_sync`'s bounded FIFO channel; this module
//! names its contents and states what each operation does to them, and
//! builds the verified producer/consumer logic on top.

use vstd::prelude::*;
use crate::report::KeyboardReportMessage;

verus! {

/// Capacity of the report channel, in messages.
pub const REPORT_CHANNEL_CAPACITY: usize = 8;

/// The report queue: a bounded FIFO of resolved report messages, the only
/// state shared between the producing and consuming execution contexts.
#[verifier::external_body]
pub struct ReportChannel {
    inner: embassy_sync::channel::Channel<
        embassy_sync::blocking_mutex::raw::CriticalSectionRawMutex,
        KeyboardReportMessage,
        8,
    >,
}

/// The messages currently queued, oldest first.
pub uninterp spec fn channel_contents(c: ReportChannel) -> Seq<KeyboardReportMessage>;

impl ReportChannel {
    /// Relies on `embassy_sync::channel::Channel::new`: a channel starts
    /// with an empty queue.
    #[verifier::external_body]
    fn new_raw() -> (r: ReportChannel)
        ensures
            channel_contents(r) == Seq::<KeyboardReportMessage>::empty(),
    {
        ReportChannel { inner: embassy_sync::channel::Channel::new() }
    }

    /// Relies on `embassy_sync::channel::Channel::try_send`: the message is
    /// pushed at the back of the queue, or returned in `TrySendError::Full`
    /// when `N` messages are already queued.
    #[verifier::external_body]
    fn try_send_raw(&mut self, m: KeyboardReportMessage) -> (accepted: bool)
        ensures
            channel_contents(*old(self)).len() < 8 ==> accepted && channel_contents(*final(self))
                == channel_contents(*old(self)).push(m),
            channel_contents(*old(self)).len() >= 8 ==> !accepted && channel_contents(
                *final(self),
            ) == channel_contents(*old(self)),
    {
        match self.inner.try_send(m) {
            Ok(()) => true,
            Err(_) => false,
        }
    }

    /// Relies on `embassy_sync::channel::Channel::try_receive`: the oldest
    /// queued message is popped from the front of the queue, or
    /// `TryReceiveError::Empty` is returned when none is queued.
    #[verifier::external_body]
    fn try_receive_raw(&mut self) -> (r: Option<KeyboardReportMessage>)
        ensures
            channel_contents(*old(self)).len() == 0 ==> r is None && channel_contents(
                *final(self),
            ) == channel_contents(*old(self)),
            channel_contents(*old(self)).len() > 0 ==> r == Some(
                channel_contents(*old(self)).first(),
            ) && channel_contents(*final(self)) == channel_contents(*old(self)).drop_first(),
    {
        match self.inner.try_receive() {
            Ok(m) => Some(m),
            Err(_) => None,
        }
    }

    /// Relies on `embassy_sync::channel::Channel::clear`: every queued
    /// message is discarded.
    #[verifier::external_body]
    fn clear_raw(&mut self)
        ensures
            channel_contents(*final(self)) == Seq::<KeyboardReportMessage>::empty(),
    {
        self.inner.clear()
    }

    /// Relies on `embassy_sync::channel::Channel::len`: the number of
    /// queued messages.
    #[verifier::external_body]
    fn len_raw(&self) -> (r: usize)
        ensures
            r == channel_contents(*self).len(),
    {
        self.inner.len()
    }

    /// A fresh, empty report channel.
    pub fn new() -> (r: ReportChannel)
        ensures
            channel_contents(r) == Seq::<KeyboardReportMessage>::empty(),
    {
        ReportChannel::new_raw()
    }

    /// Offer one message to the queue. When the channel is full nothing is
    /// enqueued and `false` comes back: the producer must hold the message
    /// and retry once the consumer has drained a slot — backpressure, never
    /// a drop.
    pub fn offer(&mut self, m: KeyboardReportMessage) -> (accepted: bool)
        ensures
            accepted == (channel_contents(*old(self)).len() < REPORT_CHANNEL_CAPACITY),
            accepted ==> channel_contents(*final(self)) == channel_contents(*old(self)).push(m),
            !accepted ==> channel_contents(*final(self)) == channel_contents(*old(self)),
    {
        self.try_send_raw(m)
    }

    /// Take the oldest queued message, if any.
    pub fn poll(&mut self) -> (r: Option<KeyboardReportMessage>)
        ensures
            channel_contents(*old(self)).len() == 0 ==> r is None && channel_contents(
                *final(self),
            ) == channel_contents(*old(self)),
            channel_contents(*old(self)).len() > 0 ==> r == Some(
                channel_contents(*old(self)).first(),
            ) && channel_contents(*final(self)) == channel_contents(*old(self)).drop_first(),
    {
        self.try_receive_raw()
    }

    /// Discard every queued message.
    pub fn clear(&mut self)
        ensures
            channel_contents(*final(self)) == Seq::<KeyboardReportMessage>::empty(),
    {
        self.clear_raw()
    }

    /// How many messages are queued.
    pub fn len(&self) -> (r: usize)
        ensures
            r == channel_contents(*self).len(),
    {
        self.len_raw()
    }
}

/// Move as many pending messages as fit from the front of `pending` into
/// the channel, preserving order and dropping none: exactly
/// `min(pending, free slots)` messages move; the rest stay pending, still
/// in order, for the producer to retry with.
pub fn pump(pending: &mut Vec<KeyboardReportMessage>, chan: &mut ReportChannel)
    ensures
        channel_contents(*final(chan)) == channel_contents(*old(chan)) + old(pending)@.take(
            moved_count(old(pending)@, channel_contents(*old(chan))),
        ),
        final(pending)@ == old(pending)@.skip(
            moved_count(old(pending)@, channel_contents(*old(chan))),
        ),
{
    let ghost mut k: int = 0;
    proof {
        assert(old(pending)@.skip(0) =~= old(pending)@);
        assert(channel_contents(*old(chan)) + old(pending)@.take(0) =~= channel_contents(
            *old(chan),
        ));
    }
    loop
        invariant
            0 <= k <= old(pending)@.len(),
            pending@ == old(pending)@.skip(k),
            channel_contents(*chan) == channel_contents(*old(chan)) + old(pending)@.take(k),
            k > 0 ==> channel_contents(*old(chan)).len() + k <= 8,
        decreases pending@.len(),
    {
        if pending.len() == 0 {
            proof {
                assert(k == old(pending)@.len());
            }
            return ;
        }
        let m = pending[0];
        let accepted = chan.offer(m);
        if !accepted {
            proof {
                assert(channel_contents(*old(chan)).len() + k >= 8);
                assert(k == moved_count(old(pending)@, channel_contents(*old(chan))));
            }
            return ;
        }
        pending.remove(0);
        proof {
            assert(m == old(pending)@[k]);
            assert(old(pending)@.take(k + 1) =~= old(pending)@.take(k).push(m));
            assert(old(pending)@.skip(k + 1) =~= old(pending)@.skip(k).drop_first());
            assert(pending@ =~= old(pending)@.skip(k + 1));
            assert(channel_contents(*chan) =~= channel_contents(*old(chan)) + old(pending)@.take(
                k + 1,
            ));
            k = k + 1;
        }
    }
}

/// How many messages `pump` moves: all of them, unless free capacity runs
/// out first.
pub open spec fn moved_count(
    pending: Seq<KeyboardReportMessage>,
    queued: Seq<KeyboardReportMessage>,
) -> int {
    if queued.len() >= 8 {
        0
    } else if pending.len() <= 8 - queued.len() {
        pending.len() as int
    } else {
        8 - queued.len()
    }
}

/// Backpressure loses nothing and keeps order: what `pump` moves into
/// the queue, followed by what stays pending for retry, is exactly the
/// original pending sequence behind the messages already queued — for
/// any interleaving, the transport sees every message once, in enqueue
/// order.
pub proof fn lemma_backpressure_no_loss(
    pending: Seq<KeyboardReportMessage>,
    queued: Seq<KeyboardReportMessage>,
)
    ensures
        (queued + pending.take(moved_count(pending, queued))) + pending.skip(
            moved_count(pending, queued),
        ) == queued + pending,
{
    let k = moved_count(pending, queued);
    assert(pending.take(k) + pending.skip(k) =~= pending);
    assert((queued + pending.take(k)) + pending.skip(k) =~= queued + (pending.take(k)
        + pending.skip(k)));
    assert((queued + pending.take(k)) + pending.skip(k) =~= queued + pending);
}

/// Receive everything currently queued, in order, leaving the channel
/// empty: what the transport sees is exactly the enqueue order.
pub fn drain(chan: &mut ReportChannel) -> (r: Vec<KeyboardReportMessage>)
    ensures
        r@ == channel_contents(*old(chan)),
        channel_contents(*final(chan)) == Seq::<KeyboardReportMessage>::empty(),
{
    let mut r: Vec<KeyboardReportMessage> = Vec::new();
    proof {
        assert(r@ + channel_contents(*chan) =~= channel_contents(*old(chan)));
    }
    loop
        invariant
            r@ + channel_contents(*chan) == channel_contents(*old(chan)),
        decreases channel_contents(*chan).len(),
    {
        match chan.poll() {
            Some(m) => {
                r.push(m);
                proof {
                    assert(r@ + channel_contents(*chan) =~= channel_contents(*old(chan)));
                }
            },
            None => {
                proof {
                    assert(r@ =~= channel_contents(*old(chan)));
                }
                return r;
            },
        }
    }
}

} // verus!
