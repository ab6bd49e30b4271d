//! The broadcast hub: one publication point, any number of subscribers.
//!
//! The hub is a `tokio::sync::broadcast` channel. Publishing never blocks and
//! never fails for want of subscribers; each subscriber has its own cursor
//! into what was published, so one that stalls loses events itself and
//! delays no one else.
//!
//! The contracts speak of a hub as the sequence of events it has accepted
//! since it was made, and of a subscriber as a cursor into that sequence.

use crate::event::{EventView, FileChangeEvent};
use tokio::sync::broadcast::error::TryRecvError;
use tokio::sync::broadcast::{Receiver, Sender};
use vstd::prelude::*;

verus! {

/// Number of in-flight events retained, at the least, for a subscriber that
/// falls behind.
pub const SUBSCRIBER_BUFFER: usize = 100;

#[verifier::external_type_specification]
#[verifier::external_body]
#[verifier::reject_recursive_types(T)]
pub struct ExSender<T>(tokio::sync::broadcast::Sender<T>);

#[verifier::external_type_specification]
#[verifier::external_body]
#[verifier::reject_recursive_types(T)]
pub struct ExReceiver<T>(tokio::sync::broadcast::Receiver<T>);

/// What a channel holds: every event it has accepted since it was made,
/// oldest first. An event sent while no receiver exists is not accepted.
pub uninterp spec fn channel_log(sender: Sender<FileChangeEvent>) -> Seq<EventView>;

/// How many of the newest accepted events a channel retains.
pub uninterp spec fn channel_retention(sender: Sender<FileChangeEvent>) -> nat;

/// Which channel a sender belongs to.
pub uninterp spec fn channel_of(sender: Sender<FileChangeEvent>) -> int;

/// Which channel a receiver belongs to.
pub uninterp spec fn receiver_channel(receiver: Receiver<FileChangeEvent>) -> int;

/// A receiver's position: the number of accepted events that lie before the
/// one it will be handed next.
pub uninterp spec fn receiver_cursor(receiver: Receiver<FileChangeEvent>) -> nat;

/// What a subscriber yields when asked for its next event.
#[derive(Clone, Debug, PartialEq, Eq)]
pub enum Delivery {
    /// The next event, in order of publication.
    Event(FileChangeEvent),
    /// Nothing is pending; more may come.
    Empty,
    /// The subscriber fell behind and missed this many events. It stays
    /// subscribed and resumes with the oldest event still retained.
    Lagged(u64),
    /// Every handle of the hub is gone and nothing is pending.
    Closed,
}

/// The mathematical content of a [`Delivery`].
pub enum DeliveryView {
    Event(EventView),
    Empty,
    Lagged(nat),
    Closed,
}

impl View for Delivery {
    type V = DeliveryView;

    open spec fn view(&self) -> DeliveryView {
        match self {
            Delivery::Event(event) => DeliveryView::Event(event@),
            Delivery::Empty => DeliveryView::Empty,
            Delivery::Lagged(missed) => DeliveryView::Lagged(*missed as nat),
            Delivery::Closed => DeliveryView::Closed,
        }
    }
}

/// What a subscriber at `cursor` is handed by a hub that has accepted `sent`
/// and retains the newest `retained` of them: nothing if it has seen them
/// all; the count of what it missed if more than `retained` lie ahead of it;
/// else the event at its cursor.
pub open spec fn next_delivery(sent: Seq<EventView>, retained: nat, cursor: nat) -> DeliveryView {
    if cursor >= sent.len() {
        DeliveryView::Empty
    } else if sent.len() - cursor > retained {
        DeliveryView::Lagged((sent.len() - retained - cursor) as nat)
    } else {
        DeliveryView::Event(sent[cursor as int])
    }
}

/// Where the subscriber's cursor stands after that delivery: unmoved if
/// nothing was pending, at the oldest retained event after a lag, else one
/// further.
pub open spec fn cursor_after(sent: Seq<EventView>, retained: nat, cursor: nat) -> nat {
    if cursor >= sent.len() {
        cursor
    } else if sent.len() - cursor > retained {
        (sent.len() - retained) as nat
    } else {
        cursor + 1
    }
}

/// Calls `tokio::sync::broadcast::channel`, which panics on a capacity of
/// zero or above `usize::MAX / 2`. The channel has accepted nothing yet; it
/// retains the capacity rounded up to a power of two; the receiver that
/// comes with it belongs to it and stands at its start.
#[verifier::external_body]
fn open_channel(capacity: usize) -> (ends: (Sender<FileChangeEvent>, Receiver<FileChangeEvent>))
    requires
        0 < capacity <= usize::MAX / 2,
    ensures
        channel_log(ends.0) == Seq::<EventView>::empty(),
        capacity <= channel_retention(ends.0) < 2 * capacity,
        receiver_channel(ends.1) == channel_of(ends.0),
        receiver_cursor(ends.1) == 0,
{
    tokio::sync::broadcast::channel(capacity)
}

/// Calls `Sender::send`, which fails only while the channel has no
/// receiver. `keeper` is a live receiver; where it belongs to the sender's
/// channel the event is therefore accepted. The result is the number of
/// receivers at that moment, the keeper included, or `None` where there was
/// none and the event was dropped. The channel is otherwise what it was.
#[verifier::external_body]
fn send_event(
    sender: &mut Sender<FileChangeEvent>,
    keeper: &Receiver<FileChangeEvent>,
    event: FileChangeEvent,
) -> (receivers: Option<usize>)
    ensures
        channel_of(*final(sender)) == channel_of(*old(sender)),
        channel_retention(*final(sender)) == channel_retention(*old(sender)),
        match receivers {
            Some(n) => n > 0 && channel_log(*final(sender)) == channel_log(*old(sender)).push(
                event@,
            ),
            None => channel_log(*final(sender)) == channel_log(*old(sender)),
        },
        receiver_channel(*keeper) == channel_of(*old(sender)) ==> receivers is Some,
{
    sender.send(event).ok()
}

/// Calls `Sender::subscribe`, which panics only when a quarter of
/// `usize::MAX` receivers exist already; so many handles cannot be held in
/// memory. The new receiver belongs to the sender's channel and stands
/// behind everything accepted so far.
#[verifier::external_body]
fn subscribe_to(sender: &Sender<FileChangeEvent>) -> (receiver: Receiver<FileChangeEvent>)
    ensures
        receiver_channel(receiver) == channel_of(*sender),
        receiver_cursor(receiver) == channel_log(*sender).len(),
{
    sender.subscribe()
}

/// Calls `Sender::receiver_count`: the number of receivers that exist at
/// this moment. `keeper` is a live receiver; where it belongs to the
/// sender's channel the number is therefore not zero. Nothing else is
/// claimed of it.
#[verifier::external_body]
fn count_receivers(sender: &Sender<FileChangeEvent>, keeper: &Receiver<FileChangeEvent>) -> (count:
    usize)
    ensures
        receiver_channel(*keeper) == channel_of(*sender) ==> count > 0,
{
    sender.receiver_count()
}

/// Calls `Receiver::try_recv` and tells its outcomes apart. `sender` is a
/// live handle of the channel, so the channel is not closed; where the
/// receiver belongs to that channel, what it is handed and where its cursor
/// moves are fixed by what the channel has accepted and retains.
#[verifier::external_body]
fn try_receive(receiver: &mut Receiver<FileChangeEvent>, sender: &Sender<FileChangeEvent>) -> (delivery:
    Delivery)
    ensures
        receiver_channel(*final(receiver)) == receiver_channel(*old(receiver)),
        receiver_channel(*old(receiver)) == channel_of(*sender) ==> {
            &&& delivery@ == next_delivery(
                channel_log(*sender),
                channel_retention(*sender),
                receiver_cursor(*old(receiver)),
            )
            &&& receiver_cursor(*final(receiver)) == cursor_after(
                channel_log(*sender),
                channel_retention(*sender),
                receiver_cursor(*old(receiver)),
            )
        },
{
    match receiver.try_recv() {
        Ok(event) => Delivery::Event(event),
        Err(TryRecvError::Empty) => Delivery::Empty,
        Err(TryRecvError::Lagged(missed)) => Delivery::Lagged(missed),
        Err(TryRecvError::Closed) => Delivery::Closed,
    }
}

/// The publication point. There is one handle of a hub; whoever holds it
/// exclusively may publish.
///
/// The hub keeps a receiver of its own, which it never reads: while it
/// lives the channel has a receiver, so no event is ever refused.
pub struct Hub {
    sender: Sender<FileChangeEvent>,
    keeper: Receiver<FileChangeEvent>,
}

/// The mathematical content of a [`Hub`].
pub struct HubView {
    /// Which hub this is.
    pub channel: int,
    /// Every event the hub has accepted, oldest first.
    pub sent: Seq<EventView>,
    /// How many of the newest accepted events are retained.
    pub retained: nat,
}

impl View for Hub {
    type V = HubView;

    closed spec fn view(&self) -> HubView {
        HubView {
            channel: channel_of(self.sender),
            sent: channel_log(self.sender),
            retained: channel_retention(self.sender),
        }
    }
}

/// A receive-only handle bound to the hub it was made by. It sees every
/// event accepted after it was made and none accepted before.
pub struct Subscriber {
    receiver: Receiver<FileChangeEvent>,
}

/// The mathematical content of a [`Subscriber`].
pub struct SubscriberView {
    /// Which hub it is bound to.
    pub channel: int,
    /// How many of the hub's accepted events lie before the one it will be
    /// handed next.
    pub cursor: nat,
}

impl View for Subscriber {
    type V = SubscriberView;

    closed spec fn view(&self) -> SubscriberView {
        SubscriberView {
            channel: receiver_channel(self.receiver),
            cursor: receiver_cursor(self.receiver),
        }
    }
}

impl Hub {
    /// Whether the hub is sound: the receiver it keeps belongs to its own
    /// channel. Every hub that [`Hub::new`] makes is, and stays so.
    pub closed spec fn wf(&self) -> bool {
        receiver_channel(self.keeper) == channel_of(self.sender)
    }

    /// A new hub that has accepted nothing, has no subscribers, and retains
    /// at least [`SUBSCRIBER_BUFFER`] events for subscribers that fall
    /// behind.
    pub fn new() -> (hub: Hub)
        ensures
            hub.wf(),
            hub@.sent == Seq::<EventView>::empty(),
            SUBSCRIBER_BUFFER <= hub@.retained < 2 * SUBSCRIBER_BUFFER,
    {
        let (sender, keeper) = open_channel(SUBSCRIBER_BUFFER);
        Hub { sender, keeper }
    }

    /// Hands an event to every current subscriber and returns at once.
    ///
    /// The event is accepted whether or not anyone is subscribed: it is
    /// what every subscriber that has not fallen behind is handed once it
    /// has been handed all that was accepted before. The result is the
    /// number of subscribers at that moment.
    pub fn publish(&mut self, event: FileChangeEvent) -> (subscribers: usize)
        requires
            old(self).wf(),
        ensures
            final(self).wf(),
            final(self)@.channel == old(self)@.channel,
            final(self)@.retained == old(self)@.retained,
            final(self)@.sent == old(self)@.sent.push(event@),
    {
        match send_event(&mut self.sender, &self.keeper, event) {
            Some(n) => n - 1,
            None => 0,
        }
    }

    /// A fresh subscriber, which will see what is accepted from now on and
    /// nothing accepted before.
    pub fn subscribe(&self) -> (subscriber: Subscriber)
        ensures
            subscriber@.channel == self@.channel,
            subscriber@.cursor == self@.sent.len(),
    {
        Subscriber { receiver: subscribe_to(&self.sender) }
    }

    /// The number of subscribers at this moment. A subscriber counts from
    /// its making until it is dropped.
    pub fn subscriber_count(&self) -> (count: usize)
        requires
            self.wf(),
    {
        count_receivers(&self.sender, &self.keeper) - 1
    }

    /// Takes the next pending event of a subscriber, if there is one,
    /// without waiting.
    ///
    /// What a subscriber of this hub is handed depends on what the hub has
    /// accepted and on the subscriber's own cursor, and on no other
    /// subscriber.
    pub fn poll(&self, subscriber: &mut Subscriber) -> (delivery: Delivery)
        ensures
            final(subscriber)@.channel == old(subscriber)@.channel,
            old(subscriber)@.channel == self@.channel ==> {
                &&& delivery@ == next_delivery(self@.sent, self@.retained, old(subscriber)@.cursor)
                &&& final(subscriber)@.cursor == cursor_after(
                    self@.sent,
                    self@.retained,
                    old(subscriber)@.cursor,
                )
            },
    {
        try_receive(&mut subscriber.receiver, &self.sender)
    }
}

impl Subscriber {
    /// Gives up the subscriber for the channel end it holds, for a runner
    /// that waits on it.
    pub fn into_receiver(self) -> (receiver: Receiver<FileChangeEvent>)
        ensures
            receiver_channel(receiver) == self@.channel,
            receiver_cursor(receiver) == self@.cursor,
    {
        self.receiver
    }
}

/// What a subscriber is handed over `polls` successive polls of a hub that
/// accepts nothing meanwhile.
pub open spec fn deliveries(sent: Seq<EventView>, retained: nat, cursor: nat, polls: nat) -> Seq<
    DeliveryView,
>
    decreases polls,
{
    if polls == 0 {
        Seq::empty()
    } else {
        seq![next_delivery(sent, retained, cursor)] + deliveries(
            sent,
            retained,
            cursor_after(sent, retained, cursor),
            (polls - 1) as nat,
        )
    }
}

/// Fan-out: when an event is accepted, every subscriber that has no more
/// than `retained` events ahead of it, the new one included, is handed that
/// event, as the last of what is pending for it; wherever the other
/// subscribers stand. One that has seen everything so far is handed it at
/// its very next poll.
pub proof fn lemma_fan_out(
    sent: Seq<EventView>,
    retained: nat,
    event: EventView,
    cursors: Seq<nat>,
)
    requires
        forall|i: int|
            0 <= i < cursors.len() ==> (#[trigger] cursors[i]) <= sent.len() && sent.len() + 1
                - cursors[i] <= retained,
    ensures
        forall|i: int|
            0 <= i < cursors.len() ==> deliveries(
                sent.push(event),
                retained,
                #[trigger] cursors[i],
                (sent.len() + 1 - cursors[i]) as nat,
            ).last() == DeliveryView::Event(event),
        forall|i: int|
            0 <= i < cursors.len() && (#[trigger] cursors[i]) == sent.len() ==> next_delivery(
                sent.push(event),
                retained,
                cursors[i],
            ) == DeliveryView::Event(event),
{
    let after = sent.push(event);
    assert forall|i: int| 0 <= i < cursors.len() implies deliveries(
        after,
        retained,
        #[trigger] cursors[i],
        (sent.len() + 1 - cursors[i]) as nat,
    ).last() == DeliveryView::Event(event) by {
        lemma_in_order(after, retained, cursors[i]);
    }
}

/// No replay: a subscriber made after an event was accepted is handed
/// nothing until something new is accepted, and whatever it is ever handed
/// was accepted after it was made.
pub proof fn lemma_no_replay(sent: Seq<EventView>, retained: nat, cursor: nat, later: Seq<EventView>)
    requires
        cursor == sent.len(),
    ensures
        next_delivery(sent, retained, cursor) == DeliveryView::Empty,
        cursor_after(sent, retained, cursor) == cursor,
        next_delivery(sent + later, retained, cursor) matches DeliveryView::Event(event)
            ==> later.contains(event),
        cursor_after(sent + later, retained, cursor) >= cursor,
{
    let all = sent + later;
    if cursor < all.len() && all.len() - cursor <= retained {
        assert(all[cursor as int] == later[0]);
    }
}

/// In-order delivery: a subscriber with no more than `retained` events
/// ahead of it is handed exactly those events, in the order in which they
/// were accepted, and then nothing.
pub proof fn lemma_in_order(sent: Seq<EventView>, retained: nat, cursor: nat)
    requires
        cursor <= sent.len(),
        sent.len() - cursor <= retained,
    ensures
        deliveries(sent, retained, cursor, (sent.len() - cursor) as nat) == sent.subrange(
            cursor as int,
            sent.len() as int,
        ).map_values(|event: EventView| DeliveryView::Event(event)),
        next_delivery(sent, retained, sent.len()) == DeliveryView::Empty,
    decreases sent.len() - cursor,
{
    let pending = sent.subrange(cursor as int, sent.len() as int);
    let wrapped = pending.map_values(|event: EventView| DeliveryView::Event(event));
    if cursor < sent.len() {
        lemma_in_order(sent, retained, cursor + 1);
        let rest = sent.subrange(cursor as int + 1, sent.len() as int);
        assert(wrapped =~= seq![DeliveryView::Event(sent[cursor as int])] + rest.map_values(
            |event: EventView| DeliveryView::Event(event),
        ));
    } else {
        assert(wrapped =~= Seq::<DeliveryView>::empty());
    }
}

/// Slow-consumer isolation: however far one subscriber has fallen behind,
/// and whatever it lost by it, a subscriber that keeps up is handed every
/// event as it is accepted.
pub proof fn lemma_slow_consumer_isolation(
    sent: Seq<EventView>,
    retained: nat,
    event: EventView,
    keen: nat,
    stalled: nat,
)
    requires
        retained > 0,
        keen == sent.len(),
        stalled <= sent.len(),
    ensures
        next_delivery(sent.push(event), retained, keen) == DeliveryView::Event(event),
        // the stalled one loses events only if it is more than `retained` behind
        next_delivery(sent.push(event), retained, stalled) is Lagged ==> sent.len() + 1 - stalled
            > retained,
{
}

} // verus!
