//! The broadcast channel of a room.
use crate::message::{InternalMessage, InternalMessageView};
use crate::registry::{rooms_in, unused_key};
use crate::room::BroadcastRoom;
use dashmap::DashMap;
use tokio::sync::broadcast::error::{SendError, TryRecvError};
use tokio::sync::broadcast::{Receiver, Sender};
use vstd::prelude::*;

verus! {

/// A broadcast channel as its one sender has shaped it.
#[verifier::ext_equal]
pub struct ChannelView {
    /// Which channel it is: handles with one key belong to one channel, and
    /// channels that exist at one time have different keys.
    pub key: int,
    /// The number of messages that it was asked to retain for a slow receiver.
    pub capacity: nat,
    /// Every message that was sent on it, oldest first.
    pub posted: Seq<InternalMessageView>,
}

impl ChannelView {
    /// A channel on which nothing was sent yet.
    pub open spec fn fresh(key: int, capacity: nat) -> ChannelView {
        ChannelView { key, capacity, posted: Seq::empty() }
    }

    /// The channel after one more message.
    pub open spec fn with(self, message: InternalMessageView) -> ChannelView {
        ChannelView { posted: self.posted.push(message), ..self }
    }
}

/// A sender's channel, and whether anybody listens on it.
#[verifier::ext_equal]
pub struct SenderView {
    pub channel: ChannelView,
    /// Whether the channel has a live receiver when the next message is sent on
    /// it. The receivers live in other tasks, so nothing says beforehand which it
    /// is; each send settles it for itself.
    pub attended: bool,
}

/// What looking for the next message of a subscription came to.
#[derive(Debug)]
pub enum Heard {
    Message(InternalMessage),
    /// Nothing was posted since the last one.
    Nothing,
    /// The receiver was too slow: that many messages are lost to it.
    Lagged(u64),
    /// The channel is gone, and everything posted on it has been read.
    Closed,
}

/// What a receiver hears on a channel when it has left `at` messages behind it,
/// and how many it has left behind it then: the next message, as long as the
/// receiver is behind by no more than the capacity, and nothing where all were
/// read. A receiver that is further behind may lose its oldest messages, but
/// never one of the last that the capacity covers.
pub open spec fn hearing(channel: ChannelView, at: nat, heard: Heard, after: nat) -> bool {
    let count = channel.posted.len();
    match heard {
        Heard::Message(message) => {
            &&& at < count
            &&& message@ == channel.posted[at as int]
            &&& after == at + 1
        },
        Heard::Nothing => at >= count && after == at,
        Heard::Lagged(missed) => {
            &&& count > at + channel.capacity
            &&& missed > 0
            &&& after == at + missed
            &&& after + channel.capacity <= count
        },
        Heard::Closed => false,
    }
}

/// `tokio::sync::broadcast::Sender`, the sending half of a channel.
#[verifier::external_type_specification]
#[verifier::external_body]
#[verifier::reject_recursive_types(T)]
pub struct ExSender<T>(Sender<T>);

/// `tokio::sync::broadcast::Receiver`, one subscription to a channel.
#[verifier::external_type_specification]
#[verifier::external_body]
#[verifier::reject_recursive_types(T)]
pub struct ExReceiver<T>(Receiver<T>);

/// `tokio::sync::broadcast::error::SendError`, a message handed back unsent.
#[verifier::external_type_specification]
#[verifier::external_body]
#[verifier::reject_recursive_types(T)]
pub struct ExSendError<T>(SendError<T>);

/// What was sent through a sender that has never been cloned, and whether the
/// next message that is sent through it finds a live receiver.
pub uninterp spec fn channel_state(sender: Sender<InternalMessage>) -> SenderView;

/// The channel as it stood when the receiver subscribed to it: the receiver
/// belongs to that channel, and is handed what is posted there from then on.
pub uninterp spec fn subscribed(receiver: Receiver<InternalMessage>) -> ChannelView;

/// How many of its channel's messages a receiver has left behind it: those
/// posted before it subscribed, those that it has read, and those lost to it.
pub uninterp spec fn position(receiver: Receiver<InternalMessage>) -> nat;

/// `tokio::sync::broadcast::channel` opens a channel on which nothing was
/// sent yet. It panics on a capacity of zero, and on one for which no memory
/// can be had: the bound is well below that. The channel rounds the capacity
/// up to a power of two; how many messages a slow receiver can lag behind is
/// not stated beyond the capacity asked for. Every call allocates a channel of
/// its own, which no other sender belongs to (`Sender::same_channel` tells
/// them apart): its key is none of those of the rooms in `_others`, whose
/// channels exist throughout the call.
#[verifier::external_body]
pub(crate) fn open_channel(
    capacity: usize,
    _others: &DashMap<String, BroadcastRoom>,
) -> (ends: (
    Sender<InternalMessage>,
    Receiver<InternalMessage>,
))
    requires
        0 < capacity <= 65536,
    ensures
        channel_state(ends.0).channel == ChannelView::fresh(
            channel_state(ends.0).channel.key,
            capacity as nat,
        ),
        subscribed(ends.1) == channel_state(ends.0).channel,
        position(ends.1) == 0,
        unused_key(rooms_in(*_others), channel_state(ends.0).channel.key),
{
    tokio::sync::broadcast::channel(capacity)
}

/// `Sender::subscribe` gives a receiver of this channel that starts behind
/// everything posted so far. It panics at a quarter of `usize::MAX` live
/// receivers, more than memory holds.
#[verifier::external_body]
pub(crate) fn subscribe(sender: &Sender<InternalMessage>) -> (receiver: Receiver<InternalMessage>)
    ensures
        subscribed(receiver) == channel_state(*sender).channel,
        position(receiver) == channel_state(*sender).channel.posted.len(),
{
    sender.subscribe()
}

/// `Sender::send` posts the message if the channel has a live receiver, and
/// hands it back otherwise: nothing else decides. Receivers live in other tasks,
/// so in general either may happen; a receiver of the same channel that the
/// caller holds in `_held` is alive throughout the call, which then succeeds.
/// Whether there is one at the next send is not stated.
#[verifier::external_body]
pub(crate) fn post(
    sender: &mut Sender<InternalMessage>,
    message: InternalMessage,
    _held: Option<&Receiver<InternalMessage>>,
) -> (sent: Result<usize, SendError<InternalMessage>>)
    ensures
        sent is Ok <==> channel_state(*old(sender)).attended,
        sent is Ok ==> channel_state(*final(sender)).channel == channel_state(
            *old(sender),
        ).channel.with(message@),
        sent is Err ==> channel_state(*final(sender)).channel == channel_state(
            *old(sender),
        ).channel,
        sent matches Ok(receivers) ==> receivers > 0,
        _held matches Some(receiver) ==> subscribed(*receiver).key == channel_state(
            *old(sender),
        ).channel.key ==> sent is Ok,
{
    sender.send(message)
}

/// `Receiver::try_recv` hands over a copy of the next message, without waiting
/// for one. The sender of the same channel that the caller holds in `_sender`
/// keeps the channel open, and nothing is posted on it during the call. The
/// channel's buffer holds at least the capacity asked for, so a receiver that is
/// behind by no more than that has lost nothing.
#[verifier::external_body]
pub(crate) fn receive(
    receiver: &mut Receiver<InternalMessage>,
    _sender: &Sender<InternalMessage>,
) -> (heard: Heard)
    ensures
        subscribed(*final(receiver)) == subscribed(*old(receiver)),
        subscribed(*old(receiver)).key == channel_state(*_sender).channel.key ==> hearing(
            channel_state(*_sender).channel,
            position(*old(receiver)),
            heard,
            position(*final(receiver)),
        ),
{
    match receiver.try_recv() {
        Ok(message) => Heard::Message(message),
        Err(TryRecvError::Empty) => Heard::Nothing,
        Err(TryRecvError::Lagged(missed)) => Heard::Lagged(missed),
        Err(TryRecvError::Closed) => Heard::Closed,
    }
}

/// `SendError`'s `Display` always says that the channel is closed.
#[verifier::external_body]
pub(crate) fn send_error_text(error: &SendError<InternalMessage>) -> (text: String)
    ensures
        text@ == "channel closed"@,
{
    error.to_string()
}

} // verus!
