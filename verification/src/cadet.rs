//! The channel multiplexer of the cadet service: many logical channels over
//! one connection to the daemon.
//!
//! The multiplexer holds one inbound queue for each channel. What the reader
//! takes off the connection is put at the end of the queue of the channel
//! that it names; what a channel receives is taken from the front of its
//! queue. What goes out is written to a stream, for the connection to send.
//!
//! A channel is pending from the request that opens it until the daemon
//! acknowledges it, open from then on, and gone when either side ends it:
//! with the end its id is free again and its queue is dropped.

use vstd::prelude::*;
use std::collections::{HashMap, VecDeque};
use crate::crypto::HashCode;
use crate::error::{io_error, Error, ResultError};
use crate::identity::client::MESSAGE_TYPE_IDENTITY_RESULT_CODE;
use crate::identity::keys::PublicKey;
use crate::service::{
    is_fault, spec_message, spec_read_message, spec_read_result, spec_read_result_len,
    spec_u16_from_be, spec_u32_be, spec_u32_from_be, MessageHeader, Outcome, Stream,
};

verus! {

broadcast use vstd::std_specs::hash::group_hash_axioms;

/// Carries data on a channel, in either direction.
pub const MESSAGE_TYPE_CADET_LOCAL_DATA: u16 = 1020;

/// Allows the client to send one more message on a channel.
pub const MESSAGE_TYPE_CADET_LOCAL_ACK: u16 = 1021;

/// Asks the daemon to open a channel.
pub const MESSAGE_TYPE_CADET_LOCAL_CHANNEL_CREATE: u16 = 1024;

/// Tells that a channel is gone, in either direction.
pub const MESSAGE_TYPE_CADET_LOCAL_CHANNEL_DESTROY: u16 = 1025;

pub const PRIORITY_PREFERENCES_BACKGROUND: u32 = 0;

pub const PRIORITY_PREFERENCES_BEST_EFFORT: u32 = 1;

pub const PRIORITY_PREFERENCES_URGENT: u32 = 2;

pub const PRIORITY_PREFERENCES_CIRITICAL_CONTROL: u32 = 3;

pub const PRIORITY_PREFERENCES_MASK: u32 = 3;

pub const PRIORITY_PREFERENCES_UNRELIABLE: u32 = 16;

pub const PRIORITY_PREFERENCES_LOW_LATENCY: u32 = 32;

pub const PRIORITY_PREFERENCES_CORK_ALLOWED: u32 = 64;

pub const PRIORITY_PREFERENCES_GOODPUT: u32 = 128;

pub const PRIORITY_PREFERENCES_OUT_OF_ORDER: u32 = 256;

/// The lowest id that a client may give to a channel: those below are the daemon's.
pub const FIRST_CHANNEL_ID: u32 = 0x8000_0001;

/// The longest data that fits in one message, after the id and the priority.
pub const MAX_DATA_LEN: usize = 65523;

/// Data that came in on a channel.
#[derive(Debug, PartialEq, Eq)]
pub struct ChannelMessagePayload {
    pub priority_flags: u32,
    pub payload: Vec<u8>,
}

/// What the reader puts in the queue of a channel.
#[derive(Debug, PartialEq, Eq)]
pub enum ChannelMessage {
    /// The channel may send one more message.
    Ack,
    /// Data for the channel.
    Payload(ChannelMessagePayload),
    /// The channel is gone, by the other side's doing or by the daemon's.
    Destroy,
}

/// A message in a queue, as contracts speak of it.
pub enum Message {
    Ack,
    Payload { priority_flags: u32, payload: Seq<u8> },
    Destroy,
}

impl View for ChannelMessage {
    type V = Message;

    open spec fn view(&self) -> Message {
        match self {
            ChannelMessage::Ack => Message::Ack,
            ChannelMessage::Payload(p) => Message::Payload {
                priority_flags: p.priority_flags,
                payload: p.payload@,
            },
            ChannelMessage::Destroy => Message::Destroy,
        }
    }
}

/// The messages of a queue, first in first.
pub open spec fn spec_queue(q: Seq<ChannelMessage>) -> Seq<Message> {
    Seq::new(q.len(), |i: int| q[i]@)
}

/// Where the reader sends a message that it took off the connection.
pub enum Route {
    /// Into the queue of channel `id`.
    Deliver { id: u32, message: Message },
    /// To whoever takes the errors: the daemon's verdict on something.
    Report { code: u32, msg: Seq<char> },
    /// Nowhere: a verdict of success.
    Nothing,
    /// Nowhere: a message of a type that the multiplexer does not know.
    Unexpected(u16),
    /// The message could not be read.
    Fault(std::io::ErrorKind),
}

/// The least size that the header of a message of the given type can have:
/// the header itself, and what the body of that type must hold.
pub open spec fn spec_min_size(type_: u16) -> int {
    if type_ == MESSAGE_TYPE_CADET_LOCAL_ACK || type_ == MESSAGE_TYPE_CADET_LOCAL_CHANNEL_DESTROY {
        8
    } else if type_ == MESSAGE_TYPE_CADET_LOCAL_DATA {
        12
    } else if type_ == MESSAGE_TYPE_IDENTITY_RESULT_CODE {
        8
    } else {
        4
    }
}

/// Where the message under `header` goes, whose body a stream that holds
/// `s` begins with. A header whose size is under what its type needs is
/// invalid data; a body that is not all there cannot be read.
pub open spec fn spec_route(header: MessageHeader, s: Seq<u8>) -> Route {
    if header.size < spec_min_size(header.type_) {
        Route::Fault(std::io::ErrorKind::InvalidData)
    } else if s.len() < header.size - 4 {
        Route::Fault(std::io::ErrorKind::UnexpectedEof)
    } else if header.type_ == MESSAGE_TYPE_CADET_LOCAL_ACK {
        Route::Deliver { id: spec_u32_from_be(s), message: Message::Ack }
    } else if header.type_ == MESSAGE_TYPE_CADET_LOCAL_CHANNEL_DESTROY {
        Route::Deliver { id: spec_u32_from_be(s), message: Message::Destroy }
    } else if header.type_ == MESSAGE_TYPE_CADET_LOCAL_DATA {
        Route::Deliver {
            id: spec_u32_from_be(s),
            message: Message::Payload {
                priority_flags: spec_u32_from_be(s.skip(4)),
                payload: s.subrange(8, header.size - 4),
            },
        }
    } else if header.type_ == MESSAGE_TYPE_IDENTITY_RESULT_CODE {
        match spec_read_result(s, header.size) {
            Outcome::Success => Route::Nothing,
            Outcome::Failure { code, msg } => Route::Report { code, msg },
            Outcome::Fault(kind) => Route::Fault(kind),
        }
    } else {
        Route::Unexpected(header.type_)
    }
}

/// How many bytes the reader takes from the stream for that message: its
/// whole body, or nothing where the message cannot be read.
pub open spec fn spec_route_len(header: MessageHeader, s: Seq<u8>) -> int {
    if spec_route(header, s) is Fault {
        0
    } else {
        header.size - 4
    }
}

/// A message as the reader takes it off the connection: its header and its body.
pub struct Frame {
    pub header: MessageHeader,
    pub body: Seq<u8>,
}

/// What `frame` brings to the queue of channel `id`: one message, or none.
pub open spec fn spec_delivery(frame: Frame, id: u32) -> Seq<Message> {
    match spec_route(frame.header, frame.body) {
        Route::Deliver { id: to, message } => if to == id {
            seq![message]
        } else {
            Seq::empty()
        },
        _ => Seq::empty(),
    }
}

/// What `frames`, taken off the connection in this order, bring to the
/// queue of channel `id`.
pub open spec fn spec_inbound(frames: Seq<Frame>, id: u32) -> Seq<Message>
    decreases frames.len(),
{
    if frames.len() == 0 {
        Seq::empty()
    } else {
        spec_inbound(frames.drop_last(), id) + spec_delivery(frames.last(), id)
    }
}

/// What comes first on the connection comes first in the queue: a channel
/// gets what the earlier frames bring it, and after that what the later
/// frames bring it.
pub proof fn lemma_inbound_in_order(earlier: Seq<Frame>, later: Seq<Frame>, id: u32)
    ensures
        spec_inbound(earlier + later, id) == spec_inbound(earlier, id) + spec_inbound(later, id),
    decreases later.len(),
{
    if later.len() == 0 {
        assert(earlier + later =~= earlier);
        assert(spec_inbound(earlier, id) + spec_inbound(later, id) =~= spec_inbound(earlier, id));
    } else {
        lemma_inbound_in_order(earlier, later.drop_last(), id);
        assert((earlier + later).drop_last() =~= earlier + later.drop_last());
        assert((earlier + later).last() == later.last());
        assert(spec_inbound(earlier + later, id) =~= spec_inbound(earlier, id) + spec_inbound(
            later,
            id,
        ));
    }
}

/// Frames of other channels, wherever they stand among the frames of a
/// channel, change nothing of what that channel gets, nor its order: with
/// `other` between `before` and `after` the channel `id` gets what it gets
/// without it.
pub proof fn lemma_inbound_interleaved(before: Seq<Frame>, other: Frame, after: Seq<Frame>, id: u32)
    requires
        spec_delivery(other, id) == Seq::<Message>::empty(),
    ensures
        spec_inbound(before + seq![other] + after, id) == spec_inbound(before + after, id),
{
    lemma_inbound_in_order(before + seq![other], after, id);
    lemma_inbound_in_order(before, seq![other], id);
    lemma_inbound_in_order(before, after, id);
    assert(seq![other].drop_last() =~= Seq::<Frame>::empty());
    assert(seq![other].last() == other);
    assert(spec_inbound(Seq::<Frame>::empty(), id) =~= Seq::<Message>::empty());
    assert(spec_inbound(seq![other], id) =~= spec_delivery(other, id));
    assert(spec_inbound(before + seq![other], id) =~= spec_inbound(before, id));
}

/// The frames among `frames` that bring something to channel `id`, in their order.
pub open spec fn spec_frames_of(frames: Seq<Frame>, id: u32) -> Seq<Frame>
    decreases frames.len(),
{
    if frames.len() == 0 {
        Seq::empty()
    } else if spec_delivery(frames.last(), id).len() > 0 {
        spec_frames_of(frames.drop_last(), id).push(frames.last())
    } else {
        spec_frames_of(frames.drop_last(), id)
    }
}

/// What a channel gets is what its own frames bring it, in their order,
/// however the frames of other channels are interleaved with them.
pub proof fn lemma_inbound_of_own_frames(frames: Seq<Frame>, id: u32)
    ensures
        spec_inbound(frames, id) == spec_inbound(spec_frames_of(frames, id), id),
    decreases frames.len(),
{
    if frames.len() > 0 {
        let rest = spec_frames_of(frames.drop_last(), id);
        lemma_inbound_of_own_frames(frames.drop_last(), id);
        if spec_delivery(frames.last(), id).len() > 0 {
            assert(rest.push(frames.last()).drop_last() =~= rest);
            assert(rest.push(frames.last()).last() == frames.last());
        } else {
            assert(spec_delivery(frames.last(), id) =~= Seq::<Message>::empty());
            assert(spec_inbound(frames, id) =~= spec_inbound(frames.drop_last(), id));
        }
    }
}

/// Two runs of the connection in which channel `id` has the same frames in
/// the same order bring it the same messages in the same order.
pub proof fn lemma_inbound_same_for_same_frames(one: Seq<Frame>, other: Seq<Frame>, id: u32)
    requires
        spec_frames_of(one, id) == spec_frames_of(other, id),
    ensures
        spec_inbound(one, id) == spec_inbound(other, id),
{
    lemma_inbound_of_own_frames(one, id);
    lemma_inbound_of_own_frames(other, id);
}

/// A frame that brings something to one channel brings nothing to any other.
pub proof fn lemma_delivery_to_one_channel(frame: Frame, a: u32, b: u32)
    requires
        a != b,
        spec_delivery(frame, a).len() > 0,
    ensures
        spec_delivery(frame, b) == Seq::<Message>::empty(),
{
}

/// How many messages at the front of `q` are data: the place of the first
/// that is none, or the length of `q` where all are.
pub open spec fn spec_first_signal(q: Seq<Message>) -> int
    decreases q.len(),
{
    if q.len() == 0 {
        0
    } else if q[0] is Payload {
        1 + spec_first_signal(q.skip(1))
    } else {
        0
    }
}

/// The first signal of `q` stands at `k`, where all before `k` are data and
/// `k` is the end of `q` or the place of a message that is none.
pub proof fn lemma_first_signal(q: Seq<Message>, k: int)
    requires
        0 <= k <= q.len(),
        forall|j: int| 0 <= j < k ==> q[j] is Payload,
        k < q.len() ==> !(q[k] is Payload),
    ensures
        spec_first_signal(q) == k,
    decreases q.len(),
{
    if k > 0 {
        let t = q.skip(1);
        assert forall|j: int| 0 <= j < k - 1 implies t[j] is Payload by {
            assert(t[j] == q[j + 1]);
        }
        lemma_first_signal(t, k - 1);
    }
}

/// The body of the request to open channel `id` to `destination` at `port`.
pub open spec fn spec_create_body(id: u32, destination: Seq<u8>, port: Seq<u8>) -> Seq<u8> {
    spec_u32_be(id) + destination + port + spec_u32_be(0)
}

/// The body of a data message on channel `id`.
pub open spec fn spec_data_body(id: u32, priority: u32, data: Seq<u8>) -> Seq<u8> {
    spec_u32_be(id) + spec_u32_be(priority) + data
}

/// What the reader did with a message.
#[derive(Debug)]
pub enum Dispatch {
    /// Put it in the queue of this channel.
    Delivered(u32),
    /// Dropped it: it names this channel, which is not in use.
    Unknown(u32),
    /// Read a verdict of the daemon that is no success.
    Failed(ResultError),
    /// Read a verdict of success.
    Nothing,
    /// Passed over a message of this type, which the multiplexer does not know.
    Unexpected(u16),
}

/// What a channel found at the front of its queue.
#[derive(Debug)]
pub enum Received {
    /// Nothing: the queue is empty.
    Empty,
    /// Data.
    Payload(ChannelMessagePayload),
    /// The end of the channel.
    Destroyed,
}

/// The receiving side of a channel.
#[derive(Clone, Copy, Debug)]
pub struct ChannelReceiver {
    id: u32,
}

/// A channel that the daemon has acknowledged.
#[derive(Debug)]
pub struct Channel {
    id: u32,
    receiver: ChannelReceiver,
}

/// Whether `d` is what the reader does with a message that goes where
/// `route` says, when the channels in `known` are in use.
pub open spec fn is_event(d: Dispatch, route: Route, known: Set<u32>) -> bool {
    match route {
        Route::Deliver { id, message } => if known.contains(id) {
            d matches Dispatch::Delivered(to) && to == id
        } else {
            d matches Dispatch::Unknown(to) && to == id
        },
        Route::Report { code, msg } => {
            &&& d matches Dispatch::Failed(e)
            &&& e.code == code
            &&& e.msg@ == msg
        },
        Route::Nothing => d is Nothing,
        Route::Unexpected(type_) => d matches Dispatch::Unexpected(t) && t == type_,
        Route::Fault(_) => false,
    }
}

/// The frame of a message of the given type and body.
pub open spec fn spec_frame(type_: u16, body: Seq<u8>) -> Frame {
    Frame { header: MessageHeader { size: (body.len() + 4) as u16, type_ }, body }
}

/// What the reader makes of the bytes of a connection.
pub struct Pumped {
    /// The messages that it takes and routes, in their order.
    pub frames: Seq<Frame>,
    /// The bytes that it leaves: what follows the messages that it took.
    pub rest: Seq<u8>,
    /// Why it stops for good, if it does: the first message that cannot be
    /// read, which it takes and does not route.
    pub fault: Option<std::io::ErrorKind>,
}

/// What the reader makes of a connection that holds `s`: it takes message
/// after message, until `s` begins with no whole message or with one that
/// cannot be read.
pub open spec fn spec_pump(s: Seq<u8>) -> Pumped
    decreases s.len(),
{
    match spec_read_message(s) {
        None => Pumped {
            frames: Seq::empty(),
            rest: s,
            fault: if s.len() >= 4 && spec_u16_from_be(s) < 4 {
                Some(std::io::ErrorKind::InvalidData)
            } else {
                None
            },
        },
        Some((type_, body, rest)) => match spec_route(spec_frame(type_, body).header, body) {
            Route::Fault(kind) => Pumped { frames: Seq::empty(), rest, fault: Some(kind) },
            _ => {
                let next = spec_pump(rest);
                Pumped {
                    frames: seq![spec_frame(type_, body)] + next.frames,
                    rest: next.rest,
                    fault: next.fault,
                }
            },
        },
    }
}

/// Where a channel is in its life.
#[derive(Clone, Copy, Debug, PartialEq, Eq, Structural)]
pub enum ChannelState {
    /// The request to open it is written, the daemon's answer is not read yet.
    Pending,
    /// The daemon has acknowledged it.
    Open,
    /// It is not in use: it never was, or either side has ended it.
    Destroyed,
}

/// What the multiplexer holds of a channel that is in use.
struct Entry {
    open: bool,
    queue: VecDeque<ChannelMessage>,
}

/// The state of the multiplexer: for each channel that is in use its inbound
/// queue and whether it is open; and whether the reader is to go on.
pub struct Handle {
    channels: HashMap<u32, Entry>,
    run_flag: bool,
}

/// What is in the queues once the message at the front of the queue of
/// channel `id` is taken: the rest of that queue, or no queue where the
/// message is the end of the channel; and every other queue as it was.
pub open spec fn spec_taken(queues: Map<u32, Seq<Message>>, id: u32) -> Map<u32, Seq<Message>> {
    if !queues.dom().contains(id) || queues[id].len() == 0 {
        queues
    } else if queues[id][0] is Destroy {
        queues.remove(id)
    } else {
        queues.insert(id, queues[id].skip(1))
    }
}

/// Whether `r` is what stands at the front of the queue of channel `id`.
pub open spec fn is_front(r: Received, queues: Map<u32, Seq<Message>>, id: u32) -> bool {
    if !queues.dom().contains(id) || queues[id].len() == 0 {
        r is Empty
    } else {
        match queues[id][0] {
            Message::Payload { priority_flags, payload } => {
                &&& r matches Received::Payload(p)
                &&& p.priority_flags == priority_flags
                &&& p.payload@ == payload
            },
            Message::Destroy => r is Destroyed,
            Message::Ack => false,
        }
    }
}

impl Handle {
    /// The inbound queue of each channel that is in use.
    pub closed spec fn queues(&self) -> Map<u32, Seq<Message>> {
        Map::new(
            |id: u32| self.channels@.contains_key(id),
            |id: u32| spec_queue(self.channels@[id].queue@),
        )
    }

    /// The ids of the channels that are open.
    pub closed spec fn opened(&self) -> Set<u32> {
        Set::new(|id: u32| self.channels@.contains_key(id) && self.channels@[id].open)
    }

    /// The ids of the channels that are in use.
    pub open spec fn ids(&self) -> Set<u32> {
        self.queues().dom()
    }

    /// Where channel `id` is in its life.
    pub open spec fn spec_state(&self, id: u32) -> ChannelState {
        if !self.ids().contains(id) {
            ChannelState::Destroyed
        } else if self.opened().contains(id) {
            ChannelState::Open
        } else {
            ChannelState::Pending
        }
    }

    /// Only a channel that is in use is open.
    pub proof fn lemma_opened_in_use(&self)
        ensures
            self.opened().subset_of(self.ids()),
    {
    }

    /// Whether the reader is to go on.
    pub closed spec fn running(&self) -> bool {
        self.run_flag
    }

    /// Whether some id is left for one more channel.
    pub open spec fn has_free_id(&self) -> bool {
        exists|id: u32| id >= FIRST_CHANNEL_ID && !self.ids().contains(id)
    }

    /// Whether an acknowledgement stands at the front of the queue of channel `id`.
    pub open spec fn next_is_ack(&self, id: u32) -> bool {
        &&& self.ids().contains(id)
        &&& self.queues()[id].len() > 0
        &&& self.queues()[id][0] is Ack
    }

    /// A multiplexer without channels, whose reader is to run.
    pub fn new() -> (h: Self)
        ensures
            h.queues() == Map::<u32, Seq<Message>>::empty(),
            h.opened() == Set::<u32>::empty(),
            h.running(),
    {
        let h = Handle { channels: HashMap::new(), run_flag: true };
        assert(h.queues() =~= Map::<u32, Seq<Message>>::empty());
        assert(h.opened() =~= Set::<u32>::empty());
        h
    }

    #[verifier::when_used_as_spec(running)]
    pub fn is_running(&self) -> (r: bool)
        ensures
            r == self.running(),
    {
        self.run_flag
    }

    /// Tells the reader to stop after the message that it is at.
    pub fn stop(&mut self)
        ensures
            !final(self).running(),
            final(self).queues() == old(self).queues(),
            final(self).opened() == old(self).opened(),
    {
        self.run_flag = false;
    }

    /// Whether the channel `id` is in use.
    pub fn contains(&self, id: u32) -> (r: bool)
        ensures
            r == self.ids().contains(id),
    {
        self.channels.contains_key(&id)
    }

    /// Where channel `id` is in its life.
    #[verifier::when_used_as_spec(spec_state)]
    pub fn state(&self, id: u32) -> (r: ChannelState)
        ensures
            r == self.spec_state(id),
    {
        match self.channels.get(&id) {
            None => ChannelState::Destroyed,
            Some(entry) => if entry.open {
                ChannelState::Open
            } else {
                ChannelState::Pending
            },
        }
    }

    /// Whether some id is left for one more channel.
    #[verifier::when_used_as_spec(has_free_id)]
    pub fn has_free_channel(&self) -> (r: bool)
        ensures
            r == self.has_free_id(),
    {
        let mut i: u32 = FIRST_CHANNEL_ID;
        while self.channels.contains_key(&i)
            invariant
                FIRST_CHANNEL_ID <= i,
                forall|other: u32| FIRST_CHANNEL_ID <= other < i ==> self.ids().contains(other),
            decreases u32::MAX - i,
        {
            if i == u32::MAX {
                return false;
            }
            i += 1;
        }
        assert(i >= FIRST_CHANNEL_ID && !self.ids().contains(i));
        true
    }

    /// Whether an acknowledgement stands at the front of the queue of channel `id`.
    #[verifier::when_used_as_spec(next_is_ack)]
    pub fn has_ack_next(&self, id: u32) -> (r: bool)
        ensures
            r == self.next_is_ack(id),
    {
        match self.channels.get(&id) {
            None => false,
            Some(entry) => {
                if entry.queue.len() == 0 {
                    false
                } else {
                    match &entry.queue[0] {
                        ChannelMessage::Ack => true,
                        _ => false,
                    }
                }
            },
        }
    }

    /// Takes the lowest id that a client may use and that no channel has,
    /// and gives it an empty queue. The channel of that id is pending.
    pub fn next_free_channel(&mut self) -> (id: u32)
        requires
            old(self).has_free_id(),
        ensures
            id >= FIRST_CHANNEL_ID,
            !old(self).ids().contains(id),
            forall|other: u32| FIRST_CHANNEL_ID <= other < id ==> old(self).ids().contains(other),
            final(self).queues() == old(self).queues().insert(id, Seq::empty()),
            final(self).opened() == old(self).opened(),
            final(self).running() == old(self).running(),
    {
        let ghost free: u32 = choose|id: u32| id >= FIRST_CHANNEL_ID && !self.ids().contains(id);
        let mut i: u32 = FIRST_CHANNEL_ID;
        while self.channels.contains_key(&i)
            invariant
                FIRST_CHANNEL_ID <= i <= free,
                !self.ids().contains(free),
                forall|other: u32| FIRST_CHANNEL_ID <= other < i ==> self.ids().contains(other),
            decreases u32::MAX - i,
        {
            i += 1;
        }
        self.channels.insert(i, Entry { open: false, queue: VecDeque::new() });
        assert(spec_queue(Seq::<ChannelMessage>::empty()) =~= Seq::<Message>::empty());
        assert(self.queues() =~= old(self).queues().insert(i, Seq::empty()));
        assert(self.opened() =~= old(self).opened());
        i
    }

    /// Puts `message` at the end of the queue of channel `id`, if the channel is in use.
    fn enqueue(&mut self, id: u32, message: ChannelMessage) -> (known: bool)
        ensures
            known == old(self).ids().contains(id),
            final(self).running() == old(self).running(),
            final(self).opened() == old(self).opened(),
            final(self).queues() == if known {
                old(self).queues().insert(id, old(self).queues()[id].push(message@))
            } else {
                old(self).queues()
            },
    {
        match self.channels.remove(&id) {
            None => {
                assert(self.queues() =~= old(self).queues());
                assert(self.opened() =~= old(self).opened());
                false
            },
            Some(entry) => {
                let mut entry = entry;
                let ghost before = entry.queue@;
                entry.queue.push_back(message);
                assert(spec_queue(entry.queue@) =~= spec_queue(before).push(message@));
                self.channels.insert(id, entry);
                assert(self.queues() =~= old(self).queues().insert(
                    id,
                    old(self).queues()[id].push(message@),
                ));
                assert(self.opened() =~= old(self).opened());
                true
            },
        }
    }

    /// Gives up the id of a channel, and its queue with it.
    fn release(&mut self, id: u32)
        ensures
            final(self).queues() == old(self).queues().remove(id),
            final(self).opened() == old(self).opened().remove(id),
            final(self).running() == old(self).running(),
    {
        self.channels.remove(&id);
        assert(self.queues() =~= old(self).queues().remove(id));
        assert(self.opened() =~= old(self).opened().remove(id));
    }

    /// Takes the message at the front of the queue of channel `id`, if the channel is open.
    fn take(&mut self, id: u32) -> (r: Received)
        requires
            old(self).opened().contains(id) ==> !old(self).next_is_ack(id),
        ensures
            final(self).running() == old(self).running(),
            if old(self).opened().contains(id) {
                &&& is_front(r, old(self).queues(), id)
                &&& final(self).queues() == spec_taken(old(self).queues(), id)
                &&& final(self).opened() == if r is Destroyed {
                    old(self).opened().remove(id)
                } else {
                    old(self).opened()
                }
            } else {
                &&& r is Empty
                &&& final(self).queues() == old(self).queues()
                &&& final(self).opened() == old(self).opened()
            },
    {
        match self.channels.remove(&id) {
            None => {
                assert(self.queues() =~= old(self).queues());
                assert(self.opened() =~= old(self).opened());
                Received::Empty
            },
            Some(entry) => {
                let mut entry = entry;
                let ghost before = entry.queue@;
                assert(spec_queue(before) == old(self).queues()[id]);
                if !entry.open {
                    self.channels.insert(id, entry);
                    assert(self.queues() =~= old(self).queues());
                    assert(self.opened() =~= old(self).opened());
                    return Received::Empty;
                }
                let first: Option<ChannelMessage> = entry.queue.pop_front();
                assert(first is Some ==> spec_queue(entry.queue@) =~= spec_queue(before).skip(1));
                assert(first matches Some(m) ==> m@ == spec_queue(before)[0]);
                match first {
                    Some(ChannelMessage::Payload(p)) => {
                        self.channels.insert(id, entry);
                        assert(self.queues() =~= old(self).queues().insert(
                            id,
                            old(self).queues()[id].skip(1),
                        ));
                        assert(self.opened() =~= old(self).opened());
                        Received::Payload(p)
                    },
                    Some(ChannelMessage::Destroy) => {
                        assert(self.queues() =~= old(self).queues().remove(id));
                        assert(self.opened() =~= old(self).opened().remove(id));
                        Received::Destroyed
                    },
                    _ => {
                        assert(spec_queue(entry.queue@) =~= spec_queue(before));
                        self.channels.insert(id, entry);
                        assert(self.queues() =~= old(self).queues());
                        assert(self.opened() =~= old(self).opened());
                        Received::Empty
                    },
                }
            },
        }
    }

    /// Takes the body of the message under `header` from `input`, all
    /// `header.size - 4` bytes of it, and does with it what its type asks
    /// for: an acknowledgement, data and the end of a channel go to the end
    /// of the queue of the channel that they name, or are dropped where no
    /// such channel is in use; a verdict of the daemon is read and handed
    /// back; the body of any other message is passed over. Where the message
    /// cannot be read, nothing is taken and nothing changes.
    ///
    /// No channel comes or goes by this, and each queue grows by what the
    /// message brings to it.
    pub fn dispatch(&mut self, header: MessageHeader, input: &mut Stream) -> (r: Result<
        Dispatch,
        Error,
    >)
        ensures
            final(self).running() == old(self).running(),
            final(self).ids() == old(self).ids(),
            final(self).opened() == old(self).opened(),
            final(input)@ == old(input)@.skip(spec_route_len(header, old(input)@)),
            forall|id: u32| #[trigger]
                old(self).ids().contains(id) ==> final(self).queues()[id] == old(
                    self,
                ).queues()[id] + spec_delivery((Frame { header, body: old(input)@ }), id),
            match spec_route(header, old(input)@) {
                Route::Fault(kind) => is_fault(r, kind),
                route => r matches Ok(d) && is_event(d, route, old(self).ids()),
            },
    {
        assert(input@.skip(0) =~= input@);
        let ghost before = self.queues();
        assert forall|id: u32| #[trigger] before.dom().contains(id) implies before[id]
            == before[id] + Seq::<Message>::empty() by {
            assert(before[id] =~= before[id] + Seq::<Message>::empty());
        }
        assert forall|id: u32, message: Message| #[trigger]
            before.dom().contains(id) implies #[trigger] before[id].push(message) == before[id]
            + seq![message] by {
            assert(before[id].push(message) =~= before[id] + seq![message]);
        }
        let signal: bool = header.type_ == MESSAGE_TYPE_CADET_LOCAL_ACK || header.type_
            == MESSAGE_TYPE_CADET_LOCAL_CHANNEL_DESTROY;
        let data: bool = header.type_ == MESSAGE_TYPE_CADET_LOCAL_DATA;
        let least: u16 = if signal {
            8
        } else if data {
            12
        } else if header.type_ == MESSAGE_TYPE_IDENTITY_RESULT_CODE {
            8
        } else {
            4
        };
        if header.size < least {
            return Err(Error::Io(io_error(std::io::ErrorKind::InvalidData)));
        }
        if input.remaining() < (header.size - 4) as usize {
            return Err(Error::Io(io_error(std::io::ErrorKind::UnexpectedEof)));
        }
        if signal {
            let channel_id: u32 = input.read_u32()?;
            input.skip((header.size - 8) as usize)?;
            assert(input@ =~= old(input)@.skip(header.size - 4));
            if header.type_ == MESSAGE_TYPE_CADET_LOCAL_ACK {
                Ok(self.deliver(channel_id, ChannelMessage::Ack))
            } else {
                Ok(self.deliver(channel_id, ChannelMessage::Destroy))
            }
        } else if data {
            let channel_id: u32 = input.read_u32()?;
            let priority_flags: u32 = input.read_u32()?;
            let payload: Vec<u8> = input.read_bytes((header.size - 12) as usize)?;
            assert(payload@ =~= old(input)@.subrange(8, header.size - 4));
            assert(input@ =~= old(input)@.skip(header.size - 4));
            let message = ChannelMessagePayload { priority_flags, payload };
            Ok(self.deliver(channel_id, ChannelMessage::Payload(message)))
        } else if header.type_ == MESSAGE_TYPE_IDENTITY_RESULT_CODE {
            match input.read_result(header.size) {
                Ok(()) => Ok(Dispatch::Nothing),
                Err(Error::Result(e)) => Ok(Dispatch::Failed(e)),
                Err(other) => Err(other),
            }
        } else {
            input.skip((header.size - 4) as usize)?;
            Ok(Dispatch::Unexpected(header.type_))
        }
    }

    /// Puts `message` in the queue of channel `id`, or drops it.
    fn deliver(&mut self, id: u32, message: ChannelMessage) -> (r: Dispatch)
        ensures
            final(self).running() == old(self).running(),
            final(self).opened() == old(self).opened(),
            final(self).queues() == if old(self).ids().contains(id) {
                old(self).queues().insert(id, old(self).queues()[id].push(message@))
            } else {
                old(self).queues()
            },
            if old(self).ids().contains(id) {
                r matches Dispatch::Delivered(to) && to == id
            } else {
                r matches Dispatch::Unknown(to) && to == id
            },
    {
        if self.enqueue(id, message) {
            Dispatch::Delivered(id)
        } else {
            Dispatch::Unknown(id)
        }
    }

    /// The reader's work on what has come over the connection: takes every
    /// whole message at the front of `wire`, in its order, and does with it
    /// what `dispatch` does, until `wire` begins with no whole message. What
    /// it did with each message is appended to `done`.
    ///
    /// A message that cannot be read ends the work: it is taken, nothing is
    /// done with it, and its error is the result. A header whose size is
    /// under four is no header: nothing of it is taken, and it is invalid
    /// data. A reader that was told to stop takes nothing.
    pub fn pump(&mut self, wire: &mut Stream, done: &mut Vec<Dispatch>) -> (r: Result<(), Error>)
        ensures
            final(self).running() == old(self).running(),
            final(self).ids() == old(self).ids(),
            final(self).opened() == old(self).opened(),
            !old(self).running() ==> {
                &&& r is Ok
                &&& final(wire)@ == old(wire)@
                &&& final(done)@ == old(done)@
                &&& final(self).queues() == old(self).queues()
            },
            old(self).running() ==> ({
                let pumped = spec_pump(old(wire)@);
                &&& final(wire)@ == pumped.rest
                &&& match pumped.fault {
                    Some(kind) => is_fault(r, kind),
                    None => r is Ok,
                }
                &&& forall|id: u32| #[trigger]
                    old(self).ids().contains(id) ==> final(self).queues()[id] == old(
                        self,
                    ).queues()[id] + spec_inbound(pumped.frames, id)
                &&& final(done)@.len() == old(done)@.len() + pumped.frames.len()
                &&& forall|i: int|
                    0 <= i < old(done)@.len() ==> final(done)@[i] == old(done)@[i]
                &&& forall|i: int|
                    0 <= i < pumped.frames.len() ==> is_event(
                        #[trigger] final(done)@[old(done)@.len() + i],
                        spec_route(pumped.frames[i].header, pumped.frames[i].body),
                        old(self).ids(),
                    )
            }),
    {
        if !self.run_flag {
            return Ok(());
        }
        let ghost all = spec_pump(wire@);
        let ghost before = self.queues();
        let ghost taken: Seq<Frame> = Seq::empty();
        proof {
            assert(taken + spec_pump(wire@).frames =~= all.frames);
            assert forall|id: u32| #[trigger] before.dom().contains(id) implies before[id]
                == before[id] + spec_inbound(taken, id) by {
                assert(before[id] =~= before[id] + Seq::<Message>::empty());
            }
        }
        loop
            invariant
                old(self).running(),
                self.running() == old(self).running(),
                self.ids() == old(self).ids(),
                self.opened() == old(self).opened(),
                before == old(self).queues(),
                all == spec_pump(old(wire)@),
                all.frames == taken + spec_pump(wire@).frames,
                all.rest == spec_pump(wire@).rest,
                all.fault == spec_pump(wire@).fault,
                forall|id: u32| #[trigger]
                    before.dom().contains(id) ==> self.queues()[id] == before[id] + spec_inbound(
                        taken,
                        id,
                    ),
                done@.len() == old(done)@.len() + taken.len(),
                forall|i: int| 0 <= i < old(done)@.len() ==> done@[i] == old(done)@[i],
                forall|i: int|
                    0 <= i < taken.len() ==> is_event(
                        #[trigger] done@[old(done)@.len() + i],
                        spec_route(taken[i].header, taken[i].body),
                        old(self).ids(),
                    ),
            decreases wire@.len(),
        {
            let ghost s = wire@;
            let (type_, body) = match wire.read_message() {
                Ok(message) => message,
                Err(e) => {
                    proof {
                        assert(all.frames =~= taken);
                    }
                    return match e.io_kind() {
                        Some(std::io::ErrorKind::UnexpectedEof) => Ok(()),
                        _ => Err(e),
                    };
                },
            };
            let header = MessageHeader { size: (body.len() + 4) as u16, type_ };
            let ghost frame = spec_frame(type_, body@);
            let mut input: Stream = Stream::from_bytes(body);
            match self.dispatch(header, &mut input) {
                Err(e) => {
                    proof {
                        assert(all.frames =~= taken);
                    }
                    return Err(e);
                },
                Ok(d) => {
                    done.push(d);
                    proof {
                        let next = taken.push(frame);
                        assert(next.drop_last() =~= taken);
                        assert(taken + (seq![frame] + spec_pump(wire@).frames) =~= next
                            + spec_pump(wire@).frames);
                        assert forall|id: u32| #[trigger]
                            before.dom().contains(id) implies self.queues()[id] == before[id]
                            + spec_inbound(next, id) by {
                            assert(self.queues()[id] =~= before[id] + spec_inbound(next, id));
                        }
                        assert forall|i: int| 0 <= i < next.len() implies is_event(
                            #[trigger] done@[old(done)@.len() + i],
                            spec_route(next[i].header, next[i].body),
                            old(self).ids(),
                        ) by {
                            if i < taken.len() {
                                assert(next[i] == taken[i]);
                            }
                        }
                        taken = next;
                    }
                },
            }
        }
    }

    /// Begins to open a channel to `destination` at `port`: takes the lowest
    /// free id for it, gives it an empty queue, and writes the request to
    /// the daemon. The channel is pending until the daemon has answered.
    pub fn channel_connect(
        &mut self,
        out: &mut Stream,
        destination: &PublicKey,
        port: &HashCode,
    ) -> (id: u32)
        requires
            old(self).has_free_id(),
        ensures
            id >= FIRST_CHANNEL_ID,
            !old(self).ids().contains(id),
            forall|other: u32| FIRST_CHANNEL_ID <= other < id ==> old(self).ids().contains(other),
            final(self).queues() == old(self).queues().insert(id, Seq::empty()),
            final(self).opened() == old(self).opened(),
            final(self).running() == old(self).running(),
            final(out)@ == old(out)@ + spec_message(
                MESSAGE_TYPE_CADET_LOCAL_CHANNEL_CREATE,
                spec_create_body(id, destination.key@, port.spec_to_bytes()),
            ),
    {
        let channel_id: u32 = self.next_free_channel();
        let hash: Vec<u8> = port.to_bytes();
        let mut body: Stream = Stream::new();
        body.write_u32(channel_id);
        body.write(destination.key.as_slice());
        body.write(hash.as_slice());
        body.write_u32(0);
        let bytes: Vec<u8> = body.to_bytes();
        assert(bytes@ =~= spec_create_body(channel_id, destination.key@, port.spec_to_bytes()));
        let written = out.write_message(MESSAGE_TYPE_CADET_LOCAL_CHANNEL_CREATE, bytes.as_slice());
        assert(written is Ok);
        channel_id
    }

    /// Gives up a pending channel whose answer nobody waits for any more:
    /// its id is free again and its queue is dropped. A channel that is not
    /// pending stays as it is.
    pub fn abandon(&mut self, id: u32) -> (gone: bool)
        ensures
            gone == (old(self).spec_state(id) is Pending),
            final(self).queues() == if gone {
                old(self).queues().remove(id)
            } else {
                old(self).queues()
            },
            final(self).opened() == old(self).opened(),
            final(self).running() == old(self).running(),
    {
        match self.state(id) {
            ChannelState::Pending => {
                self.release(id);
                assert(self.opened() =~= old(self).opened());
                true
            },
            _ => false,
        }
    }

    /// Looks in the queue of the pending channel `id` for the daemon's
    /// answer to the request that opened it. Data that came before the
    /// answer is out of order and is dropped. An acknowledgement opens the
    /// channel. The end of the channel is a connection that was reset, and
    /// gives up the id. There is no answer yet where the queue holds none,
    /// and never one where the channel is not pending.
    ///
    /// Returns the answer, and how many messages of data were dropped.
    pub fn poll_connect(&mut self, id: u32) -> (r: (Option<Result<Channel, Error>>, usize))
        ensures
            final(self).running() == old(self).running(),
            ({
                let queues = old(self).queues();
                let q = queues[id];
                let k = spec_first_signal(q);
                if !(old(self).spec_state(id) is Pending) {
                    &&& r.0 is None
                    &&& r.1 == 0
                    &&& final(self).queues() == queues
                    &&& final(self).opened() == old(self).opened()
                } else if k == q.len() {
                    &&& r.0 is None
                    &&& r.1 == k
                    &&& final(self).queues() == queues.insert(id, Seq::empty())
                    &&& final(self).opened() == old(self).opened()
                } else if q[k] is Ack {
                    &&& r.0 matches Some(Ok(channel))
                    &&& channel.spec_id() == id
                    &&& r.1 == k
                    &&& final(self).queues() == queues.insert(id, q.skip(k + 1))
                    &&& final(self).opened() == old(self).opened().insert(id)
                } else {
                    &&& r.0 matches Some(answer)
                    &&& is_fault(answer, std::io::ErrorKind::ConnectionReset)
                    &&& r.1 == k
                    &&& final(self).queues() == queues.remove(id)
                    &&& final(self).opened() == old(self).opened()
                }
            }),
    {
        match self.channels.remove(&id) {
            None => {
                assert(self.queues() =~= old(self).queues());
                assert(self.opened() =~= old(self).opened());
                (None, 0)
            },
            Some(entry) => {
                let mut entry = entry;
                let ghost q = spec_queue(entry.queue@);
                assert(q == old(self).queues()[id]);
                if entry.open {
                    self.channels.insert(id, entry);
                    assert(self.queues() =~= old(self).queues());
                    assert(self.opened() =~= old(self).opened());
                    return (None, 0);
                }
                let mut k: usize = 0;
                let mut signal: Option<bool> = None;
                while k < entry.queue.len() && signal.is_none()
                    invariant
                        k <= entry.queue.len(),
                        q == spec_queue(entry.queue@),
                        forall|j: int| 0 <= j < k ==> q[j] is Payload,
                        signal matches Some(ack) ==> k < entry.queue.len() && !(q[k as int]
                            is Payload) && (ack <==> q[k as int] is Ack),
                    decreases entry.queue.len() - k + if signal is None { 1int } else { 0int },
                {
                    match &entry.queue[k] {
                        ChannelMessage::Payload(_) => {
                            k += 1;
                        },
                        ChannelMessage::Ack => {
                            signal = Some(true);
                        },
                        ChannelMessage::Destroy => {
                            signal = Some(false);
                        },
                    }
                }
                proof {
                    lemma_first_signal(q, k as int);
                }
                match signal {
                    None => {
                        self.channels.insert(id, Entry { open: false, queue: VecDeque::new() });
                        assert(spec_queue(Seq::<ChannelMessage>::empty()) =~= Seq::<
                            Message,
                        >::empty());
                        assert(self.queues() =~= old(self).queues().insert(id, Seq::empty()));
                        assert(self.opened() =~= old(self).opened());
                        (None, k)
                    },
                    Some(true) => {
                        let rest: VecDeque<ChannelMessage> = entry.queue.split_off(k + 1);
                        assert(spec_queue(rest@) =~= q.skip(k + 1));
                        self.channels.insert(id, Entry { open: true, queue: rest });
                        assert(self.queues() =~= old(self).queues().insert(id, q.skip(k + 1)));
                        assert(self.opened() =~= old(self).opened().insert(id));
                        (Some(Ok(Channel { id, receiver: ChannelReceiver { id } })), k)
                    },
                    Some(false) => {
                        assert(self.queues() =~= old(self).queues().remove(id));
                        assert(self.opened() =~= old(self).opened());
                        (Some(Err(Error::Io(io_error(std::io::ErrorKind::ConnectionReset)))), k)
                    },
                }
            },
        }
    }
}

impl ChannelReceiver {
    /// The id of the channel.
    pub closed spec fn spec_id(&self) -> u32 {
        self.id
    }

    #[verifier::when_used_as_spec(spec_id)]
    pub fn id(&self) -> (id: u32)
        ensures
            id == self.spec_id(),
    {
        self.id
    }

    /// Takes the message at the front of the channel's queue: data, or the
    /// end of the channel, with which its id is given up and its queue is
    /// gone. Takes nothing where the queue is empty, or where the channel is
    /// not open, as it is after its end. An acknowledgement is nothing that
    /// an open channel receives: none may stand at the front of its queue.
    pub fn receive(&self, handle: &mut Handle) -> (r: Received)
        requires
            old(handle).opened().contains(self.spec_id()) ==> !old(handle).next_is_ack(
                self.spec_id(),
            ),
        ensures
            final(handle).running() == old(handle).running(),
            if old(handle).opened().contains(self.spec_id()) {
                &&& is_front(r, old(handle).queues(), self.spec_id())
                &&& final(handle).queues() == spec_taken(old(handle).queues(), self.spec_id())
                &&& final(handle).opened() == if r is Destroyed {
                    old(handle).opened().remove(self.spec_id())
                } else {
                    old(handle).opened()
                }
            } else {
                &&& r is Empty
                &&& final(handle).queues() == old(handle).queues()
                &&& final(handle).opened() == old(handle).opened()
            },
    {
        handle.take(self.id)
    }
}

impl Channel {
    #[verifier::type_invariant]
    spec fn inv(self) -> bool {
        self.receiver.id == self.id
    }

    /// The id of the channel.
    pub closed spec fn spec_id(&self) -> u32 {
        self.id
    }

    /// An internal id, by which two channels can be told apart.
    #[verifier::when_used_as_spec(spec_id)]
    pub fn id(&self) -> (id: u32)
        ensures
            id == self.spec_id(),
    {
        self.id
    }

    pub fn receiver(&self) -> (r: &ChannelReceiver)
        ensures
            r.spec_id() == self.spec_id(),
    {
        proof {
            use_type_invariant(self);
        }
        &self.receiver
    }

    pub fn clone_receiver(&self) -> (r: ChannelReceiver)
        ensures
            r.spec_id() == self.spec_id(),
    {
        proof {
            use_type_invariant(self);
        }
        self.receiver
    }

    /// Writes `data` as one message on the channel. Data of more than
    /// `MAX_DATA_LEN` bytes fits in no message: then nothing is written.
    pub fn send(&self, out: &mut Stream, priority: u32, data: &[u8]) -> (r: Result<(), Error>)
        ensures
            if data@.len() <= MAX_DATA_LEN {
                r is Ok && final(out)@ == old(out)@ + spec_message(
                    MESSAGE_TYPE_CADET_LOCAL_DATA,
                    spec_data_body(self.spec_id(), priority, data@),
                )
            } else {
                is_fault(r, std::io::ErrorKind::InvalidInput) && final(out)@ == old(out)@
            },
    {
        if data.len() > MAX_DATA_LEN {
            return Err(Error::Io(io_error(std::io::ErrorKind::InvalidInput)));
        }
        let mut body: Stream = Stream::new();
        body.write_u32(self.id);
        body.write_u32(priority);
        body.write(data);
        let bytes: Vec<u8> = body.to_bytes();
        assert(bytes@ =~= spec_data_body(self.spec_id(), priority, data@));
        out.write_message(MESSAGE_TYPE_CADET_LOCAL_DATA, bytes.as_slice())
    }

    /// Ends the channel: writes the message that tells the daemon so, and
    /// gives up the channel's id and its queue.
    pub fn destroy(&self, handle: &mut Handle, out: &mut Stream)
        ensures
            final(out)@ == old(out)@ + spec_message(
                MESSAGE_TYPE_CADET_LOCAL_CHANNEL_DESTROY,
                spec_u32_be(self.spec_id()),
            ),
            final(handle).queues() == old(handle).queues().remove(self.spec_id()),
            final(handle).opened() == old(handle).opened().remove(self.spec_id()),
            final(handle).running() == old(handle).running(),
    {
        out.write_header(MESSAGE_TYPE_CADET_LOCAL_CHANNEL_DESTROY, 8);
        out.write_u32(self.id);
        assert(out@ =~= old(out)@ + spec_message(
            MESSAGE_TYPE_CADET_LOCAL_CHANNEL_DESTROY,
            spec_u32_be(self.spec_id()),
        ));
        handle.release(self.id);
    }
}

} // verus!
