//! What happens to an event on its way to the consumer.

use vstd::prelude::*;

verus! {

/// How many events wait between the reader of the socket and the delivery. It
/// only has to absorb a burst while a callback runs. When it is full, events
/// are dropped: a reader that waits stops answering the protocol.
pub const DELIVERY_QUEUE_CAPACITY: usize = 1024;

/// What happens when the stream of a consumer is full.
#[derive(Debug, Clone, Copy, PartialEq, Eq, Structural)]
pub enum OverflowPolicy {
    /// The event is dropped and counted.
    Drop,
    /// Delivery waits for the consumer.
    Block,
}

/// What came of handing an event on.
#[derive(Debug, Clone, Copy, PartialEq, Eq, Structural)]
pub enum HandOff {
    /// It was taken.
    Taken,
    /// There was no room.
    Full,
    /// Nobody takes events any more.
    Closed,
}

/// What the reader does after it offered an event to the delivery.
#[derive(Debug, Clone, Copy, PartialEq, Eq, Structural)]
pub enum AfterOffer {
    /// Go on with the next event.
    Next,
    /// The event is lost and counts as dropped; go on with the next event.
    Dropped,
    /// Delivery is gone: nothing more can reach the consumer.
    Stop,
}

/// Decides what the reader does after it offered an event to the delivery. It
/// never waits.
pub fn after_offer(outcome: HandOff) -> (r: AfterOffer)
    ensures
        r == match outcome {
            HandOff::Taken => AfterOffer::Next,
            HandOff::Full => AfterOffer::Dropped,
            HandOff::Closed => AfterOffer::Stop,
        },
{
    match outcome {
        HandOff::Taken => AfterOffer::Next,
        HandOff::Full => AfterOffer::Dropped,
        HandOff::Closed => AfterOffer::Stop,
    }
}

/// What the delivery does after it offered an event to the stream.
#[derive(Debug, Clone, Copy, PartialEq, Eq, Structural)]
pub enum AfterStream {
    /// The event is with the consumer.
    Delivered,
    /// The event is lost and counts as dropped.
    Dropped,
    /// Wait until there is room, and offer the event again.
    Wait,
    /// The consumer is gone, which is new: say so once.
    GoneNow,
    /// The consumer is gone, which was known.
    Gone,
}

/// The delivery of events to the stream of a consumer.
#[derive(Debug)]
pub struct Delivery {
    policy: OverflowPolicy,
    closed: bool,
}

/// What a delivery is: what it does with a full stream, and whether it knows
/// that the consumer is gone.
#[verifier::ext_equal]
pub struct DeliveryTree {
    pub policy: OverflowPolicy,
    pub closed: bool,
}

impl View for Delivery {
    type V = DeliveryTree;

    closed spec fn view(&self) -> DeliveryTree {
        DeliveryTree { policy: self.policy, closed: self.closed }
    }
}

/// What a delivery does after an event was offered to the stream.
pub open spec fn stream_result(delivery: DeliveryTree, outcome: HandOff) -> AfterStream {
    match outcome {
        HandOff::Taken => AfterStream::Delivered,
        HandOff::Full => match delivery.policy {
            OverflowPolicy::Drop => AfterStream::Dropped,
            OverflowPolicy::Block => AfterStream::Wait,
        },
        HandOff::Closed => if delivery.closed {
            AfterStream::Gone
        } else {
            AfterStream::GoneNow
        },
    }
}

impl Delivery {
    /// A delivery with a policy.
    pub fn new(policy: OverflowPolicy) -> (r: Self)
        ensures
            r@ == (DeliveryTree { policy, closed: false }),
    {
        Delivery { policy, closed: false }
    }

    /// Decides what happens after an event was offered to the stream.
    pub fn after_stream(&mut self, outcome: HandOff) -> (r: AfterStream)
        ensures
            r == stream_result(old(self)@, outcome),
            final(self)@ == (DeliveryTree {
                closed: old(self)@.closed || outcome == HandOff::Closed,
                ..old(self)@
            }),
    {
        match outcome {
            HandOff::Taken => AfterStream::Delivered,
            HandOff::Full => match self.policy {
                OverflowPolicy::Drop => AfterStream::Dropped,
                OverflowPolicy::Block => AfterStream::Wait,
            },
            HandOff::Closed => {
                if self.closed {
                    AfterStream::Gone
                } else {
                    self.closed = true;
                    AfterStream::GoneNow
                }
            },
        }
    }
}

/// Whether a number is a power of two.
pub open spec fn is_power_of_two(n: int) -> bool
    decreases n,
{
    if n <= 0 {
        false
    } else if n == 1 {
        true
    } else {
        n % 2 == 0 && is_power_of_two(n / 2)
    }
}

/// Whether a number is a power of two: a count is worth a warning whenever it
/// has doubled.
pub fn power_of_two(n: u64) -> (r: bool)
    ensures
        r == is_power_of_two(n as int),
{
    if n == 0 {
        return false;
    }
    let mut m: u64 = n;
    while m % 2 == 0
        invariant
            m > 0,
            is_power_of_two(m as int) == is_power_of_two(n as int),
        decreases m,
    {
        m = m / 2;
    }
    m == 1
}

/// How many of some events get a result, given what came of offering each to
/// the stream.
pub open spec fn count_of(policy: OverflowPolicy, outcomes: Seq<HandOff>, result: AfterStream) -> nat
    decreases outcomes.len(),
{
    if outcomes.len() == 0 {
        0
    } else {
        count_of(policy, outcomes.drop_last(), result) + (if stream_result(
            DeliveryTree { policy, closed: false },
            outcomes.last(),
        ) == result {
            1nat
        } else {
            0nat
        })
    }
}

/// While the consumer is there, every event is delivered, counted as dropped,
/// or offered again: none is gone in silence. A delivery that waits drops
/// nothing, and one that drops never waits.
pub proof fn every_event_is_delivered_or_counted(policy: OverflowPolicy, outcomes: Seq<HandOff>)
    requires
        forall|i: int| 0 <= i < outcomes.len() ==> #[trigger] outcomes[i] != HandOff::Closed,
    ensures
        count_of(policy, outcomes, AfterStream::Delivered) + count_of(
            policy,
            outcomes,
            AfterStream::Dropped,
        ) + count_of(policy, outcomes, AfterStream::Wait) == outcomes.len(),
        policy == OverflowPolicy::Block ==> count_of(policy, outcomes, AfterStream::Dropped) == 0,
        policy == OverflowPolicy::Drop ==> count_of(policy, outcomes, AfterStream::Wait) == 0,
    decreases outcomes.len(),
{
    if outcomes.len() > 0 {
        let init = outcomes.drop_last();
        assert forall|i: int| 0 <= i < init.len() implies #[trigger] init[i] != HandOff::Closed by {
            assert(init[i] == outcomes[i]);
        }
        every_event_is_delivered_or_counted(policy, init);
        assert(outcomes[outcomes.len() - 1] != HandOff::Closed);
    }
}

} // verus!
