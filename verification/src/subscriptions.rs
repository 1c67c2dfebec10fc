//! The subscriptions that are live, in the order in which they were asked for.

use crate::channels::insert_sorted;
use crate::events::EventType;
use crate::messages;
use crate::messages::{copy_optional, FeedSubscription, SubscriptionTree};
use crate::promises;
use crate::text::same_text;
use vstd::prelude::*;

verus! {

/// What identifies a subscription on one channel: event type, symbol and
/// source.
///
/// The source belongs to it, because an indexed subscription is scoped to its
/// source. The start of the history does not: to subscribe again with another
/// start replaces the subscription.
pub type SubscriptionKey = (EventType, String, Option<String>);

/// One live subscription.
#[derive(Debug)]
pub struct TrackedSubscription {
    channel: u32,
    event_type: EventType,
    subscription: FeedSubscription,
}

/// What one live subscription is.
#[verifier::ext_equal]
pub struct TrackedTree {
    pub channel: u32,
    pub event_type: EventType,
    pub subscription: SubscriptionTree,
}

impl View for TrackedSubscription {
    type V = TrackedTree;

    closed spec fn view(&self) -> TrackedTree {
        TrackedTree {
            channel: self.channel,
            event_type: self.event_type,
            subscription: self.subscription@,
        }
    }
}

/// Whether a live subscription is the one that a channel, a type and a
/// subscription identify.
pub open spec fn is_subscription(
    entry: TrackedTree,
    channel: u32,
    event_type: EventType,
    subscription: SubscriptionTree,
) -> bool {
    &&& entry.channel == channel
    &&& entry.event_type == event_type
    &&& entry.subscription.symbol == subscription.symbol
    &&& entry.subscription.source == subscription.source
}

/// The live subscriptions but for the one that is identified.
pub open spec fn without(
    entries: Seq<TrackedTree>,
    channel: u32,
    event_type: EventType,
    subscription: SubscriptionTree,
) -> Seq<TrackedTree> {
    entries.filter(|e: TrackedTree| !is_subscription(e, channel, event_type, subscription))
}

/// The live subscriptions after one more: it comes last, and what it replaces
/// is gone.
pub open spec fn inserted(
    entries: Seq<TrackedTree>,
    channel: u32,
    event_type: EventType,
    subscription: SubscriptionTree,
) -> Seq<TrackedTree> {
    without(entries, channel, event_type, subscription).push(
        TrackedTree { channel, event_type, subscription },
    )
}

/// The live subscriptions but for those of a channel.
pub open spec fn without_channel(entries: Seq<TrackedTree>, channel: u32) -> Seq<TrackedTree> {
    entries.filter(|e: TrackedTree| e.channel != channel)
}

/// The live subscriptions of a channel.
pub open spec fn on_channel(entries: Seq<TrackedTree>, channel: u32) -> Seq<TrackedTree> {
    entries.filter(|e: TrackedTree| e.channel == channel)
}

/// What the live subscriptions of a channel ask for.
pub open spec fn asked_on(entries: Seq<TrackedTree>, channel: u32) -> Seq<SubscriptionTree> {
    on_channel(entries, channel).map_values(|e: TrackedTree| e.subscription)
}

/// Whether a channel has a live subscription.
pub open spec fn is_subscribed(entries: Seq<TrackedTree>, channel: u32) -> bool {
    exists|i: int| 0 <= i < entries.len() && (#[trigger] entries[i]).channel == channel
}

/// Whether the subscription that a channel, a type and a subscription identify
/// is live.
pub open spec fn is_live(
    entries: Seq<TrackedTree>,
    channel: u32,
    event_type: EventType,
    subscription: SubscriptionTree,
) -> bool {
    exists|i: int|
        0 <= i < entries.len() && is_subscription(
            #[trigger] entries[i],
            channel,
            event_type,
            subscription,
        )
}

/// How many live subscriptions some channels have together.
pub open spec fn count_on(list: Seq<u32>, entries: Seq<TrackedTree>) -> nat
    decreases list.len(),
{
    if list.len() == 0 {
        0
    } else {
        count_on(list.drop_last(), entries) + asked_on(entries, list.last()).len()
    }
}

/// The live subscriptions of every channel, in the order in which they were
/// asked for. No two of them have the same identity.
#[derive(Debug)]
pub struct SubscriptionBook {
    entries: Vec<TrackedSubscription>,
}

spec fn entry_trees(entries: Seq<TrackedSubscription>) -> Seq<TrackedTree> {
    entries.map_values(|e: TrackedSubscription| e@)
}

impl View for SubscriptionBook {
    type V = Seq<TrackedTree>;

    closed spec fn view(&self) -> Seq<TrackedTree> {
        entry_trees(self.entries@)
    }
}

/// The identity of a subscription.
pub fn key_of(event_type: EventType, subscription: &FeedSubscription) -> (r: SubscriptionKey)
    ensures
        r.0 == event_type,
        r.1@ == subscription.symbol@,
        messages::optional_text(r.2) == messages::optional_text(subscription.source),
{
    (event_type, subscription.symbol.as_str().to_owned(), copy_optional(&subscription.source))
}

fn same_optional(a: &Option<String>, b: &Option<String>) -> (r: bool)
    ensures
        r == (messages::optional_text(*a) == messages::optional_text(*b)),
{
    match (a, b) {
        (Some(a), Some(b)) => same_text(a.as_str(), b.as_str()),
        (None, None) => true,
        _ => false,
    }
}

fn identifies(key: &SubscriptionKey, entry: &TrackedSubscription) -> (r: bool)
    ensures
        r == (entry@.event_type == key.0 && entry@.subscription.symbol == key.1@
            && entry@.subscription.source == messages::optional_text(key.2)),
{
    entry.event_type == key.0 && same_text(entry.subscription.symbol.as_str(), key.1.as_str())
        && same_optional(&entry.subscription.source, &key.2)
}

impl SubscriptionBook {
    #[verifier::type_invariant]
    spec fn is_well_formed(self) -> bool {
        has_distinct_identities(entry_trees(self.entries@))
    }

    /// No subscriptions.
    pub fn new() -> (r: Self)
        ensures
            r@ == Seq::<TrackedTree>::empty(),
    {
        let r = SubscriptionBook { entries: Vec::new() };
        assert(r@ =~= Seq::<TrackedTree>::empty());
        r
    }

    /// Records a subscription. An earlier one of the same identity on that
    /// channel is replaced: the later one is what the server honours.
    pub fn insert(&mut self, channel_id: u32, event_type: EventType, subscription: FeedSubscription)
        ensures
            final(self)@ == inserted(old(self)@, channel_id, event_type, subscription@),
            final(self)@.len() == old(self)@.len() + if is_live(
                old(self)@,
                channel_id,
                event_type,
                subscription@,
            ) {
                0int
            } else {
                1
            },
            forall|entry: TrackedTree| #[trigger]
                final(self)@.contains(entry) <==> (old(self)@.contains(entry) && (entry.channel
                    != channel_id || entry.event_type != event_type || entry.subscription.symbol
                    != subscription@.symbol || entry.subscription.source != subscription@.source))
                    || entry == (TrackedTree {
                    channel: channel_id,
                    event_type,
                    subscription: subscription@,
                }),
    {
        let ghost before = self@;
        let ghost asked = subscription@;
        proof {
            use_type_invariant(&*self);
            identities_stay_distinct(before, channel_id, event_type, asked);
            a_subscription_counts_once(before, channel_id, event_type, asked);
        }
        self.remove(channel_id, event_type, &subscription);
        let ghost kept = self@;
        let mut entries: Vec<TrackedSubscription> = Vec::new();
        std::mem::swap(&mut self.entries, &mut entries);
        let ghost held = entries@;
        entries.push(TrackedSubscription { channel: channel_id, event_type, subscription });
        assert(entry_trees(entries@) =~= entry_trees(held).push(
            TrackedTree { channel: channel_id, event_type, subscription: asked },
        ));
        self.entries = entries;
        assert forall|other: TrackedTree| #[trigger] self@.contains(other) <==> (before.contains(
            other,
        ) && (other.channel != channel_id || other.event_type != event_type
            || other.subscription.symbol != asked.symbol || other.subscription.source
            != asked.source)) || other == (TrackedTree {
            channel: channel_id,
            event_type,
            subscription: asked,
        }) by {
            promises::a_subscription_that_differs_survives(
                before,
                channel_id,
                event_type,
                asked,
                other,
            );
        }
    }

    /// Forgets one subscription. To forget one that is not there changes
    /// nothing.
    pub fn remove(&mut self, channel_id: u32, event_type: EventType, subscription: &FeedSubscription)
        ensures
            final(self)@ == without(old(self)@, channel_id, event_type, subscription@),
            forall|entry: TrackedTree| #[trigger]
                final(self)@.contains(entry) <==> old(self)@.contains(entry) && (entry.channel
                    != channel_id || entry.event_type != event_type || entry.subscription.symbol
                    != subscription@.symbol || entry.subscription.source != subscription@.source),
    {
        let key = key_of(event_type, subscription);
        let ghost all = self@;
        proof {
            use_type_invariant(&*self);
            identities_stay_distinct(all, channel_id, event_type, subscription@);
        }
        let ghost keeps = |e: TrackedTree|
            !is_subscription(e, channel_id, event_type, subscription@);
        let mut entries: Vec<TrackedSubscription> = Vec::new();
        std::mem::swap(&mut self.entries, &mut entries);
        let mut kept: Vec<TrackedSubscription> = Vec::new();
        assert(all.take(0) =~= Seq::<TrackedTree>::empty());
        proof {
            reveal(Seq::filter);
        }
        assert(entry_trees(kept@) =~= all.take(0).filter(keeps));
        for entry in it: entries
            invariant
                all == entry_trees(it.seq()),
                key.0 == event_type,
                key.1@ == subscription.symbol@,
                messages::optional_text(key.2) == messages::optional_text(subscription.source),
                keeps == (|e: TrackedTree|
                    !is_subscription(e, channel_id, event_type, subscription@)),
                entry_trees(kept@) == all.take(it.index()).filter(keeps),
        {
            let ghost before = kept@;
            let ghost n = it.index();
            proof {
                reveal(Seq::filter);
                assert(all[n] == entry@);
                assert(all.take(n + 1).drop_last() =~= all.take(n));
                assert(all.take(n + 1).last() == entry@);
            }
            if !(entry.channel == channel_id && identifies(&key, &entry)) {
                kept.push(entry);
                assert(entry_trees(kept@) =~= entry_trees(before).push(entry@));
            }
        }
        assert(all.take(all.len() as int) =~= all);
        self.entries = kept;
        assert forall|other: TrackedTree| #[trigger] self@.contains(other) <==> all.contains(other)
            && (other.channel != channel_id || other.event_type != event_type
            || other.subscription.symbol != subscription@.symbol || other.subscription.source
            != subscription@.source) by {
            promises::a_subscription_that_differs_survives(
                all,
                channel_id,
                event_type,
                subscription@,
                other,
            );
        }
    }

    /// Forgets everything on one channel, and nothing else.
    pub fn forget_channel(&mut self, channel_id: u32)
        ensures
            final(self)@ == without_channel(old(self)@, channel_id),
    {
        let ghost all = self@;
        proof {
            use_type_invariant(&*self);
            identities_stay_distinct(all, channel_id, EventType::Quote, arbitrary());
        }
        let ghost keeps = |e: TrackedTree| e.channel != channel_id;
        let mut entries: Vec<TrackedSubscription> = Vec::new();
        std::mem::swap(&mut self.entries, &mut entries);
        let mut kept: Vec<TrackedSubscription> = Vec::new();
        assert(all.take(0) =~= Seq::<TrackedTree>::empty());
        proof {
            reveal(Seq::filter);
        }
        assert(entry_trees(kept@) =~= all.take(0).filter(keeps));
        for entry in it: entries
            invariant
                all == entry_trees(it.seq()),
                keeps == (|e: TrackedTree| e.channel != channel_id),
                entry_trees(kept@) == all.take(it.index()).filter(keeps),
        {
            let ghost before = kept@;
            let ghost n = it.index();
            proof {
                reveal(Seq::filter);
                assert(all[n] == entry@);
                assert(all.take(n + 1).drop_last() =~= all.take(n));
                assert(all.take(n + 1).last() == entry@);
            }
            if entry.channel != channel_id {
                kept.push(entry);
                assert(entry_trees(kept@) =~= entry_trees(before).push(entry@));
            }
        }
        assert(all.take(all.len() as int) =~= all);
        self.entries = kept;
    }

    /// The live subscriptions of a channel, in the order in which they were
    /// asked for.
    pub fn of_channel(&self, channel_id: u32) -> (r: Vec<FeedSubscription>)
        ensures
            messages::subscription_trees(r@) == asked_on(self@, channel_id),
    {
        let ghost all = self@;
        let mut out: Vec<FeedSubscription> = Vec::new();
        let mut i: usize = 0;
        proof {
            reveal(Seq::filter);
            assert(all.take(0) =~= Seq::<TrackedTree>::empty());
            assert(messages::subscription_trees(out@) =~= asked_on(all.take(0), channel_id));
        }
        while i < self.entries.len()
            invariant
                i <= self.entries.len(),
                all == entry_trees(self.entries@),
                messages::subscription_trees(out@) == asked_on(all.take(i as int), channel_id),
            decreases self.entries.len() - i,
        {
            let ghost before = out@;
            proof {
                reveal(Seq::filter);
                assert(all.take(i + 1).drop_last() =~= all.take(i as int));
                assert(all.take(i + 1).last() == self.entries@[i as int]@);
            }
            if self.entries[i].channel == channel_id {
                out.push(self.entries[i].subscription.copied());
                proof {
                    let head = on_channel(all.take(i as int), channel_id);
                    let entry = self.entries@[i as int]@;
                    assert(on_channel(all.take(i + 1), channel_id) =~= head.push(entry));
                    assert(asked_on(all.take(i + 1), channel_id) =~= asked_on(
                        all.take(i as int),
                        channel_id,
                    ).push(entry.subscription));
                    assert(messages::subscription_trees(out@) =~= messages::subscription_trees(
                        before,
                    ).push(entry.subscription));
                }
            }
            i += 1;
        }
        assert(all.take(all.len() as int) =~= all);
        out
    }

    /// The channels with a live subscription, lowest first. Their subscriptions
    /// are all that there are.
    pub fn channels(&self) -> (r: Vec<u32>)
        ensures
            forall|i: int, j: int| 0 <= i < j < r@.len() ==> r@[i] < r@[j],
            forall|channel: u32| #[trigger] r@.contains(channel) <==> is_subscribed(self@, channel),
            count_on(r@, self@) == self@.len(),
    {
        let mut out: Vec<u32> = Vec::new();
        let mut i: usize = 0;
        while i < self.entries.len()
            invariant
                i <= self.entries.len(),
                forall|a: int, b: int| 0 <= a < b < out@.len() ==> out@[a] < out@[b],
                forall|channel: u32| #[trigger]
                    out@.contains(channel) <==> exists|j: int|
                        0 <= j < i && (#[trigger] self.entries@[j]).channel == channel,
            decreases self.entries.len() - i,
        {
            let ghost before = out@;
            let channel: u32 = self.entries[i].channel;
            insert_sorted(&mut out, channel);
            proof {
                assert forall|other: u32| #[trigger] out@.contains(other) <==> exists|j: int|
                    0 <= j < i + 1 && (#[trigger] self.entries@[j]).channel == other by {
                    assert(self.entries@[i as int].channel == channel);
                    if out@.contains(other) && other != channel {
                        assert(before.contains(other));
                    }
                    if exists|j: int|
                        0 <= j < i + 1 && (#[trigger] self.entries@[j]).channel == other {
                        let j = choose|j: int|
                            0 <= j < i + 1 && (#[trigger] self.entries@[j]).channel == other;
                        if j < i {
                            assert(before.contains(other));
                        }
                    }
                }
            }
            i += 1;
        }
        proof {
            assert forall|channel: u32| #[trigger] out@.contains(channel) <==> is_subscribed(
                self@,
                channel,
            ) by {
                if out@.contains(channel) {
                    let j = choose|j: int|
                        0 <= j < self.entries@.len() && (#[trigger] self.entries@[j]).channel
                            == channel;
                    assert(self@[j].channel == channel);
                }
                if is_subscribed(self@, channel) {
                    let j = choose|j: int|
                        0 <= j < self@.len() && (#[trigger] self@[j]).channel == channel;
                    assert(self.entries@[j].channel == channel);
                }
            }
            channels_make_up_the_book(self@, out@);
        }
        out
    }

    /// How many subscriptions are live.
    pub fn len(&self) -> (r: usize)
        ensures
            r == self@.len(),
    {
        self.entries.len()
    }

    /// Forgets everything.
    pub fn clear(&mut self)
        ensures
            final(self)@ == Seq::<TrackedTree>::empty(),
    {
        self.entries = Vec::new();
        assert(self@ =~= Seq::<TrackedTree>::empty());
    }
}

// ---------------------------------------------------------------------------
// What every operation keeps
// ---------------------------------------------------------------------------
/// Whether no two live subscriptions have the same identity.
pub open spec fn has_distinct_identities(entries: Seq<TrackedTree>) -> bool {
    forall|i: int, j: int|
        0 <= i < j < entries.len() ==> !is_subscription(
            #[trigger] entries[i],
            (#[trigger] entries[j]).channel,
            entries[j].event_type,
            entries[j].subscription,
        )
}

/// An empty book has distinct identities, and no operation makes two live
/// subscriptions share one: to subscribe again replaces.
pub proof fn identities_stay_distinct(
    entries: Seq<TrackedTree>,
    channel: u32,
    event_type: EventType,
    subscription: SubscriptionTree,
)
    requires
        has_distinct_identities(entries),
    ensures
        has_distinct_identities(Seq::<TrackedTree>::empty()),
        has_distinct_identities(inserted(entries, channel, event_type, subscription)),
        has_distinct_identities(without(entries, channel, event_type, subscription)),
        has_distinct_identities(without_channel(entries, channel)),
{
    let keeps = |e: TrackedTree| !is_subscription(e, channel, event_type, subscription);
    filter_keeps_distinct(entries, keeps);
    filter_keeps_distinct(entries, |e: TrackedTree| e.channel != channel);
    let kept = without(entries, channel, event_type, subscription);
    let more = inserted(entries, channel, event_type, subscription);
    filter_holds(entries, keeps);
    assert forall|i: int, j: int| 0 <= i < j < more.len() implies !is_subscription(
        #[trigger] more[i],
        (#[trigger] more[j]).channel,
        more[j].event_type,
        more[j].subscription,
    ) by {
        assert(more[i] == kept[i]);
        assert(keeps(kept[i]));
        if j < kept.len() {
            assert(more[j] == kept[j]);
        }
    }
}

/// A subscription counts once: one that replaces another leaves as many as
/// there were, one that is new makes one more, and one that is forgotten makes
/// one less.
pub proof fn a_subscription_counts_once(
    entries: Seq<TrackedTree>,
    channel: u32,
    event_type: EventType,
    subscription: SubscriptionTree,
)
    requires
        has_distinct_identities(entries),
    ensures
        inserted(entries, channel, event_type, subscription).len() == entries.len() + if is_live(
            entries,
            channel,
            event_type,
            subscription,
        ) {
            0int
        } else {
            1
        },
        without(entries, channel, event_type, subscription).len() == entries.len() - if is_live(
            entries,
            channel,
            event_type,
            subscription,
        ) {
            1int
        } else {
            0
        },
    decreases entries.len(),
{
    let keeps = |e: TrackedTree| !is_subscription(e, channel, event_type, subscription);
    reveal(Seq::filter);
    if entries.len() > 0 {
        let init = entries.drop_last();
        let last = entries.last();
        assert(entries[entries.len() - 1] == last);
        assert forall|i: int, j: int| 0 <= i < j < init.len() implies !is_subscription(
            #[trigger] init[i],
            (#[trigger] init[j]).channel,
            init[j].event_type,
            init[j].subscription,
        ) by {
            assert(init[i] == entries[i] && init[j] == entries[j]);
        }
        a_subscription_counts_once(init, channel, event_type, subscription);
        if is_live(init, channel, event_type, subscription) {
            let i = choose|i: int|
                0 <= i < init.len() && is_subscription(
                    #[trigger] init[i],
                    channel,
                    event_type,
                    subscription,
                );
            assert(entries[i] == init[i]);
            assert(!is_subscription(
                entries[i],
                entries[entries.len() - 1].channel,
                entries[entries.len() - 1].event_type,
                entries[entries.len() - 1].subscription,
            ));
            assert(keeps(last));
        } else if is_live(entries, channel, event_type, subscription) {
            let i = choose|i: int|
                0 <= i < entries.len() && is_subscription(
                    #[trigger] entries[i],
                    channel,
                    event_type,
                    subscription,
                );
            if i < init.len() {
                assert(init[i] == entries[i]);
            }
            assert(!keeps(last));
        }
    }
}

/// The channels with a live subscription have all the subscriptions between
/// them, each of them at least one, and no other channel has any.
pub proof fn channels_make_up_the_book(entries: Seq<TrackedTree>, list: Seq<u32>)
    requires
        forall|i: int, j: int| 0 <= i < j < list.len() ==> list[i] < list[j],
        forall|channel: u32| #[trigger] list.contains(channel) <==> is_subscribed(entries, channel),
    ensures
        count_on(list, entries) == entries.len(),
        forall|channel: u32| #[trigger]
            list.contains(channel) <==> asked_on(entries, channel).len() > 0,
{
    assert forall|i: int| 0 <= i < entries.len() implies list.contains(
        (#[trigger] entries[i]).channel,
    ) by {
        assert(is_subscribed(entries, entries[i].channel));
    }
    listed_channels_count_all(entries, list);
    assert forall|channel: u32| #[trigger] list.contains(channel) <==> asked_on(
        entries,
        channel,
    ).len() > 0 by {
        subscribed_is_not_empty(entries, channel);
    }
}

proof fn listed_channels_count_all(entries: Seq<TrackedTree>, list: Seq<u32>)
    requires
        forall|i: int, j: int| 0 <= i < j < list.len() ==> list[i] < list[j],
        forall|i: int|
            0 <= i < entries.len() ==> list.contains((#[trigger] entries[i]).channel),
    ensures
        count_on(list, entries) == entries.len(),
    decreases entries.len(),
{
    if entries.len() == 0 {
        counts_nothing(list, entries);
    } else {
        let init = entries.drop_last();
        let last = entries.last();
        assert(entries[entries.len() - 1] == last);
        assert forall|i: int| 0 <= i < init.len() implies list.contains(
            (#[trigger] init[i]).channel,
        ) by {
            assert(init[i] == entries[i]);
        }
        listed_channels_count_all(init, list);
        assert(entries =~= init.push(last));
        one_more_counts_once(init, last, list);
    }
}

proof fn counts_nothing(list: Seq<u32>, entries: Seq<TrackedTree>)
    requires
        entries.len() == 0,
    ensures
        count_on(list, entries) == 0,
    decreases list.len(),
{
    reveal(Seq::filter);
    if list.len() > 0 {
        counts_nothing(list.drop_last(), entries);
    }
}

proof fn one_more_counts_once(entries: Seq<TrackedTree>, entry: TrackedTree, list: Seq<u32>)
    requires
        forall|i: int, j: int| 0 <= i < j < list.len() ==> list[i] < list[j],
    ensures
        count_on(list, entries.push(entry)) == count_on(list, entries) + if list.contains(
            entry.channel,
        ) {
            1int
        } else {
            0
        },
    decreases list.len(),
{
    if list.len() > 0 {
        let init = list.drop_last();
        let last = list.last();
        assert(list[list.len() - 1] == last);
        assert forall|i: int, j: int| 0 <= i < j < init.len() implies init[i] < init[j] by {
            assert(init[i] == list[i] && init[j] == list[j]);
        }
        one_more_counts_once(entries, entry, init);
        filter_of_push(entries, entry, |e: TrackedTree| e.channel == last);
        if entry.channel == last {
            assert forall|i: int| 0 <= i < init.len() implies init[i] != last by {
                assert(list[i] < list[list.len() - 1]);
            }
            assert(!init.contains(last));
        } else if list.contains(entry.channel) {
            let i = choose|i: int| 0 <= i < list.len() && list[i] == entry.channel;
            assert(init[i] == entry.channel);
        } else if init.contains(entry.channel) {
            let i = choose|i: int| 0 <= i < init.len() && init[i] == entry.channel;
            assert(list[i] == entry.channel);
        }
    }
}

proof fn subscribed_is_not_empty(entries: Seq<TrackedTree>, channel: u32)
    ensures
        is_subscribed(entries, channel) <==> on_channel(entries, channel).len() > 0,
    decreases entries.len(),
{
    reveal(Seq::filter);
    if entries.len() > 0 {
        let init = entries.drop_last();
        subscribed_is_not_empty(init, channel);
        if is_subscribed(init, channel) {
            let i = choose|i: int| 0 <= i < init.len() && (#[trigger] init[i]).channel == channel;
            assert(entries[i] == init[i]);
        }
        if is_subscribed(entries, channel) {
            let i = choose|i: int|
                0 <= i < entries.len() && (#[trigger] entries[i]).channel == channel;
            if i < init.len() {
                assert(init[i] == entries[i]);
            }
        }
        if entries.last().channel == channel {
            assert(entries[entries.len() - 1].channel == channel);
        }
    }
}

/// What happens on one channel leaves every other channel as it is.
pub proof fn other_channels_are_untouched(
    entries: Seq<TrackedTree>,
    channel: u32,
    event_type: EventType,
    subscription: SubscriptionTree,
    other: u32,
)
    requires
        other != channel,
    ensures
        on_channel(inserted(entries, channel, event_type, subscription), other) == on_channel(
            entries,
            other,
        ),
        on_channel(without(entries, channel, event_type, subscription), other) == on_channel(
            entries,
            other,
        ),
        on_channel(without_channel(entries, channel), other) == on_channel(entries, other),
{
    let here = |e: TrackedTree| e.channel == other;
    let keeps = |e: TrackedTree| !is_subscription(e, channel, event_type, subscription);
    let elsewhere = |e: TrackedTree| e.channel != channel;
    filter_of_weaker_filter(entries, keeps, here);
    filter_of_weaker_filter(entries, elsewhere, here);
    filter_of_push(
        without(entries, channel, event_type, subscription),
        TrackedTree { channel, event_type, subscription },
        here,
    );
}

/// To forget a channel leaves nothing on it.
pub proof fn a_forgotten_channel_is_empty(entries: Seq<TrackedTree>, channel: u32)
    ensures
        on_channel(without_channel(entries, channel), channel) == Seq::<TrackedTree>::empty(),
        !is_subscribed(without_channel(entries, channel), channel),
{
    let kept = without_channel(entries, channel);
    filter_holds(entries, |e: TrackedTree| e.channel != channel);
    filter_of_others(kept, |e: TrackedTree| e.channel == channel);
    assert(on_channel(kept, channel) =~= Seq::<TrackedTree>::empty());
}

/// A subscription goes to the end of its channel: the order in which a channel
/// is replayed is the order in which its subscriptions were asked for.
pub proof fn a_subscription_comes_last(
    entries: Seq<TrackedTree>,
    channel: u32,
    event_type: EventType,
    subscription: SubscriptionTree,
)
    ensures
        asked_on(inserted(entries, channel, event_type, subscription), channel) == asked_on(
            without(entries, channel, event_type, subscription),
            channel,
        ).push(subscription),
{
    let here = |e: TrackedTree| e.channel == channel;
    let kept = without(entries, channel, event_type, subscription);
    let added = TrackedTree { channel, event_type, subscription };
    filter_of_push(kept, added, here);
    assert(asked_on(kept.push(added), channel) =~= asked_on(kept, channel).push(subscription));
}

/// To unsubscribe undoes a subscription: what was not subscribed before is as
/// if it had never been.
pub proof fn unsubscribing_undoes_subscribing(
    entries: Seq<TrackedTree>,
    channel: u32,
    event_type: EventType,
    subscription: SubscriptionTree,
)
    ensures
        without(
            inserted(entries, channel, event_type, subscription),
            channel,
            event_type,
            subscription,
        ) == without(entries, channel, event_type, subscription),
        (forall|i: int|
            0 <= i < entries.len() ==> !is_subscription(
                #[trigger] entries[i],
                channel,
                event_type,
                subscription,
            )) ==> without(entries, channel, event_type, subscription) == entries,
{
    let keeps = |e: TrackedTree| !is_subscription(e, channel, event_type, subscription);
    let kept = without(entries, channel, event_type, subscription);
    filter_of_weaker_filter(entries, keeps, keeps);
    filter_of_push(kept, TrackedTree { channel, event_type, subscription }, keeps);
    if forall|i: int|
        0 <= i < entries.len() ==> !is_subscription(
            #[trigger] entries[i],
            channel,
            event_type,
            subscription,
        ) {
        filter_of_all(entries, keeps);
    }
}

proof fn filter_of_push(s: Seq<TrackedTree>, x: TrackedTree, p: spec_fn(TrackedTree) -> bool)
    ensures
        s.push(x).filter(p) == if p(x) {
            s.filter(p).push(x)
        } else {
            s.filter(p)
        },
{
    reveal(Seq::filter);
    assert(s.push(x).drop_last() =~= s);
}

proof fn filter_holds(s: Seq<TrackedTree>, p: spec_fn(TrackedTree) -> bool)
    ensures
        forall|i: int| 0 <= i < s.filter(p).len() ==> p(#[trigger] s.filter(p)[i]),
    decreases s.len(),
{
    reveal(Seq::filter);
    if s.len() > 0 {
        filter_holds(s.drop_last(), p);
    }
}

proof fn filter_of_all(s: Seq<TrackedTree>, p: spec_fn(TrackedTree) -> bool)
    requires
        forall|i: int| 0 <= i < s.len() ==> p(#[trigger] s[i]),
    ensures
        s.filter(p) == s,
    decreases s.len(),
{
    reveal(Seq::filter);
    if s.len() > 0 {
        filter_of_all(s.drop_last(), p);
        assert(p(s[s.len() - 1]));
        assert(s.drop_last().push(s.last()) =~= s);
    } else {
        assert(s.filter(p) =~= s);
    }
}

proof fn filter_of_others(s: Seq<TrackedTree>, p: spec_fn(TrackedTree) -> bool)
    requires
        forall|i: int| 0 <= i < s.len() ==> !p(#[trigger] s[i]),
    ensures
        s.filter(p).len() == 0,
    decreases s.len(),
{
    reveal(Seq::filter);
    if s.len() > 0 {
        filter_of_others(s.drop_last(), p);
        assert(!p(s[s.len() - 1]));
    }
}

/// What a filter keeps is not lost to a weaker filter before it.
proof fn filter_of_weaker_filter(
    s: Seq<TrackedTree>,
    weaker: spec_fn(TrackedTree) -> bool,
    stronger: spec_fn(TrackedTree) -> bool,
)
    requires
        forall|e: TrackedTree| #[trigger] stronger(e) ==> weaker(e),
    ensures
        s.filter(weaker).filter(stronger) == s.filter(stronger),
    decreases s.len(),
{
    reveal(Seq::filter);
    if s.len() > 0 {
        let init = s.drop_last();
        filter_of_weaker_filter(init, weaker, stronger);
        if weaker(s.last()) {
            filter_of_push(init.filter(weaker), s.last(), stronger);
        }
    }
}

proof fn filter_keeps_distinct(s: Seq<TrackedTree>, p: spec_fn(TrackedTree) -> bool)
    requires
        has_distinct_identities(s),
    ensures
        has_distinct_identities(s.filter(p)),
        forall|i: int| 0 <= i < s.filter(p).len() ==> s.contains(#[trigger] s.filter(p)[i]),
    decreases s.len(),
{
    reveal(Seq::filter);
    if s.len() > 0 {
        let init = s.drop_last();
        assert(has_distinct_identities(init)) by {
            assert forall|i: int, j: int| 0 <= i < j < init.len() implies !is_subscription(
                #[trigger] init[i],
                (#[trigger] init[j]).channel,
                init[j].event_type,
                init[j].subscription,
            ) by {
                assert(init[i] == s[i] && init[j] == s[j]);
            }
        }
        filter_keeps_distinct(init, p);
        let kept = init.filter(p);
        let all = s.filter(p);
        assert forall|i: int| 0 <= i < all.len() implies s.contains(#[trigger] all[i]) by {
            if i < kept.len() {
                assert(all[i] == kept[i]);
                assert(init.contains(kept[i]));
                let k = choose|k: int| 0 <= k < init.len() && init[k] == kept[i];
                assert(s[k] == all[i]);
            } else {
                assert(s[s.len() - 1] == all[i]);
            }
        }
        assert forall|i: int, j: int| 0 <= i < j < all.len() implies !is_subscription(
            #[trigger] all[i],
            (#[trigger] all[j]).channel,
            all[j].event_type,
            all[j].subscription,
        ) by {
            assert(all[i] == kept[i]);
            if j < kept.len() {
                assert(all[j] == kept[j]);
            } else {
                let k = choose|k: int| 0 <= k < init.len() && init[k] == kept[i];
                assert(init.contains(kept[i]));
                assert(s[k] == all[i]);
                assert(s[s.len() - 1] == all[j]);
            }
        }
    }
}

} // verus!
