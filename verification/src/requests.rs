//! Requests that wait for an answer, and what an answer means for them.

use crate::error::{DXLinkError, DXLinkResult, ErrorView};
use crate::messages::FeedConfigMessage;
use crate::text;
use crate::text::{decimal_text, same_ignoring_case, same_text};
use vstd::prelude::*;

verus! {

// ---------------------------------------------------------------------------
// Who waits for what
// ---------------------------------------------------------------------------
/// One request that waits for an answer.
#[derive(Debug)]
pub struct ResponseRequest {
    /// Identity, so that to give up removes this registration and never a
    /// later one that wants the same message on the same channel.
    pub id: u64,
    /// The type of the message that it waits for.
    pub expected_type: String,
    /// The channel on which it waits, or any channel.
    pub channel_id: Option<u32>,
}

/// What one waiting request is.
#[verifier::ext_equal]
pub struct RequestTree {
    pub id: u64,
    pub expected_type: Seq<char>,
    pub channel_id: Option<u32>,
}

impl View for ResponseRequest {
    type V = RequestTree;

    open spec fn view(&self) -> RequestTree {
        RequestTree {
            id: self.id,
            expected_type: self.expected_type@,
            channel_id: self.channel_id,
        }
    }
}

/// Whether a message answers a request.
///
/// An error on a channel answers whatever waits on that channel, whichever
/// message it hoped for: otherwise the caller would sit until its timeout
/// while the reason was known.
pub open spec fn answers(request: RequestTree, message_type: Seq<char>, channel: Option<u32>) -> bool {
    &&& request.channel_id is None || request.channel_id == channel
    &&& request.expected_type == message_type || (message_type == "ERROR"@ && channel is Some)
}

/// The first request that a message answers, from a position on.
pub open spec fn answered_from(
    requests: Seq<RequestTree>,
    message_type: Seq<char>,
    channel: Option<u32>,
    from: int,
) -> Option<int>
    decreases requests.len() - from,
{
    if from >= requests.len() {
        None
    } else if answers(requests[from], message_type, channel) {
        Some(from)
    } else {
        answered_from(requests, message_type, channel, from + 1)
    }
}

/// The first request that a message answers.
pub open spec fn answered(
    requests: Seq<RequestTree>,
    message_type: Seq<char>,
    channel: Option<u32>,
) -> Option<int> {
    answered_from(requests, message_type, channel, 0)
}

/// The requests but for one.
pub open spec fn without_request(requests: Seq<RequestTree>, id: u64) -> Seq<RequestTree> {
    requests.filter(|r: RequestTree| r.id != id)
}

/// The requests that wait, in the order in which they were made, and the last
/// identity that was handed out.
#[verifier::ext_equal]
pub struct PendingTree {
    pub requests: Seq<RequestTree>,
    pub last_id: u64,
}

/// The requests that wait for an answer.
#[derive(Debug)]
pub struct PendingRequests {
    requests: Vec<ResponseRequest>,
    last_id: u64,
}

spec fn request_trees(requests: Seq<ResponseRequest>) -> Seq<RequestTree> {
    requests.map_values(|r: ResponseRequest| r@)
}

impl View for PendingRequests {
    type V = PendingTree;

    closed spec fn view(&self) -> PendingTree {
        PendingTree { requests: request_trees(self.requests@), last_id: self.last_id }
    }
}

impl PendingRequests {
    /// Nobody waits.
    pub fn new() -> (r: Self)
        ensures
            r@ == (PendingTree { requests: Seq::empty(), last_id: 0 }),
    {
        let r = PendingRequests { requests: Vec::new(), last_id: 0 };
        assert(r@.requests =~= Seq::<RequestTree>::empty());
        r
    }

    /// The last identity that was handed out.
    pub fn last_id(&self) -> (r: u64)
        ensures
            r == self@.last_id,
    {
        self.last_id
    }

    /// Registers a request, and hands out its identity.
    pub fn register(&mut self, expected_type: &str, channel: u32) -> (id: u64)
        requires
            old(self)@.last_id < u64::MAX,
        ensures
            id == old(self)@.last_id + 1,
            final(self)@ == (PendingTree {
                requests: old(self)@.requests.push(
                    RequestTree {
                        id,
                        expected_type: expected_type@,
                        channel_id: Some(channel),
                    },
                ),
                last_id: id,
            }),
    {
        let ghost before = self.requests@;
        let id: u64 = self.last_id + 1;
        self.last_id = id;
        let request = ResponseRequest {
            id,
            expected_type: expected_type.to_owned(),
            channel_id: Some(channel),
        };
        let ghost added = request@;
        self.requests.push(request);
        assert(request_trees(self.requests@) =~= request_trees(before).push(added));
        id
    }

    /// Takes out the first request that a message answers.
    ///
    /// Where the one who waited is gone, the caller asks again: a later request
    /// may still be owed the message.
    pub fn take_answered(&mut self, message_type: &str, channel: Option<u32>) -> (r: Option<
        ResponseRequest,
    >)
        ensures
            final(self)@.last_id == old(self)@.last_id,
            match answered(old(self)@.requests, message_type@, channel) {
                Some(i) => r is Some && r->0@ == old(self)@.requests[i] && final(self)@.requests
                    == old(self)@.requests.remove(i),
                None => r is None && final(self)@ == old(self)@,
            },
    {
        let ghost all = self@.requests;
        let mut i: usize = 0;
        while i < self.requests.len()
            invariant
                i <= self.requests@.len(),
                self@ == old(self)@,
                all == old(self)@.requests,
                all == request_trees(self.requests@),
                answered(all, message_type@, channel) == answered_from(
                    all,
                    message_type@,
                    channel,
                    i as int,
                ),
            decreases self.requests.len() - i,
        {
            let request = &self.requests[i];
            assert(all[i as int] == request@);
            let on_channel = match request.channel_id {
                None => true,
                Some(wanted) => match channel {
                    Some(arrived) => wanted == arrived,
                    None => false,
                },
            };
            if on_channel && (same_text(request.expected_type.as_str(), message_type) || (same_text(
                message_type,
                "ERROR",
            ) && channel.is_some())) {
                assert(answers(all[i as int], message_type@, channel));
                let ghost before = self.requests@;
                let taken = self.requests.remove(i);
                assert(request_trees(self.requests@) =~= all.remove(i as int));
                return Some(taken);
            }
            assert(!answers(all[i as int], message_type@, channel));
            i += 1;
        }
        None
    }

    /// Forgets one request, and no other.
    pub fn forget(&mut self, id: u64)
        ensures
            final(self)@ == (PendingTree {
                requests: without_request(old(self)@.requests, id),
                last_id: old(self)@.last_id,
            }),
    {
        let ghost all = self@.requests;
        let ghost keeps = |r: RequestTree| r.id != id;
        let mut requests: Vec<ResponseRequest> = Vec::new();
        std::mem::swap(&mut self.requests, &mut requests);
        let mut kept: Vec<ResponseRequest> = Vec::new();
        proof {
            reveal(Seq::filter);
        }
        assert(all.take(0) =~= Seq::<RequestTree>::empty());
        assert(request_trees(kept@) =~= all.take(0).filter(keeps));
        for request in it: requests
            invariant
                all == request_trees(it.seq()),
                keeps == (|r: RequestTree| r.id != id),
                request_trees(kept@) == all.take(it.index()).filter(keeps),
        {
            let ghost before = kept@;
            let ghost n = it.index();
            proof {
                reveal(Seq::filter);
                assert(all[n] == request@);
                assert(all.take(n + 1).drop_last() =~= all.take(n));
                assert(all.take(n + 1).last() == request@);
            }
            if request.id != id {
                kept.push(request);
                assert(request_trees(kept@) =~= request_trees(before).push(request@));
            }
        }
        assert(all.take(all.len() as int) =~= all);
        self.requests = kept;
    }

    /// Forgets every request.
    pub fn clear(&mut self)
        ensures
            final(self)@ == (PendingTree {
                requests: Seq::empty(),
                last_id: old(self)@.last_id,
            }),
    {
        self.requests = Vec::new();
        assert(self@.requests =~= Seq::<RequestTree>::empty());
    }

    /// How many requests wait.
    pub fn len(&self) -> (r: usize)
        ensures
            r == self@.requests.len(),
    {
        self.requests.len()
    }
}

/// Whether no identity occurs twice, and none is still to be handed out.
pub open spec fn has_distinct_ids(pending: PendingTree) -> bool {
    &&& forall|i: int|
        0 <= i < pending.requests.len() ==> (#[trigger] pending.requests[i]).id <= pending.last_id
    &&& forall|i: int, j: int|
        0 <= i < j < pending.requests.len() ==> (#[trigger] pending.requests[i]).id < (
        #[trigger] pending.requests[j]).id
}

/// Identities stay distinct: a new request gets one that nobody has or had,
/// and to take out or to forget a request leaves those of the others.
pub proof fn ids_stay_distinct(pending: PendingTree, request: RequestTree, at: int, id: u64)
    requires
        has_distinct_ids(pending),
    ensures
        request.id == pending.last_id + 1 ==> has_distinct_ids(
            PendingTree { requests: pending.requests.push(request), last_id: request.id },
        ),
        0 <= at < pending.requests.len() ==> has_distinct_ids(
            PendingTree { requests: pending.requests.remove(at), last_id: pending.last_id },
        ),
        has_distinct_ids(
            PendingTree {
                requests: without_request(pending.requests, id),
                last_id: pending.last_id,
            },
        ),
{
    let requests = pending.requests;
    if 0 <= at < requests.len() {
        let removed = requests.remove(at);
        assert forall|i: int, j: int| 0 <= i < j < removed.len() implies (
        #[trigger] removed[i]).id < (#[trigger] removed[j]).id by {
            let a = if i < at {
                i
            } else {
                i + 1
            };
            let b = if j < at {
                j
            } else {
                j + 1
            };
            assert(removed[i] == requests[a]);
            assert(removed[j] == requests[b]);
        }
        assert forall|i: int| 0 <= i < removed.len() implies (#[trigger] removed[i]).id
            <= pending.last_id by {
            if i < at {
                assert(removed[i] == requests[i]);
            } else {
                assert(removed[i] == requests[i + 1]);
            }
        }
    }
    without_request_is_ordered(requests, pending.last_id, id);
}

proof fn without_request_is_ordered(requests: Seq<RequestTree>, last_id: u64, id: u64)
    requires
        has_distinct_ids(PendingTree { requests, last_id }),
    ensures
        has_distinct_ids(PendingTree { requests: without_request(requests, id), last_id }),
        forall|i: int|
            0 <= i < without_request(requests, id).len() ==> requests.contains(
                #[trigger] without_request(requests, id)[i],
            ) && without_request(requests, id)[i].id != id,
    decreases requests.len(),
{
    reveal(Seq::filter);
    if requests.len() > 0 {
        let init = requests.drop_last();
        let kept = without_request(init, id);
        let all = without_request(requests, id);
        assert(has_distinct_ids(PendingTree { requests: init, last_id })) by {
            assert forall|i: int, j: int| 0 <= i < j < init.len() implies (#[trigger] init[i]).id < (
            #[trigger] init[j]).id by {
                assert(init[i] == requests[i] && init[j] == requests[j]);
            }
            assert forall|i: int| 0 <= i < init.len() implies (#[trigger] init[i]).id
                <= last_id by {
                assert(init[i] == requests[i]);
            }
        }
        without_request_is_ordered(init, last_id, id);
        assert forall|i: int| 0 <= i < all.len() implies requests.contains(#[trigger] all[i])
            && all[i].id != id by {
            if i < kept.len() {
                assert(all[i] == kept[i]);
                let k = choose|k: int| 0 <= k < init.len() && init[k] == kept[i];
                assert(init.contains(kept[i]));
                assert(requests[k] == all[i]);
            } else {
                assert(requests[requests.len() - 1] == all[i]);
            }
        }
        assert forall|i: int, j: int| 0 <= i < j < all.len() implies (#[trigger] all[i]).id < (
        #[trigger] all[j]).id by {
            assert(all[i] == kept[i]);
            if j < kept.len() {
                assert(all[j] == kept[j]);
            } else {
                assert(init.contains(kept[i]));
                let k = choose|k: int| 0 <= k < init.len() && init[k] == kept[i];
                assert(requests[k] == all[i]);
                assert(requests[requests.len() - 1] == all[j]);
            }
        }
        assert forall|i: int| 0 <= i < all.len() implies (#[trigger] all[i]).id <= last_id by {
            assert(requests.contains(all[i]));
            let k = choose|k: int| 0 <= k < requests.len() && requests[k] == all[i];
            assert(requests[k].id <= last_id);
        }
    }
}

/// To forget a request removes that request, and every other one keeps
/// waiting.
pub proof fn forgetting_removes_one_request(
    pending: PendingTree,
    id: u64,
    other: RequestTree,
)
    requires
        has_distinct_ids(pending),
    ensures
        without_request(pending.requests, id).contains(other) <==> pending.requests.contains(other)
            && other.id != id,
{
    without_request_is_ordered(pending.requests, pending.last_id, id);
    other_requests_are_kept(pending.requests, id, other);
    let kept = without_request(pending.requests, id);
    if kept.contains(other) {
        let i = choose|i: int| 0 <= i < kept.len() && kept[i] == other;
        assert(pending.requests.contains(kept[i]));
    }
}

proof fn other_requests_are_kept(requests: Seq<RequestTree>, id: u64, other: RequestTree)
    ensures
        requests.contains(other) && other.id != id ==> without_request(requests, id).contains(
            other,
        ),
    decreases requests.len(),
{
    reveal(Seq::filter);
    if requests.len() > 0 && requests.contains(other) && other.id != id {
        let init = requests.drop_last();
        other_requests_are_kept(init, id, other);
        let kept = without_request(init, id);
        let all = without_request(requests, id);
        let i = choose|i: int| 0 <= i < requests.len() && requests[i] == other;
        if i < init.len() {
            assert(init[i] == other);
            assert(init.contains(other));
            let k = choose|k: int| 0 <= k < kept.len() && kept[k] == other;
            assert(all[k] == other);
        } else {
            assert(all[all.len() - 1] == other);
        }
    }
}

/// A message goes to the first request that it answers: nobody who asked
/// earlier is passed over.
pub proof fn the_first_in_line_is_answered(
    requests: Seq<RequestTree>,
    message_type: Seq<char>,
    channel: Option<u32>,
)
    ensures
        match answered(requests, message_type, channel) {
            Some(i) => 0 <= i < requests.len() && answers(requests[i], message_type, channel)
                && forall|j: int|
                0 <= j < i ==> !answers(#[trigger] requests[j], message_type, channel),
            None => forall|j: int|
                0 <= j < requests.len() ==> !answers(
                    #[trigger] requests[j],
                    message_type,
                    channel,
                ),
        },
{
    first_from(requests, message_type, channel, 0);
}

proof fn first_from(
    requests: Seq<RequestTree>,
    message_type: Seq<char>,
    channel: Option<u32>,
    from: int,
)
    requires
        0 <= from,
    ensures
        match answered_from(requests, message_type, channel, from) {
            Some(i) => from <= i < requests.len() && answers(requests[i], message_type, channel)
                && forall|j: int|
                from <= j < i ==> !answers(#[trigger] requests[j], message_type, channel),
            None => forall|j: int|
                from <= j < requests.len() ==> !answers(
                    #[trigger] requests[j],
                    message_type,
                    channel,
                ),
        },
    decreases requests.len() - from,
{
    if from < requests.len() && !answers(requests[from], message_type, channel) {
        first_from(requests, message_type, channel, from + 1);
    }
}

// ---------------------------------------------------------------------------
// Answers
// ---------------------------------------------------------------------------
/// An answer of the server.
#[derive(Debug)]
pub enum ResponseType {
    /// A channel is open.
    ChannelOpened(u32),
    /// A feed is configured: the whole message, since the data format and the
    /// columns that the server settled on are the point.
    FeedConfig(FeedConfigMessage),
    /// A channel is closed.
    ChannelClosed(u32),
    /// An error: its code, and what the server says about it.
    Error(String, String),
    /// Any other message.
    Other(String),
}

/// What became of a request.
pub enum Outcome {
    /// The message did not go out.
    NotSent(DXLinkError),
    /// An answer came.
    Answered(ResponseType),
    /// Whoever would have answered is gone.
    Abandoned,
    /// Nothing came in time.
    TimedOut,
}

/// One request that was made.
#[derive(Debug)]
pub struct Ticket {
    /// Its identity.
    pub id: u64,
    /// What it is for, for errors.
    pub operation: &'static str,
    /// The type of the message that answers it.
    pub expected_type: &'static str,
    /// The channel that it is about.
    pub channel: u32,
    /// How many seconds to wait for the answer.
    pub wait_secs: u64,
}

/// What one request that was made is.
#[verifier::ext_equal]
pub struct TicketTree {
    pub id: u64,
    pub operation: Seq<char>,
    pub expected_type: Seq<char>,
    pub channel: u32,
    pub wait_secs: u64,
}

impl View for Ticket {
    type V = TicketTree;

    open spec fn view(&self) -> TicketTree {
        TicketTree {
            id: self.id,
            operation: self.operation@,
            expected_type: self.expected_type@,
            channel: self.channel,
            wait_secs: self.wait_secs,
        }
    }
}

/// The error of a request that the server answered with one. Its kind goes by
/// the code: a caller has to know whether to authenticate again, to give up the
/// channel, or to try again.
pub open spec fn server_error(ticket: TicketTree, code: Seq<char>, message: Seq<char>) -> ErrorView {
    let detail = "during "@ + ticket.operation + " on channel "@ + text::decimal(
        ticket.channel as int,
    ) + ", waiting for "@ + ticket.expected_type + ", the server returned "@ + code + ": "@
        + message;
    let lowered = text::ascii_lowered(code);
    if lowered == text::ascii_lowered("UNAUTHORIZED"@) {
        ErrorView::Authentication(detail)
    } else if lowered == text::ascii_lowered("INVALID_CHANNEL"@) || lowered == text::ascii_lowered(
        "UNKNOWN_CHANNEL"@,
    ) {
        ErrorView::Channel(detail)
    } else if lowered == text::ascii_lowered("TIMEOUT"@) {
        ErrorView::Timeout(detail)
    } else {
        ErrorView::Protocol(detail)
    }
}

/// The error of a request whose answer cannot come any more.
pub open spec fn abandoned(ticket: TicketTree) -> ErrorView {
    ErrorView::Protocol(
        "during "@ + ticket.operation + " on channel "@ + text::decimal(ticket.channel as int)
            + ", the response channel closed"@,
    )
}

/// The error of a request that nobody answered.
pub open spec fn unanswered(ticket: TicketTree) -> ErrorView {
    ErrorView::Timeout(
        "timed out after "@ + text::decimal(ticket.wait_secs as int) + "s waiting for "@
            + ticket.expected_type + " on channel "@ + text::decimal(ticket.channel as int)
            + " during "@ + ticket.operation,
    )
}

/// Whether a result is what became of a request.
pub open spec fn settles(
    result: DXLinkResult<ResponseType>,
    ticket: TicketTree,
    outcome: Outcome,
) -> bool {
    match outcome {
        Outcome::NotSent(e) => result == Err::<ResponseType, DXLinkError>(e),
        Outcome::Answered(ResponseType::Error(code, message)) => result is Err && result->Err_0@
            == server_error(ticket, code@, message@),
        Outcome::Answered(response) => result == Ok::<ResponseType, DXLinkError>(response),
        Outcome::Abandoned => result is Err && result->Err_0@ == abandoned(ticket),
        Outcome::TimedOut => result is Err && result->Err_0@ == unanswered(ticket),
    }
}

/// What became of a request, as the caller gets it.
pub fn settle(ticket: &Ticket, outcome: Outcome) -> (r: DXLinkResult<ResponseType>)
    ensures
        settles(r, ticket@, outcome),
{
    match outcome {
        Outcome::NotSent(e) => Err(e),
        Outcome::Answered(ResponseType::Error(code, message)) => {
            let mut detail = "during ".to_owned();
            detail.append(ticket.operation);
            detail.append(" on channel ");
            detail.append(decimal_text(ticket.channel as u64).as_str());
            detail.append(", waiting for ");
            detail.append(ticket.expected_type);
            detail.append(", the server returned ");
            detail.append(code.as_str());
            detail.append(": ");
            detail.append(message.as_str());
            if same_ignoring_case(code.as_str(), "UNAUTHORIZED") {
                Err(DXLinkError::Authentication(detail))
            } else if same_ignoring_case(code.as_str(), "INVALID_CHANNEL") || same_ignoring_case(
                code.as_str(),
                "UNKNOWN_CHANNEL",
            ) {
                Err(DXLinkError::Channel(detail))
            } else if same_ignoring_case(code.as_str(), "TIMEOUT") {
                Err(DXLinkError::Timeout(detail))
            } else {
                Err(DXLinkError::Protocol(detail))
            }
        },
        Outcome::Answered(response) => Ok(response),
        Outcome::Abandoned => {
            let mut text = "during ".to_owned();
            text.append(ticket.operation);
            text.append(" on channel ");
            text.append(decimal_text(ticket.channel as u64).as_str());
            text.append(", the response channel closed");
            Err(DXLinkError::Protocol(text))
        },
        Outcome::TimedOut => {
            let mut text = "timed out after ".to_owned();
            text.append(decimal_text(ticket.wait_secs).as_str());
            text.append("s waiting for ");
            text.append(ticket.expected_type);
            text.append(" on channel ");
            text.append(decimal_text(ticket.channel as u64).as_str());
            text.append(" during ");
            text.append(ticket.operation);
            Err(DXLinkError::Timeout(text))
        },
    }
}

} // verus!
