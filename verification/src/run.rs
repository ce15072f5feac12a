//! Whole retrievals: what a sequence of replies leads to.

use crate::batch::batch_count;
use crate::batch::batches_of;
use crate::error::classify;
use crate::error::Error;
use crate::iracing::fetch_after;
use crate::iracing::fetch_start;
use crate::iracing::link_step;
use crate::iracing::members_request;
use crate::iracing::reply_verdict;
use crate::iracing::ApiResponse;
use crate::iracing::Body;
use crate::iracing::FetchView;
use crate::iracing::Hop;
use crate::iracing::LinkStep;
use crate::iracing::Member;
use crate::iracing::ProgressView;
use crate::iracing::Reply;
use vstd::prelude::*;

verus! {

/// Where a retrieval stands after the replies have been handed to it one by
/// one, each in answer to the request asked for last. Once the retrieval is
/// done or has failed it asks for nothing, and further replies change nothing.
pub open spec fn fetch_run(progress: ProgressView, replies: Seq<Reply>) -> ProgressView
    decreases replies.len(),
{
    if replies.len() == 0 {
        progress
    } else {
        match progress {
            ProgressView::Send(request, fetch) => fetch_run(
                fetch_after(fetch, replies.first()),
                replies.drop_first(),
            ),
            _ => progress,
        }
    }
}

/// The reply carries a link object under a status that is no error.
pub open spec fn is_link_reply(reply: Reply) -> bool {
    reply matches Reply::Http { status, body } && classify(status) is Ok && body is Link
}

/// The reply carries a payload of the success shape under a status that is no error.
pub open spec fn is_success_reply(reply: Reply) -> bool {
    reply matches Reply::Http { status, body } && classify(status) is Ok && body matches Body::Payload(
        ApiResponse::Success { data },
    )
}

/// The members that a reply delivers: those of a success payload, else none.
pub open spec fn members_in(reply: Reply) -> Seq<Member> {
    match reply {
        Reply::Http { status, body: Body::Payload(ApiResponse::Success { data }) } => data.members@,
        _ => Seq::empty(),
    }
}

/// The members that a sequence of replies delivers, in the order of the replies.
pub open spec fn delivered(replies: Seq<Reply>) -> Seq<Member>
    decreases replies.len(),
{
    if replies.len() == 0 {
        Seq::empty()
    } else {
        members_in(replies.first()) + delivered(replies.drop_first())
    }
}

/// The replies answer `count` batches with success: for each batch a link
/// object, then a payload of the success shape.
pub open spec fn answers_batches(replies: Seq<Reply>, count: nat) -> bool {
    &&& replies.len() == 2 * count
    &&& forall|k: int| 0 <= k < count ==> is_link_reply(#[trigger] replies[2 * k])
    &&& forall|k: int| 0 <= k < count ==> is_success_reply(#[trigger] replies[2 * k + 1])
}

/// A status of 503 means maintenance whatever the body holds and whichever
/// response is awaited: a login ends with it, and so does a retrieval.
pub proof fn lemma_maintenance_whatever_the_body(fetch: FetchView, hop: Hop, body: Body)
    ensures
        reply_verdict(Reply::Http { status: 503, body }) == Err::<(), Error>(Error::DownForMaintenance),
        link_step(hop, Reply::Http { status: 503, body }) == LinkStep::Abort(Error::DownForMaintenance),
        fetch_after(fetch, Reply::Http { status: 503, body }) == ProgressView::Abort(
            Error::DownForMaintenance,
        ),
{
}

/// A payload that is not of the success shape, under a status that is no
/// error, ends the retrieval as an unknown response.
pub proof fn lemma_unknown_payload(fetch: FetchView, status: u16)
    requires
        fetch.hop == Hop::Payload,
        classify(status) is Ok,
    ensures
        fetch_after(fetch, Reply::Http { status, body: Body::Payload(ApiResponse::Failure) })
            == ProgressView::Abort(Error::UnknownApiResponseError),
{
}

/// The request that a retrieval asks for is answered in the shape that the
/// retrieval then awaits: a member query goes out when a link object is
/// awaited, and a link is followed when the payload is.
pub proof fn lemma_request_matches_hop(
    fetch: FetchView,
    reply: Reply,
    endpoint: Option<Seq<char>>,
    ids: Seq<u32>,
)
    ensures
        fetch_after(fetch, reply) matches ProgressView::Send(request, next) ==> (match next.hop {
            Hop::Link => request is Members,
            Hop::Payload => request is Link,
        }),
        fetch_start(endpoint, ids) matches ProgressView::Send(request, next) ==> request is Members
            && next.hop == Hop::Link,
{
}

/// One failed reply fails the whole retrieval: the error of the reply comes
/// out, whatever had been gathered, and no later reply revives it.
pub proof fn lemma_failure_is_final(fetch: FetchView, reply: Reply, later: Seq<Reply>)
    requires
        reply_verdict(reply) is Err,
    ensures
        fetch_after(fetch, reply) == ProgressView::Abort(reply_verdict(reply)->Err_0),
        fetch_run(fetch_after(fetch, reply), later) == fetch_after(fetch, reply),
{
}

/// Replies may be handed over in parts: a run over two sequences of
/// replies laid end to end is the run over the second from where the run
/// over the first has led.
pub proof fn lemma_run_in_parts(progress: ProgressView, first: Seq<Reply>, second: Seq<Reply>)
    ensures
        fetch_run(progress, first + second) == fetch_run(fetch_run(progress, first), second),
    decreases first.len(),
{
    if first.len() == 0 {
        assert(first + second =~= second);
    } else {
        assert((first + second).first() == first.first());
        assert((first + second).drop_first() =~= first.drop_first() + second);
        match progress {
            ProgressView::Send(request, fetch) => {
                lemma_run_in_parts(fetch_after(fetch, first.first()), first.drop_first(), second);
            },
            _ => {},
        }
    }
}

/// What two sequences of replies deliver, laid end to end, is what the
/// first delivers followed by what the second delivers.
pub proof fn lemma_delivered_in_parts(first: Seq<Reply>, second: Seq<Reply>)
    ensures
        delivered(first + second) == delivered(first) + delivered(second),
    decreases first.len(),
{
    if first.len() == 0 {
        assert(first + second =~= second);
        assert(delivered(first) + delivered(second) =~= delivered(second));
    } else {
        assert((first + second).first() == first.first());
        assert((first + second).drop_first() =~= first.drop_first() + second);
        lemma_delivered_in_parts(first.drop_first(), second);
        assert(members_in(first.first()) + (delivered(first.drop_first()) + delivered(second)) =~= (
        members_in(first.first()) + delivered(first.drop_first())) + delivered(second));
    }
}

/// The retrieval that waits for the link object of batch `at`, holding `members`.
pub open spec fn awaiting_batch(
    endpoint: Seq<char>,
    ids: Seq<u32>,
    at: nat,
    members: Seq<Member>,
) -> ProgressView {
    ProgressView::Send(
        members_request(endpoint, batches_of(ids)[at as int]),
        FetchView { endpoint, batches: batches_of(ids), cursor: at, hop: Hop::Link, members },
    )
}

proof fn lemma_batch_answered(
    endpoint: Seq<char>,
    ids: Seq<u32>,
    at: nat,
    members: Seq<Member>,
    pair: Seq<Reply>,
)
    requires
        at < batch_count(ids.len()),
        answers_batches(pair, 1),
    ensures
        fetch_run(awaiting_batch(endpoint, ids, at, members), pair) == if at + 1 < batch_count(ids.len()) {
            awaiting_batch(endpoint, ids, at + 1, members + delivered(pair))
        } else {
            ProgressView::Done(members + delivered(pair))
        },
{
    let link = pair[0];
    let payload = pair[1];
    let fetch = FetchView { endpoint, batches: batches_of(ids), cursor: at, hop: Hop::Link, members };
    let waiting = FetchView { hop: Hop::Payload, ..fetch };
    assert(is_link_reply(pair[2 * 0int]));
    assert(is_success_reply(pair[2 * 0int + 1]));
    assert(fetch_after(fetch, link) matches ProgressView::Send(request, next) && next == waiting);
    let rest = pair.drop_first();
    assert(rest.first() == payload);
    assert(rest.drop_first().len() == 0);
    assert(delivered(pair) =~= members_in(payload)) by {
        assert(members_in(link) =~= Seq::<Member>::empty());
        assert(delivered(rest.drop_first()) =~= Seq::<Member>::empty());
        assert(delivered(rest) =~= members_in(payload));
    }
    assert(fetch_run(awaiting_batch(endpoint, ids, at, members), pair) == fetch_run(
        fetch_after(fetch, link),
        rest,
    ));
    assert(fetch_run(fetch_after(fetch, link), rest) == fetch_run(
        fetch_after(waiting, payload),
        rest.drop_first(),
    ));
}

proof fn lemma_last_answer(replies: Seq<Reply>, count: nat)
    requires
        count > 0,
        answers_batches(replies, count),
    ensures
        replies == replies.take(replies.len() - 2) + replies.skip(replies.len() - 2),
        answers_batches(replies.take(replies.len() - 2), (count - 1) as nat),
        answers_batches(replies.skip(replies.len() - 2), 1),
{
    let before = replies.take(replies.len() - 2);
    let pair = replies.skip(replies.len() - 2);
    assert(replies =~= before + pair);
    assert forall|k: int| 0 <= k < count - 1 implies is_link_reply(#[trigger] before[2 * k]) by {
        assert(before[2 * k] == replies[2 * k]);
    }
    assert forall|k: int| 0 <= k < count - 1 implies is_success_reply(#[trigger] before[2 * k + 1]) by {
        assert(before[2 * k + 1] == replies[2 * k + 1]);
    }
    assert(pair[2 * 0int] == replies[2 * (count - 1)]);
    assert(pair[2 * 0int + 1] == replies[2 * (count - 1) + 1]);
}

/// Requests follow the batches: once the first `answered` batches have
/// been answered with success, and more remain, the retrieval asks for the
/// batch that comes next and holds what the replies delivered so far.
pub proof fn lemma_requests_follow_batches(
    endpoint: Seq<char>,
    ids: Seq<u32>,
    replies: Seq<Reply>,
    answered: nat,
)
    requires
        answered < batch_count(ids.len()),
        answers_batches(replies, answered),
    ensures
        fetch_run(fetch_start(Some(endpoint), ids), replies) == awaiting_batch(
            endpoint,
            ids,
            answered,
            delivered(replies),
        ),
    decreases answered,
{
    if answered == 0 {
        assert(delivered(replies) =~= Seq::<Member>::empty());
    } else {
        let before = replies.take(replies.len() - 2);
        let pair = replies.skip(replies.len() - 2);
        lemma_last_answer(replies, answered);
        lemma_requests_follow_batches(endpoint, ids, before, (answered - 1) as nat);
        lemma_run_in_parts(fetch_start(Some(endpoint), ids), before, pair);
        lemma_batch_answered(endpoint, ids, (answered - 1) as nat, delivered(before), pair);
        lemma_delivered_in_parts(before, pair);
    }
}

/// A retrieval whose every batch is answered with success is done after
/// two replies for each batch, and hands out what the replies delivered, the
/// members of an earlier batch before those of a later one.
pub proof fn lemma_answered_run_delivers_in_order(endpoint: Seq<char>, ids: Seq<u32>, replies: Seq<Reply>)
    requires
        answers_batches(replies, batch_count(ids.len())),
    ensures
        fetch_run(fetch_start(Some(endpoint), ids), replies) == ProgressView::Done(delivered(replies)),
{
    let count = batch_count(ids.len());
    if count == 0 {
        assert(delivered(replies) =~= Seq::<Member>::empty());
    } else {
        let before = replies.take(replies.len() - 2);
        let pair = replies.skip(replies.len() - 2);
        lemma_last_answer(replies, count);
        lemma_requests_follow_batches(endpoint, ids, before, (count - 1) as nat);
        lemma_run_in_parts(fetch_start(Some(endpoint), ids), before, pair);
        lemma_batch_answered(endpoint, ids, (count - 1) as nat, delivered(before), pair);
        lemma_delivered_in_parts(before, pair);
    }
}

} // verus!
