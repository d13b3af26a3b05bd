//! What holds of a build tool event stream as a whole, from its first request to its end.
use vstd::prelude::*;

use crate::event::{EventView, StreamIdView};
use crate::forwarding::request_stream::{
    accepted_status, request_step, OpenStreamView, RequestStatusView,
    RequestStepView, RequestStreamView,
};
use crate::forwarding::response_stream::{
    ack, informs, initial_response_state, observe, poll_step, replies_outcome, reply_outcome,
    settle, ReplyView, ResponseStateView, ResponseStepView,
};
use crate::status::StatusView;

verus! {

// ---------------------------------------------------------------------------
// Requests
// ---------------------------------------------------------------------------

/// The statuses that are reported for a sequence of requests, each of which reaches the
/// backends. A refused request is the last one that is looked at.
pub open spec fn reported(stream: RequestStreamView, requests: Seq<Option<EventView>>) -> Seq<
    RequestStatusView,
>
    decreases requests.len(),
{
    if requests.len() == 0 {
        Seq::empty()
    } else {
        let (next, step) = request_step(stream, requests[0]);
        match step {
            RequestStepView::Forward(status) => seq![status] + reported(next, requests.skip(1)),
            RequestStepView::Halt(status) => seq![status],
        }
    }
}

/// The requests are events of stream `id` with the numbers `start`, `start + 1` and so on.
pub open spec fn in_order(id: StreamIdView, start: int, requests: Seq<Option<EventView>>) -> bool {
    forall|k: int|
        0 <= k < requests.len() ==> #[trigger] requests[k] == Some(
            EventView { stream_id: id, sequence_number: start + k },
        )
}

/// The status of stream `id` that began at `start` and has come to `seq`.
pub open spec fn progress(id: StreamIdView, start: int, seq: int) -> RequestStatusView {
    accepted_status(OpenStreamView { stream_id: id, start, seq })
}

/// Of an open stream, the one request that is forwarded is that of the same stream with the number
/// that follows the latest one; every other request is refused.
pub proof fn law_only_the_next_request_is_forwarded(
    open: OpenStreamView,
    request: Option<EventView>,
)
    ensures
        request_step(Some(open), request).1 is Forward <==> request == Some(
            EventView { stream_id: open.stream_id, sequence_number: open.seq + 1 },
        ),
        request_step(Some(open), request).1 is Halt ==> request_step(Some(open), request).0
            == Some(open) && request_step(Some(open), request).1->Halt_0.error is Some,
{
}

/// Requests that come in order are all accepted, and each is reported as the latest one.
pub proof fn law_ordered_requests_are_accepted(
    id: StreamIdView,
    start: int,
    requests: Seq<Option<EventView>>,
)
    requires
        in_order(id, start, requests),
    ensures
        reported(None, requests).len() == requests.len(),
        forall|k: int|
            0 <= k < requests.len() ==> #[trigger] reported(None, requests)[k] == progress(
                id,
                start,
                start + k,
            ),
{
    if requests.len() > 0 {
        let opened = OpenStreamView { stream_id: id, start, seq: start };
        assert(requests[0] == Some(EventView { stream_id: id, sequence_number: start + 0 }));
        assert(request_step(None, requests[0]).0 == Some(opened));
        assert(in_order(id, start + 1, requests.skip(1))) by {
            assert forall|k: int| 0 <= k < requests.skip(1).len() implies #[trigger] requests.skip(
                1,
            )[k] == Some(EventView { stream_id: id, sequence_number: start + 1 + k }) by {
                assert(requests.skip(1)[k] == requests[k + 1]);
            }
        }
        lemma_open_requests_are_accepted(opened, requests.skip(1));
    }
}

proof fn lemma_open_requests_are_accepted(open: OpenStreamView, requests: Seq<Option<EventView>>)
    requires
        in_order(open.stream_id, open.seq + 1, requests),
    ensures
        reported(Some(open), requests).len() == requests.len(),
        forall|k: int|
            0 <= k < requests.len() ==> #[trigger] reported(Some(open), requests)[k] == progress(
                open.stream_id,
                open.start,
                open.seq + 1 + k,
            ),
    decreases requests.len(),
{
    if requests.len() > 0 {
        let next = OpenStreamView { seq: open.seq + 1, ..open };
        assert(requests[0] == Some(
            EventView { stream_id: open.stream_id, sequence_number: open.seq + 1 + 0 },
        ));
        assert(request_step(Some(open), requests[0]).0 == Some(next));
        assert forall|k: int| 0 <= k < requests.skip(1).len() implies #[trigger] requests.skip(
            1,
        )[k] == Some(
            EventView { stream_id: open.stream_id, sequence_number: next.seq + 1 + k },
        ) by {
            assert(requests.skip(1)[k] == requests[k + 1]);
        }
        lemma_open_requests_are_accepted(next, requests.skip(1));
    }
}

/// Every status that is reported for a stream names the stream and its start as its first
/// request gave them; only the refusal of a request without its fields names none.
pub proof fn law_statuses_keep_stream(
    open: OpenStreamView,
    requests: Seq<Option<EventView>>,
    k: int,
)
    requires
        0 <= k < reported(Some(open), requests).len(),
    ensures
        ({
            let status = reported(Some(open), requests)[k];
            ||| status.stream_id == Some(open.stream_id) && status.starting_sequence == Some(
                open.start,
            )
            ||| status.stream_id is None && status.error is Some
        }),
    decreases requests.len(),
{
    let (next, step) = request_step(Some(open), requests[0]);
    if step is Forward && k > 0 {
        law_statuses_keep_stream(next->0, requests.skip(1), k - 1);
    }
}

/// Whatever is reported can be made use of by the response side, whenever it looks.
pub proof fn law_reported_statuses_inform(
    requests: Seq<Option<EventView>>,
    k: int,
    s: ResponseStateView,
)
    requires
        0 <= k < reported(None, requests).len(),
    ensures
        informs(s, reported(None, requests)[k]),
{
    let (next, step) = request_step(None, requests[0]);
    if step is Forward && k > 0 {
        law_statuses_keep_stream(next->0, requests.skip(1), k - 1);
    }
}

/// A status with an error is the last one: request processing has halted.
pub proof fn law_error_halts(stream: RequestStreamView, requests: Seq<Option<EventView>>, k: int)
    requires
        0 <= k < reported(stream, requests).len(),
    ensures
        reported(stream, requests)[k].error is Some ==> k == reported(stream, requests).len() - 1,
    decreases requests.len(),
{
    let (next, step) = request_step(stream, requests[0]);
    if step is Forward && k > 0 {
        law_error_halts(next, requests.skip(1), k - 1);
    }
}

/// While requests are accepted, the latest sequence number advances by one with each of them.
pub proof fn law_latest_advances(
    open: OpenStreamView,
    requests: Seq<Option<EventView>>,
    k: int,
)
    requires
        0 <= k < reported(Some(open), requests).len(),
        reported(Some(open), requests)[k].error is None,
    ensures
        reported(Some(open), requests)[k] == progress(open.stream_id, open.start, open.seq + 1 + k),
    decreases requests.len(),
{
    let (next, step) = request_step(Some(open), requests[0]);
    if step is Forward && k > 0 {
        law_latest_advances(next->0, requests.skip(1), k - 1);
    }
}

// ---------------------------------------------------------------------------
// Responses
// ---------------------------------------------------------------------------

/// Every backend acknowledges event `seq` of stream `id`.
pub open spec fn all_acknowledge(replies: Seq<ReplyView>, id: StreamIdView, seq: int) -> bool {
    forall|i: int|
        0 <= i < replies.len() ==> #[trigger] replies[i] == ReplyView::Message(ack(id, seq))
}

/// The build tool is sent an acknowledgement exactly when every backend that is waited for has
/// acknowledged the same event of the same stream, and it is the acknowledgement of that event.
pub proof fn law_acknowledged_by_all(s: ResponseStateView, replies: Seq<ReplyView>)
    requires
        s.stream_id is Some,
    ensures
        settle(s, replies).1 is Respond <==> all_acknowledge(replies, s.stream_id->0, s.next_seq),
        settle(s, replies).1 is Respond ==> settle(s, replies).1 == ResponseStepView::Respond(
            ack(s.stream_id->0, s.next_seq),
        ) && settle(s, replies).0.next_seq == s.next_seq + 1,
{
    lemma_outcome(s.backends, s.stream_id->0, s.next_seq, replies, 0);
}

proof fn lemma_outcome(
    backends: Seq<Seq<char>>,
    id: StreamIdView,
    seq: int,
    replies: Seq<ReplyView>,
    i: int,
)
    requires
        0 <= i <= replies.len(),
    ensures
        replies_outcome(backends, id, seq, replies, i) is None <==> (forall|j: int|
            i <= j < replies.len() ==> #[trigger] replies[j] == ReplyView::Message(ack(id, seq))),
        replies_outcome(backends, id, seq, replies, i) matches Some(step) ==> step is Fail
            || step is End,
    decreases replies.len() - i,
{
    if i < replies.len() {
        lemma_outcome(backends, id, seq, replies, i + 1);
        assert(reply_outcome(backends[i], id, seq, replies[i]) is None <==> replies[i]
            == ReplyView::Message(ack(id, seq)));
    }
}

/// The stream of the first backend that does not acknowledge decides how the stream ends.
pub proof fn law_first_refusal_decides(s: ResponseStateView, replies: Seq<ReplyView>, i: int)
    requires
        s.stream_id is Some,
        0 <= i < replies.len(),
        forall|j: int|
            0 <= j < i ==> #[trigger] replies[j] == ReplyView::Message(
                ack(s.stream_id->0, s.next_seq),
            ),
        replies[i] != ReplyView::Message(ack(s.stream_id->0, s.next_seq)),
    ensures
        Some(settle(s, replies).1) == reply_outcome(
            s.backends[i],
            s.stream_id->0,
            s.next_seq,
            replies[i],
        ),
        settle(s, replies).0.controlled_exit,
{
    lemma_first_refusal(s.backends, s.stream_id->0, s.next_seq, replies, 0, i);
}

proof fn lemma_first_refusal(
    backends: Seq<Seq<char>>,
    id: StreamIdView,
    seq: int,
    replies: Seq<ReplyView>,
    from: int,
    i: int,
)
    requires
        0 <= from <= i < replies.len(),
        forall|j: int| from <= j < i ==> #[trigger] replies[j] == ReplyView::Message(ack(id, seq)),
        replies[i] != ReplyView::Message(ack(id, seq)),
    ensures
        replies_outcome(backends, id, seq, replies, from) == reply_outcome(
            backends[i],
            id,
            seq,
            replies[i],
        ),
    decreases i - from,
{
    assert(reply_outcome(backends[from], id, seq, replies[from]) is None <==> replies[from]
        == ReplyView::Message(ack(id, seq)));
    if from < i {
        lemma_first_refusal(backends, id, seq, replies, from + 1, i);
    }
}

/// Without backends every event is acknowledged at once.
pub proof fn law_black_hole_acknowledges(s: ResponseStateView)
    requires
        s.stream_id is Some,
        s.backends.len() == 0,
    ensures
        settle(s, Seq::empty()).1 == ResponseStepView::Respond(ack(s.stream_id->0, s.next_seq)),
{
}

/// Backends are waited for only for an event that was received, and, where the request stream
/// failed, only for one before the failure.
pub proof fn law_waits_for_received_events_only(s: ResponseStateView)
    requires
        s.stream_id is Some,
        poll_step(s).1 is AwaitBackends,
    ensures
        s.next_seq <= s.latest_seq,
        s.error_at_latest is Some ==> s.next_seq < s.latest_seq,
{
}

/// While the stream has not been ended, backends are waited for only once the stream is known.
pub proof fn law_waits_in_open_stream_only(
    s: ResponseStateView,
    closed: bool,
    status: RequestStatusView,
)
    requires
        s.stream_id is None,
        !s.request_stream_completed,
        informs(s, status),
        poll_step(observe(s, closed, status)).1 is AwaitBackends,
    ensures
        observe(s, closed, status).stream_id is Some,
{
}

/// What a response stream is told: statuses of the request stream, and replies of the backends.
pub enum InputView {
    Status(bool, RequestStatusView),
    Replies(Seq<ReplyView>),
}

/// What the build tool is sent, given what the response stream is told when it asks.
pub open spec fn sent(s: ResponseStateView, inputs: Seq<InputView>) -> Seq<ResponseStepView>
    decreases inputs.len(),
{
    let (polled, step) = poll_step(s);
    match step {
        ResponseStepView::AwaitRequestStatus => if inputs.len() > 0 && inputs[0] is Status {
            sent(observe(polled, inputs[0]->Status_0, inputs[0]->Status_1), inputs.skip(1))
        } else {
            Seq::empty()
        },
        ResponseStepView::AwaitBackends => if inputs.len() > 0 && inputs[0] is Replies {
            let (settled, answer) = settle(polled, inputs[0]->Replies_0);
            if answer is Respond {
                seq![answer] + sent(settled, inputs.skip(1))
            } else {
                seq![answer]
            }
        } else {
            Seq::empty()
        },
        _ => seq![step],
    }
}

/// Whatever the request stream and the backends do, the build tool is sent acknowledgements of
/// its stream with consecutive sequence numbers, and after them at most one end of the stream.
pub proof fn law_acknowledged_in_sequence(s: ResponseStateView, inputs: Seq<InputView>, k: int)
    requires
        s.stream_id is Some,
        0 <= k < sent(s, inputs).len(),
    ensures
        sent(s, inputs)[k] == ResponseStepView::Respond(ack(s.stream_id->0, s.next_seq + k))
            || k == sent(s, inputs).len() - 1 && (sent(s, inputs)[k] is Fail || sent(s, inputs)[k]
            is End),
    decreases inputs.len(),
{
    let (polled, step) = poll_step(s);
    if step is AwaitRequestStatus {
        law_acknowledged_in_sequence(
            observe(polled, inputs[0]->Status_0, inputs[0]->Status_1),
            inputs.skip(1),
            k,
        );
    } else if step is AwaitBackends {
        let replies = inputs[0]->Replies_0;
        lemma_outcome(s.backends, s.stream_id->0, s.next_seq, replies, 0);
        let (settled, answer) = settle(polled, replies);
        if answer is Respond && k > 0 {
            law_acknowledged_in_sequence(settled, inputs.skip(1), k - 1);
        }
    }
}

/// A status tells of requests up to `last` only: of an accepted one, or of one that is refused, at
/// the latest at the number that should have followed.
pub open spec fn tells_up_to(latest: int, error: Option<StatusView>, last: int) -> bool {
    if error is Some {
        latest <= last + 1
    } else {
        latest <= last
    }
}

pub open spec fn tells_input_up_to(input: InputView, last: int) -> bool {
    match input {
        InputView::Status(_, status) => tells_up_to(status.latest_sequence, status.error, last),
        InputView::Replies(_) => true,
    }
}

/// Every status that is seen tells of requests up to `last` only.
pub open spec fn statuses_tell_up_to(inputs: Seq<InputView>, last: int) -> bool {
    forall|i: int| 0 <= i < inputs.len() ==> tells_input_up_to(#[trigger] inputs[i], last)
}

/// No event is acknowledged that was not accepted before, whatever the backends reply.
pub proof fn law_acknowledges_accepted_events_only(
    s: ResponseStateView,
    inputs: Seq<InputView>,
    last: int,
    k: int,
)
    requires
        s.stream_id is Some,
        tells_up_to(s.latest_seq, s.error_at_latest, last),
        statuses_tell_up_to(inputs, last),
        0 <= k < sent(s, inputs).len(),
    ensures
        sent(s, inputs)[k] matches ResponseStepView::Respond(response) ==> response.sequence_number
            <= last,
    decreases inputs.len(),
{
    let (polled, step) = poll_step(s);
    if inputs.len() > 0 {
        assert forall|i: int| 0 <= i < inputs.skip(1).len() implies tells_input_up_to(
            #[trigger] inputs.skip(1)[i],
            last,
        ) by {
            assert(inputs.skip(1)[i] == inputs[i + 1]);
        }
    }
    if step is AwaitRequestStatus {
        assert(tells_input_up_to(inputs[0], last));
        law_acknowledges_accepted_events_only(
            observe(polled, inputs[0]->Status_0, inputs[0]->Status_1),
            inputs.skip(1),
            last,
            k,
        );
    } else if step is AwaitBackends {
        let replies = inputs[0]->Replies_0;
        lemma_outcome(s.backends, s.stream_id->0, s.next_seq, replies, 0);
        let (settled, answer) = settle(polled, replies);
        if answer is Respond && k > 0 {
            law_acknowledges_accepted_events_only(settled, inputs.skip(1), last, k - 1);
        }
    }
}

/// The first acknowledgement is that of the event that began the stream, and the others follow
/// in sequence.
pub proof fn law_acknowledged_from_start(
    backends: Seq<Seq<char>>,
    closed: bool,
    status: RequestStatusView,
    inputs: Seq<InputView>,
    k: int,
)
    requires
        status.stream_id is Some,
        status.starting_sequence is Some,
        ({
            let all = seq![InputView::Status(closed, status)] + inputs;
            0 <= k < sent(initial_response_state(backends), all).len()
        }),
    ensures
        ({
            let all = seq![InputView::Status(closed, status)] + inputs;
            let out = sent(initial_response_state(backends), all);
            out[k] == ResponseStepView::Respond(
                ack(status.stream_id->0, status.starting_sequence->0 + k),
            ) || k == out.len() - 1 && (out[k] is Fail || out[k] is End)
        }),
{
    let all = seq![InputView::Status(closed, status)] + inputs;
    let s = initial_response_state(backends);
    assert(all.skip(1) == inputs);
    law_acknowledged_in_sequence(observe(s, closed, status), inputs, k);
}

// ---------------------------------------------------------------------------
// Whole streams
// ---------------------------------------------------------------------------

/// The acknowledgements of the events `from..to` of stream `id`.
pub open spec fn acks(id: StreamIdView, from: int, to: int) -> Seq<ResponseStepView> {
    Seq::new(
        if from <= to {
            (to - from) as nat
        } else {
            0
        },
        |k: int| ResponseStepView::Respond(ack(id, from + k)),
    )
}

/// What backends that acknowledge every event reply.
pub open spec fn prompt_replies(s: ResponseStateView) -> Seq<ReplyView> {
    Seq::new(s.backends.len(), |i: int| ReplyView::Message(ack(s.stream_id->0, s.next_seq)))
}

/// What the build tool is sent if every backend acknowledges every event, given the statuses of
/// the request stream that the response stream gets to see.
pub open spec fn sent_if_acknowledged(
    s: ResponseStateView,
    seen: Seq<(bool, RequestStatusView)>,
) -> Seq<ResponseStepView>
    decreases seen.len(), s.latest_seq - s.next_seq + 1,
{
    let (polled, step) = poll_step(s);
    match step {
        ResponseStepView::AwaitRequestStatus => if seen.len() > 0 {
            sent_if_acknowledged(observe(polled, seen[0].0, seen[0].1), seen.skip(1))
        } else {
            Seq::empty()
        },
        ResponseStepView::AwaitBackends => {
            let (settled, answer) = settle(polled, prompt_replies(polled));
            if answer is Respond && s.next_seq <= s.latest_seq && settled.next_seq == s.next_seq + 1
                && settled.latest_seq == s.latest_seq {
                seq![answer] + sent_if_acknowledged(settled, seen)
            } else {
                seq![answer]
            }
        },
        _ => seq![step],
    }
}

/// What a response stream is told if every backend acknowledges every event, given the statuses of
/// the request stream that it gets to see.
pub open spec fn prompt_inputs(s: ResponseStateView, seen: Seq<(bool, RequestStatusView)>) -> Seq<
    InputView,
>
    decreases seen.len(), s.latest_seq - s.next_seq + 1,
{
    let (polled, step) = poll_step(s);
    match step {
        ResponseStepView::AwaitRequestStatus => if seen.len() > 0 {
            seq![InputView::Status(seen[0].0, seen[0].1)] + prompt_inputs(
                observe(polled, seen[0].0, seen[0].1),
                seen.skip(1),
            )
        } else {
            Seq::empty()
        },
        ResponseStepView::AwaitBackends => {
            let settled = settle(polled, prompt_replies(polled)).0;
            let input = seq![InputView::Replies(prompt_replies(polled))];
            if s.next_seq <= s.latest_seq && settled.next_seq == s.next_seq + 1
                && settled.latest_seq == s.latest_seq {
                input + prompt_inputs(settled, seen)
            } else {
                input
            }
        },
        _ => Seq::empty(),
    }
}

/// What is sent if every backend acknowledges every event is what is sent when the response stream
/// is told so.
pub proof fn law_sent_if_acknowledged(
    s: ResponseStateView,
    seen: Seq<(bool, RequestStatusView)>,
)
    requires
        s.stream_id is Some || seen.len() > 0 && seen[0].1.stream_id is Some
            && !s.request_stream_completed,
    ensures
        sent(s, prompt_inputs(s, seen)) == sent_if_acknowledged(s, seen),
    decreases seen.len(), s.latest_seq - s.next_seq + 1,
{
    let (polled, step) = poll_step(s);
    let inputs = prompt_inputs(s, seen);
    match step {
        ResponseStepView::AwaitRequestStatus => {
            if seen.len() > 0 {
                let next = observe(polled, seen[0].0, seen[0].1);
                law_sent_if_acknowledged(next, seen.skip(1));
                assert(inputs.skip(1) =~= prompt_inputs(next, seen.skip(1)));
            }
        },
        ResponseStepView::AwaitBackends => {
            lemma_prompt_replies_acknowledge(s);
            let settled = settle(polled, prompt_replies(polled)).0;
            law_sent_if_acknowledged(settled, seen);
            assert(inputs.skip(1) =~= prompt_inputs(settled, seen));
        },
        _ => {},
    }
}

/// Statuses that an observer may see of stream `id`, which begins at `start` and has accepted
/// requests up to `last`, before it sees the final status: some of those that were reported,
/// and possibly the final one before it is known to be so.
pub open spec fn seen_before_end(
    id: StreamIdView,
    start: int,
    last: int,
    end: RequestStatusView,
    seen: Seq<(bool, RequestStatusView)>,
) -> bool {
    forall|i: int|
        0 <= i < seen.len() ==> {
            let (closed, status) = #[trigger] seen[i];
            &&& !closed
            &&& status == end || exists|m: int|
                start <= m <= last && status == #[trigger] progress(id, start, m)
        }
}

/// A state in the midst of stream `id`: responses have come to `next_seq`, and what is known of
/// the request stream is one of its statuses.
spec fn midway(
    s: ResponseStateView,
    id: StreamIdView,
    start: int,
    last: int,
    end: RequestStatusView,
) -> bool {
    &&& s.stream_id == Some(id)
    &&& start <= s.next_seq <= last + 1
    &&& s.error_at_latest is Some ==> s.error_at_latest == end.error && s.latest_seq
        == end.latest_sequence
    &&& s.error_at_latest is None ==> s.latest_seq <= last
    &&& s.request_stream_completed ==> s.error_at_latest == end.error && s.latest_seq
        == end.latest_sequence
}

/// The final status of a stream that has accepted requests up to `last`: either all is well, or
/// a request was refused, at the latest at the number that should have followed.
pub open spec fn is_end(last: int, end: RequestStatusView) -> bool {
    if end.error is Some {
        end.latest_sequence <= last + 1
    } else {
        end.latest_sequence == last
    }
}

proof fn lemma_prompt_replies_acknowledge(s: ResponseStateView)
    requires
        s.stream_id is Some,
    ensures
        settle(s, prompt_replies(s)) == (
            ResponseStateView { next_seq: s.next_seq + 1, ..s },
            ResponseStepView::Respond(ack(s.stream_id->0, s.next_seq)),
        ),
{
    lemma_outcome(s.backends, s.stream_id->0, s.next_seq, prompt_replies(s), 0);
}

/// From the midst of a stream: what is still to be sent once the final status is seen.
proof fn lemma_midway(
    s: ResponseStateView,
    id: StreamIdView,
    start: int,
    last: int,
    end: RequestStatusView,
    seen: Seq<(bool, RequestStatusView)>,
) -> (to: int)
    requires
        midway(s, id, start, last, end),
        is_end(last, end),
        seen_before_end(id, start, last, end, seen),
    ensures
        s.next_seq <= to <= last + 1,
        end.error is None ==> to == last + 1,
        end.error is Some ==> to >= end.latest_sequence,
        sent_if_acknowledged(s, seen.push((true, end))) == acks(id, s.next_seq, to).push(
            if end.error is Some {
                ResponseStepView::Fail(end.error->0)
            } else {
                ResponseStepView::End
            },
        ) || s.request_stream_completed,
        s.request_stream_completed ==> sent_if_acknowledged(s, seen) == acks(
            id,
            s.next_seq,
            to,
        ).push(
            if end.error is Some {
                ResponseStepView::Fail(end.error->0)
            } else {
                ResponseStepView::End
            },
        ),
    decreases
        seen.len() + if s.request_stream_completed {
            0nat
        } else {
            1nat
        },
        last + 1 - s.next_seq,
{
    let finish = if end.error is Some {
        ResponseStepView::Fail(end.error->0)
    } else {
        ResponseStepView::End
    };
    let (polled, step) = poll_step(s);
    let all = if s.request_stream_completed {
        seen
    } else {
        seen.push((true, end))
    };
    match step {
        ResponseStepView::AwaitRequestStatus => {
            if seen.len() > 0 {
                let next = observe(s, seen[0].0, seen[0].1);
                assert(all[0] == seen[0]);
                assert(all.skip(1) == seen.skip(1).push((true, end)));
                assert(seen_before_end(id, start, last, end, seen.skip(1))) by {
                    assert forall|i: int| 0 <= i < seen.skip(1).len() implies ({
                        let (closed, status) = #[trigger] seen.skip(1)[i];
                        &&& !closed
                        &&& status == end || exists|m: int|
                            start <= m <= last && status == #[trigger] progress(id, start, m)
                    }) by {
                        assert(seen.skip(1)[i] == seen[i + 1]);
                    }
                }
                lemma_midway(next, id, start, last, end, seen.skip(1))
            } else {
                let next = observe(s, true, end);
                assert(all[0] == (true, end));
                assert(all.skip(1) == seen);
                lemma_midway(next, id, start, last, end, seen)
            }
        },
        ResponseStepView::AwaitBackends => {
            lemma_prompt_replies_acknowledge(s);
            let next = ResponseStateView { next_seq: s.next_seq + 1, ..s };
            let to = lemma_midway(next, id, start, last, end, seen);
            assert(acks(id, s.next_seq, to).push(finish) == seq![
                ResponseStepView::Respond(ack(id, s.next_seq)),
            ] + acks(id, s.next_seq + 1, to).push(finish));
            to
        },
        _ => {
            assert(acks(id, s.next_seq, s.next_seq).push(finish) == seq![finish]);
            s.next_seq
        },
    }
}

/// A stream that comes in order and is not cut short is acknowledged in full, one event after
/// the other, and then ended, whatever the response side gets to see of its progress: every
/// backend having acknowledged every event, the build tool is sent the acknowledgements of
/// `start` up to `last` and the end.
pub proof fn law_complete_stream_is_acknowledged(
    backends: Seq<Seq<char>>,
    id: StreamIdView,
    start: int,
    last: int,
    seen: Seq<(bool, RequestStatusView)>,
)
    requires
        start <= last,
        seen_before_end(id, start, last, progress(id, start, last), seen),
    ensures
        sent_if_acknowledged(
            initial_response_state(backends),
            seen.push((true, progress(id, start, last))),
        ) == acks(id, start, last + 1).push(ResponseStepView::End),
{
    let end = progress(id, start, last);
    lemma_from_start(backends, id, start, last, end, seen);
}

/// A refused request is answered: every backend having acknowledged every event, the build tool
/// is sent the acknowledgements of the events before the refused one, beginning at `start`, and
/// then the error of the refusal.
pub proof fn law_refused_request_is_answered(
    backends: Seq<Seq<char>>,
    id: StreamIdView,
    start: int,
    last: int,
    end: RequestStatusView,
    seen: Seq<(bool, RequestStatusView)>,
)
    requires
        start <= last,
        end.error is Some,
        end.stream_id == Some(id) && end.starting_sequence == Some(start) || end.stream_id is None
            && seen.len() > 0 && seen[0].1.stream_id is Some,
        end.latest_sequence <= last + 1,
        seen_before_end(id, start, last, end, seen),
    ensures
        exists|to: int|
            end.latest_sequence <= to <= last + 1 && #[trigger] acks(id, start, to).push(
                ResponseStepView::Fail(end.error->0),
            ) == sent_if_acknowledged(
                initial_response_state(backends),
                seen.push((true, end)),
            ),
{
    let to = lemma_from_start(backends, id, start, last, end, seen);
    assert(acks(id, start, to).push(ResponseStepView::Fail(end.error->0)) == sent_if_acknowledged(
        initial_response_state(backends),
        seen.push((true, end)),
    ));
}

proof fn lemma_from_start(
    backends: Seq<Seq<char>>,
    id: StreamIdView,
    start: int,
    last: int,
    end: RequestStatusView,
    seen: Seq<(bool, RequestStatusView)>,
) -> (to: int)
    requires
        start <= last,
        is_end(last, end),
        end.stream_id == Some(id) && end.starting_sequence == Some(start) || end.stream_id is None
            && seen.len() > 0 && seen[0].1.stream_id is Some,
        seen_before_end(id, start, last, end, seen),
    ensures
        start <= to <= last + 1,
        end.error is None ==> to == last + 1,
        end.error is Some ==> to >= end.latest_sequence,
        sent_if_acknowledged(initial_response_state(backends), seen.push((true, end))) == acks(
            id,
            start,
            to,
        ).push(
            if end.error is Some {
                ResponseStepView::Fail(end.error->0)
            } else {
                ResponseStepView::End
            },
        ),
{
    let s = initial_response_state(backends);
    let all = seen.push((true, end));
    if seen.len() > 0 {
        let next = observe(s, seen[0].0, seen[0].1);
        assert(all[0] == seen[0]);
        assert(all.skip(1) == seen.skip(1).push((true, end)));
        assert(seen_before_end(id, start, last, end, seen.skip(1))) by {
            assert forall|i: int| 0 <= i < seen.skip(1).len() implies ({
                let (closed, status) = #[trigger] seen.skip(1)[i];
                &&& !closed
                &&& status == end || exists|m: int|
                    start <= m <= last && status == #[trigger] progress(id, start, m)
            }) by {
                assert(seen.skip(1)[i] == seen[i + 1]);
            }
        }
        lemma_midway(next, id, start, last, end, seen.skip(1))
    } else {
        let next = observe(s, true, end);
        assert(all[0] == (true, end));
        assert(all.skip(1) == seen);
        lemma_midway(next, id, start, last, end, seen)
    }
}

/// A stream whose first request lacks its fields is answered with the error alone.
pub proof fn law_unusable_first_request_is_answered(
    backends: Seq<Seq<char>>,
    seen: Seq<(bool, RequestStatusView)>,
)
    requires
        seen.len() > 0,
        request_step(None, None).1 == RequestStepView::Halt(seen[0].1),
        seen[0].0 || seen.len() > 1 && seen[1] == (true, seen[0].1),
    ensures
        sent_if_acknowledged(initial_response_state(backends), seen) == seq![
            ResponseStepView::Fail(seen[0].1.error->0),
        ],
{
    reveal_with_fuel(sent_if_acknowledged, 3);
    let s = observe(initial_response_state(backends), seen[0].0, seen[0].1);
    if !seen[0].0 {
        assert(seen.skip(1)[0] == seen[1]);
        assert(sent_if_acknowledged(s, seen.skip(1)) == seq![
            ResponseStepView::Fail(seen[0].1.error->0),
        ]);
    }
}

/// What an observer sees that looks at the statuses `picks`, in this order, and then at the last
/// status once no other can follow.
pub open spec fn watched(statuses: Seq<RequestStatusView>, picks: Seq<int>) -> Seq<
    (bool, RequestStatusView),
> {
    picks.map_values(|k: int| (false, statuses[k])).push((true, statuses.last()))
}

/// The picks are statuses that exist, and no look falls behind an earlier one.
pub open spec fn looks(picks: Seq<int>, n: int) -> bool {
    &&& forall|i: int| 0 <= i < picks.len() ==> 0 <= #[trigger] picks[i] < n
    &&& forall|i: int, j: int| 0 <= i <= j < picks.len() ==> picks[i] <= picks[j]
}

/// From the build tool's requests to what it is sent: if its events come in order and every
/// backend acknowledges each of them, every event is acknowledged, in sequence from the first
/// number on, and then the stream ends, however often the response side looks at the progress
/// of the request side.
pub proof fn law_ordered_stream_is_acknowledged(
    backends: Seq<Seq<char>>,
    id: StreamIdView,
    start: int,
    requests: Seq<Option<EventView>>,
    picks: Seq<int>,
)
    requires
        requests.len() > 0,
        in_order(id, start, requests),
        looks(picks, requests.len() as int),
    ensures
        sent_if_acknowledged(
            initial_response_state(backends),
            watched(reported(None, requests), picks),
        ) == acks(id, start, start + requests.len()).push(ResponseStepView::End),
{
    let statuses = reported(None, requests);
    let last = start + requests.len() - 1;
    law_ordered_requests_are_accepted(id, start, requests);
    let seen = picks.map_values(|k: int| (false, statuses[k]));
    assert(statuses.last() == progress(id, start, last));
    assert forall|i: int| 0 <= i < seen.len() implies ({
        let (closed, status) = #[trigger] seen[i];
        &&& !closed
        &&& status == progress(id, start, last) || exists|m: int|
            start <= m <= last && status == #[trigger] progress(id, start, m)
    }) by {
        let k = picks[i];
        assert(statuses[k] == progress(id, start, start + k));
    }
    law_complete_stream_is_acknowledged(backends, id, start, last, seen);
}

/// The statuses of requests that come in order, followed by one that is refused.
proof fn lemma_refused_statuses(
    id: StreamIdView,
    start: int,
    requests: Seq<Option<EventView>>,
    refused: Option<EventView>,
)
    requires
        requests.len() > 0,
        in_order(id, start, requests),
        request_step(
            Some(OpenStreamView { stream_id: id, start, seq: start + requests.len() - 1 }),
            refused,
        ).1 is Halt,
    ensures
        reported(None, requests.push(refused)) == reported(None, requests).push(
            request_step(
                Some(OpenStreamView { stream_id: id, start, seq: start + requests.len() - 1 }),
                refused,
            ).1->Halt_0,
        ),
{
    let all = requests.push(refused);
    let opened = OpenStreamView { stream_id: id, start, seq: start };
    assert(requests[0] == Some(EventView { stream_id: id, sequence_number: start + 0 }));
    assert(all.skip(1) == requests.skip(1).push(refused));
    assert(in_order(id, start + 1, requests.skip(1))) by {
        assert forall|k: int| 0 <= k < requests.skip(1).len() implies #[trigger] requests.skip(
            1,
        )[k] == Some(EventView { stream_id: id, sequence_number: start + 1 + k }) by {
            assert(requests.skip(1)[k] == requests[k + 1]);
        }
    }
    lemma_refused_statuses_open(opened, requests.skip(1), refused);
    assert(all[0] == requests[0]);
    let first = progress(id, start, start);
    let tail = reported(Some(opened), requests.skip(1));
    let end = request_step(
        Some(OpenStreamView { stream_id: id, start, seq: start + requests.len() - 1 }),
        refused,
    ).1->Halt_0;
    assert(seq![first] + tail.push(end) == (seq![first] + tail).push(end));
}

proof fn lemma_refused_statuses_open(
    open: OpenStreamView,
    requests: Seq<Option<EventView>>,
    refused: Option<EventView>,
)
    requires
        in_order(open.stream_id, open.seq + 1, requests),
        request_step(
            Some(OpenStreamView { seq: open.seq + requests.len(), ..open }),
            refused,
        ).1 is Halt,
    ensures
        reported(Some(open), requests.push(refused)) == reported(Some(open), requests).push(
            request_step(
                Some(OpenStreamView { seq: open.seq + requests.len(), ..open }),
                refused,
            ).1->Halt_0,
        ),
    decreases requests.len(),
{
    let all = requests.push(refused);
    let end = request_step(
        Some(OpenStreamView { seq: open.seq + requests.len(), ..open }),
        refused,
    ).1->Halt_0;
    if requests.len() > 0 {
        let next = OpenStreamView { seq: open.seq + 1, ..open };
        assert(requests[0] == Some(
            EventView { stream_id: open.stream_id, sequence_number: open.seq + 1 + 0 },
        ));
        assert(all[0] == requests[0]);
        assert(all.skip(1) == requests.skip(1).push(refused));
        assert forall|k: int| 0 <= k < requests.skip(1).len() implies #[trigger] requests.skip(
            1,
        )[k] == Some(
            EventView { stream_id: open.stream_id, sequence_number: next.seq + 1 + k },
        ) by {
            assert(requests.skip(1)[k] == requests[k + 1]);
        }
        lemma_refused_statuses_open(next, requests.skip(1), refused);
        let first = progress(open.stream_id, open.start, open.seq + 1);
        let tail = reported(Some(next), requests.skip(1));
        assert(seq![first] + tail.push(end) == (seq![first] + tail).push(end));
    } else {
        assert(all[0] == refused);
        assert(Seq::<RequestStatusView>::empty().push(end) == seq![end]);
    }
}

/// From the build tool's requests to what it is sent, where a request is refused after some that
/// came in order: if every backend acknowledges each event, the build tool is sent
/// acknowledgements in sequence from the first number on, of no other events than those before
/// the refused request, and then the error of the refusal. Unless the refused request lacks its
/// fields, every event before the number at which it is refused is acknowledged.
///
/// Left out is a request of another stream that carries a number beyond the one that would have
/// followed: events up to that number, which never come, are then waited for.
pub proof fn law_stream_ends_with_refusal(
    backends: Seq<Seq<char>>,
    id: StreamIdView,
    start: int,
    requests: Seq<Option<EventView>>,
    refused: Option<EventView>,
    picks: Seq<int>,
)
    requires
        requests.len() > 0,
        in_order(id, start, requests),
        looks(picks, requests.len() as int + 1),
        request_step(
            Some(OpenStreamView { stream_id: id, start, seq: start + requests.len() - 1 }),
            refused,
        ).1 is Halt,
        refused is Some && refused->0.stream_id != id ==> refused->0.sequence_number <= start
            + requests.len(),
    ensures
        ({
            let end = reported(None, requests.push(refused)).last();
            let out = sent_if_acknowledged(
                initial_response_state(backends),
                watched(reported(None, requests.push(refused)), picks),
            );
            exists|to: int|
                start <= to <= start + requests.len() && (refused is Some ==> end.latest_sequence
                    <= to) && out == #[trigger] acks(id, start, to).push(
                    ResponseStepView::Fail(end.error->0),
                )
        }),
{
    let statuses = reported(None, requests.push(refused));
    let n = requests.len() as int;
    let last = start + n - 1;
    let s = initial_response_state(backends);
    law_ordered_requests_are_accepted(id, start, requests);
    lemma_refused_statuses(id, start, requests, refused);
    let end = statuses.last();
    let seen = picks.map_values(|k: int| (false, statuses[k]));
    let fail = ResponseStepView::Fail(end.error->0);
    assert(forall|k: int| 0 <= k < n ==> statuses[k] == reported(None, requests)[k]);
    assert forall|i: int| 0 <= i < seen.len() implies ({
        let (closed, status) = #[trigger] seen[i];
        &&& !closed
        &&& status == end || exists|m: int|
            start <= m <= last && status == #[trigger] progress(id, start, m)
    }) by {
        let k = picks[i];
        if k < n {
            assert(statuses[k] == progress(id, start, start + k));
        }
    }
    if end.stream_id is None && (picks.len() == 0 || picks[0] == n) {
        // Nothing but the refusal is ever seen.
        assert(watched(statuses, picks) == seen.push((true, end)));
        lemma_only_refusal_seen(s, end, seen);
        assert(acks(id, start, start).push(fail) == seq![fail]);
    } else {
        if end.stream_id is None {
            assert(seen[0].1 == progress(id, start, start + picks[0])) by {
                assert(statuses[picks[0]] == reported(None, requests)[picks[0]]);
            }
        }
        let to = lemma_from_start(backends, id, start, last, end, seen);
        assert(sent_if_acknowledged(s, watched(statuses, picks)) == acks(id, start, to).push(fail));
    }
}

proof fn lemma_only_refusal_seen(
    s: ResponseStateView,
    end: RequestStatusView,
    seen: Seq<(bool, RequestStatusView)>,
)
    requires
        s.stream_id is None,
        !s.request_stream_completed,
        end.stream_id is None,
        end.error is Some,
        forall|i: int| 0 <= i < seen.len() ==> #[trigger] seen[i] == (false, end),
    ensures
        sent_if_acknowledged(s, seen.push((true, end))) == seq![
            ResponseStepView::Fail(end.error->0),
        ],
    decreases seen.len(),
{
    let all = seen.push((true, end));
    let next = observe(s, all[0].0, end);
    if seen.len() > 0 {
        assert(all[0] == seen[0]);
        assert(all.skip(1) == seen.skip(1).push((true, end)));
        assert forall|i: int| 0 <= i < seen.skip(1).len() implies #[trigger] seen.skip(1)[i] == (
            false,
            end,
        ) by {
            assert(seen.skip(1)[i] == seen[i + 1]);
        }
        lemma_only_refusal_seen(next, end, seen.skip(1));
    } else {
        assert(all[0] == (true, end));
        assert(sent_if_acknowledged(next, all.skip(1)) == seq![
            ResponseStepView::Fail(end.error->0),
        ]);
    }
}

} // verus!
