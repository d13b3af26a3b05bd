//! What each step of a build tool event stream is for, said of the calls themselves.
use vstd::prelude::*;

use crate::event::{
    EventView, PublishBuildToolEventStreamRequest, PublishBuildToolEventStreamResponse,
    ResponseView, StreamId, StreamIdView,
};
use crate::forwarding::laws::{law_acknowledged_by_all, law_first_refusal_decides};
use crate::forwarding::request_stream::{
    fanned_out, BuildToolRequestStreamState, Delivery, OpenStreamView, RequestStatusView,
    RequestStep, RequestStream,
};
use crate::forwarding::response_stream::{
    ack, replies_outcome, replies_view, tell_backend_failure, validate_build_event_ack_response,
    BackendReply, BuildToolResponseStreamState, ReplyView, ResponseStateView, ResponseStep,
    ResponseStepView,
};
use crate::forwarding::upload::{upload_step, AsyncUpload, UploadEnd, UploadEndView};
use crate::status::{Code, Status, StatusView};
use crate::text::{decimal_int, texts};

verus! {

// ---------------------------------------------------------------------------
// Requests
// ---------------------------------------------------------------------------

/// Request processing stops exactly if some backend that is not asynchronous did not take the
/// request; where every backend took it, it goes on.
pub proof fn law_only_an_awaited_backend_stops_requests(deliveries: Vec<Delivery>, r: bool)
    requires
        call_ensures(fanned_out, (&deliveries,), r),
    ensures
        !r <==> exists|i: int|
            0 <= i < deliveries@.len() && !(#[trigger] deliveries@[i]).asynchronous
                && !deliveries@[i].delivered,
        (forall|i: int| 0 <= i < deliveries@.len() ==> (#[trigger] deliveries@[i]).delivered) ==> r,
{
}

/// A request that more backends take stops nothing that fewer do not stop, and it does not matter
/// whether asynchronous backends take it.
pub proof fn law_more_deliveries_stop_nothing(
    fewer: Vec<Delivery>,
    more: Vec<Delivery>,
    goes_on: bool,
    still_goes_on: bool,
)
    requires
        call_ensures(fanned_out, (&fewer,), goes_on),
        call_ensures(fanned_out, (&more,), still_goes_on),
        fewer@.len() == more@.len(),
        forall|i: int|
            0 <= i < fewer@.len() ==> (#[trigger] fewer@[i]).asynchronous
                == more@[i].asynchronous && (fewer@[i].delivered && !fewer@[i].asynchronous
                ==> more@[i].delivered),
    ensures
        goes_on ==> still_goes_on,
{
    if goes_on && !still_goes_on {
        let i = choose|i: int|
            0 <= i < more@.len() && !(#[trigger] more@[i]).asynchronous && !more@[i].delivered;
        assert(fewer@[i].asynchronous == more@[i].asynchronous);
    }
}

/// The first request opens the stream that it names at its sequence number and is forwarded. One
/// that lacks its fields is refused, and nothing is known of a stream.
pub proof fn law_first_request_opens_the_stream(
    stream: &mut RequestStream,
    request: &PublishBuildToolEventStreamRequest,
    r: RequestStep,
)
    requires
        old(stream)@ is None,
        call_ensures(RequestStream::process_request, (stream, request), r),
    ensures
        r is Forward <==> request@ is Some,
        request@ matches Some(event) ==> {
            &&& final(stream)@ == Some(
                OpenStreamView {
                    stream_id: event.stream_id,
                    start: event.sequence_number,
                    seq: event.sequence_number,
                },
            )
            &&& r->Forward_0@ == (RequestStatusView {
                stream_id: Some(event.stream_id),
                starting_sequence: Some(event.sequence_number),
                latest_sequence: event.sequence_number,
                error: None,
            })
        },
        request@ is None ==> {
            &&& final(stream)@ is None
            &&& r->Halt_0@.stream_id is None
            &&& r->Halt_0@.starting_sequence is None
            &&& r->Halt_0@.latest_sequence == 0
            &&& r->Halt_0@.error matches Some(error) && error.code == Code::Internal
                && error.message == "ordered_build_event field(s) are missing"@
        },
{
}

/// Of an open stream the event with the number that follows is forwarded and no other request is.
/// A request that is refused leaves the stream as it was, and the refusal says what is wrong: a
/// field is missing, the stream is another one, or the number is not the one that follows.
pub proof fn law_later_request_continues_the_stream(
    stream: &mut RequestStream,
    open: OpenStreamView,
    request: &PublishBuildToolEventStreamRequest,
    r: RequestStep,
)
    requires
        old(stream)@ == Some(open),
        call_ensures(RequestStream::process_request, (stream, request), r),
    ensures
        r is Forward <==> request@ == Some(
            EventView { stream_id: open.stream_id, sequence_number: open.seq + 1 },
        ),
        r matches RequestStep::Forward(status) ==> {
            &&& final(stream)@ == Some(
                OpenStreamView {
                    stream_id: open.stream_id,
                    start: open.start,
                    seq: open.seq + 1,
                },
            )
            &&& status@ == (RequestStatusView {
                stream_id: Some(open.stream_id),
                starting_sequence: Some(open.start),
                latest_sequence: open.seq + 1,
                error: None,
            })
        },
        r matches RequestStep::Halt(status) ==> {
            &&& final(stream)@ == old(stream)@
            &&& status@.error is Some
            &&& request@ is None ==> {
                &&& status@.stream_id is None
                &&& status@.starting_sequence is None
                &&& status@.latest_sequence == open.seq
                &&& status@.error->0.code == Code::Internal
                &&& status@.error->0.message == "ordered_build_event field(s) are missing"@
            }
            &&& request@ matches Some(event) ==> {
                &&& status@.stream_id == Some(open.stream_id)
                &&& status@.starting_sequence == Some(open.start)
                &&& event.stream_id != open.stream_id ==> {
                    &&& status@.latest_sequence == event.sequence_number
                    &&& status@.error->0.code == Code::Internal
                    &&& status@.error->0.message == "received inconsistent stream id from client"@
                }
                &&& event.stream_id == open.stream_id ==> {
                    &&& status@.latest_sequence == open.seq + 1
                    &&& status@.error->0.code == Code::InvalidArgument
                    &&& status@.error->0.message == "expected seq "@ + decimal_int(open.seq + 1)
                        + " but received "@ + decimal_int(event.sequence_number)
                }
            }
        },
{
}

/// Two requests that are forwarded one after the other are events of one stream with consecutive
/// numbers.
pub proof fn law_forwarded_requests_are_consecutive(
    before: &mut RequestStream,
    after: &mut RequestStream,
    first: &PublishBuildToolEventStreamRequest,
    second: &PublishBuildToolEventStreamRequest,
    r: RequestStep,
    t: RequestStep,
)
    requires
        call_ensures(RequestStream::process_request, (before, first), r),
        old(after)@ == final(before)@,
        call_ensures(RequestStream::process_request, (after, second), t),
        r is Forward,
        t is Forward,
    ensures
        first@ is Some,
        second@ == Some(
            EventView {
                stream_id: first@->0.stream_id,
                sequence_number: first@->0.sequence_number + 1,
            },
        ),
{
}

/// What is asked of a stream of requests is what it was told: nothing at first, later the number
/// of the latest event that was forwarded.
pub proof fn law_latest_is_what_was_forwarded(
    fresh: RequestStream,
    stream: &RequestStream,
    before_any: i64,
    r: i64,
)
    requires
        call_ensures(RequestStream::new, (), fresh),
        call_ensures(RequestStream::latest, (&fresh,), before_any),
        call_ensures(RequestStream::latest, (stream,), r),
    ensures
        fresh@ is None,
        before_any == 0,
        stream@ matches Some(open) ==> r == open.seq,
{
}

/// Before any request has been received there is no stream, no number and no error.
pub proof fn law_nothing_is_known_at_first(
    status: BuildToolRequestStreamState,
    backends: Vec<String>,
    state: BuildToolResponseStreamState,
)
    requires
        call_ensures(BuildToolRequestStreamState::initial, (), status),
        call_ensures(BuildToolResponseStreamState::new, (backends,), state),
    ensures
        status@.stream_id is None,
        status@.starting_sequence is None,
        status@.latest_sequence == 0,
        status@.error is None,
        state@.backends == texts(backends@),
        state@.stream_id is None,
        state@.error_at_latest is None,
        !state@.request_stream_completed,
        !state@.controlled_exit,
{
}

/// A request names an event exactly if it holds one with a stream id, and the event is named by
/// that id and its number.
pub proof fn law_request_names_its_event(request: PublishBuildToolEventStreamRequest)
    ensures
        request@ is Some <==> request.ordered_build_event is Some
            && request.ordered_build_event->0.stream_id is Some,
        request@ matches Some(event) ==> {
            &&& event.stream_id == request.ordered_build_event->0.stream_id->0@
            &&& event.sequence_number == request.ordered_build_event->0.sequence_number
        },
{
}

/// Streams are told apart by build, invocation and component.
pub proof fn law_streams_are_told_apart(a: StreamId, b: StreamId)
    ensures
        a@ == b@ <==> a.build_id@ == b.build_id@ && a.invocation_id@ == b.invocation_id@
            && a.component == b.component,
        a@.invocation_id == a.invocation_id@,
{
}

/// A response acknowledges the event of the stream and number that it holds.
pub proof fn law_response_names_its_event(response: PublishBuildToolEventStreamResponse)
    ensures
        response@.sequence_number == response.sequence_number,
        response@.stream_id is Some <==> response.stream_id is Some,
        response.stream_id matches Some(id) ==> response@.stream_id == Some(id@),
{
}

// ---------------------------------------------------------------------------
// Responses
// ---------------------------------------------------------------------------

/// The event of a known stream that is responded to next is waited for while it was received; a
/// refusal is told once the events before it were responded to; the stream ends once no other
/// request can come; and until then the status of the request stream is asked for.
pub proof fn law_what_is_waited_for(state: &mut BuildToolResponseStreamState, r: ResponseStep)
    requires
        call_ensures(BuildToolResponseStreamState::poll_next, (state,), r),
        old(state)@.stream_id is Some,
    ensures
        ({
            let s = old(state)@;
            &&& s.next_seq < s.latest_seq ==> r is AwaitBackends
            &&& s.next_seq == s.latest_seq ==> r@ == match s.error_at_latest {
                Some(error) => ResponseStepView::Fail(error),
                None => ResponseStepView::AwaitBackends,
            }
            &&& s.next_seq > s.latest_seq && !s.request_stream_completed ==> r
                is AwaitRequestStatus
            &&& s.next_seq > s.latest_seq && s.request_stream_completed ==> r@
                == match s.error_at_latest {
                Some(error) => ResponseStepView::Fail(error),
                None => ResponseStepView::End,
            }
        }),
{
}

/// Of an unknown stream nothing is waited for but the status of the request stream; once no other
/// can come, the refusal that it holds is told.
pub proof fn law_unknown_stream_is_asked_for(
    state: &mut BuildToolResponseStreamState,
    r: ResponseStep,
)
    requires
        call_ensures(BuildToolResponseStreamState::poll_next, (state,), r),
        old(state)@.stream_id is None,
    ensures
        !old(state)@.request_stream_completed ==> r is AwaitRequestStatus,
        old(state)@.request_stream_completed && old(state)@.error_at_latest is Some ==> r@
            == ResponseStepView::Fail(old(state)@.error_at_latest->0),
{
}

/// Asking what comes next changes nothing, but that an end is noted as one decided here, and that
/// a refusal is told once.
pub proof fn law_polling_keeps_the_stream(state: &mut BuildToolResponseStreamState, r: ResponseStep)
    requires
        call_ensures(BuildToolResponseStreamState::poll_next, (state,), r),
    ensures
        final(state)@.backends == old(state)@.backends,
        final(state)@.stream_id == old(state)@.stream_id,
        final(state)@.next_seq == old(state)@.next_seq,
        final(state)@.latest_seq == old(state)@.latest_seq,
        final(state)@.request_stream_completed == old(state)@.request_stream_completed,
        final(state)@.error_at_latest == if r is Fail {
            None
        } else {
            old(state)@.error_at_latest
        },
        final(state)@.controlled_exit <==> old(state)@.controlled_exit || r is Fail || r is End,
        !(r is Respond),
{
}

/// A status of the request stream tells how far it has come and whether it failed. It opens an
/// unknown stream at its start, and leaves a known one and the place in it as they are.
pub proof fn law_status_is_taken_note_of(
    state: &mut BuildToolResponseStreamState,
    closed: bool,
    status: &BuildToolRequestStreamState,
)
    requires
        call_ensures(BuildToolResponseStreamState::on_request_status, (state, closed, status), ()),
    ensures
        final(state)@.latest_seq == status@.latest_sequence,
        final(state)@.error_at_latest == status@.error,
        final(state)@.request_stream_completed <==> old(state)@.request_stream_completed || closed,
        final(state)@.backends == old(state)@.backends,
        final(state)@.controlled_exit == old(state)@.controlled_exit,
        old(state)@.stream_id is Some ==> final(state)@.stream_id == old(state)@.stream_id
            && final(state)@.next_seq == old(state)@.next_seq,
        old(state)@.stream_id is None ==> final(state)@.stream_id == status@.stream_id,
        old(state)@.stream_id is None && status@.stream_id is Some
            && status@.starting_sequence is Some ==> Some(final(state)@.next_seq)
            == status@.starting_sequence,
{
}

/// An event is acknowledged to the build tool exactly if every backend that is waited for
/// acknowledged that event of that stream; the next event follows.
pub proof fn law_event_is_acknowledged_by_all(
    state: &mut BuildToolResponseStreamState,
    id: StreamIdView,
    replies: &Vec<BackendReply>,
    r: ResponseStep,
)
    requires
        old(state)@.stream_id == Some(id),
        call_ensures(BuildToolResponseStreamState::on_backend_replies, (state, replies), r),
    ensures
        r is Respond <==> forall|i: int|
            0 <= i < replies@.len() ==> (#[trigger] replies@[i])@ == ReplyView::Message(
                ResponseView { stream_id: Some(id), sequence_number: old(state)@.next_seq },
            ),
        r matches ResponseStep::Respond(response) ==> {
            &&& response@.stream_id == Some(id)
            &&& response@.sequence_number == old(state)@.next_seq
            &&& final(state)@ == (ResponseStateView {
                next_seq: old(state)@.next_seq + 1,
                ..old(state)@
            })
        },
        !(r is Respond) ==> final(state)@ == (ResponseStateView {
            controlled_exit: true,
            ..old(state)@
        }) && (r is Fail || r is End),
{
    let views = replies_view(replies@);
    law_acknowledged_by_all(old(state)@, views);
    lemma_outcomes_end(old(state)@.backends, id, old(state)@.next_seq, views, 0);
    assert forall|i: int| 0 <= i < replies@.len() implies views[i] == (#[trigger] replies@[i])@ by {
    }
    if r is Respond {
        assert forall|i: int| 0 <= i < replies@.len() implies (#[trigger] replies@[i])@
            == ReplyView::Message(
            ResponseView { stream_id: Some(id), sequence_number: old(state)@.next_seq },
        ) by {
            assert(views[i] == replies@[i]@);
        }
    } else {
        if forall|i: int|
            0 <= i < replies@.len() ==> (#[trigger] replies@[i])@ == ReplyView::Message(
                ResponseView { stream_id: Some(id), sequence_number: old(state)@.next_seq },
            ) {
            assert forall|i: int| 0 <= i < views.len() implies #[trigger] views[i]
                == ReplyView::Message(
                ack(id, old(state)@.next_seq),
            ) by {
                assert(views[i] == replies@[i]@);
            }
        }
    }
}

/// A backend that does not acknowledge ends the stream.
proof fn lemma_outcomes_end(
    backends: Seq<Seq<char>>,
    id: StreamIdView,
    seq: int,
    replies: Seq<ReplyView>,
    i: int,
)
    ensures
        replies_outcome(backends, id, seq, replies, i) matches Some(step) ==> step is Fail || step
            is End,
    decreases replies.len() - i,
{
    if 0 <= i < replies.len() {
        lemma_outcomes_end(backends, id, seq, replies, i + 1);
    }
}

/// The first backend that does not acknowledge the event decides how the stream ends: with the
/// end of its own stream, with its failure told under its name, or with what is wrong with its
/// response.
pub proof fn law_first_refusal_is_told(
    state: &mut BuildToolResponseStreamState,
    id: StreamIdView,
    replies: &Vec<BackendReply>,
    k: int,
    r: ResponseStep,
)
    requires
        old(state)@.stream_id == Some(id),
        call_ensures(BuildToolResponseStreamState::on_backend_replies, (state, replies), r),
        0 <= k < replies@.len(),
        forall|i: int|
            0 <= i < k ==> (#[trigger] replies@[i])@ == ReplyView::Message(
                ResponseView { stream_id: Some(id), sequence_number: old(state)@.next_seq },
            ),
        replies@[k]@ != ReplyView::Message(
            ResponseView { stream_id: Some(id), sequence_number: old(state)@.next_seq },
        ),
    ensures
        ({
            let name = old(state)@.backends[k];
            match replies@[k]@ {
                ReplyView::Ended => r is End,
                ReplyView::Failed(status) => r@ == ResponseStepView::Fail(
                    StatusView {
                        code: status.code,
                        message: name + " failed event stream request: "@ + status.message,
                        details: status.details,
                        metadata: status.metadata,
                    },
                ),
                ReplyView::Message(response) => {
                    &&& r@ matches ResponseStepView::Fail(status)
                    &&& status.code == Code::Internal
                    &&& status.details.len() == 0
                    &&& status.metadata.len() == 0
                    &&& status.message == match response.stream_id {
                        None => "response from bes backend "@ + name + " is missing stream_id"@,
                        Some(other) => if other != id {
                            "bes backend "@ + name + " responded with unexpected stream id"@
                        } else {
                            "bes backend "@ + name + " responded with unexpected sequence"@
                        },
                    }
                },
            }
        }),
{
    let views = replies_view(replies@);
    assert forall|i: int| 0 <= i < replies@.len() implies #[trigger] views[i] == replies@[i]@ by {
    }
    assert forall|j: int| 0 <= j < k implies #[trigger] views[j] == ReplyView::Message(
        ack(id, old(state)@.next_seq),
    ) by {
        assert(views[j] == replies@[j]@);
    }
    law_first_refusal_decides(old(state)@, views, k);
}

/// A response is the acknowledgement that is waited for exactly if stream and number agree.
pub proof fn law_acknowledgement_is_checked(
    backend_name: &str,
    stream_id: &StreamId,
    seq: i64,
    response_stream_id: &StreamId,
    response_seq: i64,
    r: Result<(), Status>,
)
    requires
        call_ensures(
            validate_build_event_ack_response,
            (backend_name, stream_id, seq, response_stream_id, response_seq),
            r,
        ),
    ensures
        r is Ok <==> stream_id@ == response_stream_id@ && seq == response_seq,
        r matches Err(status) ==> status@.code == Code::Internal && status@.message
            == "bes backend "@ + backend_name@ + if stream_id@ != response_stream_id@ {
            " responded with unexpected stream id"@
        } else {
            " responded with unexpected sequence"@
        },
{
}

/// The failure of a backend is passed on with its code, details and metadata, under the name of
/// the backend.
pub proof fn law_failure_is_passed_on(backend_name: &str, what: &str, status: &Status, r: Status)
    requires
        call_ensures(tell_backend_failure, (backend_name, what, status), r),
    ensures
        r@.code == status@.code,
        r@.details == status@.details,
        r@.metadata == status@.metadata,
        r@.message == backend_name@ + what@ + status@.message,
{
}

/// A status that is made of words has these words, this code and nothing else.
pub proof fn law_plain_statuses(
    code: Code,
    words: String,
    r: Status,
    internal: Status,
    wrong: Status,
)
    requires
        call_ensures(Status::new, (code, words), r),
        call_ensures(Status::internal, (words,), internal),
        call_ensures(Status::invalid_argument, (words,), wrong),
    ensures
        r@.code == code,
        internal@.code == Code::Internal,
        wrong@.code == Code::InvalidArgument,
        r@.message == words@ && internal@.message == words@ && wrong@.message == words@,
        r@.details.len() == 0 && internal@.details.len() == 0 && wrong@.details.len() == 0,
        r@.metadata.len() == 0 && internal@.metadata.len() == 0 && wrong@.metadata.len() == 0,
{
}

/// What is asked of a response stream is what it was told.
pub proof fn law_response_stream_answers(
    state: &BuildToolResponseStreamState,
    marked: &mut BuildToolResponseStreamState,
    iid: &str,
    exit: bool,
    open: bool,
    next: i64,
)
    requires
        call_ensures(BuildToolResponseStreamState::iid, (state,), iid),
        call_ensures(BuildToolResponseStreamState::controlled_exit, (state,), exit),
        call_ensures(BuildToolResponseStreamState::is_open, (state,), open),
        call_ensures(BuildToolResponseStreamState::next_seq, (state,), next),
        call_ensures(BuildToolResponseStreamState::mark_controlled_exit, (marked,), ()),
    ensures
        state@.stream_id matches Some(id) ==> iid@ == id.invocation_id,
        state@.stream_id is None ==> iid@ == "unknown"@,
        exit == state@.controlled_exit,
        open <==> state@.stream_id is Some,
        next == state@.next_seq,
        final(marked)@ == (ResponseStateView { controlled_exit: true, ..old(marked)@ }),
{
}

// ---------------------------------------------------------------------------
// Asynchronous uploads
// ---------------------------------------------------------------------------

/// A reply that an upload goes on after: a response that names its stream.
pub open spec fn is_identified(reply: ReplyView) -> bool {
    reply matches ReplyView::Message(response) && response.stream_id is Some
}

/// An upload ends with the first reply that is no response with a stream id: it is complete if the
/// backend ended its stream after a response.
pub proof fn law_upload_goes_on_with_responses(
    upload: &mut AsyncUpload,
    reply: &BackendReply,
    r: Option<UploadEnd>,
)
    requires
        call_ensures(AsyncUpload::on_reply, (upload, reply), r),
    ensures
        r is None <==> is_identified(reply@),
        r is None ==> final(upload)@ == reply@->Message_0.stream_id,
        r is Some ==> final(upload)@ == old(upload)@,
        r matches Some(end) ==> {
            &&& end is Unidentified <==> reply@ is Message
            &&& end is Uploaded <==> reply@ is Ended && old(upload)@ is Some
            &&& end is Closed <==> reply@ is Ended && old(upload)@ is None
            &&& end is Failed <==> reply@ is Failed && old(upload)@ is Some
            &&& end is FailedFirst <==> reply@ is Failed && old(upload)@ is None
            &&& end matches UploadEnd::Uploaded(invocation) ==> invocation@
                == old(upload)@->0.invocation_id
            &&& end matches UploadEnd::Failed(invocation, message) ==> invocation@
                == old(upload)@->0.invocation_id && message@ == reply@->Failed_0.message
        },
{
}

/// What comes of a sequence of replies: the stream id of the latest response, and the end, with
/// the number of replies up to it.
pub open spec fn upload_run(id: Option<StreamIdView>, replies: Seq<ReplyView>) -> (
    Option<StreamIdView>,
    Option<(int, UploadEndView)>,
)
    decreases replies.len(),
{
    if replies.len() == 0 {
        (id, None)
    } else {
        match upload_step(id, replies[0]) {
            (now, Some(end)) => (now, Some((1int, end))),
            (now, None) => {
                let (last, end) = upload_run(now, replies.skip(1));
                (
                    last,
                    match end {
                        Some((n, end)) => Some((n + 1, end)),
                        None => None,
                    },
                )
            },
        }
    }
}

/// However many responses with a stream id come, an upload has no end.
pub proof fn law_upload_outlasts_responses(id: Option<StreamIdView>, replies: Seq<ReplyView>)
    requires
        forall|i: int| 0 <= i < replies.len() ==> is_identified(#[trigger] replies[i]),
    ensures
        upload_run(id, replies).1 is None,
        upload_run(id, replies).0 == if replies.len() > 0 {
            replies.last()->Message_0.stream_id
        } else {
            id
        },
    decreases replies.len(),
{
    if replies.len() > 0 {
        assert(is_identified(replies[0]));
        let rest = replies.skip(1);
        assert forall|i: int| 0 <= i < rest.len() implies is_identified(#[trigger] rest[i]) by {
            assert(rest[i] == replies[i + 1]);
        }
        law_upload_outlasts_responses(replies[0]->Message_0.stream_id, rest);
        if rest.len() > 0 {
            assert(rest.last() == replies.last());
        }
    }
}

/// Of a fresh upload, the first reply that is no response with a stream id is its end. It is
/// complete only if that is the end of the backend's stream and a response came before.
pub proof fn law_upload_ends_with_first_other_reply(replies: Seq<ReplyView>, k: int)
    requires
        0 <= k < replies.len(),
        forall|i: int| 0 <= i < k ==> is_identified(#[trigger] replies[i]),
        !is_identified(replies[k]),
    ensures
        upload_run(None, replies).1 matches Some((n, end)) && n == k + 1 && (end is Uploaded
            <==> replies[k] is Ended && k > 0) && (end is Closed <==> replies[k] is Ended && k == 0)
            && (end matches UploadEndView::Uploaded(invocation) ==> invocation == replies[k
            - 1]->Message_0.stream_id->0.invocation_id),
{
    lemma_upload_end(None, replies, k);
}

proof fn lemma_upload_end(id: Option<StreamIdView>, replies: Seq<ReplyView>, k: int)
    requires
        0 <= k < replies.len(),
        forall|i: int| 0 <= i < k ==> is_identified(#[trigger] replies[i]),
        !is_identified(replies[k]),
    ensures
        ({
            let last = if k > 0 {
                replies[k - 1]->Message_0.stream_id
            } else {
                id
            };
            upload_run(id, replies).1 == Some((k + 1, upload_step(last, replies[k]).1->0))
                && upload_step(last, replies[k]).1 is Some && (k > 0 ==> last is Some)
        }),
    decreases k,
{
    if k > 0 {
        assert(is_identified(replies[0]));
        let rest = replies.skip(1);
        assert forall|i: int| 0 <= i < k - 1 implies is_identified(#[trigger] rest[i]) by {
            assert(rest[i] == replies[i + 1]);
        }
        assert(rest[k - 1] == replies[k]);
        lemma_upload_end(replies[0]->Message_0.stream_id, rest, k - 1);
        if k > 1 {
            assert(rest[k - 2] == replies[k - 1]);
        }
    }
}

/// The words for the end of an upload name the backend, and the invocation and the failure where
/// these are known.
pub proof fn law_upload_words(end: &UploadEnd, backend: &str, r: String)
    requires
        call_ensures(UploadEnd::message, (end, backend), r),
    ensures
        match end {
            UploadEnd::Unidentified => r@.len() == 0,
            UploadEnd::Uploaded(invocation) => r@ == "[invocation_id="@ + invocation@
                + "] asynchronously uploaded build tool event stream to backend "@ + backend@,
            UploadEnd::Closed => r@
                == "asynchronous build tool event stream unexpectedly closed by backend "@
                + backend@,
            UploadEnd::Failed(invocation, message) => r@ == "[invocation_id="@ + invocation@
                + "] failed to upload asynchronous event stream to backend "@ + backend@ + ": "@
                + message@,
            UploadEnd::FailedFirst => r@
                == "asynchronous build tool event stream failed on first response from backend "@
                + backend@,
        },
{
}

} // verus!
