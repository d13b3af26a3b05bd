//! Processing of the responses of the backends to a build tool event stream.
use vstd::prelude::*;

use crate::event::{
    stream_id_view, PublishBuildToolEventStreamResponse, ResponseView, StreamId,
    StreamIdView,
};
use crate::forwarding::request_stream::{BuildToolRequestStreamState, RequestStatusView};
use crate::metadata::metadata_clone;
use crate::status::{plain_status, status_view, Code, Status, StatusView};
use crate::text::texts;

verus! {

/// What a backend has to say when a response of it is awaited.
#[derive(Debug)]
pub enum BackendReply {
    /// The next response of its stream.
    Message(PublishBuildToolEventStreamResponse),
    /// Its stream is at an end.
    Ended,
    /// Its stream failed.
    Failed(Status),
}

#[verifier::ext_equal]
pub enum ReplyView {
    Message(ResponseView),
    Ended,
    Failed(StatusView),
}

impl View for BackendReply {
    type V = ReplyView;

    open spec fn view(&self) -> ReplyView {
        match self {
            BackendReply::Message(response) => ReplyView::Message(response@),
            BackendReply::Ended => ReplyView::Ended,
            BackendReply::Failed(status) => ReplyView::Failed(status@),
        }
    }
}

/// The views of the replies of several backends.
pub open spec fn replies_view(replies: Seq<BackendReply>) -> Seq<ReplyView> {
    replies.map_values(|r: BackendReply| r@)
}

/// What the response stream does next.
#[derive(Debug)]
pub enum ResponseStep {
    /// Wait until the status of the request stream changes.
    AwaitRequestStatus,
    /// Wait for one reply of each backend.
    AwaitBackends,
    /// Send a response to the build tool.
    Respond(PublishBuildToolEventStreamResponse),
    /// End the stream with a failure.
    Fail(Status),
    /// End the stream.
    End,
}

#[verifier::ext_equal]
pub enum ResponseStepView {
    AwaitRequestStatus,
    AwaitBackends,
    Respond(ResponseView),
    Fail(StatusView),
    End,
}

impl View for ResponseStep {
    type V = ResponseStepView;

    open spec fn view(&self) -> ResponseStepView {
        match self {
            ResponseStep::AwaitRequestStatus => ResponseStepView::AwaitRequestStatus,
            ResponseStep::AwaitBackends => ResponseStepView::AwaitBackends,
            ResponseStep::Respond(response) => ResponseStepView::Respond(response@),
            ResponseStep::Fail(status) => ResponseStepView::Fail(status@),
            ResponseStep::End => ResponseStepView::End,
        }
    }
}

/// Current state of the build tool event response stream.
#[derive(Debug)]
pub struct BuildToolResponseStreamState {
    /// The names of the backends whose responses are waited for.
    backends: Vec<String>,
    /// Identifier of the build stream.
    stream_id: Option<StreamId>,
    /// Next request sequence to process.
    next_seq: i64,
    /// The currently known latest sequence, since requests are processed concurrently.
    latest_seq: i64,
    /// An error at the latest known sequence, if any.
    error_at_latest: Option<Status>,
    /// Whether the request stream has already completed.
    request_stream_completed: bool,
    /// Whether the ending of the stream was decided here, either by finishing it or by returning
    /// an error. If this is false the stream ended unexpectedly, for example because the build
    /// tool reset it.
    controlled_exit: bool,
}

#[verifier::ext_equal]
pub struct ResponseStateView {
    pub backends: Seq<Seq<char>>,
    pub stream_id: Option<StreamIdView>,
    pub next_seq: int,
    pub latest_seq: int,
    pub error_at_latest: Option<StatusView>,
    pub request_stream_completed: bool,
    pub controlled_exit: bool,
}

impl View for BuildToolResponseStreamState {
    type V = ResponseStateView;

    closed spec fn view(&self) -> ResponseStateView {
        ResponseStateView {
            backends: texts(self.backends@),
            stream_id: stream_id_view(self.stream_id),
            next_seq: self.next_seq as int,
            latest_seq: self.latest_seq as int,
            error_at_latest: status_view(self.error_at_latest),
            request_stream_completed: self.request_stream_completed,
            controlled_exit: self.controlled_exit,
        }
    }
}

/// The state before anything is known of the request stream.
pub open spec fn initial_response_state(backends: Seq<Seq<char>>) -> ResponseStateView {
    ResponseStateView {
        backends,
        stream_id: None,
        next_seq: 0,
        latest_seq: 0,
        error_at_latest: None,
        request_stream_completed: false,
        controlled_exit: false,
    }
}

/// The status of the request stream is needed while the stream is unknown, and once every
/// request known so far has been responded to.
pub open spec fn needs_request_status(s: ResponseStateView) -> bool {
    !s.request_stream_completed && (s.stream_id is None || s.next_seq > s.latest_seq)
}

/// The request stream failed, and responses have come up to where it did.
pub open spec fn failure_is_due(s: ResponseStateView) -> bool {
    s.error_at_latest is Some && (s.stream_id is None || s.next_seq >= s.latest_seq)
}

/// What comes next, before a response of the backends is looked at.
pub open spec fn poll_step(s: ResponseStateView) -> (ResponseStateView, ResponseStepView) {
    if needs_request_status(s) {
        (s, ResponseStepView::AwaitRequestStatus)
    } else if failure_is_due(s) {
        (
            ResponseStateView { error_at_latest: None, controlled_exit: true, ..s },
            ResponseStepView::Fail(s.error_at_latest->0),
        )
    } else if s.request_stream_completed && s.next_seq > s.latest_seq {
        (ResponseStateView { controlled_exit: true, ..s }, ResponseStepView::End)
    } else {
        (s, ResponseStepView::AwaitBackends)
    }
}

/// A status that can be made use of: where the stream is still unknown, it names the stream
/// and its start, or it says why there is none.
pub open spec fn informs(s: ResponseStateView, status: RequestStatusView) -> bool {
    ||| s.stream_id is Some
    ||| status.stream_id is Some && status.starting_sequence is Some
    ||| status.stream_id is None && status.error is Some
}

/// The state after the status of the request stream was looked at. `closed` says that no other
/// status will follow.
pub open spec fn observe(s: ResponseStateView, closed: bool, status: RequestStatusView) ->
    ResponseStateView {
    let opens = s.stream_id is None && status.stream_id is Some;
    ResponseStateView {
        stream_id: if opens {
            status.stream_id
        } else {
            s.stream_id
        },
        next_seq: if opens {
            status.starting_sequence->0
        } else {
            s.next_seq
        },
        latest_seq: status.latest_sequence,
        error_at_latest: status.error,
        request_stream_completed: s.request_stream_completed || closed,
        ..s
    }
}

/// The acknowledgement of event `seq` of stream `id`.
pub open spec fn ack(id: StreamIdView, seq: int) -> ResponseView {
    ResponseView { stream_id: Some(id), sequence_number: seq }
}

/// The failure of a backend, told to the build tool under the backend's name.
pub open spec fn backend_failure(
    backend: Seq<char>,
    what: Seq<char>,
    status: StatusView,
) -> StatusView {
    StatusView { message: backend + what + status.message, ..status }
}

/// How a backend's reply ends the stream; none if it acknowledges event `seq` of stream `id`.
pub open spec fn reply_outcome(
    backend: Seq<char>,
    id: StreamIdView,
    seq: int,
    reply: ReplyView,
) -> Option<ResponseStepView> {
    match reply {
        ReplyView::Message(response) => match response.stream_id {
            None => Some(
                ResponseStepView::Fail(
                    plain_status(
                        Code::Internal,
                        "response from bes backend "@ + backend + " is missing stream_id"@,
                    ),
                ),
            ),
            Some(response_id) => if response_id != id {
                Some(
                    ResponseStepView::Fail(
                        plain_status(
                            Code::Internal,
                            "bes backend "@ + backend + " responded with unexpected stream id"@,
                        ),
                    ),
                )
            } else if response.sequence_number != seq {
                Some(
                    ResponseStepView::Fail(
                        plain_status(
                            Code::Internal,
                            "bes backend "@ + backend + " responded with unexpected sequence"@,
                        ),
                    ),
                )
            } else {
                None
            },
        },
        ReplyView::Ended => Some(ResponseStepView::End),
        ReplyView::Failed(status) => Some(
            ResponseStepView::Fail(
                backend_failure(backend, " failed event stream request: "@, status),
            ),
        ),
    }
}

/// What the first backend at or after `i` that does not acknowledge the event makes of it.
pub open spec fn replies_outcome(
    backends: Seq<Seq<char>>,
    id: StreamIdView,
    seq: int,
    replies: Seq<ReplyView>,
    i: int,
) -> Option<ResponseStepView>
    decreases replies.len() - i,
{
    if i < 0 || i >= replies.len() {
        None
    } else {
        let outcome = reply_outcome(backends[i], id, seq, replies[i]);
        if outcome is Some {
            outcome
        } else {
            replies_outcome(backends, id, seq, replies, i + 1)
        }
    }
}

/// What follows from the replies of the backends to one event: an acknowledgement if all of
/// them acknowledge it, else the end of the stream.
pub open spec fn settle(s: ResponseStateView, replies: Seq<ReplyView>) -> (
    ResponseStateView,
    ResponseStepView,
) {
    let id = s.stream_id->0;
    match replies_outcome(s.backends, id, s.next_seq, replies, 0) {
        Some(step) => (ResponseStateView { controlled_exit: true, ..s }, step),
        None => (
            ResponseStateView { next_seq: s.next_seq + 1, ..s },
            ResponseStepView::Respond(ack(id, s.next_seq)),
        ),
    }
}

/// Checks that a backend acknowledges the event that is waited for.
pub fn validate_build_event_ack_response(
    backend_name: &str,
    stream_id: &StreamId,
    seq: i64,
    response_stream_id: &StreamId,
    response_seq: i64,
) -> (r: Result<(), Status>)
    ensures
        r is Ok <==> response_stream_id@ == stream_id@ && response_seq == seq,
        r matches Err(status) ==> Some(ResponseStepView::Fail(status@)) == reply_outcome(
            backend_name@,
            stream_id@,
            seq as int,
            ReplyView::Message(ack(response_stream_id@, response_seq as int)),
        ),
{
    if *response_stream_id != *stream_id {
        let mut message = "bes backend ".to_owned();
        message.append(backend_name);
        message.append(" responded with unexpected stream id");
        return Err(Status::internal(message));
    }
    if response_seq != seq {
        let mut message = "bes backend ".to_owned();
        message.append(backend_name);
        message.append(" responded with unexpected sequence");
        return Err(Status::internal(message));
    }
    Ok(())
}

/// Tells the failure of a backend to the build tool: the backend's name and `what` go before the
/// message, and code, details and metadata stay.
pub fn tell_backend_failure(backend_name: &str, what: &str, status: &Status) -> (r: Status)
    ensures
        r@ == backend_failure(backend_name@, what@, status@),
{
    let mut message = backend_name.to_owned();
    message.append(what);
    message.append(status.message.as_str());
    let details = status.details.clone();
    assert(details@ =~= status.details@);
    Status { code: status.code, message, details, metadata: metadata_clone(&status.metadata) }
}

/// How one reply ends the stream; none if it acknowledges the event.
fn judge_reply(backend_name: &String, stream_id: &StreamId, seq: i64, reply: &BackendReply) -> (r:
    Option<ResponseStep>)
    ensures
        r is Some <==> reply_outcome(backend_name@, stream_id@, seq as int, reply@) is Some,
        r matches Some(step) ==> Some(step@) == reply_outcome(
            backend_name@,
            stream_id@,
            seq as int,
            reply@,
        ),
{
    match reply {
        BackendReply::Message(response) => match &response.stream_id {
            Some(response_stream_id) => match validate_build_event_ack_response(
                backend_name.as_str(),
                stream_id,
                seq,
                response_stream_id,
                response.sequence_number,
            ) {
                Ok(()) => None,
                Err(status) => Some(ResponseStep::Fail(status)),
            },
            None => {
                let mut message = "response from bes backend ".to_owned();
                message.append(backend_name.as_str());
                message.append(" is missing stream_id");
                Some(ResponseStep::Fail(Status::internal(message)))
            },
        },
        BackendReply::Ended => Some(ResponseStep::End),
        BackendReply::Failed(status) => Some(
            ResponseStep::Fail(
                tell_backend_failure(
                    backend_name.as_str(),
                    " failed event stream request: ",
                    status,
                ),
            ),
        ),
    }
}

impl BuildToolResponseStreamState {
    /// The state before anything is known of the request stream.
    pub fn new(backends: Vec<String>) -> (r: Self)
        ensures
            r@ == initial_response_state(texts(backends@)),
    {
        BuildToolResponseStreamState {
            backends,
            stream_id: None,
            next_seq: 0,
            latest_seq: 0,
            error_at_latest: None,
            request_stream_completed: false,
            controlled_exit: false,
        }
    }

    /// Get the invocation id (if known), or "unknown".
    pub fn iid(&self) -> (r: &str)
        ensures
            r@ == match self@.stream_id {
                Some(id) => id.invocation_id,
                None => "unknown"@,
            },
    {
        match &self.stream_id {
            Some(stream_id) => stream_id.invocation_id.as_str(),
            None => "unknown",
        }
    }

    /// Indicate that the response stream is ending on our terms, by explicitly ending the stream
    /// or returning an error.
    pub fn mark_controlled_exit(&mut self)
        ensures
            final(self)@ == (ResponseStateView { controlled_exit: true, ..old(self)@ }),
    {
        self.controlled_exit = true;
    }

    /// Whether the ending of the stream was decided here.
    pub fn controlled_exit(&self) -> (r: bool)
        ensures
            r == self@.controlled_exit,
    {
        self.controlled_exit
    }

    /// Whether the stream is known by its first request.
    pub fn is_open(&self) -> (r: bool)
        ensures
            r == self@.stream_id is Some,
    {
        self.stream_id.is_some()
    }

    /// The sequence number of the event that is responded to next.
    pub fn next_seq(&self) -> (r: i64)
        ensures
            r == self@.next_seq,
    {
        self.next_seq
    }

    /// What comes next, before a response of the backends is looked at.
    pub fn poll_next(&mut self) -> (r: ResponseStep)
        ensures
            (final(self)@, r@) == poll_step(old(self)@),
    {
        // Only query the request status if there's something we need: we don't have a stream
        // id yet, or we have sent responses for requests up to the current latest sequence.
        if !self.request_stream_completed && (self.stream_id.is_none() || self.next_seq
            > self.latest_seq) {
            return ResponseStep::AwaitRequestStatus;
        }
        if self.stream_id.is_none() || self.next_seq >= self.latest_seq {
            let error = self.error_at_latest.take();
            if let Some(error) = error {
                // The request stream failed at the latest sequence and we've processed
                // responses up to that sequence.
                self.mark_controlled_exit();
                return ResponseStep::Fail(error);
            }
        }
        if self.request_stream_completed && self.next_seq > self.latest_seq {
            self.mark_controlled_exit();
            return ResponseStep::End;
        }
        ResponseStep::AwaitBackends
    }

    /// Takes note of the status of the request stream. `closed` says that no other status will
    /// follow.
    pub fn on_request_status(&mut self, closed: bool, status: &BuildToolRequestStreamState)
        requires
            informs(old(self)@, status@),
        ensures
            final(self)@ == observe(old(self)@, closed, status@),
    {
        if closed {
            self.request_stream_completed = true;
        }
        self.latest_seq = status.latest_sequence;
        self.error_at_latest = match &status.error {
            Some(error) => Some(error.clone()),
            None => None,
        };
        if self.stream_id.is_none() {
            if let Some(stream_id) = &status.stream_id {
                if let Some(starting_sequence) = status.starting_sequence {
                    self.next_seq = starting_sequence;
                }
                self.stream_id = Some(stream_id.clone());
            }
        }
    }

    /// Takes one reply of each backend to the event that is waited for.
    pub fn on_backend_replies(&mut self, replies: &Vec<BackendReply>) -> (r: ResponseStep)
        requires
            old(self)@.stream_id is Some,
            replies@.len() == old(self)@.backends.len(),
            settle(old(self)@, replies_view(replies@)).1 is Respond ==> old(self)@.next_seq
                < i64::MAX,
        ensures
            (final(self)@, r@) == settle(old(self)@, replies_view(replies@)),
    {
        let ghost before = self@;
        let ghost views = replies_view(replies@);
        let stream_id = match &self.stream_id {
            Some(stream_id) => stream_id.clone(),
            None => {
                return ResponseStep::AwaitBackends;
            },
        };
        let mut i: usize = 0;
        while i < replies.len()
            invariant
                i <= replies@.len(),
                before == old(self)@,
                self@ == before,
                views == replies_view(replies@),
                before.stream_id == Some(stream_id@),
                replies@.len() == before.backends.len(),
                replies_outcome(before.backends, stream_id@, before.next_seq, views, 0)
                    == replies_outcome(
                    before.backends,
                    stream_id@,
                    before.next_seq,
                    views,
                    i as int,
                ),
            decreases replies@.len() - i,
        {
            assert(self.backends@[i as int]@ == before.backends[i as int]);
            assert(views[i as int] == replies@[i as int]@);
            if let Some(step) = judge_reply(
                &self.backends[i],
                &stream_id,
                self.next_seq,
                &replies[i],
            ) {
                self.mark_controlled_exit();
                return step;
            }
            i = i + 1;
        }
        let sequence_number: i64 = self.next_seq;
        self.next_seq = sequence_number + 1;
        ResponseStep::Respond(
            PublishBuildToolEventStreamResponse { stream_id: Some(stream_id), sequence_number },
        )
    }
}

} // verus!
