//! Processing of the requests that a build tool sends on its event stream.
use vstd::prelude::*;

use crate::event::{
    clone_stream_id, stream_id_view, EventView, PublishBuildToolEventStreamRequest, StreamId,
    StreamIdView,
};
use crate::status::{plain_status, status_view, Code, Status, StatusView};
use crate::text::{decimal_i64, decimal_int};

verus! {

/// Current state of the build tool event request stream, as the response side observes it.
#[derive(Debug)]
pub struct BuildToolRequestStreamState {
    /// The stream id, only available after the first message is received.
    pub stream_id: Option<StreamId>,
    /// The starting sequence number of the stream.
    pub starting_sequence: Option<i64>,
    /// Latest request sequence number processed.
    pub latest_sequence: i64,
    /// Error status to return as a response for the latest sequence. A value here indicates
    /// that request processing has halted and the latest sequence number will no longer advance.
    pub error: Option<Status>,
}

#[verifier::ext_equal]
pub struct RequestStatusView {
    pub stream_id: Option<StreamIdView>,
    pub starting_sequence: Option<int>,
    pub latest_sequence: int,
    pub error: Option<StatusView>,
}

/// An optional sequence number as an integer.
pub open spec fn sequence_view(n: Option<i64>) -> Option<int> {
    match n {
        Some(n) => Some(n as int),
        None => None,
    }
}

impl View for BuildToolRequestStreamState {
    type V = RequestStatusView;

    open spec fn view(&self) -> RequestStatusView {
        RequestStatusView {
            stream_id: stream_id_view(self.stream_id),
            starting_sequence: sequence_view(self.starting_sequence),
            latest_sequence: self.latest_sequence as int,
            error: status_view(self.error),
        }
    }
}

/// The state before any request has been received.
pub open spec fn initial_request_status() -> RequestStatusView {
    RequestStatusView {
        stream_id: None,
        starting_sequence: None,
        latest_sequence: 0,
        error: None,
    }
}

impl BuildToolRequestStreamState {
    /// The state before any request has been received.
    pub fn initial() -> (r: Self)
        ensures
            r@ == initial_request_status(),
    {
        BuildToolRequestStreamState {
            stream_id: None,
            starting_sequence: None,
            latest_sequence: 0,
            error: None,
        }
    }
}

impl Clone for BuildToolRequestStreamState {
    fn clone(&self) -> (r: Self)
        ensures
            r@ == self@,
    {
        BuildToolRequestStreamState {
            stream_id: clone_stream_id(&self.stream_id),
            starting_sequence: self.starting_sequence,
            latest_sequence: self.latest_sequence,
            error: match &self.error {
                Some(error) => Some(error.clone()),
                None => None,
            },
        }
    }
}

/// What the first request of a stream fixes, and how far the stream has come since.
pub struct OpenStreamView {
    pub stream_id: StreamIdView,
    pub start: int,
    pub seq: int,
}

/// A stream of which nothing was received yet, or one that is open.
pub type RequestStreamView = Option<OpenStreamView>;

/// What becomes of one request.
#[verifier::ext_equal]
pub enum RequestStepView {
    /// The request goes to every backend; the status is reported once they have it.
    Forward(RequestStatusView),
    /// The request is refused: the status is reported and no further request is read.
    Halt(RequestStatusView),
}

pub open spec fn missing_fields_error() -> StatusView {
    plain_status(Code::Internal, "ordered_build_event field(s) are missing"@)
}

pub open spec fn inconsistent_stream_error() -> StatusView {
    plain_status(Code::Internal, "received inconsistent stream id from client"@)
}

pub open spec fn out_of_order_error(expected: int, received: int) -> StatusView {
    plain_status(
        Code::InvalidArgument,
        "expected seq "@ + decimal_int(expected) + " but received "@ + decimal_int(received),
    )
}

/// The status of a stream that has accepted every request up to `latest`.
pub open spec fn accepted_status(stream: OpenStreamView) -> RequestStatusView {
    RequestStatusView {
        stream_id: Some(stream.stream_id),
        starting_sequence: Some(stream.start),
        latest_sequence: stream.seq,
        error: None,
    }
}

/// The first request opens the stream at its sequence number. Every later one must be of the
/// same stream and carry the number that follows the one before.
pub open spec fn request_step(stream: RequestStreamView, request: Option<EventView>) -> (
    RequestStreamView,
    RequestStepView,
) {
    match (request, stream) {
        (None, _) => (
            stream,
            RequestStepView::Halt(
                RequestStatusView {
                    stream_id: None,
                    starting_sequence: None,
                    latest_sequence: received_up_to(stream),
                    error: Some(missing_fields_error()),
                },
            ),
        ),
        (Some(event), None) => {
            let opened = OpenStreamView {
                stream_id: event.stream_id,
                start: event.sequence_number,
                seq: event.sequence_number,
            };
            (Some(opened), RequestStepView::Forward(accepted_status(opened)))
        },
        (Some(event), Some(open)) => if event.stream_id != open.stream_id {
            (
                stream,
                RequestStepView::Halt(
                    RequestStatusView {
                        stream_id: Some(open.stream_id),
                        starting_sequence: Some(open.start),
                        latest_sequence: event.sequence_number,
                        error: Some(inconsistent_stream_error()),
                    },
                ),
            )
        } else if event.sequence_number != open.seq + 1 {
            (
                stream,
                RequestStepView::Halt(
                    RequestStatusView {
                        stream_id: Some(open.stream_id),
                        starting_sequence: Some(open.start),
                        latest_sequence: open.seq + 1,
                        error: Some(out_of_order_error(open.seq + 1, event.sequence_number)),
                    },
                ),
            )
        } else {
            let next = OpenStreamView { seq: open.seq + 1, ..open };
            (Some(next), RequestStepView::Forward(accepted_status(next)))
        },
    }
}

/// The latest sequence number that was accepted, 0 if there is none.
pub open spec fn received_up_to(stream: RequestStreamView) -> int {
    match stream {
        Some(open) => open.seq,
        None => 0,
    }
}

/// If the request is one of the open stream, there is a sequence number that it may carry.
pub open spec fn has_next(stream: RequestStreamView, request: Option<EventView>) -> bool {
    match (stream, request) {
        (Some(open), Some(event)) => event.stream_id == open.stream_id ==> open.seq < i64::MAX,
        _ => true,
    }
}

/// What becomes of one request.
#[derive(Debug)]
pub enum RequestStep {
    /// Send the request to every backend, and report the status once they have it.
    Forward(BuildToolRequestStreamState),
    /// Report the status and read no further request.
    Halt(BuildToolRequestStreamState),
}

impl View for RequestStep {
    type V = RequestStepView;

    open spec fn view(&self) -> RequestStepView {
        match self {
            RequestStep::Forward(status) => RequestStepView::Forward(status@),
            RequestStep::Halt(status) => RequestStepView::Halt(status@),
        }
    }
}

/// The requests of one build tool event stream.
#[derive(Debug)]
pub struct RequestStream {
    seq: i64,
    original_stream_id: Option<StreamId>,
    starting_seq: i64,
}

impl View for RequestStream {
    type V = RequestStreamView;

    closed spec fn view(&self) -> RequestStreamView {
        match self.original_stream_id {
            Some(id) => Some(
                OpenStreamView {
                    stream_id: id@,
                    start: self.starting_seq as int,
                    seq: self.seq as int,
                },
            ),
            None => None,
        }
    }
}

impl RequestStream {
    /// Nothing is known of a stream before its first request.
    pub closed spec fn wf(&self) -> bool {
        &&& self.original_stream_id is None ==> self.seq == 0
        &&& self.original_stream_id is Some ==> self.starting_seq <= self.seq
    }

    /// A stream of which nothing was received yet.
    pub fn new() -> (r: Self)
        ensures
            r.wf(),
            r@ is None,
    {
        RequestStream { seq: 0, original_stream_id: None, starting_seq: 0 }
    }

    /// The latest sequence number that was accepted, 0 if there is none.
    pub fn latest(&self) -> (r: i64)
        requires
            self.wf(),
        ensures
            r == received_up_to(self@),
    {
        self.seq
    }

    /// Processes one request. A stream that has reached the largest sequence number cannot take
    /// another request of its own.
    pub fn process_request(&mut self, request: &PublishBuildToolEventStreamRequest) -> (r:
        RequestStep)
        requires
            old(self).wf(),
            has_next(old(self)@, request@),
        ensures
            final(self).wf(),
            (final(self)@, r@) == request_step(old(self)@, request@),
    {
        let (stream_id, sequence_number) = match &request.ordered_build_event {
            Some(event) => match &event.stream_id {
                Some(stream_id) => (stream_id, event.sequence_number),
                None => {
                    return self.missing_fields();
                },
            },
            None => {
                return self.missing_fields();
            },
        };
        match &self.original_stream_id {
            None => {
                self.original_stream_id = Some(stream_id.clone());
                self.starting_seq = sequence_number;
                self.seq = sequence_number;
            },
            Some(original) => {
                if *stream_id != *original {
                    return RequestStep::Halt(
                        BuildToolRequestStreamState {
                            stream_id: Some(original.clone()),
                            starting_sequence: Some(self.starting_seq),
                            latest_sequence: sequence_number,
                            error: Some(
                                Status::internal(
                                    "received inconsistent stream id from client".to_owned(),
                                ),
                            ),
                        },
                    );
                }
                let next_seq: i64 = self.seq + 1;
                if sequence_number != next_seq {
                    let mut message = "expected seq ".to_owned();
                    message.append(decimal_i64(next_seq).as_str());
                    message.append(" but received ");
                    message.append(decimal_i64(sequence_number).as_str());
                    return RequestStep::Halt(
                        BuildToolRequestStreamState {
                            stream_id: Some(original.clone()),
                            starting_sequence: Some(self.starting_seq),
                            latest_sequence: next_seq,
                            error: Some(Status::invalid_argument(message)),
                        },
                    );
                }
                self.seq = next_seq;
            },
        }
        RequestStep::Forward(
            BuildToolRequestStreamState {
                stream_id: Some(stream_id.clone()),
                starting_sequence: Some(self.starting_seq),
                latest_sequence: sequence_number,
                error: None,
            },
        )
    }

    /// The answer to a request that lacks its event or the event's stream id.
    fn missing_fields(&self) -> (r: RequestStep)
        requires
            self.wf(),
        ensures
            r@ == request_step(self@, None).1,
    {
        RequestStep::Halt(
            BuildToolRequestStreamState {
                stream_id: None,
                starting_sequence: None,
                latest_sequence: self.seq,
                error: Some(
                    Status::internal("ordered_build_event field(s) are missing".to_owned()),
                ),
            },
        )
    }
}

/// How the delivery of a request to one backend went.
#[derive(Clone, Copy, Debug)]
pub struct Delivery {
    /// Responses of the backend are not waited for.
    pub asynchronous: bool,
    /// The backend's stream still takes requests.
    pub delivered: bool,
}

/// A request counts as delivered once every backend that is waited for has taken it.
pub open spec fn all_delivered(deliveries: Seq<Delivery>) -> bool {
    forall|i: int|
        0 <= i < deliveries.len() ==> (#[trigger] deliveries[i]).asynchronous
            || deliveries[i].delivered
}

/// Whether request processing goes on after a request was sent to the backends. It does not
/// once the stream of a backend that is waited for has closed.
pub fn fanned_out(deliveries: &Vec<Delivery>) -> (r: bool)
    ensures
        r == all_delivered(deliveries@),
{
    let mut i: usize = 0;
    while i < deliveries.len()
        invariant
            i <= deliveries@.len(),
            forall|j: int|
                0 <= j < i ==> (#[trigger] deliveries@[j]).asynchronous || deliveries@[j].delivered,
        decreases deliveries@.len() - i,
    {
        if !deliveries[i].asynchronous && !deliveries[i].delivered {
            return false;
        }
        i = i + 1;
    }
    true
}

} // verus!
