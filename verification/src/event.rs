//! The messages of a build event stream, as far as a forwarder reads them.
use vstd::prelude::*;

verus! {

/// Identifies the stream of one build tool invocation.
#[derive(Debug)]
pub struct StreamId {
    pub build_id: String,
    pub invocation_id: String,
    pub component: i32,
}

pub struct StreamIdView {
    pub build_id: Seq<char>,
    pub invocation_id: Seq<char>,
    pub component: i32,
}

impl View for StreamId {
    type V = StreamIdView;

    open spec fn view(&self) -> StreamIdView {
        StreamIdView {
            build_id: self.build_id@,
            invocation_id: self.invocation_id@,
            component: self.component,
        }
    }
}

/// A stream id, if there is one, by its view.
pub open spec fn stream_id_view(id: Option<StreamId>) -> Option<StreamIdView> {
    match id {
        Some(id) => Some(id@),
        None => None,
    }
}

impl Clone for StreamId {
    fn clone(&self) -> (r: Self)
        ensures
            r@ == self@,
    {
        StreamId {
            build_id: self.build_id.clone(),
            invocation_id: self.invocation_id.clone(),
            component: self.component,
        }
    }
}

impl PartialEq for StreamId {
    fn eq(&self, other: &Self) -> (r: bool) {
        self.build_id == other.build_id && self.invocation_id == other.invocation_id
            && self.component == other.component
    }
}

impl vstd::std_specs::cmp::PartialEqSpecImpl for StreamId {
    open spec fn obeys_eq_spec() -> bool {
        true
    }

    open spec fn eq_spec(&self, other: &Self) -> bool {
        self@ == other@
    }
}

/// Copies a stream id, if there is one.
pub fn clone_stream_id(id: &Option<StreamId>) -> (r: Option<StreamId>)
    ensures
        stream_id_view(r) == stream_id_view(*id),
{
    match id {
        Some(id) => Some(id.clone()),
        None => None,
    }
}

/// One build event with its place in the stream.
#[derive(Debug)]
pub struct OrderedBuildEvent {
    pub stream_id: Option<StreamId>,
    pub sequence_number: i64,
}

/// A request of the build tool event stream.
#[derive(Debug)]
pub struct PublishBuildToolEventStreamRequest {
    pub ordered_build_event: Option<OrderedBuildEvent>,
}

/// The stream and the sequence number of an event.
pub struct EventView {
    pub stream_id: StreamIdView,
    pub sequence_number: int,
}

impl View for PublishBuildToolEventStreamRequest {
    type V = Option<EventView>;

    /// The event of a request, none if one of its fields is missing.
    open spec fn view(&self) -> Option<EventView> {
        match self.ordered_build_event {
            Some(event) => match event.stream_id {
                Some(id) => Some(
                    EventView { stream_id: id@, sequence_number: event.sequence_number as int },
                ),
                None => None,
            },
            None => None,
        }
    }
}

/// A response of the build tool event stream: the acknowledgement of one event.
#[derive(Debug)]
pub struct PublishBuildToolEventStreamResponse {
    pub stream_id: Option<StreamId>,
    pub sequence_number: i64,
}

pub struct ResponseView {
    pub stream_id: Option<StreamIdView>,
    pub sequence_number: int,
}

impl View for PublishBuildToolEventStreamResponse {
    type V = ResponseView;

    open spec fn view(&self) -> ResponseView {
        ResponseView {
            stream_id: stream_id_view(self.stream_id),
            sequence_number: self.sequence_number as int,
        }
    }
}

} // verus!
