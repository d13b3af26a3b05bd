//! Event streams to asynchronous backends, whose responses the build tool does not see.
use vstd::prelude::*;

use crate::event::{stream_id_view, StreamId, StreamIdView};
use crate::forwarding::response_stream::{BackendReply, ReplyView};

verus! {

/// How an asynchronous upload came to its end.
#[derive(Debug)]
pub enum UploadEnd {
    /// A response without a stream id.
    Unidentified,
    /// The backend has taken the stream of this invocation.
    Uploaded(String),
    /// The backend closed the stream without a response.
    Closed,
    /// The stream of this invocation failed with this message.
    Failed(String, String),
    /// The stream failed before the first response.
    FailedFirst,
}

#[verifier::ext_equal]
pub enum UploadEndView {
    Unidentified,
    Uploaded(Seq<char>),
    Closed,
    Failed(Seq<char>, Seq<char>),
    FailedFirst,
}

impl View for UploadEnd {
    type V = UploadEndView;

    open spec fn view(&self) -> UploadEndView {
        match self {
            UploadEnd::Unidentified => UploadEndView::Unidentified,
            UploadEnd::Uploaded(invocation) => UploadEndView::Uploaded(invocation@),
            UploadEnd::Closed => UploadEndView::Closed,
            UploadEnd::Failed(invocation, message) => UploadEndView::Failed(
                invocation@,
                message@,
            ),
            UploadEnd::FailedFirst => UploadEndView::FailedFirst,
        }
    }
}

/// An end, if the upload has come to one, by its view.
pub open spec fn end_view(end: Option<UploadEnd>) -> Option<UploadEndView> {
    match end {
        Some(end) => Some(end@),
        None => None,
    }
}

/// What the next reply of the backend makes of an upload: the stream id of its latest response,
/// and the end, if this is one.
pub open spec fn upload_step(stream_id: Option<StreamIdView>, reply: ReplyView) -> (
    Option<StreamIdView>,
    Option<UploadEndView>,
) {
    match reply {
        ReplyView::Message(response) => match response.stream_id {
            Some(id) => (Some(id), None),
            None => (stream_id, Some(UploadEndView::Unidentified)),
        },
        ReplyView::Ended => (
            stream_id,
            Some(
                match stream_id {
                    Some(id) => UploadEndView::Uploaded(id.invocation_id),
                    None => UploadEndView::Closed,
                },
            ),
        ),
        ReplyView::Failed(status) => (
            stream_id,
            Some(
                match stream_id {
                    Some(id) => UploadEndView::Failed(id.invocation_id, status.message),
                    None => UploadEndView::FailedFirst,
                },
            ),
        ),
    }
}

/// The words for the end of an upload to a backend. A response without a stream id ends the
/// upload without a word.
pub open spec fn upload_message(end: UploadEndView, backend: Seq<char>) -> Seq<char> {
    match end {
        UploadEndView::Unidentified => Seq::empty(),
        UploadEndView::Uploaded(invocation) => "[invocation_id="@ + invocation
            + "] asynchronously uploaded build tool event stream to backend "@ + backend,
        UploadEndView::Closed =>
            "asynchronous build tool event stream unexpectedly closed by backend "@ + backend,
        UploadEndView::Failed(invocation, message) => "[invocation_id="@ + invocation
            + "] failed to upload asynchronous event stream to backend "@ + backend + ": "@
            + message,
        UploadEndView::FailedFirst =>
            "asynchronous build tool event stream failed on first response from backend "@
            + backend,
    }
}

impl UploadEnd {
    /// The words for the end of an upload to a backend.
    pub fn message(&self, backend_name: &str) -> (r: String)
        ensures
            r@ == upload_message(self@, backend_name@),
    {
        match self {
            UploadEnd::Unidentified => {
                let r = String::new();
                assert(r@ =~= Seq::<char>::empty());
                r
            },
            UploadEnd::Uploaded(invocation) => "[invocation_id=".to_owned().concat(
                invocation.as_str(),
            ).concat("] asynchronously uploaded build tool event stream to backend ").concat(
                backend_name,
            ),
            UploadEnd::Closed =>
                "asynchronous build tool event stream unexpectedly closed by backend ".to_owned(

            ).concat(backend_name),
            UploadEnd::Failed(invocation, message) => "[invocation_id=".to_owned().concat(
                invocation.as_str(),
            ).concat("] failed to upload asynchronous event stream to backend ").concat(
                backend_name,
            ).concat(": ").concat(message.as_str()),
            UploadEnd::FailedFirst =>
                "asynchronous build tool event stream failed on first response from backend "
                .to_owned().concat(backend_name),
        }
    }
}

/// The upload of an event stream to an asynchronous backend.
#[derive(Debug)]
pub struct AsyncUpload {
    stream_id: Option<StreamId>,
}

impl View for AsyncUpload {
    type V = Option<StreamIdView>;

    closed spec fn view(&self) -> Option<StreamIdView> {
        stream_id_view(self.stream_id)
    }
}

impl AsyncUpload {
    /// An upload before the first response.
    pub fn new() -> (r: Self)
        ensures
            r@ is None,
    {
        AsyncUpload { stream_id: None }
    }

    /// Takes the next reply of the backend. The upload goes on until there is an end.
    pub fn on_reply(&mut self, reply: &BackendReply) -> (r: Option<UploadEnd>)
        ensures
            (final(self)@, end_view(r)) == upload_step(old(self)@, reply@),
    {
        match reply {
            BackendReply::Message(response) => match &response.stream_id {
                Some(stream_id) => {
                    self.stream_id = Some(stream_id.clone());
                    None
                },
                None => Some(UploadEnd::Unidentified),
            },
            BackendReply::Ended => match &self.stream_id {
                Some(stream_id) => Some(UploadEnd::Uploaded(stream_id.invocation_id.clone())),
                None => Some(UploadEnd::Closed),
            },
            BackendReply::Failed(status) => match &self.stream_id {
                Some(stream_id) => Some(
                    UploadEnd::Failed(stream_id.invocation_id.clone(), status.message.clone()),
                ),
                None => Some(UploadEnd::FailedFirst),
            },
        }
    }
}

/// At first an upload has no response.
pub proof fn law_upload_begins_without_response(fresh: AsyncUpload)
    requires
        call_ensures(AsyncUpload::new, (), fresh),
    ensures
        fresh@ is None,
{
}

} // verus!
