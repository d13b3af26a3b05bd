//! The status of a gRPC call.
use tonic::metadata::MetadataMap;
use vstd::prelude::*;

use crate::metadata::{metadata_clone, metadata_headers, metadata_new, HeaderView};

verus! {

/// The canonical gRPC status codes.
#[derive(Clone, Copy, Debug, PartialEq, Eq, Structural)]
pub enum Code {
    Success,
    Cancelled,
    Unknown,
    InvalidArgument,
    DeadlineExceeded,
    NotFound,
    AlreadyExists,
    PermissionDenied,
    ResourceExhausted,
    FailedPrecondition,
    Aborted,
    OutOfRange,
    Unimplemented,
    Internal,
    Unavailable,
    DataLoss,
    Unauthenticated,
}

/// A status: what a call that did not succeed is answered.
#[derive(Debug)]
pub struct Status {
    pub code: Code,
    pub message: String,
    pub details: Vec<u8>,
    pub metadata: MetadataMap,
}

#[verifier::ext_equal]
pub struct StatusView {
    pub code: Code,
    pub message: Seq<char>,
    pub details: Seq<u8>,
    pub metadata: Seq<HeaderView>,
}

impl View for Status {
    type V = StatusView;

    open spec fn view(&self) -> StatusView {
        StatusView {
            code: self.code,
            message: self.message@,
            details: self.details@,
            metadata: metadata_headers(self.metadata),
        }
    }
}

/// A status with a message and nothing else.
pub open spec fn plain_status(code: Code, message: Seq<char>) -> StatusView {
    StatusView { code, message, details: Seq::empty(), metadata: Seq::empty() }
}

/// A status, if there is one, by its view.
pub open spec fn status_view(s: Option<Status>) -> Option<StatusView> {
    match s {
        Some(s) => Some(s@),
        None => None,
    }
}

impl Clone for Status {
    fn clone(&self) -> (r: Self)
        ensures
            r@ == self@,
    {
        let r = Status {
            code: self.code,
            message: self.message.clone(),
            details: self.details.clone(),
            metadata: metadata_clone(&self.metadata),
        };
        assert(r.details@ =~= self.details@);
        r
    }
}

impl Status {
    /// A status with a message and nothing else.
    pub fn new(code: Code, message: String) -> (r: Status)
        ensures
            r@ == plain_status(code, message@),
    {
        Status { code, message, details: Vec::new(), metadata: metadata_new() }
    }

    pub fn internal(message: String) -> (r: Status)
        ensures
            r@ == plain_status(Code::Internal, message@),
    {
        Self::new(Code::Internal, message)
    }

    pub fn invalid_argument(message: String) -> (r: Status)
        ensures
            r@ == plain_status(Code::InvalidArgument, message@),
    {
        Self::new(Code::InvalidArgument, message)
    }
}

} // verus!
