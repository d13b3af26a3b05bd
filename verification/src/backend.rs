//! Backends as the lockstep service sees them.
use vstd::prelude::*;

use crate::endpoint::{EndpointUrl, UrlView};
use crate::forwarding::{is_channel_uri, parse_channel_uri, ConnectError, ConnectErrorView};

verus! {

/// A backend that a client can be created for.
pub trait Backend {
    type Client;

    spec fn spec_name(&self) -> Seq<char>;

    spec fn spec_endpoint(&self) -> UrlView;

    fn name(&self) -> (r: &str)
        ensures
            r@ == self.spec_name(),
    ;

    fn endpoint(&self) -> (r: &EndpointUrl)
        ensures
            r@ == self.spec_endpoint(),
    ;

    /// Creates a client for the backend.
    fn create_client(&self) -> (r: Result<Self::Client, ConnectError>);
}

/// A backend with a name and an endpoint.
#[derive(Debug)]
pub struct BesBackend {
    pub name: String,
    pub endpoint: EndpointUrl,
}

/// The address of a gRPC channel that does not connect until first use.
#[derive(Debug)]
pub struct LazyChannel {
    pub uri: String,
}

impl Backend for BesBackend {
    type Client = LazyChannel;

    open spec fn spec_name(&self) -> Seq<char> {
        self.name@
    }

    open spec fn spec_endpoint(&self) -> UrlView {
        self.endpoint@
    }

    fn name(&self) -> &str {
        self.name.as_str()
    }

    fn endpoint(&self) -> &EndpointUrl {
        &self.endpoint
    }

    /// Create a client for a gRPC channel to the backend that does not connect until first use.
    fn create_client(&self) -> (r: Result<LazyChannel, ConnectError>)
        ensures
            r is Ok <==> is_channel_uri(self.endpoint@.text),
            r matches Ok(client) ==> client.uri@ == self.endpoint@.text,
            r matches Err(error) ==> error@ == ConnectErrorView::NoEndpoint(self.name@),
    {
        match parse_channel_uri(self.endpoint.as_str()) {
            Ok(()) => Ok(LazyChannel { uri: self.endpoint.as_str().to_owned() }),
            Err(_) => Err(ConnectError::NoEndpoint(self.name.clone())),
        }
    }
}

} // verus!
