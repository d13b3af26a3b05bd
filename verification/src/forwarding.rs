//! Forwarding of build event streams to several backends.
use rand::{distr::Alphabetic, RngExt};
use tonic::metadata::MetadataMap;
use tonic::transport::Endpoint;
use vstd::prelude::*;

use crate::endpoint::{
    endpoint_of, is_plain_socket, parse_endpoint, socket_url, url_of, with_scheme, EndpointError,
    EndpointErrorView, EndpointUrl, UrlView, MAX_ENDPOINT_LEN,
};
use crate::forwarding::header_files::{HeaderFileView, RemoteHeaderFiles};
use crate::metadata::{contents, metadata_new, HeaderValues};
use crate::path::{clone_paths, path_view, paths, FilePath};
use crate::text::{
    ascii_lowered, decimal, decimal_u64, is_ascii_letter, is_ascii_lowercase, same_text,
    to_ascii_lowercase,
};

pub mod backend_laws;
pub mod header_files;
pub mod laws;
pub mod request_stream;
pub mod response_stream;
pub mod service;
pub mod step_laws;
pub mod upload;

pub use crate::forwarding::service::BesForwardingService;

verus! {

/// A span of time.
#[derive(Clone, Copy, Debug, PartialEq, Eq, Structural)]
pub struct Timeout {
    pub secs: u64,
    pub nanos: u32,
}

/// The files that identify a client to a backend that requires it.
#[derive(Debug)]
pub struct TlsClientKeyPair {
    pub certificate: FilePath,
    pub key: FilePath,
}

pub struct KeyPairView {
    pub certificate: Seq<u8>,
    pub key: Seq<u8>,
}

impl View for TlsClientKeyPair {
    type V = KeyPairView;

    open spec fn view(&self) -> KeyPairView {
        KeyPairView { certificate: self.certificate@, key: self.key@ }
    }
}

impl Clone for TlsClientKeyPair {
    fn clone(&self) -> (r: Self)
        ensures
            r@ == self@,
    {
        TlsClientKeyPair { certificate: self.certificate.clone(), key: self.key.clone() }
    }
}

/// A key pair, if there is one, by its view.
pub open spec fn key_pair_view(pair: Option<TlsClientKeyPair>) -> Option<KeyPairView> {
    match pair {
        Some(pair) => Some(pair@),
        None => None,
    }
}

/// The TLS settings of a connection to a backend, beside the roots that the system trusts.
#[derive(Debug)]
pub struct ClientTls {
    /// Certificates that are trusted to sign that of the backend.
    pub trusted: Vec<FilePath>,
    /// What identifies the client to the backend.
    pub identity: Option<TlsClientKeyPair>,
}

#[verifier::ext_equal]
pub struct ClientTlsView {
    pub trusted: Seq<Seq<u8>>,
    pub identity: Option<KeyPairView>,
}

impl View for ClientTls {
    type V = ClientTlsView;

    open spec fn view(&self) -> ClientTlsView {
        ClientTlsView { trusted: paths(self.trusted@), identity: key_pair_view(self.identity) }
    }
}

/// How a client connects to its backend, once it is first used.
#[derive(Debug)]
pub struct Client {
    /// The address of the gRPC channel.
    pub uri: String,
    pub tls: Option<ClientTls>,
    pub connect_timeout: Option<Timeout>,
    pub request_timeout: Option<Timeout>,
    /// The unix domain socket that is connected to in place of the address.
    pub socket: Option<FilePath>,
}

#[verifier::ext_equal]
pub struct ClientView {
    pub uri: Seq<char>,
    pub tls: Option<ClientTlsView>,
    pub connect_timeout: Option<Timeout>,
    pub request_timeout: Option<Timeout>,
    pub socket: Option<Seq<u8>>,
}

/// TLS settings, if there are any, by their view.
pub open spec fn tls_view(tls: Option<ClientTls>) -> Option<ClientTlsView> {
    match tls {
        Some(tls) => Some(tls@),
        None => None,
    }
}

impl View for Client {
    type V = ClientView;

    open spec fn view(&self) -> ClientView {
        ClientView {
            uri: self.uri@,
            tls: tls_view(self.tls),
            connect_timeout: self.connect_timeout,
            request_timeout: self.request_timeout,
            socket: path_view(self.socket),
        }
    }
}

/// A backend that build events are forwarded to.
#[derive(Debug)]
pub struct BesBackend {
    pub name: String,
    pub endpoint: EndpointUrl,
    pub remote_headers: MetadataMap,
    pub remote_header_files: RemoteHeaderFiles,
    pub asynchronous: bool,
    client: Option<Client>,
    uds_tls_uri: Option<EndpointUrl>,
    tls_client_identity: Option<TlsClientKeyPair>,
    connect_timeout: Option<Timeout>,
    request_timeout: Option<Timeout>,
    request_buffer_size: usize,
}

#[verifier::ext_equal]
pub struct BackendView {
    pub name: Seq<char>,
    pub endpoint: UrlView,
    /// The headers that are added to each request.
    pub remote_headers: HeaderValues,
    pub remote_header_files: Seq<HeaderFileView>,
    pub asynchronous: bool,
    pub client: Option<ClientView>,
    pub uds_tls_uri: Option<UrlView>,
    pub tls_client_identity: Option<KeyPairView>,
    pub connect_timeout: Option<Timeout>,
    pub request_timeout: Option<Timeout>,
    pub request_buffer_size: usize,
}

impl View for BesBackend {
    type V = BackendView;

    closed spec fn view(&self) -> BackendView {
        BackendView {
            name: self.name@,
            endpoint: self.endpoint@,
            remote_headers: contents(self.remote_headers),
            remote_header_files: self.remote_header_files@,
            asynchronous: self.asynchronous,
            client: match self.client {
                Some(client) => Some(client@),
                None => None,
            },
            uds_tls_uri: match self.uds_tls_uri {
                Some(uri) => Some(uri@),
                None => None,
            },
            tls_client_identity: key_pair_view(self.tls_client_identity),
            connect_timeout: self.connect_timeout,
            request_timeout: self.request_timeout,
            request_buffer_size: self.request_buffer_size,
        }
    }
}

// ---------------------------------------------------------------------------
// Connecting
// ---------------------------------------------------------------------------

/// The address of a channel over a unix domain socket without TLS, which is not looked at.
pub open spec fn unused_uri() -> Seq<char> {
    "http://[::]:50051"@
}

/// What a gRPC channel makes of an address: nothing, or the words for why it is none.
pub uninterp spec fn channel_result(text: Seq<char>) -> Result<(), Seq<char>>;

/// Whether a text is the address of a gRPC channel.
pub open spec fn is_channel_uri(text: Seq<char>) -> bool {
    channel_result(text) is Ok
}

/// An outcome by the view of the words that it holds.
pub open spec fn outcome(r: Result<(), String>) -> Result<(), Seq<char>> {
    match r {
        Ok(()) => Ok(()),
        Err(words) => Err(words@),
    }
}

/// `tonic::transport::Endpoint::from_str`: which texts it accepts, and the words for why it does
/// not accept others, have a name only, but for this: it accepts the unspecified IPv6 address with
/// a port.
#[verifier::external_body]
pub(crate) fn parse_channel_uri(text: &str) -> (r: Result<(), String>)
    ensures
        outcome(r) == channel_result(text@),
        text@ == "http://[::]:50051"@ ==> r is Ok,
{
    text.parse::<Endpoint>().map(|_| ()).map_err(|error| error.to_string())
}

/// What came of preparing the TLS settings of a connection.
#[derive(Debug)]
pub enum TlsOutcome {
    Prepared,
    /// The words for what went wrong.
    Failed(String),
}

/// Why a backend cannot be connected to.
#[derive(Debug)]
pub enum ConnectError {
    /// The secure address of the backend is not a URL, for which these are the words.
    NoUrl(String),
    /// The address that TLS over a unix domain socket goes by is not that of a channel, for which
    /// these are the words.
    NoTlsUri(String),
    /// The endpoint of the backend of this name is not the address of a channel.
    NoEndpoint(String),
    /// The TLS settings could not be prepared.
    Tls(String),
    /// This URL stands for no file path.
    NoFilePath(String),
}

#[verifier::ext_equal]
pub enum ConnectErrorView {
    NoUrl(Seq<char>),
    NoTlsUri(Seq<char>),
    NoEndpoint(Seq<char>),
    Tls(Seq<char>),
    NoFilePath(Seq<char>),
}

impl View for ConnectError {
    type V = ConnectErrorView;

    open spec fn view(&self) -> ConnectErrorView {
        match self {
            ConnectError::NoUrl(words) => ConnectErrorView::NoUrl(words@),
            ConnectError::NoTlsUri(words) => ConnectErrorView::NoTlsUri(words@),
            ConnectError::NoEndpoint(name) => ConnectErrorView::NoEndpoint(name@),
            ConnectError::Tls(error) => ConnectErrorView::Tls(error@),
            ConnectError::NoFilePath(text) => ConnectErrorView::NoFilePath(text@),
        }
    }
}

/// The words for why a backend cannot be connected to.
pub open spec fn connect_error_message(error: ConnectErrorView) -> Seq<char> {
    match error {
        ConnectErrorView::NoUrl(words) => words,
        ConnectErrorView::NoTlsUri(words) => words,
        ConnectErrorView::NoEndpoint(name) => "failed to parse endpoint for backend "@ + name,
        ConnectErrorView::Tls(error) => error,
        ConnectErrorView::NoFilePath(text) => "failed to convert url "@ + text + " to file path"@,
    }
}

impl ConnectError {
    /// The words for why a backend cannot be connected to.
    pub fn message(&self) -> (r: String)
        ensures
            r@ == connect_error_message(self@),
    {
        match self {
            ConnectError::NoUrl(words) => words.clone(),
            ConnectError::NoTlsUri(words) => words.clone(),
            ConnectError::NoEndpoint(name) => "failed to parse endpoint for backend ".to_owned(

            ).concat(name.as_str()),
            ConnectError::Tls(error) => error.clone(),
            ConnectError::NoFilePath(text) => "failed to convert url ".to_owned().concat(
                text.as_str(),
            ).concat(" to file path"),
        }
    }
}

/// A connection is secured for the schemes `grpcs` and `https`, and over a unix domain socket
/// where an address for it is set.
pub open spec fn uses_tls(b: BackendView) -> bool {
    is_grpcs(b) || b.endpoint.scheme == "https"@
        || b.uds_tls_uri is Some
}

pub open spec fn uses_socket(b: BackendView) -> bool {
    b.endpoint.scheme == "unix"@
}

/// The TLS settings of the connection to a backend, given the certificates that are trusted.
pub open spec fn client_tls(b: BackendView, trusted: Seq<Seq<u8>>) -> Option<ClientTlsView> {
    if uses_tls(b) {
        Some(ClientTlsView { trusted, identity: b.tls_client_identity })
    } else {
        None
    }
}

/// The secure address of a host: channels know `https` and not `grpcs`.
pub open spec fn https_url(host: Seq<char>, port: u16) -> Seq<char> {
    "https://"@ + host + ":"@ + decimal(port as nat)
}

/// What is found out about the addresses of a backend.
#[derive(Debug)]
pub struct Addresses {
    /// The URL that is connected to, or the words for why it is none.
    pub target: Result<String, String>,
    /// Whether the address of the channel is accepted as one, or the words for why it is not. Not
    /// asked where there is no URL to connect to.
    pub accepted: Result<(), String>,
    /// The file path of the endpoint, if it stands for one. Matters for unix domain sockets.
    pub path: Option<FilePath>,
}

#[verifier::ext_equal]
pub struct AddressesView {
    pub target: Result<Seq<char>, Seq<char>>,
    pub accepted: Result<(), Seq<char>>,
    pub path: Option<Seq<u8>>,
}

impl View for Addresses {
    type V = AddressesView;

    open spec fn view(&self) -> AddressesView {
        AddressesView {
            target: match self.target {
                Ok(url) => Ok(url@),
                Err(words) => Err(words@),
            },
            accepted: outcome(self.accepted),
            path: path_view(self.path),
        }
    }
}

pub open spec fn is_grpcs(b: BackendView) -> bool {
    b.endpoint.scheme == "grpcs"@
}

/// The secure address of a backend.
pub open spec fn secure_address(b: BackendView) -> Seq<char> {
    https_url(b.endpoint.host->0, b.endpoint.port->0)
}

/// The URL that is connected to, or the words for why it is none.
pub open spec fn target_url(b: BackendView) -> Result<Seq<char>, Seq<char>> {
    if is_grpcs(b) {
        match url_of(secure_address(b)) {
            Ok(url) => Ok(url.text),
            Err(words) => Err(words),
        }
    } else {
        Ok(b.endpoint.text)
    }
}

/// The address of the channel to a backend, given the URL that is connected to. Over a unix domain
/// socket it is not connected to, but with TLS it names whom the certificate must be for.
pub open spec fn channel_uri(b: BackendView, target: Seq<char>) -> Seq<char> {
    if uses_socket(b) {
        match b.uds_tls_uri {
            Some(uri) => uri.text,
            None => unused_uri(),
        }
    } else {
        target
    }
}

/// What a channel makes of its address, which for a unix domain socket without TLS is accepted.
pub open spec fn channel_accepts(uri: Seq<char>) -> Result<(), Seq<char>> {
    if uri == unused_uri() {
        Ok(())
    } else {
        channel_result(uri)
    }
}

/// How a client connects to a backend, or why it cannot, given what is found out about the
/// addresses of the backend.
pub open spec fn client_from(
    b: BackendView,
    trusted: Seq<Seq<u8>>,
    tls: TlsOutcome,
    found: AddressesView,
) -> Result<ClientView, ConnectErrorView> {
    match (found.target, found.accepted) {
        (Err(words), _) => Err(ConnectErrorView::NoUrl(words)),
        (Ok(_), Err(words)) => if uses_socket(b) {
            Err(ConnectErrorView::NoTlsUri(words))
        } else {
            Err(ConnectErrorView::NoEndpoint(b.name))
        },
        (Ok(target), Ok(())) => if uses_tls(b) && tls is Failed {
            Err(ConnectErrorView::Tls(tls->Failed_0@))
        } else if uses_socket(b) && found.path is None {
            Err(ConnectErrorView::NoFilePath(b.endpoint.text))
        } else {
            Ok(
                ClientView {
                    uri: channel_uri(b, target),
                    tls: client_tls(b, trusted),
                    connect_timeout: b.connect_timeout,
                    request_timeout: b.request_timeout,
                    socket: if uses_socket(b) {
                        found.path
                    } else {
                        None
                    },
                },
            )
        },
    }
}

/// What is found out about the addresses of a backend.
pub open spec fn addresses_of(b: BackendView) -> AddressesView {
    AddressesView {
        target: target_url(b),
        accepted: match target_url(b) {
            Ok(target) => channel_accepts(channel_uri(b, target)),
            Err(_) => Ok(()),
        },
        path: if uses_socket(b) {
            b.endpoint.path
        } else {
            None
        },
    }
}

/// How a client connects to a backend, or why it cannot.
pub open spec fn client_of(b: BackendView, trusted: Seq<Seq<u8>>, tls: TlsOutcome) -> Result<
    ClientView,
    ConnectErrorView,
> {
    client_from(b, trusted, tls, addresses_of(b))
}

/// A backend together with its client: a client that it has is kept.
pub open spec fn with_client(
    b: BackendView,
    client: Result<ClientView, ConnectErrorView>,
) -> Result<BackendView, ConnectErrorView> {
    match (b.client, client) {
        (Some(_), _) => Ok(b),
        (None, Ok(client)) => Ok(BackendView { client: Some(client), ..b }),
        (None, Err(error)) => Err(error),
    }
}

/// The endpoint names what a secure connection is made to.
pub open spec fn has_secure_target(b: BackendView) -> bool {
    is_grpcs(b) ==> b.endpoint.host is Some && b.endpoint.port is Some
}

impl BesBackend {
    /// A builder of a backend.
    pub fn builder(endpoint: &str) -> (r: Result<BesBackendBuilder, EndpointError>)
        requires
            with_scheme(endpoint@).len() <= MAX_ENDPOINT_LEN,
        ensures
            builder_result(r) == builder_of(endpoint@),
            is_plain_socket(endpoint@) ==> r is Ok && r->Ok_0@ == default_builder(
                socket_url(endpoint@),
            ),
            r matches Ok(builder) ==> with_scheme(endpoint@) != endpoint@
                ==> builder@.endpoint.scheme == "grpcs"@,
    {
        BesBackendBuilder::new(endpoint.to_owned())
    }

    /// A backend with a name and an endpoint, everything else being as by default.
    pub fn new(name: String, endpoint: EndpointUrl) -> (r: BesBackend)
        ensures
            r@ == built(default_builder(endpoint@), name@),
    {
        BesBackend {
            name,
            endpoint,
            remote_headers: metadata_new(),
            remote_header_files: RemoteHeaderFiles::new(),
            asynchronous: false,
            client: None,
            uds_tls_uri: None,
            tls_client_identity: None,
            connect_timeout: None,
            request_timeout: None,
            request_buffer_size: DEFAULT_REQUEST_BUFFER_SIZE,
        }
    }

    /// The name of the backend.
    pub fn name(&self) -> (r: &String)
        ensures
            r@ == self@.name,
    {
        &self.name
    }

    /// How the backend is connected to, if that was set up.
    pub fn client(&self) -> (r: Option<&Client>)
        ensures
            r is Some <==> self@.client is Some,
            r matches Some(client) ==> Some(client@) == self@.client,
    {
        match &self.client {
            Some(client) => Some(client),
            None => None,
        }
    }

    /// The number of requests that can wait to be sent to the backend.
    pub fn request_buffer_size(&self) -> (r: usize)
        ensures
            r == self@.request_buffer_size,
    {
        self.request_buffer_size
    }

    /// The TLS settings of the connection, none if it is not secured.
    pub fn tls_settings(&self, tls_certificates: &Vec<FilePath>) -> (r: Option<ClientTls>)
        ensures
            tls_view(r) == client_tls(self@, paths(tls_certificates@)),
    {
        let scheme = self.endpoint.scheme();
        if same_text(scheme, "grpcs") || same_text(scheme, "https") || self.uds_tls_uri.is_some() {
            Some(
                ClientTls {
                    trusted: clone_paths(tls_certificates),
                    identity: match &self.tls_client_identity {
                        Some(pair) => Some(pair.clone()),
                        None => None,
                    },
                },
            )
        } else {
            None
        }
    }

    /// Set up a client for a gRPC channel to the backend that does not connect until first use.
    /// A client that was set up before is kept. `tls` is what came of preparing the settings
    /// that [`BesBackend::tls_settings`] gives.
    pub fn lazy_connect(&mut self, tls_certificates: &Vec<FilePath>, tls: &TlsOutcome) -> (r:
        Result<(), ConnectError>)
        requires
            has_secure_target(old(self)@),
        ensures
            match with_client(
                old(self)@,
                client_of(old(self)@, paths(tls_certificates@), *tls),
            ) {
                Ok(b) => r is Ok && final(self)@ == b,
                Err(error) => r is Err && r->Err_0@ == error && final(self)@ == old(self)@,
            },
    {
        if self.client.is_some() {
            return Ok(());
        }
        let found = self.addresses();
        self.connect_with(tls_certificates, tls, found)
    }

    /// Finds out about the addresses of the backend.
    fn addresses(&self) -> (r: Addresses)
        requires
            has_secure_target(self@),
        ensures
            r@ == addresses_of(self@),
    {
        let target = self.target_url();
        let accepted = match &target {
            Ok(target) => parse_channel_uri(self.channel_uri(target.as_str()).as_str()),
            Err(_) => Ok(()),
        };
        let path = if same_text(self.endpoint.scheme(), "unix") {
            self.endpoint.to_file_path()
        } else {
            None
        };
        Addresses { target, accepted, path }
    }

    /// The URL that is connected to.
    fn target_url(&self) -> (r: Result<String, String>)
        requires
            has_secure_target(self@),
        ensures
            match (r, target_url(self@)) {
                (Ok(url), Ok(view)) => url@ == view,
                (Err(words), Err(view)) => words@ == view,
                _ => false,
            },
    {
        if same_text(self.endpoint.scheme(), "grpcs") {
            match EndpointUrl::parse(self.secure_address().as_str()) {
                Ok(url) => Ok(url.as_str().to_owned()),
                Err(words) => Err(words),
            }
        } else {
            Ok(self.endpoint.as_str().to_owned())
        }
    }

    /// The secure address of the backend. Channels don't appear to like "grpcs" as a scheme, so
    /// it is swapped with https.
    fn secure_address(&self) -> (r: String)
        requires
            is_grpcs(self@),
            has_secure_target(self@),
        ensures
            r@ == secure_address(self@),
    {
        match (self.endpoint.host_str(), self.endpoint.port()) {
            (Some(host), Some(port)) => "https://".to_owned().concat(host).concat(":").concat(
                decimal_u64(port as u64).as_str(),
            ),
            _ => String::new(),
        }
    }

    /// The address of the channel to the backend, given the URL that is connected to.
    fn channel_uri(&self, target: &str) -> (r: String)
        ensures
            r@ == channel_uri(self@, target@),
    {
        if same_text(self.endpoint.scheme(), "unix") {
            match &self.uds_tls_uri {
                // The domain needs to match the certificate if connecting with TLS over a unix
                // domain socket.
                Some(uri) => uri.as_str().to_owned(),
                // This url is ignored when connecting via a unix domain socket.
                None => "http://[::]:50051".to_owned(),
            }
        } else {
            target.to_owned()
        }
    }

    /// Set up a client, given what was found out about the addresses of the backend. A client that
    /// was set up before is kept.
    pub fn connect_with(
        &mut self,
        tls_certificates: &Vec<FilePath>,
        tls: &TlsOutcome,
        found: Addresses,
    ) -> (r: Result<(), ConnectError>)
        ensures
            match with_client(
                old(self)@,
                client_from(old(self)@, paths(tls_certificates@), *tls, found@),
            ) {
                Ok(b) => r is Ok && final(self)@ == b,
                Err(error) => r is Err && r->Err_0@ == error && final(self)@ == old(self)@,
            },
    {
        if self.client.is_some() {
            return Ok(());
        }
        let use_uds = same_text(self.endpoint.scheme(), "unix");
        let target = match found.target {
            Ok(target) => target,
            Err(words) => {
                return Err(ConnectError::NoUrl(words));
            },
        };
        if let Err(words) = found.accepted {
            return if use_uds {
                Err(ConnectError::NoTlsUri(words))
            } else {
                Err(ConnectError::NoEndpoint(self.name.clone()))
            };
        }
        let uri = self.channel_uri(target.as_str());
        let tls_settings = self.tls_settings(tls_certificates);
        if tls_settings.is_some() {
            if let TlsOutcome::Failed(error) = tls {
                return Err(ConnectError::Tls(error.clone()));
            }
        }
        let socket = if use_uds {
            if found.path.is_none() {
                return Err(ConnectError::NoFilePath(self.endpoint.as_str().to_owned()));
            }
            found.path
        } else {
            None
        };
        self.client = Some(
            Client {
                uri,
                tls: tls_settings,
                connect_timeout: self.connect_timeout,
                request_timeout: self.request_timeout,
                socket,
            },
        );
        Ok(())
    }

    pub fn set_async(&mut self, asynchronous: bool)
        ensures
            final(self)@ == (BackendView { asynchronous, ..old(self)@ }),
    {
        self.asynchronous = asynchronous;
    }

    pub fn set_client_tls_identity(&mut self, certificate: FilePath, key: FilePath)
        ensures
            final(self)@ == (BackendView {
                tls_client_identity: Some(KeyPairView { certificate: certificate@, key: key@ }),
                ..old(self)@
            }),
    {
        self.tls_client_identity = Some(TlsClientKeyPair { certificate, key });
    }

    pub fn use_uds_tls_uri(&mut self, endpoint: EndpointUrl)
        ensures
            final(self)@ == (BackendView { uds_tls_uri: Some(endpoint@), ..old(self)@ }),
    {
        self.uds_tls_uri = Some(endpoint);
    }
}

// ---------------------------------------------------------------------------
// Building
// ---------------------------------------------------------------------------

/// The number of requests that can wait to be sent to a backend, unless it is set.
pub const DEFAULT_REQUEST_BUFFER_SIZE: usize = 500;

/// The number of letters of a name that is made up.
pub const GENERATED_NAME_LEN: usize = 8;

/// The properties of a backend that is being put together.
#[derive(Debug)]
pub struct BesBackendBuilder {
    name: Option<String>,
    endpoint: EndpointUrl,
    remote_headers: MetadataMap,
    remote_header_files: RemoteHeaderFiles,
    asynchronous: bool,
    tls_client_identity: Option<TlsClientKeyPair>,
    connect_timeout: Option<Timeout>,
    request_timeout: Option<Timeout>,
    request_buffer_size: usize,
}

#[verifier::ext_equal]
pub struct BuilderView {
    pub name: Option<Seq<char>>,
    pub endpoint: UrlView,
    /// The headers that are added to each request.
    pub remote_headers: HeaderValues,
    pub remote_header_files: Seq<HeaderFileView>,
    pub asynchronous: bool,
    pub tls_client_identity: Option<KeyPairView>,
    pub connect_timeout: Option<Timeout>,
    pub request_timeout: Option<Timeout>,
    pub request_buffer_size: usize,
}

impl View for BesBackendBuilder {
    type V = BuilderView;

    closed spec fn view(&self) -> BuilderView {
        BuilderView {
            name: match self.name {
                Some(name) => Some(name@),
                None => None,
            },
            endpoint: self.endpoint@,
            remote_headers: contents(self.remote_headers),
            remote_header_files: self.remote_header_files@,
            asynchronous: self.asynchronous,
            tls_client_identity: key_pair_view(self.tls_client_identity),
            connect_timeout: self.connect_timeout,
            request_timeout: self.request_timeout,
            request_buffer_size: self.request_buffer_size,
        }
    }
}

/// The properties of a backend of which only the endpoint is known.
pub open spec fn default_builder(endpoint: UrlView) -> BuilderView {
    BuilderView {
        name: None,
        endpoint,
        remote_headers: Map::empty(),
        remote_header_files: Seq::empty(),
        asynchronous: false,
        tls_client_identity: None,
        connect_timeout: None,
        request_timeout: None,
        request_buffer_size: DEFAULT_REQUEST_BUFFER_SIZE,
    }
}

/// The builder for an endpoint, or what is wrong with the endpoint.
pub open spec fn builder_of(endpoint: Seq<char>) -> Result<BuilderView, EndpointErrorView> {
    match endpoint_of(endpoint) {
        Ok(url) => Ok(default_builder(url)),
        Err(error) => Err(error),
    }
}

/// A result by the views of what it holds.
pub open spec fn builder_result(r: Result<BesBackendBuilder, EndpointError>) -> Result<
    BuilderView,
    EndpointErrorView,
> {
    match r {
        Ok(builder) => Ok(builder@),
        Err(error) => Err(error@),
    }
}

/// The backend with the properties of a builder under a name. It is not connected.
pub open spec fn built(b: BuilderView, name: Seq<char>) -> BackendView {
    BackendView {
        name,
        endpoint: b.endpoint,
        remote_headers: b.remote_headers,
        remote_header_files: b.remote_header_files,
        asynchronous: b.asynchronous,
        client: None,
        uds_tls_uri: None,
        tls_client_identity: b.tls_client_identity,
        connect_timeout: b.connect_timeout,
        request_timeout: b.request_timeout,
        request_buffer_size: b.request_buffer_size,
    }
}

/// A name that is made up: lower case letters.
pub open spec fn is_generated_name(name: Seq<char>) -> bool {
    &&& name.len() == GENERATED_NAME_LEN
    &&& forall|i: int| 0 <= i < name.len() ==> is_ascii_lowercase(#[trigger] name[i])
}

/// `rand::distr::Alphabetic` sampled from `rand::rng`: ASCII letters, which ones is left to
/// chance.
#[verifier::external_body]
fn random_letters(n: usize) -> (r: String)
    ensures
        r@.len() == n,
        forall|i: int| 0 <= i < r@.len() ==> is_ascii_letter(#[trigger] r@[i]),
{
    rand::rng().sample_iter(&Alphabetic).take(n).map(char::from).collect::<String>()
}

impl BesBackendBuilder {
    fn new(endpoint: String) -> (r: Result<Self, EndpointError>)
        requires
            with_scheme(endpoint@).len() <= MAX_ENDPOINT_LEN,
        ensures
            builder_result(r) == builder_of(endpoint@),
            is_plain_socket(endpoint@) ==> r is Ok && r->Ok_0@ == default_builder(
                socket_url(endpoint@),
            ),
            r matches Ok(builder) ==> with_scheme(endpoint@) != endpoint@
                ==> builder@.endpoint.scheme == "grpcs"@,
    {
        match parse_endpoint(endpoint) {
            Ok(endpoint) => Ok(
                BesBackendBuilder {
                    name: None,
                    endpoint,
                    remote_headers: metadata_new(),
                    remote_header_files: RemoteHeaderFiles::new(),
                    asynchronous: false,
                    tls_client_identity: None,
                    connect_timeout: None,
                    request_timeout: None,
                    request_buffer_size: DEFAULT_REQUEST_BUFFER_SIZE,
                },
            ),
            Err(error) => Err(error),
        }
    }

    pub fn name(self, name: &str) -> (r: Self)
        ensures
            r@ == (BuilderView { name: Some(name@), ..self@ }),
    {
        BesBackendBuilder { name: Some(name.to_owned()), ..self }
    }

    pub fn remote_headers(self, remote_headers: MetadataMap) -> (r: Self)
        ensures
            r@ == (BuilderView { remote_headers: contents(remote_headers), ..self@ }),
    {
        BesBackendBuilder { remote_headers, ..self }
    }

    pub fn remote_header_files(self, remote_header_files: RemoteHeaderFiles) -> (r: Self)
        ensures
            r@ == (BuilderView { remote_header_files: remote_header_files@, ..self@ }),
    {
        BesBackendBuilder { remote_header_files, ..self }
    }

    pub fn asynchronous(self, asynchronous: bool) -> (r: Self)
        ensures
            r@ == (BuilderView { asynchronous, ..self@ }),
    {
        BesBackendBuilder { asynchronous, ..self }
    }

    pub fn tls_client_identity(self, certificate: FilePath, key: FilePath) -> (r: Self)
        ensures
            r@ == (BuilderView {
                tls_client_identity: Some(KeyPairView { certificate: certificate@, key: key@ }),
                ..self@
            }),
    {
        BesBackendBuilder {
            tls_client_identity: Some(TlsClientKeyPair { certificate, key }),
            ..self
        }
    }

    pub fn connect_timeout(self, timeout: Timeout) -> (r: Self)
        ensures
            r@ == (BuilderView { connect_timeout: Some(timeout), ..self@ }),
    {
        BesBackendBuilder { connect_timeout: Some(timeout), ..self }
    }

    pub fn request_timeout(self, timeout: Timeout) -> (r: Self)
        ensures
            r@ == (BuilderView { request_timeout: Some(timeout), ..self@ }),
    {
        BesBackendBuilder { request_timeout: Some(timeout), ..self }
    }

    pub fn request_buffer_size(self, size: usize) -> (r: Self)
        ensures
            r@ == (BuilderView { request_buffer_size: size, ..self@ }),
    {
        BesBackendBuilder { request_buffer_size: size, ..self }
    }

    /// The backend with the properties set here. A backend without a name is given one of
    /// letters drawn at random.
    pub fn build(self) -> (r: BesBackend)
        ensures
            r@ == built(self@, r@.name),
            match self@.name {
                Some(name) => r@.name == name,
                None => is_generated_name(r@.name),
            },
    {
        let letters = random_letters(GENERATED_NAME_LEN);
        let r = self.build_with(letters.as_str());
        r
    }

    /// The backend with the properties set here. A backend without a name is given the letters,
    /// in lower case, as its name.
    pub fn build_with(self, letters: &str) -> (r: BesBackend)
        ensures
            r@ == built(
                self@,
                match self@.name {
                    Some(name) => name,
                    None => ascii_lowered(letters@),
                },
            ),
    {
        let name = match self.name {
            Some(name) => name,
            None => to_ascii_lowercase(letters),
        };
        BesBackend {
            name,
            endpoint: self.endpoint,
            remote_headers: self.remote_headers,
            remote_header_files: self.remote_header_files,
            asynchronous: self.asynchronous,
            client: None,
            uds_tls_uri: None,
            tls_client_identity: self.tls_client_identity,
            connect_timeout: self.connect_timeout,
            request_timeout: self.request_timeout,
            request_buffer_size: self.request_buffer_size,
        }
    }
}

} // verus!
