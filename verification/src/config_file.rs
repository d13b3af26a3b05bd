//! The configuration file.
use tonic::metadata::MetadataMap;
use vstd::prelude::*;

use crate::args::{builds, configure, settings_over, ArgView, BesBackendArg};
use crate::endpoint::{
    endpoint_error_message, with_scheme, EndpointError, EndpointErrorView, MAX_ENDPOINT_LEN,
};
use crate::forwarding::{builder_of, BesBackendBuilder, BuilderView};
use crate::metadata::{
    contents, is_ascii_key, is_ascii_value, metadata_new, metadata_try_append, parse_ascii_key,
    parse_ascii_value, plain_header, with_header, HeaderValues, HeaderView, MAX_HEADER_NAMES,
};
use crate::names::{
    find_repeated, first_repeated, law_no_repeated_name, name_views, names_unique,
};
use crate::path::{path_view, FilePath};
use crate::text::{clone_text, text_view};

pub mod laws;

verus! {

/// What a configuration file holds.
#[derive(Debug)]
pub struct ConfigFile {
    pub server: Server,
    pub bes_backends: Vec<BesBackend>,
    pub tls_certificates: Vec<FilePath>,
}

/// The settings of the server.
#[derive(Debug)]
pub struct Server {
    pub listen: Option<String>,
    pub tls: ServerTls,
    pub concurrency_limit_per_connection: Option<usize>,
    pub load_shed_requests: bool,
    pub max_concurrent_streams: Option<u32>,
    pub max_connection_age: Option<u64>,
    pub max_connection_age_grace: Option<u64>,
}

/// A backend: an endpoint alone, or settings by name.
#[derive(Debug)]
pub enum BesBackend {
    Endpoint(String),
    Spec(BesBackendSpec),
}

/// A header to add to requests.
#[derive(Debug)]
pub struct RemoteHeader {
    pub name: String,
    pub value: String,
}

/// The settings of a backend.
#[derive(Debug)]
pub struct BesBackendSpec {
    pub name: Option<String>,
    pub endpoint: String,
    pub asynchronous: bool,
    pub remote_headers: Vec<RemoteHeader>,
    pub tls_client_certificate: Option<FilePath>,
    pub tls_client_key: Option<FilePath>,
    pub connect_timeout: Option<u64>,
    pub request_timeout: Option<u64>,
    pub request_buffer_size: Option<usize>,
}

/// The files of the server for TLS.
#[derive(Debug)]
pub struct ServerTls {
    pub certificate: Option<FilePath>,
    pub key: Option<FilePath>,
}

impl Default for ServerTls {
    fn default() -> (r: Self)
        ensures
            r.certificate is None,
            r.key is None,
    {
        ServerTls { certificate: None, key: None }
    }
}

impl Default for Server {
    fn default() -> (r: Self)
        ensures
            r.listen is None,
            r.tls.certificate is None,
            r.tls.key is None,
            r.concurrency_limit_per_connection is None,
            !r.load_shed_requests,
            r.max_concurrent_streams is None,
            r.max_connection_age is None,
            r.max_connection_age_grace is None,
    {
        Server {
            listen: None,
            tls: ServerTls::default(),
            concurrency_limit_per_connection: None,
            load_shed_requests: false,
            max_concurrent_streams: None,
            max_connection_age: None,
            max_connection_age_grace: None,
        }
    }
}

/// The server settings say nothing.
pub open spec fn server_unset(s: Server) -> bool {
    &&& s.listen is None
    &&& s.tls.certificate is None
    &&& s.tls.key is None
    &&& s.concurrency_limit_per_connection is None
    &&& !s.load_shed_requests
    &&& s.max_concurrent_streams is None
    &&& s.max_connection_age is None
    &&& s.max_connection_age_grace is None
}

impl Default for ConfigFile {
    /// What stands for a configuration file where there is none.
    fn default() -> (r: Self)
        ensures
            server_unset(r.server),
            r.bes_backends@.len() == 0,
            r.tls_certificates@.len() == 0,
    {
        ConfigFile {
            server: Server::default(),
            bes_backends: Vec::new(),
            tls_certificates: Vec::new(),
        }
    }
}

// ---------------------------------------------------------------------------
// Validation
// ---------------------------------------------------------------------------

/// What is wrong with a configuration file.
#[derive(Debug)]
pub enum ConfigFileError {
    /// The file could not be read as one; these are the words for why.
    Unparsable(String),
    /// Several backends have this name.
    SameName(String),
    /// A backend has a client certificate without a key, or a key without a certificate.
    IncompleteClientIdentity,
}

#[verifier::ext_equal]
pub enum ConfigFileErrorView {
    Unparsable(Seq<char>),
    SameName(Seq<char>),
    IncompleteClientIdentity,
}

impl View for ConfigFileError {
    type V = ConfigFileErrorView;

    open spec fn view(&self) -> ConfigFileErrorView {
        match self {
            ConfigFileError::Unparsable(error) => ConfigFileErrorView::Unparsable(error@),
            ConfigFileError::SameName(name) => ConfigFileErrorView::SameName(name@),
            ConfigFileError::IncompleteClientIdentity =>
                ConfigFileErrorView::IncompleteClientIdentity,
        }
    }
}

/// The words for what is wrong with a configuration file.
pub open spec fn config_file_error_message(error: ConfigFileErrorView) -> Seq<char> {
    match error {
        ConfigFileErrorView::Unparsable(error) => "failed to parse config file yaml: "@ + error,
        ConfigFileErrorView::SameName(name) =>
            "invalid config file: multiple bes backends have the same name "@ + name,
        ConfigFileErrorView::IncompleteClientIdentity =>
            "invalid config file: tls_client_certificate and tls_client_key must be specified together or not at all for a backend"@,
    }
}

impl ConfigFileError {
    /// The words for what is wrong with a configuration file.
    pub fn message(&self) -> (r: String)
        ensures
            r@ == config_file_error_message(self@),
    {
        match self {
            ConfigFileError::Unparsable(error) => "failed to parse config file yaml: ".to_owned(

            ).concat(error.as_str()),
            ConfigFileError::SameName(name) =>
                "invalid config file: multiple bes backends have the same name ".to_owned().concat(
                name.as_str(),
            ),
            ConfigFileError::IncompleteClientIdentity =>
                "invalid config file: tls_client_certificate and tls_client_key must be specified together or not at all for a backend".to_owned(),
        }
    }
}

/// The name that a backend is given.
pub open spec fn config_name(b: BesBackend) -> Option<Seq<char>> {
    match b {
        BesBackend::Endpoint(_) => None,
        BesBackend::Spec(spec) => text_view(spec.name),
    }
}

/// The names that backends are given.
pub open spec fn config_names(backends: Seq<BesBackend>) -> Seq<Option<Seq<char>>> {
    backends.map_values(|b: BesBackend| config_name(b))
}

/// A backend has both files of a client identity, or neither.
pub open spec fn identity_complete(b: BesBackend) -> bool {
    match b {
        BesBackend::Endpoint(_) => true,
        BesBackend::Spec(spec) => spec.tls_client_certificate is Some <==> spec.tls_client_key
            is Some,
    }
}

pub open spec fn identities_complete(backends: Seq<BesBackend>) -> bool {
    forall|i: int| 0 <= i < backends.len() ==> identity_complete(#[trigger] backends[i])
}

/// What is wrong with a configuration, if anything is: names come first.
pub open spec fn config_error(backends: Seq<BesBackend>) -> Option<ConfigFileErrorView> {
    match first_repeated(config_names(backends), 0) {
        Some(name) => Some(ConfigFileErrorView::SameName(name)),
        None => if identities_complete(backends) {
            None
        } else {
            Some(ConfigFileErrorView::IncompleteClientIdentity)
        },
    }
}

impl ConfigFile {
    /// Checks that no two backends have the same name, and that each has both files of a client
    /// identity or neither.
    pub fn validate(&self) -> (r: Result<(), ConfigFileError>)
        ensures
            match (r, config_error(self.bes_backends@)) {
                (Ok(_), None) => true,
                (Err(error), Some(view)) => error@ == view,
                _ => false,
            },
            r is Ok <==> names_unique(config_names(self.bes_backends@)) && identities_complete(
                self.bes_backends@,
            ),
    {
        let mut names: Vec<Option<String>> = Vec::new();
        let mut i: usize = 0;
        while i < self.bes_backends.len()
            invariant
                i <= self.bes_backends@.len(),
                names@.len() == i,
                forall|j: int|
                    0 <= j < i ==> text_view(#[trigger] names@[j]) == config_name(
                        self.bes_backends@[j],
                    ),
            decreases self.bes_backends@.len() - i,
        {
            let name = match &self.bes_backends[i] {
                BesBackend::Endpoint(_) => None,
                BesBackend::Spec(spec) => clone_text(&spec.name),
            };
            names.push(name);
            i = i + 1;
        }
        proof {
            assert(name_views(names@) =~= config_names(self.bes_backends@));
            law_no_repeated_name(config_names(self.bes_backends@));
        }
        if let Some(name) = find_repeated(&names) {
            return Err(ConfigFileError::SameName(name));
        }
        let mut k: usize = 0;
        while k < self.bes_backends.len()
            invariant
                k <= self.bes_backends@.len(),
                first_repeated(config_names(self.bes_backends@), 0) is None,
                forall|j: int| 0 <= j < k ==> identity_complete(#[trigger] self.bes_backends@[j]),
            decreases self.bes_backends@.len() - k,
        {
            if let BesBackend::Spec(spec) = &self.bes_backends[k] {
                if spec.tls_client_certificate.is_some() != spec.tls_client_key.is_some() {
                    assert(!identity_complete(self.bes_backends@[k as int]));
                    return Err(ConfigFileError::IncompleteClientIdentity);
                }
            }
            k = k + 1;
        }
        Ok(())
    }

    /// Takes what parsing the YAML of a configuration file gave: a valid configuration, or what
    /// is wrong with it.
    pub fn parse_yaml(parsed: Result<ConfigFile, String>) -> (r: Result<
        ConfigFile,
        ConfigFileError,
    >)
        ensures
            match parsed {
                Err(error) => r is Err && r->Err_0@ == ConfigFileErrorView::Unparsable(error@),
                Ok(config) => match config_error(config.bes_backends@) {
                    None => r == Ok::<ConfigFile, ConfigFileError>(config),
                    Some(error) => r is Err && r->Err_0@ == error,
                },
            },
    {
        match parsed {
            Ok(config) => match config.validate() {
                Ok(()) => Ok(config),
                Err(error) => Err(error),
            },
            Err(error) => Err(ConfigFileError::Unparsable(error)),
        }
    }
}

// ---------------------------------------------------------------------------
// Backends
// ---------------------------------------------------------------------------

/// Why a backend of the configuration file is none.
#[derive(Debug)]
pub enum ConfigBackendError {
    Endpoint(EndpointError),
    InvalidRemoteHeaderName,
    InvalidRemoteHeaderValue,
    TooManyRemoteHeaders,
}

#[verifier::ext_equal]
pub enum ConfigBackendErrorView {
    Endpoint(EndpointErrorView),
    InvalidRemoteHeaderName,
    InvalidRemoteHeaderValue,
    TooManyRemoteHeaders,
}

impl View for ConfigBackendError {
    type V = ConfigBackendErrorView;

    open spec fn view(&self) -> ConfigBackendErrorView {
        match self {
            ConfigBackendError::Endpoint(error) => ConfigBackendErrorView::Endpoint(error@),
            ConfigBackendError::InvalidRemoteHeaderName =>
                ConfigBackendErrorView::InvalidRemoteHeaderName,
            ConfigBackendError::InvalidRemoteHeaderValue =>
                ConfigBackendErrorView::InvalidRemoteHeaderValue,
            ConfigBackendError::TooManyRemoteHeaders =>
                ConfigBackendErrorView::TooManyRemoteHeaders,
        }
    }
}

/// The words for why a backend of the configuration file is none.
pub open spec fn config_backend_error_message(error: ConfigBackendErrorView) -> Seq<char> {
    match error {
        ConfigBackendErrorView::Endpoint(error) => endpoint_error_message(error),
        ConfigBackendErrorView::InvalidRemoteHeaderName => "invalid remote header name"@,
        ConfigBackendErrorView::InvalidRemoteHeaderValue => "invalid remote header value"@,
        ConfigBackendErrorView::TooManyRemoteHeaders => "too many remote headers"@,
    }
}

impl ConfigBackendError {
    /// The words for why a backend of the configuration file is none.
    pub fn message(&self) -> (r: String)
        ensures
            r@ == config_backend_error_message(self@),
    {
        match self {
            ConfigBackendError::Endpoint(error) => error.message(),
            ConfigBackendError::InvalidRemoteHeaderName => "invalid remote header name".to_owned(),
            ConfigBackendError::InvalidRemoteHeaderValue =>
                "invalid remote header value".to_owned(),
            ConfigBackendError::TooManyRemoteHeaders => "too many remote headers".to_owned(),
        }
    }
}

/// The header that a name and a value make.
pub open spec fn config_header(header: RemoteHeader) -> Result<HeaderView, ConfigBackendErrorView> {
    if !is_ascii_key(header.name@) {
        Err(ConfigBackendErrorView::InvalidRemoteHeaderName)
    } else if !is_ascii_value(header.value@) {
        Err(ConfigBackendErrorView::InvalidRemoteHeaderValue)
    } else {
        Ok(plain_header(header.name@, header.value@))
    }
}

/// The headers that the first `n` names and values make, or what is wrong with the first that
/// makes none.
pub open spec fn config_headers(headers: Seq<RemoteHeader>, n: int) -> Result<
    HeaderValues,
    ConfigBackendErrorView,
>
    decreases n,
{
    if n <= 0 {
        Ok(Map::empty())
    } else {
        match config_headers(headers, n - 1) {
            Err(error) => Err(error),
            Ok(before) => match config_header(headers[n - 1]) {
                Err(error) => Err(error),
                Ok(header) => Ok(with_header(before, header)),
            },
        }
    }
}

/// As many headers have at most as many names.
proof fn lemma_config_headers_len(headers: Seq<RemoteHeader>, n: int)
    requires
        0 <= n,
        config_headers(headers, n) is Ok,
    ensures
        config_headers(headers, n)->Ok_0.dom().finite(),
        config_headers(headers, n)->Ok_0.dom().len() <= n,
    decreases n,
{
    if n > 0 {
        lemma_config_headers_len(headers, n - 1);
        let before = config_headers(headers, n - 1)->Ok_0;
        let header = config_header(headers[n - 1])->Ok_0;
        assert(with_header(before, header).dom() =~= before.dom().insert(header.name));
    }
}

/// Some of the headers have more than [`MAX_HEADER_NAMES`] names, and nothing is wrong with the
/// next one: a map may refuse it.
pub open spec fn config_headers_overflow(headers: Seq<RemoteHeader>) -> bool {
    exists|n: int|
        {
            &&& 0 <= n < headers.len()
            &&& #[trigger] config_headers(headers, n) matches Ok(before)
                && before.dom().len() > MAX_HEADER_NAMES
            &&& config_header(headers[n]) is Ok
        }
}

/// Headers that a map may refuse are more than [`MAX_HEADER_NAMES`].
pub proof fn law_few_config_headers_fit(headers: Seq<RemoteHeader>)
    requires
        headers.len() <= MAX_HEADER_NAMES,
    ensures
        !config_headers_overflow(headers),
{
    assert forall|n: int|
        0 <= n < headers.len() && #[trigger] config_headers(headers, n) is Ok implies
        config_headers(headers, n)->Ok_0.dom().len() <= MAX_HEADER_NAMES by {
        lemma_config_headers_len(headers, n);
    }
}

/// The first header that is wrong decides the error.
proof fn lemma_config_headers_err(headers: Seq<RemoteHeader>, i: int, n: int)
    requires
        0 <= i <= n,
        config_headers(headers, i) is Err,
    ensures
        config_headers(headers, n) == config_headers(headers, i),
    decreases n - i,
{
    if i < n {
        lemma_config_headers_err(headers, i, n - 1);
    }
}

/// Makes headers of names and values.
fn make_headers(headers: &Vec<RemoteHeader>) -> (r: Result<MetadataMap, ConfigBackendError>)
    ensures
        match (r, config_headers(headers@, headers@.len() as int)) {
            (Ok(metadata), Ok(map)) => contents(metadata) == map,
            (Ok(_), Err(_)) => false,
            (Err(error), view) => {
                ||| view == Err::<HeaderValues, ConfigBackendErrorView>(error@)
                ||| error@ == ConfigBackendErrorView::TooManyRemoteHeaders
                    && config_headers_overflow(headers@)
            },
        },
{
    let mut metadata = metadata_new();
    let mut i: usize = 0;
    while i < headers.len()
        invariant
            i <= headers@.len(),
            config_headers(headers@, i as int) == Ok::<HeaderValues, ConfigBackendErrorView>(
                contents(metadata),
            ),
        decreases headers@.len() - i,
    {
        proof {
            if config_header(headers@[i as int]) is Err {
                lemma_config_headers_err(headers@, i + 1, headers@.len() as int);
            }
        }
        let header = &headers[i];
        if parse_ascii_key(header.name.as_str()).is_err() {
            return Err(ConfigBackendError::InvalidRemoteHeaderName);
        }
        if parse_ascii_value(header.value.as_str()).is_err() {
            return Err(ConfigBackendError::InvalidRemoteHeaderValue);
        }
        if !metadata_try_append(&mut metadata, header.name.as_str(), header.value.as_str()) {
            return Err(ConfigBackendError::TooManyRemoteHeaders);
        }
        i = i + 1;
    }
    Ok(metadata)
}

/// The settings of a backend, its headers being these.
pub open spec fn spec_settings(spec: BesBackendSpec, headers: HeaderValues) -> ArgView {
    ArgView {
        name: text_view(spec.name),
        endpoint: spec.endpoint@,
        remote_headers: headers,
        asynchronous: spec.asynchronous,
        tls_client_certificate: path_view(spec.tls_client_certificate),
        tls_client_key: path_view(spec.tls_client_key),
        connect_timeout: spec.connect_timeout,
        request_timeout: spec.request_timeout,
        request_buffer_size: spec.request_buffer_size,
    }
}

/// The builder for a backend of the configuration file, or what is wrong with the backend: with
/// its endpoint, else with the first header that is no header.
pub open spec fn config_builder(b: BesBackend) -> Result<BuilderView, ConfigBackendErrorView> {
    match b {
        BesBackend::Endpoint(endpoint) => match builder_of(endpoint@) {
            Ok(builder) => Ok(builder),
            Err(error) => Err(ConfigBackendErrorView::Endpoint(error)),
        },
        BesBackend::Spec(spec) => match builder_of(spec.endpoint@) {
            Err(error) => Err(ConfigBackendErrorView::Endpoint(error)),
            Ok(builder) => match config_headers(
                spec.remote_headers@,
                spec.remote_headers@.len() as int,
            ) {
                Err(error) => Err(error),
                Ok(headers) => Ok(settings_over(builder, spec_settings(spec, headers))),
            },
        },
    }
}

/// A backend has an endpoint, and headers that a map may refuse.
pub open spec fn config_backend_overflows(b: BesBackend) -> bool {
    b matches BesBackend::Spec(spec) && builder_of(spec.endpoint@) is Ok
        && config_headers_overflow(spec.remote_headers@)
}

/// The size of a backend's endpoint is within what machines can take.
pub open spec fn config_backend_fits(b: BesBackend) -> bool {
    match b {
        BesBackend::Endpoint(endpoint) => with_scheme(endpoint@).len() <= MAX_ENDPOINT_LEN,
        BesBackend::Spec(spec) => with_scheme(spec.endpoint@).len() <= MAX_ENDPOINT_LEN,
    }
}

impl BesBackend {
    /// The builder for the backend that is described.
    pub fn into_builder(self) -> (r: Result<BesBackendBuilder, ConfigBackendError>)
        requires
            config_backend_fits(self),
        ensures
            match (r, config_builder(self)) {
                (Ok(builder), Ok(view)) => builder@ == view,
                (Ok(_), Err(_)) => false,
                (Err(error), view) => {
                    ||| view == Err::<BuilderView, ConfigBackendErrorView>(error@)
                    ||| error@ == ConfigBackendErrorView::TooManyRemoteHeaders
                        && config_backend_overflows(self)
                },
            },
    {
        match self {
            BesBackend::Endpoint(endpoint) => match crate::forwarding::BesBackend::builder(
                endpoint.as_str(),
            ) {
                Ok(builder) => Ok(builder),
                Err(error) => Err(ConfigBackendError::Endpoint(error)),
            },
            BesBackend::Spec(spec) => {
                let builder = match crate::forwarding::BesBackend::builder(spec.endpoint.as_str()) {
                    Ok(builder) => builder,
                    Err(error) => {
                        return Err(ConfigBackendError::Endpoint(error));
                    },
                };
                let remote_headers = match make_headers(&spec.remote_headers) {
                    Ok(remote_headers) => remote_headers,
                    Err(error) => {
                        return Err(error);
                    },
                };
                let settings = BesBackendArg {
                    name: spec.name,
                    endpoint: spec.endpoint,
                    remote_headers,
                    asynchronous: spec.asynchronous,
                    tls_client_certificate: spec.tls_client_certificate,
                    tls_client_key: spec.tls_client_key,
                    connect_timeout: spec.connect_timeout,
                    request_timeout: spec.request_timeout,
                    request_buffer_size: spec.request_buffer_size,
                };
                Ok(configure(builder, settings))
            },
        }
    }

    /// The backend that is described.
    pub fn try_into(self) -> (r: Result<crate::forwarding::BesBackend, ConfigBackendError>)
        requires
            config_backend_fits(self),
        ensures
            match (r, config_builder(self)) {
                (Ok(backend), Ok(builder)) => builds(builder, backend@),
                (Ok(_), Err(_)) => false,
                (Err(error), view) => {
                    ||| view == Err::<BuilderView, ConfigBackendErrorView>(error@)
                    ||| error@ == ConfigBackendErrorView::TooManyRemoteHeaders
                        && config_backend_overflows(self)
                },
            },
    {
        match self.into_builder() {
            Ok(builder) => Ok(builder.build()),
            Err(error) => Err(error),
        }
    }
}

} // verus!
