//! Command line arguments.
use std::str::FromStr;
use tonic::metadata::MetadataMap;
use vstd::prelude::*;
use vstd::utf8::encode_utf8;

use crate::endpoint::{with_scheme, EndpointError, EndpointErrorView, MAX_ENDPOINT_LEN};
use crate::forwarding::{
    builder_of, builder_result, built, is_generated_name, BackendView, BesBackend,
    BesBackendBuilder, BuilderView, KeyPairView, Timeout,
};
use crate::metadata::{
    contents, is_ascii_key, is_ascii_value, metadata_clone, metadata_new, metadata_try_append,
    parse_ascii_key, parse_ascii_value, plain_header, with_header, HeaderValues, HeaderView,
    MAX_HEADER_NAMES,
};
use crate::names::{
    find_repeated, first_repeated, law_no_repeated_name, name_views, names_unique,
};
use crate::path::{clone_path, path_view, FilePath};
use crate::text::{
    clone_text, contains, contains_text, lemma_position_is, occurs_at, parse_unsigned, same_text,
    split, split_at_each, split_at_first, split_once, text_view, texts, unsigned_value,
};

pub mod field_laws;
pub mod laws;

verus! {

/// A BES backend that forwards to other BES backends.
#[derive(Debug)]
pub struct Args {
    /// The backends to forward events to.
    pub bes_backends: Vec<BesBackendArg>,
    /// Socket address for the server to listen on, or a unix domain socket.
    pub listen: Option<String>,
    /// File path to the server PEM certificate for TLS.
    pub server_tls_certificate: Option<FilePath>,
    /// File path to the server PEM private key for TLS.
    pub server_tls_key: Option<FilePath>,
    /// File paths to TLS PEM certificates that are trusted to sign server certificates.
    pub tls_certificate: Vec<FilePath>,
    /// The number of concurrent inbound requests per connection.
    pub concurrency_limit_per_connection: Option<usize>,
    /// Reject requests when the concurrency limit is reached.
    pub load_shed_requests: bool,
    /// Limit concurrent HTTP/2 streams per connection.
    pub max_concurrent_streams: Option<u32>,
    /// The maximum duration in seconds that a connection may exist.
    pub max_connection_age: Option<u64>,
    /// The maximum duration in seconds that a connection may continue to exist after that.
    pub max_connection_age_grace: Option<u64>,
    /// Path to the configuration file.
    pub config: Option<FilePath>,
}

/// A backend as an argument names it: an endpoint, or properties with commas between them.
#[derive(Debug)]
pub struct BesBackendArg {
    pub name: Option<String>,
    pub endpoint: String,
    pub remote_headers: MetadataMap,
    pub asynchronous: bool,
    pub tls_client_certificate: Option<FilePath>,
    pub tls_client_key: Option<FilePath>,
    pub connect_timeout: Option<u64>,
    pub request_timeout: Option<u64>,
    pub request_buffer_size: Option<usize>,
}

#[verifier::ext_equal]
pub struct ArgView {
    pub name: Option<Seq<char>>,
    pub endpoint: Seq<char>,
    pub remote_headers: HeaderValues,
    pub asynchronous: bool,
    pub tls_client_certificate: Option<Seq<u8>>,
    pub tls_client_key: Option<Seq<u8>>,
    pub connect_timeout: Option<u64>,
    pub request_timeout: Option<u64>,
    pub request_buffer_size: Option<usize>,
}

impl View for BesBackendArg {
    type V = ArgView;

    open spec fn view(&self) -> ArgView {
        ArgView {
            name: text_view(self.name),
            endpoint: self.endpoint@,
            remote_headers: contents(self.remote_headers),
            asynchronous: self.asynchronous,
            tls_client_certificate: path_view(self.tls_client_certificate),
            tls_client_key: path_view(self.tls_client_key),
            connect_timeout: self.connect_timeout,
            request_timeout: self.request_timeout,
            request_buffer_size: self.request_buffer_size,
        }
    }
}

impl Clone for BesBackendArg {
    fn clone(&self) -> (r: Self)
        ensures
            r@ == self@,
    {
        BesBackendArg {
            name: clone_text(&self.name),
            endpoint: self.endpoint.clone(),
            remote_headers: metadata_clone(&self.remote_headers),
            asynchronous: self.asynchronous,
            tls_client_certificate: clone_path(&self.tls_client_certificate),
            tls_client_key: clone_path(&self.tls_client_key),
            connect_timeout: self.connect_timeout,
            request_timeout: self.request_timeout,
            request_buffer_size: self.request_buffer_size,
        }
    }
}

/// Why an argument names no backend.
#[derive(Debug)]
pub enum BackendArgError {
    /// One of several properties is not of the form `name=value`.
    InvalidEndpoint,
    MissingEndpoint,
    MultipleEndpoints,
    MultipleNames,
    /// The header is not of the form `name=value`.
    InvalidRemoteHeader(String),
    InvalidRemoteHeaderKey(String),
    InvalidRemoteHeaderValue(String),
    MultipleAsync,
    InvalidAsync,
    MultipleTlsClientCertificates,
    MultipleTlsClientKeys,
    MultipleConnectTimeouts,
    InvalidConnectTimeout,
    MultipleRequestTimeouts,
    InvalidRequestTimeout,
    MultipleRequestBufferSizes,
    InvalidRequestBufferSize,
    /// More headers than can be kept.
    TooManyRemoteHeaders,
}

#[verifier::ext_equal]
pub enum ArgErrorView {
    InvalidEndpoint,
    MissingEndpoint,
    MultipleEndpoints,
    MultipleNames,
    InvalidRemoteHeader(Seq<char>),
    InvalidRemoteHeaderKey(Seq<char>),
    InvalidRemoteHeaderValue(Seq<char>),
    MultipleAsync,
    InvalidAsync,
    MultipleTlsClientCertificates,
    MultipleTlsClientKeys,
    MultipleConnectTimeouts,
    InvalidConnectTimeout,
    MultipleRequestTimeouts,
    InvalidRequestTimeout,
    MultipleRequestBufferSizes,
    InvalidRequestBufferSize,
    TooManyRemoteHeaders,
}

impl View for BackendArgError {
    type V = ArgErrorView;

    open spec fn view(&self) -> ArgErrorView {
        match self {
            BackendArgError::InvalidEndpoint => ArgErrorView::InvalidEndpoint,
            BackendArgError::MissingEndpoint => ArgErrorView::MissingEndpoint,
            BackendArgError::MultipleEndpoints => ArgErrorView::MultipleEndpoints,
            BackendArgError::MultipleNames => ArgErrorView::MultipleNames,
            BackendArgError::InvalidRemoteHeader(h) => ArgErrorView::InvalidRemoteHeader(h@),
            BackendArgError::InvalidRemoteHeaderKey(k) => ArgErrorView::InvalidRemoteHeaderKey(k@),
            BackendArgError::InvalidRemoteHeaderValue(v) => ArgErrorView::InvalidRemoteHeaderValue(
                v@,
            ),
            BackendArgError::MultipleAsync => ArgErrorView::MultipleAsync,
            BackendArgError::InvalidAsync => ArgErrorView::InvalidAsync,
            BackendArgError::MultipleTlsClientCertificates =>
                ArgErrorView::MultipleTlsClientCertificates,
            BackendArgError::MultipleTlsClientKeys => ArgErrorView::MultipleTlsClientKeys,
            BackendArgError::MultipleConnectTimeouts => ArgErrorView::MultipleConnectTimeouts,
            BackendArgError::InvalidConnectTimeout => ArgErrorView::InvalidConnectTimeout,
            BackendArgError::MultipleRequestTimeouts => ArgErrorView::MultipleRequestTimeouts,
            BackendArgError::InvalidRequestTimeout => ArgErrorView::InvalidRequestTimeout,
            BackendArgError::MultipleRequestBufferSizes => ArgErrorView::MultipleRequestBufferSizes,
            BackendArgError::InvalidRequestBufferSize => ArgErrorView::InvalidRequestBufferSize,
            BackendArgError::TooManyRemoteHeaders => ArgErrorView::TooManyRemoteHeaders,
        }
    }
}

/// The words for why an argument names no backend.
pub open spec fn arg_error_message(error: ArgErrorView) -> Seq<char> {
    match error {
        ArgErrorView::InvalidEndpoint => "invalid endpoint"@,
        ArgErrorView::MissingEndpoint => "missing endpoint"@,
        ArgErrorView::MultipleEndpoints => "multiple endpoints"@,
        ArgErrorView::MultipleNames => "multiple names"@,
        ArgErrorView::InvalidRemoteHeader(h) => "invalid remote header "@ + h,
        ArgErrorView::InvalidRemoteHeaderKey(k) => "invalid remote header key "@ + k,
        ArgErrorView::InvalidRemoteHeaderValue(v) => "invalid remote header value "@ + v,
        ArgErrorView::MultipleAsync => "multiple values for async"@,
        ArgErrorView::InvalidAsync => "invalid async value"@,
        ArgErrorView::MultipleTlsClientCertificates => "multiple tls client certificates"@,
        ArgErrorView::MultipleTlsClientKeys => "multiple tls client keys"@,
        ArgErrorView::MultipleConnectTimeouts => "multiple connect timeouts"@,
        ArgErrorView::InvalidConnectTimeout => "invalid connect_timeout"@,
        ArgErrorView::MultipleRequestTimeouts => "multiple request timeouts"@,
        ArgErrorView::InvalidRequestTimeout => "invalid request_timeout"@,
        ArgErrorView::MultipleRequestBufferSizes => "multiple request buffer sizes"@,
        ArgErrorView::InvalidRequestBufferSize => "invalid request_buffer_size"@,
        ArgErrorView::TooManyRemoteHeaders => "too many remote headers"@,
    }
}

impl BackendArgError {
    /// The words for why an argument names no backend.
    pub fn message(&self) -> (r: String)
        ensures
            r@ == arg_error_message(self@),
    {
        match self {
            BackendArgError::InvalidEndpoint => "invalid endpoint".to_owned(),
            BackendArgError::MissingEndpoint => "missing endpoint".to_owned(),
            BackendArgError::MultipleEndpoints => "multiple endpoints".to_owned(),
            BackendArgError::MultipleNames => "multiple names".to_owned(),
            BackendArgError::InvalidRemoteHeader(h) => "invalid remote header ".to_owned().concat(
                h.as_str(),
            ),
            BackendArgError::InvalidRemoteHeaderKey(k) => "invalid remote header key ".to_owned(

            ).concat(k.as_str()),
            BackendArgError::InvalidRemoteHeaderValue(v) =>
                "invalid remote header value ".to_owned().concat(v.as_str()),
            BackendArgError::MultipleAsync => "multiple values for async".to_owned(),
            BackendArgError::InvalidAsync => "invalid async value".to_owned(),
            BackendArgError::MultipleTlsClientCertificates =>
                "multiple tls client certificates".to_owned(),
            BackendArgError::MultipleTlsClientKeys => "multiple tls client keys".to_owned(),
            BackendArgError::MultipleConnectTimeouts => "multiple connect timeouts".to_owned(),
            BackendArgError::InvalidConnectTimeout => "invalid connect_timeout".to_owned(),
            BackendArgError::MultipleRequestTimeouts => "multiple request timeouts".to_owned(),
            BackendArgError::InvalidRequestTimeout => "invalid request_timeout".to_owned(),
            BackendArgError::MultipleRequestBufferSizes =>
                "multiple request buffer sizes".to_owned(),
            BackendArgError::InvalidRequestBufferSize => "invalid request_buffer_size".to_owned(),
            BackendArgError::TooManyRemoteHeaders => "too many remote headers".to_owned(),
        }
    }
}

// ---------------------------------------------------------------------------
// Properties
// ---------------------------------------------------------------------------

/// A property: its name and its value.
pub type PropertyView = (Seq<char>, Seq<char>);

/// The properties that the first `n` pieces write, each as `name=value`; none if one does not.
pub open spec fn properties(pieces: Seq<Seq<char>>, n: int) -> Option<Seq<PropertyView>>
    decreases n,
{
    if n <= 0 {
        Some(Seq::empty())
    } else {
        match (properties(pieces, n - 1), split_at_first(pieces[n - 1], '=')) {
            (Some(before), Some(property)) => Some(before.push(property)),
            _ => None,
        }
    }
}

/// The values that the properties of this name have, in order.
pub open spec fn values(properties: Seq<PropertyView>, name: Seq<char>) -> Seq<Seq<char>>
    decreases properties.len(),
{
    if properties.len() == 0 {
        Seq::empty()
    } else {
        let before = values(properties.drop_last(), name);
        if properties.last().0 == name {
            before.push(properties.last().1)
        } else {
            before
        }
    }
}

/// The value of a property that may be given once, none if it is not given.
pub open spec fn at_most_one<E>(vals: Seq<Seq<char>>, multiple: E) -> Result<Option<Seq<char>>, E> {
    if vals.len() > 1 {
        Err(multiple)
    } else if vals.len() == 1 {
        Ok(Some(vals[0]))
    } else {
        Ok(None)
    }
}

pub open spec fn endpoint_property(props: Seq<PropertyView>) -> Result<Seq<char>, ArgErrorView> {
    match at_most_one(values(props, "endpoint"@), ArgErrorView::MultipleEndpoints) {
        Ok(Some(endpoint)) => Ok(endpoint),
        Ok(None) => Err(ArgErrorView::MissingEndpoint),
        Err(error) => Err(error),
    }
}

/// The header that a text writes as `name=value`.
pub open spec fn header_property(text: Seq<char>) -> Result<HeaderView, ArgErrorView> {
    match split_at_first(text, '=') {
        None => Err(ArgErrorView::InvalidRemoteHeader(text)),
        Some((key, value)) => if !is_ascii_key(key) {
            Err(ArgErrorView::InvalidRemoteHeaderKey(key))
        } else if !is_ascii_value(value) {
            Err(ArgErrorView::InvalidRemoteHeaderValue(value))
        } else {
            Ok(plain_header(key, value))
        },
    }
}

/// The headers that the first `n` texts write, or what is wrong with the first that writes none.
pub open spec fn header_properties(headers: Seq<Seq<char>>, n: int) -> Result<
    HeaderValues,
    ArgErrorView,
>
    decreases n,
{
    if n <= 0 {
        Ok(Map::empty())
    } else {
        match header_properties(headers, n - 1) {
            Err(error) => Err(error),
            Ok(before) => match header_property(headers[n - 1]) {
                Err(error) => Err(error),
                Ok(header) => Ok(with_header(before, header)),
            },
        }
    }
}

pub open spec fn async_property(props: Seq<PropertyView>) -> Result<bool, ArgErrorView> {
    match at_most_one(values(props, "async"@), ArgErrorView::MultipleAsync) {
        Ok(None) => Ok(false),
        Ok(Some(value)) => if value == "true"@ {
            Ok(true)
        } else if value == "false"@ {
            Ok(false)
        } else {
            Err(ArgErrorView::InvalidAsync)
        },
        Err(error) => Err(error),
    }
}

/// The path that a property gives.
pub open spec fn path_property(
    props: Seq<PropertyView>,
    name: Seq<char>,
    multiple: ArgErrorView,
) -> Result<Option<Seq<u8>>, ArgErrorView> {
    match at_most_one(values(props, name), multiple) {
        Ok(Some(path)) => Ok(Some(encode_utf8(path))),
        Ok(None) => Ok(None),
        Err(error) => Err(error),
    }
}

/// The number that a property gives, at most `max`.
pub open spec fn number_property(
    props: Seq<PropertyView>,
    name: Seq<char>,
    max: nat,
    multiple: ArgErrorView,
    invalid: ArgErrorView,
) -> Result<Option<nat>, ArgErrorView> {
    match at_most_one(values(props, name), multiple) {
        Ok(Some(value)) => match unsigned_value(value, max) {
            Some(n) => Ok(Some(n)),
            None => Err(invalid),
        },
        Ok(None) => Ok(None),
        Err(error) => Err(error),
    }
}

pub open spec fn headers_in(props: Seq<PropertyView>) -> Result<HeaderValues, ArgErrorView> {
    let headers = values(props, "remote_header"@);
    header_properties(headers, headers.len() as int)
}

pub open spec fn certificate_in(props: Seq<PropertyView>) -> Result<
    Option<Seq<u8>>,
    ArgErrorView,
> {
    path_property(
        props,
        "tls_client_certificate"@,
        ArgErrorView::MultipleTlsClientCertificates,
    )
}

pub open spec fn key_in(props: Seq<PropertyView>) -> Result<Option<Seq<u8>>, ArgErrorView> {
    path_property(props, "tls_client_key"@, ArgErrorView::MultipleTlsClientKeys)
}

pub open spec fn connect_timeout_in(props: Seq<PropertyView>) -> Result<
    Option<nat>,
    ArgErrorView,
> {
    number_property(
        props,
        "connect_timeout"@,
        u64::MAX as nat,
        ArgErrorView::MultipleConnectTimeouts,
        ArgErrorView::InvalidConnectTimeout,
    )
}

pub open spec fn request_timeout_in(props: Seq<PropertyView>) -> Result<
    Option<nat>,
    ArgErrorView,
> {
    number_property(
        props,
        "request_timeout"@,
        u64::MAX as nat,
        ArgErrorView::MultipleRequestTimeouts,
        ArgErrorView::InvalidRequestTimeout,
    )
}

pub open spec fn request_buffer_size_in(props: Seq<PropertyView>) -> Result<
    Option<nat>,
    ArgErrorView,
> {
    number_property(
        props,
        "request_buffer_size"@,
        usize::MAX as nat,
        ArgErrorView::MultipleRequestBufferSizes,
        ArgErrorView::InvalidRequestBufferSize,
    )
}

/// A seconds count, if there is one.
pub open spec fn seconds(n: Option<nat>) -> Option<u64> {
    match n {
        Some(n) => Some(n as u64),
        None => None,
    }
}

/// The backend that properties describe, or what is wrong with them. Properties of other names
/// are ignored.
pub open spec fn arg_of_properties(props: Seq<PropertyView>) -> Result<ArgView, ArgErrorView> {
    let name = at_most_one(values(props, "name"@), ArgErrorView::MultipleNames);
    if endpoint_property(props) is Err {
        Err(endpoint_property(props)->Err_0)
    } else if name is Err {
        Err(name->Err_0)
    } else if headers_in(props) is Err {
        Err(headers_in(props)->Err_0)
    } else if async_property(props) is Err {
        Err(async_property(props)->Err_0)
    } else if certificate_in(props) is Err {
        Err(certificate_in(props)->Err_0)
    } else if key_in(props) is Err {
        Err(key_in(props)->Err_0)
    } else if connect_timeout_in(props) is Err {
        Err(connect_timeout_in(props)->Err_0)
    } else if request_timeout_in(props) is Err {
        Err(request_timeout_in(props)->Err_0)
    } else if request_buffer_size_in(props) is Err {
        Err(request_buffer_size_in(props)->Err_0)
    } else {
        Ok(
            ArgView {
                name: name->Ok_0,
                endpoint: endpoint_property(props)->Ok_0,
                remote_headers: headers_in(props)->Ok_0,
                asynchronous: async_property(props)->Ok_0,
                tls_client_certificate: certificate_in(props)->Ok_0,
                tls_client_key: key_in(props)->Ok_0,
                connect_timeout: seconds(connect_timeout_in(props)->Ok_0),
                request_timeout: seconds(request_timeout_in(props)->Ok_0),
                request_buffer_size: match request_buffer_size_in(props)->Ok_0 {
                    Some(n) => Some(n as usize),
                    None => None,
                },
            },
        )
    }
}

/// A backend of which only the endpoint is given.
pub open spec fn endpoint_arg(endpoint: Seq<char>) -> ArgView {
    ArgView {
        name: None,
        endpoint,
        remote_headers: Map::empty(),
        asynchronous: false,
        tls_client_certificate: None,
        tls_client_key: None,
        connect_timeout: None,
        request_timeout: None,
        request_buffer_size: None,
    }
}

/// Whether a text is an endpoint alone: it has neither a comma nor an equals sign.
pub open spec fn is_endpoint_alone(s: Seq<char>) -> bool {
    let pieces = split_at_each(s, ',');
    pieces.len() == 1 && !contains_text(pieces[0], "="@)
}

/// The properties that a text writes, none if a piece of it is no property.
pub open spec fn properties_in(s: Seq<char>) -> Option<Seq<PropertyView>> {
    let pieces = split_at_each(s, ',');
    properties(pieces, pieces.len() as int)
}

/// The backend that a text describes, or what is wrong with it.
pub open spec fn arg_of(s: Seq<char>) -> Result<ArgView, ArgErrorView> {
    if is_endpoint_alone(s) {
        Ok(endpoint_arg(s))
    } else {
        match properties_in(s) {
            Some(props) => arg_of_properties(props),
            None => Err(ArgErrorView::InvalidEndpoint),
        }
    }
}

/// A text with neither a comma nor an equals sign is an endpoint, and everything else is as by
/// default.
pub proof fn law_plain_endpoint(s: Seq<char>)
    requires
        !s.contains(','),
        !s.contains('='),
    ensures
        arg_of(s) == Ok::<ArgView, ArgErrorView>(endpoint_arg(s)),
{
    lemma_position_is(s, ',', 0, s.len() as int);
    assert(split_at_each(s, ',') == seq![s]);
    reveal_strlit("=");
    assert forall|i: int| !occurs_at(s, "="@, i) by {
        if occurs_at(s, "="@, i) {
            assert(s.subrange(i, i + 1)[0] == s[i]);
            assert("="@[0] == '=');
        }
    }
}

/// Some of the headers that texts write have more than [`MAX_HEADER_NAMES`] names, and nothing is
/// wrong with the next one: a map may refuse it.
pub open spec fn headers_overflow(headers: Seq<Seq<char>>) -> bool {
    exists|n: int|
        {
            &&& 0 <= n < headers.len()
            &&& #[trigger] header_properties(headers, n) matches Ok(before)
                && before.dom().len() > MAX_HEADER_NAMES
            &&& header_property(headers[n]) is Ok
        }
}

/// A text gives an endpoint, at most one name, and headers that a map may refuse.
pub open spec fn arg_overflows(s: Seq<char>) -> bool {
    &&& !is_endpoint_alone(s)
    &&& properties_in(s) matches Some(props) && properties_overflow(props)
}

/// What may come of parsing a text: the backend that it describes, or what is wrong with it, or a
/// refusal of its headers where a map may refuse them.
pub open spec fn is_parse_of(s: Seq<char>, r: Result<ArgView, ArgErrorView>) -> bool {
    ||| r == arg_of(s)
    ||| is_refusal(r) && arg_overflows(s)
}

/// Headers were refused.
pub open spec fn is_refusal(r: Result<ArgView, ArgErrorView>) -> bool {
    r == Err::<ArgView, ArgErrorView>(ArgErrorView::TooManyRemoteHeaders)
}

/// Properties give an endpoint, at most one name, and headers that a map may refuse.
pub open spec fn properties_overflow(props: Seq<PropertyView>) -> bool {
    &&& endpoint_property(props) is Ok
    &&& at_most_one(values(props, "name"@), ArgErrorView::MultipleNames) is Ok
    &&& headers_overflow(values(props, "remote_header"@))
}

/// Headers that a map may refuse are more than [`MAX_HEADER_NAMES`].
pub proof fn law_few_headers_fit(headers: Seq<Seq<char>>)
    requires
        headers.len() <= MAX_HEADER_NAMES,
    ensures
        !headers_overflow(headers),
{
    assert forall|n: int|
        0 <= n < headers.len() && #[trigger] header_properties(headers, n) is Ok implies
        header_properties(headers, n)->Ok_0.dom().len() <= MAX_HEADER_NAMES by {
        lemma_header_properties_len(headers, n);
    }
}

/// A result by the views of what it holds.
pub open spec fn arg_result(r: Result<BesBackendArg, BackendArgError>) -> Result<
    ArgView,
    ArgErrorView,
> {
    match r {
        Ok(arg) => Ok(arg@),
        Err(error) => Err(error@),
    }
}

/// A property: its name and its value.
struct Property {
    name: String,
    value: String,
}

/// The views of several properties.
spec fn property_views(props: Seq<Property>) -> Seq<PropertyView> {
    props.map_values(|p: Property| (p.name@, p.value@))
}

/// Parses properties with commas between them.
fn parse_properties(pieces: &Vec<String>) -> (r: Option<Vec<Property>>)
    ensures
        match (r, properties(texts(pieces@), pieces@.len() as int)) {
            (Some(props), Some(views)) => property_views(props@) == views,
            (None, None) => true,
            _ => false,
        },
{
    let ghost views = texts(pieces@);
    let mut props: Vec<Property> = Vec::new();
    let mut i: usize = 0;
    assert(property_views(props@) =~= Seq::<PropertyView>::empty());
    while i < pieces.len()
        invariant
            i <= pieces@.len(),
            views == texts(pieces@),
            properties(views, i as int) == Some(property_views(props@)),
        decreases pieces@.len() - i,
    {
        assert(views[i as int] == pieces@[i as int]@);
        match split_once(pieces[i].as_str(), '=') {
            Some((name, value)) => {
                let ghost before = props@;
                let ghost property = (name@, value@);
                props.push(Property { name, value });
                assert(property_views(props@) =~= property_views(before).push(property));
            },
            None => {
                proof {
                    lemma_no_properties(views, i + 1, pieces@.len() as int);
                }
                return None;
            },
        }
        i = i + 1;
    }
    Some(props)
}

/// Where some pieces are no properties, more pieces do not help.
proof fn lemma_no_properties(pieces: Seq<Seq<char>>, i: int, n: int)
    requires
        0 <= i <= n,
        properties(pieces, i) is None,
    ensures
        properties(pieces, n) is None,
    decreases n - i,
{
    if i < n {
        lemma_no_properties(pieces, i, n - 1);
    }
}

/// The values that the properties of this name have, in order.
fn values_of_property(props: &Vec<Property>, name: &str) -> (r: Vec<String>)
    ensures
        texts(r@) == values(property_views(props@), name@),
{
    let ghost views = property_views(props@);
    let mut r: Vec<String> = Vec::new();
    let mut i: usize = 0;
    assert(texts(r@) =~= values(views.take(0), name@));
    while i < props.len()
        invariant
            i <= props@.len(),
            views == property_views(props@),
            texts(r@) == values(views.take(i as int), name@),
        decreases props@.len() - i,
    {
        assert(views.take(i + 1).drop_last() =~= views.take(i as int));
        assert(views[i as int] == (props@[i as int].name@, props@[i as int].value@));
        if same_text(props[i].name.as_str(), name) {
            let ghost before = r@;
            r.push(props[i].value.clone());
            assert(texts(r@) =~= texts(before).push(views[i as int].1));
        }
        i = i + 1;
    }
    assert(views.take(views.len() as int) =~= views);
    r
}

/// The value of a property that may be given once. Fails if it is given more often.
fn one_value(props: &Vec<Property>, name: &str) -> (r: Result<Option<String>, ()>)
    ensures
        match r {
            Ok(value) => values(property_views(props@), name@).len() <= 1 && at_most_one(
                values(property_views(props@), name@),
                (),
            ) == Ok::<Option<Seq<char>>, ()>(text_view(value)),
            Err(_) => values(property_views(props@), name@).len() > 1,
        },
{
    let mut vals = values_of_property(props, name);
    assert(texts(vals@).len() == vals@.len());
    if vals.len() > 1 {
        Err(())
    } else {
        let ghost before = vals@;
        let value = vals.pop();
        proof {
            if before.len() == 1 {
                assert(texts(before)[0] == before[0]@);
                assert(value == Some(before[0]));
            }
        }
        Ok(value)
    }
}

/// Parses the headers that are given, each as `name=value`.
fn parse_headers(headers: &Vec<String>) -> (r: Result<MetadataMap, BackendArgError>)
    ensures
        match (r, header_properties(texts(headers@), headers@.len() as int)) {
            (Ok(metadata), Ok(map)) => contents(metadata) == map,
            (Ok(_), Err(_)) => false,
            (Err(error), view) => {
                ||| view == Err::<HeaderValues, ArgErrorView>(error@)
                ||| error@ == ArgErrorView::TooManyRemoteHeaders && headers_overflow(
                    texts(headers@),
                )
            },
        },
{
    let ghost views = texts(headers@);
    let mut metadata = metadata_new();
    let mut i: usize = 0;
    while i < headers.len()
        invariant
            i <= headers@.len(),
            views == texts(headers@),
            header_properties(views, i as int) == Ok::<HeaderValues, ArgErrorView>(
                contents(metadata),
            ),
        decreases headers@.len() - i,
    {
        proof {
            assert(views[i as int] == headers@[i as int]@);
            if header_property(views[i as int]) is Err {
                lemma_header_properties_err(views, i + 1, headers@.len() as int);
            }
        }
        match split_once(headers[i].as_str(), '=') {
            Some((key, value)) => {
                if parse_ascii_key(key.as_str()).is_err() {
                    return Err(BackendArgError::InvalidRemoteHeaderKey(key));
                }
                if parse_ascii_value(value.as_str()).is_err() {
                    return Err(BackendArgError::InvalidRemoteHeaderValue(value));
                }
                if !metadata_try_append(&mut metadata, key.as_str(), value.as_str()) {
                    return Err(BackendArgError::TooManyRemoteHeaders);
                }
            },
            None => {
                return Err(BackendArgError::InvalidRemoteHeader(headers[i].clone()));
            },
        }
        i = i + 1;
    }
    Ok(metadata)
}

/// As many headers have at most as many names.
proof fn lemma_header_properties_len(headers: Seq<Seq<char>>, n: int)
    requires
        0 <= n,
        header_properties(headers, n) is Ok,
    ensures
        header_properties(headers, n)->Ok_0.dom().finite(),
        header_properties(headers, n)->Ok_0.dom().len() <= n,
    decreases n,
{
    if n > 0 {
        lemma_header_properties_len(headers, n - 1);
        let before = header_properties(headers, n - 1)->Ok_0;
        let header = header_property(headers[n - 1])->Ok_0;
        assert(with_header(before, header).dom() =~= before.dom().insert(header.name));
    }
}

/// The first header that is wrong decides the error.
proof fn lemma_header_properties_err(headers: Seq<Seq<char>>, i: int, n: int)
    requires
        0 <= i <= n,
        header_properties(headers, i) is Err,
    ensures
        header_properties(headers, n) == header_properties(headers, i),
    decreases n - i,
{
    if i < n {
        lemma_header_properties_err(headers, i, n - 1);
    }
}

impl BesBackendArg {
    /// A backend of which only the endpoint is given.
    fn endpoint_alone(endpoint: String) -> (r: Self)
        ensures
            r@ == endpoint_arg(endpoint@),
    {
        BesBackendArg {
            name: None,
            endpoint,
            remote_headers: metadata_new(),
            asynchronous: false,
            tls_client_certificate: None,
            tls_client_key: None,
            connect_timeout: None,
            request_timeout: None,
            request_buffer_size: None,
        }
    }

    /// Parses the argument that describes a backend. Headers are refused only where a map does not
    /// take them.
    pub fn parse(s: &str) -> (r: Result<BesBackendArg, BackendArgError>)
        ensures
            is_parse_of(s@, arg_result(r)),
    {
        let pieces = split(s, ',');
        assert(texts(pieces@).len() == pieces@.len());
        assert(pieces@.len() >= 1);
        assert(texts(pieces@)[0] == pieces@[0]@);
        if pieces.len() == 1 && !contains(pieces[0].as_str(), "=") {
            return Ok(Self::endpoint_alone(s.to_owned()));
        }
        match parse_properties(&pieces) {
            Some(props) => Self::from_properties(&props),
            None => Err(BackendArgError::InvalidEndpoint),
        }
    }

    /// Puts a backend together from its properties.
    fn from_properties(props: &Vec<Property>) -> (r: Result<BesBackendArg, BackendArgError>)
        ensures
            arg_result(r) == arg_of_properties(property_views(props@)) || is_refusal(arg_result(r))
                && properties_overflow(property_views(props@)),
    {
        let endpoint = match one_value(props, "endpoint") {
            Ok(Some(endpoint)) => endpoint,
            Ok(None) => {
                return Err(BackendArgError::MissingEndpoint);
            },
            Err(()) => {
                return Err(BackendArgError::MultipleEndpoints);
            },
        };
        let name = match one_value(props, "name") {
            Ok(name) => name,
            Err(()) => {
                return Err(BackendArgError::MultipleNames);
            },
        };
        let headers = values_of_property(props, "remote_header");
        assert(texts(headers@).len() == headers@.len());
        let remote_headers = match parse_headers(&headers) {
            Ok(remote_headers) => remote_headers,
            Err(error) => {
                return Err(error);
            },
        };
        let asynchronous = match one_value(props, "async") {
            Ok(None) => false,
            Ok(Some(value)) => if same_text(value.as_str(), "true") {
                true
            } else if same_text(value.as_str(), "false") {
                false
            } else {
                return Err(BackendArgError::InvalidAsync);
            },
            Err(()) => {
                return Err(BackendArgError::MultipleAsync);
            },
        };
        let tls_client_certificate = match one_value(props, "tls_client_certificate") {
            Ok(Some(path)) => Some(FilePath::new(path.as_str())),
            Ok(None) => None,
            Err(()) => {
                return Err(BackendArgError::MultipleTlsClientCertificates);
            },
        };
        let tls_client_key = match one_value(props, "tls_client_key") {
            Ok(Some(path)) => Some(FilePath::new(path.as_str())),
            Ok(None) => None,
            Err(()) => {
                return Err(BackendArgError::MultipleTlsClientKeys);
            },
        };
        let connect_timeout = match one_value(props, "connect_timeout") {
            Ok(Some(value)) => match parse_unsigned(value.as_str(), u64::MAX) {
                Some(n) => Some(n),
                None => {
                    return Err(BackendArgError::InvalidConnectTimeout);
                },
            },
            Ok(None) => None,
            Err(()) => {
                return Err(BackendArgError::MultipleConnectTimeouts);
            },
        };
        let request_timeout = match one_value(props, "request_timeout") {
            Ok(Some(value)) => match parse_unsigned(value.as_str(), u64::MAX) {
                Some(n) => Some(n),
                None => {
                    return Err(BackendArgError::InvalidRequestTimeout);
                },
            },
            Ok(None) => None,
            Err(()) => {
                return Err(BackendArgError::MultipleRequestTimeouts);
            },
        };
        let request_buffer_size = match one_value(props, "request_buffer_size") {
            Ok(Some(value)) => match parse_unsigned(value.as_str(), usize::MAX as u64) {
                Some(n) => Some(n as usize),
                None => {
                    return Err(BackendArgError::InvalidRequestBufferSize);
                },
            },
            Ok(None) => None,
            Err(()) => {
                return Err(BackendArgError::MultipleRequestBufferSizes);
            },
        };
        Ok(
            BesBackendArg {
                name,
                endpoint,
                remote_headers,
                asynchronous,
                tls_client_certificate,
                tls_client_key,
                connect_timeout,
                request_timeout,
                request_buffer_size,
            },
        )
    }
}

impl FromStr for BesBackendArg {
    type Err = BackendArgError;

    /// Parses the argument that describes a backend. Headers are refused only where a map does not
    /// take them.
    fn from_str(s: &str) -> (r: Result<Self, Self::Err>)
        ensures
            is_parse_of(s@, arg_result(r)),
    {
        BesBackendArg::parse(s)
    }
}

// ---------------------------------------------------------------------------
// Backends
// ---------------------------------------------------------------------------

/// A number of seconds as a span of time.
pub open spec fn timeout_of(secs: Option<u64>) -> Option<Timeout> {
    match secs {
        Some(secs) => Some(Timeout { secs, nanos: 0 }),
        None => None,
    }
}

/// A builder with the settings that are given. A client identity needs both of its files.
pub open spec fn settings_over(b: BuilderView, s: ArgView) -> BuilderView {
    BuilderView {
        name: if s.name is Some {
            s.name
        } else {
            b.name
        },
        remote_headers: s.remote_headers,
        asynchronous: s.asynchronous,
        tls_client_identity: match (s.tls_client_certificate, s.tls_client_key) {
            (Some(certificate), Some(key)) => Some(KeyPairView { certificate, key }),
            _ => b.tls_client_identity,
        },
        connect_timeout: match s.connect_timeout {
            Some(_) => timeout_of(s.connect_timeout),
            None => b.connect_timeout,
        },
        request_timeout: match s.request_timeout {
            Some(_) => timeout_of(s.request_timeout),
            None => b.request_timeout,
        },
        request_buffer_size: match s.request_buffer_size {
            Some(size) => size,
            None => b.request_buffer_size,
        },
        ..b
    }
}

/// Puts the settings into a builder.
pub fn configure(builder: BesBackendBuilder, settings: BesBackendArg) -> (r: BesBackendBuilder)
    ensures
        r@ == settings_over(builder@, settings@),
{
    let mut builder = builder.remote_headers(settings.remote_headers).asynchronous(
        settings.asynchronous,
    );
    if let Some(name) = settings.name {
        builder = builder.name(name.as_str());
    }
    match (settings.tls_client_certificate, settings.tls_client_key) {
        (Some(certificate), Some(key)) => {
            builder = builder.tls_client_identity(certificate, key);
        },
        _ => {},
    }
    if let Some(secs) = settings.connect_timeout {
        builder = builder.connect_timeout(Timeout { secs, nanos: 0 });
    }
    if let Some(secs) = settings.request_timeout {
        builder = builder.request_timeout(Timeout { secs, nanos: 0 });
    }
    if let Some(size) = settings.request_buffer_size {
        builder = builder.request_buffer_size(size);
    }
    builder
}

/// The builder for the backend that settings describe, or what is wrong with its endpoint.
pub open spec fn arg_builder(arg: ArgView) -> Result<BuilderView, EndpointErrorView> {
    match builder_of(arg.endpoint) {
        Ok(builder) => Ok(settings_over(builder, arg)),
        Err(error) => Err(error),
    }
}

/// A backend that a builder may build: it has the name that is given, or one made up.
pub open spec fn builds(builder: BuilderView, backend: BackendView) -> bool {
    &&& backend == built(builder, backend.name)
    &&& match builder.name {
        Some(name) => backend.name == name,
        None => is_generated_name(backend.name),
    }
}

impl BesBackendArg {
    /// The builder for the backend that is described.
    pub fn into_builder(self) -> (r: Result<BesBackendBuilder, EndpointError>)
        requires
            with_scheme(self.endpoint@).len() <= MAX_ENDPOINT_LEN,
        ensures
            builder_result(r) == arg_builder(self@),
    {
        match BesBackend::builder(self.endpoint.as_str()) {
            Ok(builder) => Ok(configure(builder, self)),
            Err(error) => Err(error),
        }
    }

    /// The backend that is described.
    pub fn try_into(self) -> (r: Result<BesBackend, EndpointError>)
        requires
            with_scheme(self.endpoint@).len() <= MAX_ENDPOINT_LEN,
        ensures
            match (r, arg_builder(self@)) {
                (Ok(backend), Ok(builder)) => builds(builder, backend@),
                (Err(error), Err(view)) => error@ == view,
                _ => false,
            },
    {
        match self.into_builder() {
            Ok(builder) => Ok(builder.build()),
            Err(error) => Err(error),
        }
    }
}

/// The names of backends that are given.
pub open spec fn arg_names(backends: Seq<BesBackendArg>) -> Seq<Option<Seq<char>>> {
    backends.map_values(|b: BesBackendArg| text_view(b.name))
}

/// The words for backends of the same name.
pub open spec fn same_name_message(name: Seq<char>) -> Seq<char> {
    "multiple bes backends have the same name "@ + name
}

/// Arguments that contradict each other.
#[derive(Debug)]
pub enum ArgsError {
    /// Several backends have this name.
    SameName(String),
}

impl ArgsError {
    /// The words for what is wrong with the arguments.
    pub fn message(&self) -> (r: String)
        ensures
            r@ == match self {
                ArgsError::SameName(name) => same_name_message(name@),
            },
    {
        match self {
            ArgsError::SameName(name) =>
                "multiple bes backends have the same name ".to_owned().concat(name.as_str()),
        }
    }
}

impl Args {
    /// Checks that no two backends have the same name. Otherwise the first name that was given
    /// before is reported.
    pub fn validate(&self) -> (r: Result<(), ArgsError>)
        ensures
            match (r, first_repeated(arg_names(self.bes_backends@), 0)) {
                (Ok(_), None) => true,
                (Err(ArgsError::SameName(name)), Some(repeated)) => name@ == repeated,
                _ => false,
            },
            r is Ok <==> names_unique(arg_names(self.bes_backends@)),
    {
        let mut names: Vec<Option<String>> = Vec::new();
        let mut i: usize = 0;
        while i < self.bes_backends.len()
            invariant
                i <= self.bes_backends@.len(),
                names@.len() == i,
                forall|j: int|
                    0 <= j < i ==> text_view(#[trigger] names@[j]) == text_view(
                        self.bes_backends@[j].name,
                    ),
            decreases self.bes_backends@.len() - i,
        {
            names.push(clone_text(&self.bes_backends[i].name));
            i = i + 1;
        }
        proof {
            assert(name_views(names@) =~= arg_names(self.bes_backends@));
            law_no_repeated_name(arg_names(self.bes_backends@));
        }
        match find_repeated(&names) {
            Some(name) => Err(ArgsError::SameName(name)),
            None => Ok(()),
        }
    }
}

impl Default for BesBackendArg {
    /// A backend with an empty endpoint.
    fn default() -> (r: Self)
        ensures
            r@ == endpoint_arg(Seq::empty()),
    {
        let endpoint = String::new();
        assert(endpoint@ =~= Seq::<char>::empty());
        Self::endpoint_alone(endpoint)
    }
}

impl Default for Args {
    /// No arguments.
    fn default() -> (r: Self)
        ensures
            r.bes_backends@.len() == 0,
            r.listen is None,
            r.server_tls_certificate is None,
            r.server_tls_key is None,
            r.tls_certificate@.len() == 0,
            r.concurrency_limit_per_connection is None,
            !r.load_shed_requests,
            r.max_concurrent_streams is None,
            r.max_connection_age is None,
            r.max_connection_age_grace is None,
            r.config is None,
    {
        Args {
            bes_backends: Vec::new(),
            listen: None,
            server_tls_certificate: None,
            server_tls_key: None,
            tls_certificate: Vec::new(),
            concurrency_limit_per_connection: None,
            load_shed_requests: false,
            max_concurrent_streams: None,
            max_connection_age: None,
            max_connection_age_grace: None,
            config: None,
        }
    }
}

} // verus!
