//! What may be called when: on every input, unless a condition is named here.
use tonic::metadata::MetadataMap;
use vstd::prelude::*;

use crate::args::{configure, Args, ArgsError, BackendArgError, BesBackendArg};
use crate::binding::{Binding, BindingError, SocketAddrV4};
use crate::build_config::{
    assemble_config, build_config, combine_backends_from_config_and_args, BuildConfigError,
};
use crate::config_file::{
    BesBackend as DescribedBackend, ConfigBackendError, ConfigFile, ConfigFileError,
};
use crate::endpoint::{
    check_endpoint, parse_endpoint, with_scheme, EndpointError, EndpointUrl, UrlParts,
};
use crate::event::{PublishBuildToolEventStreamRequest, StreamId};
use crate::forwarding::header_files::{load_remote_header_files, FileRead, RemoteHeaderFiles};
use crate::forwarding::request_stream::{
    fanned_out, BuildToolRequestStreamState, Delivery, RequestStream,
};
use crate::forwarding::response_stream::{
    tell_backend_failure, validate_build_event_ack_response, BackendReply,
    BuildToolResponseStreamState,
};
use crate::forwarding::service::{outbound_metadata, BesForwardingService, LifecycleReply};
use crate::forwarding::upload::{AsyncUpload, UploadEnd};
use crate::forwarding::{
    Addresses, BesBackend, BesBackendBuilder, ConnectError, Timeout, TlsOutcome,
};
use crate::metadata::copy_request_metadata;
use crate::names::find_repeated;
use crate::nbes::{on_replies, on_request};
use crate::path::FilePath;
use crate::server::{GrpcBesServer, GrpcBesServerConfig, ServerLimits};
use crate::status::Status;
use crate::text::{
    contains, decimal_i64, decimal_u64, parse_unsigned, same_text, split, split_once, starts_with,
    to_ascii_lowercase, trim_end,
};
use crate::{prepare, Config};

verus! {

/// Whatever was delivered, received or replied can be handed in.
pub proof fn law_streams_take_whatever_comes(
    deliveries: &Vec<Delivery>,
    state: &mut BuildToolResponseStreamState,
    upload: &mut AsyncUpload,
    reply: &BackendReply,
    end: &UploadEnd,
    text: &str,
    id: &StreamId,
    n: i64,
    status: &Status,
    request: &Option<PublishBuildToolEventStreamRequest>,
    names: Vec<String>,
)
    ensures
        call_requires(fanned_out, (deliveries,)),
        call_requires(RequestStream::new, ()),
        call_requires(BuildToolRequestStreamState::initial, ()),
        call_requires(BuildToolResponseStreamState::new, (names,)),
        call_requires(BuildToolResponseStreamState::poll_next, (state,)),
        call_requires(AsyncUpload::new, ()),
        call_requires(AsyncUpload::on_reply, (upload, reply)),
        call_requires(UploadEnd::message, (end, text)),
        call_requires(validate_build_event_ack_response, (text, id, n, id, n)),
        call_requires(tell_backend_failure, (text, text, status)),
        call_requires(on_request, (request,)),
{
}

/// A request can be processed unless it is one of an open stream that has used up the numbers.
pub proof fn law_requests_are_processed(
    stream: &mut RequestStream,
    request: &PublishBuildToolEventStreamRequest,
)
    requires
        old(stream).wf(),
        !(old(stream)@ matches Some(open) && request@ matches Some(event) && event.stream_id
            == open.stream_id && open.seq >= i64::MAX),
    ensures
        call_requires(RequestStream::process_request, (stream, request)),
{
}

/// A status can be taken note of if the stream is known, or if the status names the stream and its
/// start or an error.
pub proof fn law_statuses_are_taken(
    state: &mut BuildToolResponseStreamState,
    closed: bool,
    status: &BuildToolRequestStreamState,
)
    requires
        old(state)@.stream_id is Some || status@.stream_id is Some && status@.starting_sequence
            is Some || status@.stream_id is None && status@.error is Some,
    ensures
        call_requires(BuildToolResponseStreamState::on_request_status, (state, closed, status)),
{
}

/// Replies can be taken in a known stream, one of each backend, unless the numbers are used up.
pub proof fn law_replies_are_taken(
    state: &mut BuildToolResponseStreamState,
    replies: &Vec<BackendReply>,
    backends: &Vec<String>,
    request: &PublishBuildToolEventStreamRequest,
)
    requires
        old(state)@.stream_id is Some,
        replies@.len() == old(state)@.backends.len(),
        old(state)@.next_seq < i64::MAX,
        request@ is Some,
        backends@.len() == replies@.len(),
        forall|i: int| 0 <= i < replies@.len() ==> !((#[trigger] replies@[i]) is Failed),
    ensures
        call_requires(BuildToolResponseStreamState::on_backend_replies, (state, replies)),
        call_requires(on_replies, (backends, request, replies)),
{
}

/// A service can be asked what comes next at any time, and told of any of its backends.
pub proof fn law_services_can_be_asked(
    service: &BesForwardingService,
    n: usize,
    i: usize,
    outcome: Result<(), Status>,
    reply: &LifecycleReply,
    trusting: &mut BesForwardingService,
    certificate: FilePath,
)
    requires
        i < service@.backends.len(),
    ensures
        call_requires(BesForwardingService::new, ()),
        call_requires(BesForwardingService::next_start, (service, n)),
        call_requires(BesForwardingService::on_started, (service, i, outcome)),
        call_requires(BesForwardingService::next_lifecycle, (service, n)),
        call_requires(BesForwardingService::on_lifecycle_reply, (service, i, reply)),
        call_requires(BesForwardingService::add_tls_trusted_cert, (trusting, certificate)),
{
}

/// A backend can be connected to, and added, if it is not one of the scheme `grpcs` that lacks a
/// host or a port.
pub proof fn law_backends_can_be_connected(
    backend: &mut BesBackend,
    certificates: &Vec<FilePath>,
    tls: &TlsOutcome,
    found: Addresses,
    service: &mut BesForwardingService,
    added: BesBackend,
    config: Config,
    outcomes: &Vec<TlsOutcome>,
)
    requires
        old(backend)@.endpoint.scheme == "grpcs"@ ==> old(backend)@.endpoint.host is Some && old(
            backend,
        )@.endpoint.port is Some,
        added@.endpoint.scheme == "grpcs"@ ==> added@.endpoint.host is Some
            && added@.endpoint.port is Some,
        outcomes@.len() == config@.bes_backends.len(),
        forall|i: int|
            0 <= i < config@.bes_backends.len() && (
            #[trigger] config@.bes_backends[i]).endpoint.scheme == "grpcs"@
                ==> config@.bes_backends[i].endpoint.host is Some
                && config@.bes_backends[i].endpoint.port is Some,
    ensures
        call_requires(BesBackend::lazy_connect, (backend, certificates, tls)),
        call_requires(BesBackend::connect_with, (backend, certificates, tls, found)),
        call_requires(BesForwardingService::add_backend, (service, added, tls)),
        call_requires(prepare, (config, outcomes)),
{
}

/// Any text can be read as an argument, a URL, an address or a binding; as an endpoint, one that is
/// no longer than a URL can be.
pub proof fn law_texts_can_be_read(
    s: &str,
    endpoint: String,
    parts: &UrlParts,
    found: Result<Option<FilePath>, String>,
    binding: &Binding,
)
    requires
        with_scheme(endpoint@).len() <= 0x1555_0000,
        with_scheme(s@).len() <= 0x1555_0000,
    ensures
        call_requires(BesBackendArg::parse, (s,)),
        call_requires(EndpointUrl::parse, (s,)),
        call_requires(SocketAddrV4::parse, (s,)),
        call_requires(Binding::parse, (s,)),
        call_requires(Binding::at_socket, (found,)),
        call_requires(Binding::to_string, (binding,)),
        call_requires(Binding::try_into_url, (binding,)),
        call_requires(parse_endpoint, (endpoint,)),
        call_requires(check_endpoint, (parts,)),
        call_requires(BesBackend::builder, (s,)),
        call_requires(FilePath::new, (s,)),
{
}

/// Strings can be searched, split, trimmed and compared, and numbers be read and written.
pub proof fn law_strings_can_be_worked_on(
    s: &str,
    t: &str,
    sep: char,
    n: u64,
    i: i64,
    names: &Vec<Option<String>>,
)
    ensures
        call_requires(contains, (s, t)),
        call_requires(starts_with, (s, t)),
        call_requires(same_text, (s, t)),
        call_requires(split, (s, sep)),
        call_requires(split_once, (s, sep)),
        call_requires(trim_end, (s,)),
        call_requires(to_ascii_lowercase, (s,)),
        call_requires(decimal_u64, (n,)),
        call_requires(decimal_i64, (i,)),
        call_requires(parse_unsigned, (s, n)),
        call_requires(find_repeated, (names,)),
{
}

/// Headers can be copied and put together whatever they are; those of files need a read for each
/// file.
pub proof fn law_headers_can_be_put_together(
    from: &MetadataMap,
    to: &mut MetadataMap,
    files: &RemoteHeaderFiles,
    reads: &Vec<FileRead>,
    backend: &str,
    set: &mut RemoteHeaderFiles,
    path: FilePath,
)
    requires
        reads@.len() == files@.len(),
    ensures
        call_requires(copy_request_metadata, (from, to)),
        call_requires(outbound_metadata, (from, from, from)),
        call_requires(load_remote_header_files, (files, reads, backend)),
        call_requires(RemoteHeaderFiles::insert, (set, backend, path)),
{
}

/// Arguments and configuration files can be checked and put together whatever they say, if their
/// endpoints are no longer than URLs can be.
pub proof fn law_configurations_can_be_put_together(
    args: Args,
    file: ConfigFile,
    parsed: Result<ConfigFile, String>,
    arg: BesBackendArg,
    described: DescribedBackend,
    backends: Vec<BesBackend>,
    more: Vec<BesBackend>,
    builder: BesBackendBuilder,
)
    requires
        with_scheme(arg.endpoint@).len() <= 0x1555_0000,
        with_scheme(endpoint_text(described)).len() <= 0x1555_0000,
        forall|i: int|
            0 <= i < args.bes_backends@.len() ==> with_scheme(
                (#[trigger] args.bes_backends@[i]).endpoint@,
            ).len() <= 0x1555_0000,
        forall|i: int|
            0 <= i < file.bes_backends@.len() ==> with_scheme(
                endpoint_text(#[trigger] file.bes_backends@[i]),
            ).len() <= 0x1555_0000,
    ensures
        call_requires(Args::validate, (&args,)),
        call_requires(ConfigFile::validate, (&file,)),
        call_requires(ConfigFile::parse_yaml, (parsed,)),
        call_requires(BesBackendArg::into_builder, (arg,)),
        call_requires(BesBackendArg::try_into, (arg,)),
        call_requires(DescribedBackend::into_builder, (described,)),
        call_requires(DescribedBackend::try_into, (described,)),
        call_requires(combine_backends_from_config_and_args, (backends, more)),
        call_requires(configure, (builder, arg)),
        call_requires(assemble_config, (args, file, backends)),
        call_requires(build_config, (args, file)),
{
}

/// The endpoint of a backend of the configuration file.
pub open spec fn endpoint_text(described: DescribedBackend) -> Seq<char> {
    match described {
        DescribedBackend::Endpoint(endpoint) => endpoint@,
        DescribedBackend::Spec(spec) => spec.endpoint@,
    }
}

/// Settings can be made in any order, and backends built of them.
pub proof fn law_settings_can_be_made(
    b: BesBackendBuilder,
    text: &str,
    headers: MetadataMap,
    files: RemoteHeaderFiles,
    yes: bool,
    path: FilePath,
    timeout: Timeout,
    size: usize,
    binding: Binding,
    server: GrpcBesServerConfig,
    limits: ServerLimits,
    paths: Vec<FilePath>,
    service: BesForwardingService,
    made: &GrpcBesServer,
)
    ensures
        call_requires(BesBackendBuilder::name, (b, text)),
        call_requires(BesBackendBuilder::remote_headers, (b, headers)),
        call_requires(BesBackendBuilder::remote_header_files, (b, files)),
        call_requires(BesBackendBuilder::asynchronous, (b, yes)),
        call_requires(BesBackendBuilder::tls_client_identity, (b, path, path)),
        call_requires(BesBackendBuilder::connect_timeout, (b, timeout)),
        call_requires(BesBackendBuilder::request_timeout, (b, timeout)),
        call_requires(BesBackendBuilder::request_buffer_size, (b, size)),
        call_requires(BesBackendBuilder::build, (b,)),
        call_requires(BesBackendBuilder::build_with, (b, text)),
        call_requires(GrpcBesServer::listen, (binding,)),
        call_requires(GrpcBesServerConfig::tls_config, (server, path, path, paths, yes)),
        call_requires(GrpcBesServerConfig::limits, (server, limits)),
        call_requires(GrpcBesServerConfig::bes_service, (server, service)),
        call_requires(GrpcBesServer::serve, (made, yes)),
{
}

/// Every error has words.
pub proof fn law_errors_have_words(
    argument: &BackendArgError,
    arguments: &ArgsError,
    connect: &ConnectError,
    endpoint: &EndpointError,
    binding: &BindingError,
    file: &ConfigFileError,
    described: &ConfigBackendError,
    config: &BuildConfigError,
)
    ensures
        call_requires(BackendArgError::message, (argument,)),
        call_requires(ArgsError::message, (arguments,)),
        call_requires(ConnectError::message, (connect,)),
        call_requires(EndpointError::message, (endpoint,)),
        call_requires(BindingError::message, (binding,)),
        call_requires(ConfigFileError::message, (file,)),
        call_requires(ConfigBackendError::message, (described,)),
        call_requires(BuildConfigError::message, (config,)),
{
}

} // verus!
