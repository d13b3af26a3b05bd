//! What contracts see of the values that the library passes around: all of them, as they are.
use vstd::prelude::*;

use crate::args::{ArgErrorView, Args, BackendArgError, BesBackendArg};
use crate::binding::{Binding, BindingError, BindingErrorView, BindingView};
use crate::build_config::{BuildConfigError, BuildConfigErrorView};
use crate::config_file::{
    ConfigBackendError, ConfigBackendErrorView, ConfigFile, ConfigFileError, ConfigFileErrorView,
    Server, ServerTls,
};
use crate::endpoint::{EndpointError, EndpointErrorView, UrlParts, MAX_ENDPOINT_LEN, MAX_URL_LEN};
use crate::event::{clone_stream_id, StreamId};
use crate::forwarding::header_files::{FileRead, FileReadView, RemoteHeaderFile};
use crate::forwarding::request_stream::{
    BuildToolRequestStreamState, RequestStep, RequestStepView,
};
use crate::forwarding::response_stream::{
    BackendReply, ReplyView, ResponseStep, ResponseStepView,
};
use crate::forwarding::service::{
    backend_views, LifecycleReply, LifecycleReplyView, LifecycleStep, LifecycleStepView, StartStep,
    StartStepView,
};
use crate::forwarding::upload::{UploadEnd, UploadEndView};
use crate::forwarding::{
    BesBackend, Client, ClientTls, ConnectError, ConnectErrorView, TlsClientKeyPair,
};
use crate::metadata::{contents, metadata_headers, MAX_HEADER_NAMES};
use crate::nbes::{LockstepStep, LockstepStepView};
use crate::path::{clone_path, clone_paths, path_view, paths, FilePath};
use crate::server::{ServePlan, ServePlanView};
use crate::status::{Code, Status};
use crate::text::text_view;
use crate::{Config, ServerTlsConfig};

verus! {

/// Of a status its code, words, details and headers are seen.
pub proof fn law_status_is_seen(status: Status, copy: Status)
    requires
        call_ensures(Status::clone, (&status,), copy),
    ensures
        status@.code == status.code,
        status@.message == status.message@,
        status@.details == status.details@,
        status@.metadata == metadata_headers(status.metadata),
        copy@ == status@,
{
}

/// Of the status of a request stream the stream, its start, its latest number and its error are
/// seen.
pub proof fn law_request_status_is_seen(
    status: BuildToolRequestStreamState,
    copy: BuildToolRequestStreamState,
    id: Option<StreamId>,
    copied: Option<StreamId>,
)
    requires
        call_ensures(BuildToolRequestStreamState::clone, (&status,), copy),
        call_ensures(clone_stream_id, (&id,), copied),
    ensures
        status@.latest_sequence == status.latest_sequence,
        status@.stream_id is Some <==> status.stream_id is Some,
        status.stream_id matches Some(id) ==> status@.stream_id == Some(id@),
        status@.starting_sequence is Some <==> status.starting_sequence is Some,
        status.starting_sequence matches Some(start) ==> status@.starting_sequence == Some(
            start as int,
        ),
        status@.error is Some <==> status.error is Some,
        status.error matches Some(error) ==> status@.error == Some(error@),
        copy@ == status@,
        copied is Some <==> id is Some,
        id matches Some(id) ==> copied->0@ == id@,
{
}

/// Steps and replies are seen as what they are.
pub proof fn law_steps_are_seen(
    request: RequestStep,
    response: ResponseStep,
    reply: BackendReply,
    start: StartStep,
    lifecycle: LifecycleStep,
    taken: LifecycleReply,
    lockstep: LockstepStep,
    plan: ServePlan,
)
    ensures
        match request {
            RequestStep::Forward(status) => request@ == RequestStepView::Forward(status@),
            RequestStep::Halt(status) => request@ == RequestStepView::Halt(status@),
        },
        match response {
            ResponseStep::AwaitRequestStatus => response@ is AwaitRequestStatus,
            ResponseStep::AwaitBackends => response@ is AwaitBackends,
            ResponseStep::Respond(r) => response@ == ResponseStepView::Respond(r@),
            ResponseStep::Fail(status) => response@ == ResponseStepView::Fail(status@),
            ResponseStep::End => response@ is End,
        },
        match reply {
            BackendReply::Message(r) => reply@ == ReplyView::Message(r@),
            BackendReply::Ended => reply@ is Ended,
            BackendReply::Failed(status) => reply@ == ReplyView::Failed(status@),
        },
        match start {
            StartStep::Open(i) => start@ == StartStepView::Open(i as int),
            StartStep::Detach(i) => start@ == StartStepView::Detach(i as int),
            StartStep::Respond(state) => start@ == StartStepView::Respond(state@),
            StartStep::Fail(status) => start@ == StartStepView::Fail(status@),
        },
        match lifecycle {
            LifecycleStep::Send(i) => lifecycle@ == LifecycleStepView::Send(i as int),
            LifecycleStep::Acknowledge => lifecycle@ is Acknowledge,
            LifecycleStep::Fail(status) => lifecycle@ == LifecycleStepView::Fail(status@),
        },
        match taken {
            LifecycleReply::Accepted => taken@ is Accepted,
            LifecycleReply::Refused(status) => taken@ == LifecycleReplyView::Refused(status@),
            LifecycleReply::NotSent(status) => taken@ == LifecycleReplyView::NotSent(status@),
        },
        match lockstep {
            LockstepStep::Forward => lockstep@ is Forward,
            LockstepStep::Respond(r) => lockstep@ == LockstepStepView::Respond(r@),
            LockstepStep::Fail(status) => lockstep@ == LockstepStepView::Fail(status@),
            LockstepStep::End => lockstep@ is End,
        },
        match plan {
            ServePlan::Address(addr) => plan@ == ServePlanView::Address(addr),
            ServePlan::Socket { path, remove_first } => plan@ == (ServePlanView::Socket {
                path: path@,
                remove_first,
            }),
        },
{
}

/// The end of an upload and what reading a file gave are seen as what they are.
pub proof fn law_outcomes_are_seen(end: UploadEnd, read: FileRead, file: RemoteHeaderFile)
    ensures
        match end {
            UploadEnd::Unidentified => end@ is Unidentified,
            UploadEnd::Uploaded(invocation) => end@ == UploadEndView::Uploaded(invocation@),
            UploadEnd::Closed => end@ is Closed,
            UploadEnd::Failed(invocation, words) => end@ == UploadEndView::Failed(
                invocation@,
                words@,
            ),
            UploadEnd::FailedFirst => end@ is FailedFirst,
        },
        match read {
            FileRead::Text(text) => read@ == FileReadView::Text(text@),
            FileRead::Failed(words) => read@ == FileReadView::Failed(words@),
        },
        file@.key == file.key@,
        file@.path == file.path@,
{
}

/// Errors are seen as what they are.
pub proof fn law_errors_are_seen(
    connect: ConnectError,
    endpoint: EndpointError,
    binding: BindingError,
    file: ConfigFileError,
    described: ConfigBackendError,
    config: BuildConfigError,
)
    ensures
        match connect {
            ConnectError::NoUrl(words) => connect@ == ConnectErrorView::NoUrl(words@),
            ConnectError::NoTlsUri(words) => connect@ == ConnectErrorView::NoTlsUri(words@),
            ConnectError::NoEndpoint(name) => connect@ == ConnectErrorView::NoEndpoint(name@),
            ConnectError::Tls(words) => connect@ == ConnectErrorView::Tls(words@),
            ConnectError::NoFilePath(text) => connect@ == ConnectErrorView::NoFilePath(text@),
        },
        match endpoint {
            EndpointError::Unparsable(e) => endpoint@ == EndpointErrorView::Unparsable(e@),
            EndpointError::InvalidScheme(e) => endpoint@ == EndpointErrorView::InvalidScheme(e@),
            EndpointError::MissingHost(e) => endpoint@ == EndpointErrorView::MissingHost(e@),
            EndpointError::PortNotSet(e) => endpoint@ == EndpointErrorView::PortNotSet(e@),
        },
        match binding {
            BindingError::NoUrl(words) => binding@ == BindingErrorView::NoUrl(words@),
            BindingError::NoSocketPath => binding@ is NoSocketPath,
            BindingError::NoSocketAddress => binding@ is NoSocketAddress,
        },
        match file {
            ConfigFileError::Unparsable(words) => file@ == ConfigFileErrorView::Unparsable(words@),
            ConfigFileError::SameName(name) => file@ == ConfigFileErrorView::SameName(name@),
            ConfigFileError::IncompleteClientIdentity => file@ is IncompleteClientIdentity,
        },
        match described {
            ConfigBackendError::Endpoint(e) => described@ == ConfigBackendErrorView::Endpoint(e@),
            ConfigBackendError::InvalidRemoteHeaderName => described@ is InvalidRemoteHeaderName,
            ConfigBackendError::InvalidRemoteHeaderValue => described@ is InvalidRemoteHeaderValue,
            ConfigBackendError::TooManyRemoteHeaders => described@ is TooManyRemoteHeaders,
        },
        match config {
            BuildConfigError::ConfigBackend(e) => config@ == BuildConfigErrorView::ConfigBackend(
                e@,
            ),
            BuildConfigError::ArgBackend(e) => config@ == BuildConfigErrorView::ArgBackend(e@),
            BuildConfigError::MissingServerTlsKey => config@ is MissingServerTlsKey,
            BuildConfigError::MissingServerTlsCertificate => config@ is MissingServerTlsCertificate,
            BuildConfigError::Listen(e) => config@ == BuildConfigErrorView::Listen(e@),
        },
{
}

/// What is wrong with an argument is seen as what it is.
pub proof fn law_argument_errors_are_seen(error: BackendArgError)
    ensures
        match error {
            BackendArgError::InvalidEndpoint => error@ is InvalidEndpoint,
            BackendArgError::MissingEndpoint => error@ is MissingEndpoint,
            BackendArgError::MultipleEndpoints => error@ is MultipleEndpoints,
            BackendArgError::MultipleNames => error@ is MultipleNames,
            BackendArgError::InvalidRemoteHeader(h) => error@ == ArgErrorView::InvalidRemoteHeader(
                h@,
            ),
            BackendArgError::InvalidRemoteHeaderKey(k) => error@
                == ArgErrorView::InvalidRemoteHeaderKey(k@),
            BackendArgError::InvalidRemoteHeaderValue(v) => error@
                == ArgErrorView::InvalidRemoteHeaderValue(v@),
            BackendArgError::MultipleAsync => error@ is MultipleAsync,
            BackendArgError::InvalidAsync => error@ is InvalidAsync,
            BackendArgError::MultipleTlsClientCertificates => error@
                is MultipleTlsClientCertificates,
            BackendArgError::MultipleTlsClientKeys => error@ is MultipleTlsClientKeys,
            BackendArgError::MultipleConnectTimeouts => error@ is MultipleConnectTimeouts,
            BackendArgError::InvalidConnectTimeout => error@ is InvalidConnectTimeout,
            BackendArgError::MultipleRequestTimeouts => error@ is MultipleRequestTimeouts,
            BackendArgError::InvalidRequestTimeout => error@ is InvalidRequestTimeout,
            BackendArgError::MultipleRequestBufferSizes => error@ is MultipleRequestBufferSizes,
            BackendArgError::InvalidRequestBufferSize => error@ is InvalidRequestBufferSize,
            BackendArgError::TooManyRemoteHeaders => error@ is TooManyRemoteHeaders,
        },
{
}

/// Of an argument each setting is seen, and a copy is the same.
pub proof fn law_argument_is_seen(arg: BesBackendArg, copy: BesBackendArg)
    requires
        call_ensures(BesBackendArg::clone, (&arg,), copy),
    ensures
        arg@.name == text_view(arg.name),
        arg@.endpoint == arg.endpoint@,
        arg@.remote_headers == contents(arg.remote_headers),
        arg@.asynchronous == arg.asynchronous,
        arg@.tls_client_certificate == path_view(arg.tls_client_certificate),
        arg@.tls_client_key == path_view(arg.tls_client_key),
        arg@.connect_timeout == arg.connect_timeout,
        arg@.request_timeout == arg.request_timeout,
        arg@.request_buffer_size == arg.request_buffer_size,
        copy@ == arg@,
{
}

/// Of a configuration each setting is seen.
pub proof fn law_configuration_is_seen(config: Config)
    ensures
        config@.bes_backends == backend_views(config.bes_backends@),
        config@.listen == config.listen@,
        config@.server_tls_config is Some <==> config.server_tls_config is Some,
        config.server_tls_config matches Some(tls) ==> config@.server_tls_config->0.certificate
            == tls.certificate@ && config@.server_tls_config->0.key == tls.key@,
        config@.tls_certificates == paths(config.tls_certificates@),
        config@.limits.concurrency_limit_per_connection == config.concurrency_limit_per_connection,
        config@.limits.load_shed_requests == config.load_shed_requests,
        config@.limits.max_concurrent_streams == config.max_concurrent_streams,
        config@.limits.max_connection_age == config.max_connection_age,
        config@.limits.max_connection_age_grace == config.max_connection_age_grace,
{
}

/// By default nothing is configured: there are no backends, no certificates and no bounds, and the
/// server listens on every address at port 9000.
pub proof fn law_defaults(
    config: Config,
    args: Args,
    arg: BesBackendArg,
    file: ConfigFile,
    server: Server,
    tls: ServerTls,
    binding: Binding,
)
    requires
        call_ensures(<Config as Default>::default, (), config),
        call_ensures(<Args as Default>::default, (), args),
        call_ensures(<BesBackendArg as Default>::default, (), arg),
        call_ensures(<ConfigFile as Default>::default, (), file),
        call_ensures(<Server as Default>::default, (), server),
        call_ensures(<ServerTls as Default>::default, (), tls),
        call_ensures(<Binding as Default>::default, (), binding),
    ensures
        binding@ matches BindingView::SocketAddr(addr) && addr.port == 9000 && addr.ip.a == 0
            && addr.ip.b == 0 && addr.ip.c == 0 && addr.ip.d == 0,
        config@.listen == binding@,
        config@.bes_backends.len() == 0,
        config@.server_tls_config is None,
        config@.tls_certificates.len() == 0,
        config@.limits.concurrency_limit_per_connection is None,
        !config@.limits.load_shed_requests,
        config@.limits.max_concurrent_streams is None,
        config@.limits.max_connection_age is None,
        config@.limits.max_connection_age_grace is None,
        args.bes_backends@.len() == 0,
        args.listen is None,
        args.server_tls_certificate is None,
        args.server_tls_key is None,
        args.tls_certificate@.len() == 0,
        args.concurrency_limit_per_connection is None,
        !args.load_shed_requests,
        args.max_concurrent_streams is None,
        args.max_connection_age is None,
        args.max_connection_age_grace is None,
        args.config is None,
        arg@.endpoint.len() == 0,
        arg@.name is None,
        !arg@.asynchronous,
        arg@.tls_client_certificate is None,
        arg@.tls_client_key is None,
        arg@.connect_timeout is None,
        arg@.request_timeout is None,
        arg@.request_buffer_size is None,
        file.bes_backends@.len() == 0,
        file.tls_certificates@.len() == 0,
        file.server.listen is None,
        file.server.tls.certificate is None,
        file.server.tls.key is None,
        file.server.concurrency_limit_per_connection is None,
        !file.server.load_shed_requests,
        file.server.max_concurrent_streams is None,
        file.server.max_connection_age is None,
        file.server.max_connection_age_grace is None,
        server.listen is None,
        server.tls.certificate is None,
        server.tls.key is None,
        !server.load_shed_requests,
        server.concurrency_limit_per_connection is None,
        server.max_concurrent_streams is None,
        server.max_connection_age is None,
        server.max_connection_age_grace is None,
        tls.certificate is None,
        tls.key is None,
{
}

/// Of a client its address, its TLS settings, its time limits and its socket are seen.
pub proof fn law_client_is_seen(client: Client, tls: ClientTls, pair: TlsClientKeyPair)
    ensures
        client@.uri == client.uri@,
        client@.connect_timeout == client.connect_timeout,
        client@.request_timeout == client.request_timeout,
        client@.socket == path_view(client.socket),
        client@.tls is Some <==> client.tls is Some,
        client.tls matches Some(tls) ==> client@.tls == Some(tls@),
        tls@.trusted == paths(tls.trusted@),
        tls@.identity is Some <==> tls.identity is Some,
        tls.identity matches Some(pair) ==> tls@.identity == Some(pair@),
        pair@.certificate == pair.certificate@,
        pair@.key == pair.key@,
{
}

/// Of a URL its text, scheme, host, port and file path are seen; of a binding its address or path.
pub proof fn law_urls_and_bindings_are_seen(
    url: UrlParts,
    copy: UrlParts,
    binding: Binding,
    bound: Binding,
    tls: ServerTlsConfig,
)
    requires
        call_ensures(UrlParts::clone, (&url,), copy),
        call_ensures(Binding::clone, (&binding,), bound),
    ensures
        url@.text == url.text@,
        url@.scheme == url.scheme@,
        url@.host is Some <==> url.host is Some,
        url.host matches Some(host) ==> url@.host == Some(host@),
        url@.port == url.port,
        url@.path == path_view(url.path),
        copy@ == url@,
        match binding {
            Binding::SocketAddr(addr) => binding@ == BindingView::SocketAddr(addr),
            Binding::UnixDomainSocket(path) => binding@ == BindingView::UnixDomainSocket(path@),
        },
        bound@ == binding@,
        tls@.certificate == tls.certificate@,
        tls@.key == tls.key@,
{
}

/// Paths are made of the bytes that they are given, and copies of them of the same.
pub proof fn law_paths_are_seen(
    bytes: Vec<u8>,
    path: FilePath,
    held: &Vec<u8>,
    maybe: Option<FilePath>,
    copy: Option<FilePath>,
    several: Vec<FilePath>,
    copies: Vec<FilePath>,
    i: int,
)
    requires
        call_ensures(FilePath::from_bytes, (bytes,), path),
        call_ensures(FilePath::as_bytes, (&path,), held),
        call_ensures(clone_path, (&maybe,), copy),
        call_ensures(clone_paths, (&several,), copies),
    ensures
        path@ == bytes@,
        held@ == bytes@,
        copy is Some <==> maybe is Some,
        maybe matches Some(path) ==> copy->0@ == path@,
        path_view(maybe) is Some <==> maybe is Some,
        maybe matches Some(path) ==> path_view(maybe) == Some(path@),
        copies@.len() == several@.len(),
        0 <= i < several@.len() ==> copies@[i]@ == several@[i]@,
        paths(several@).len() == several@.len(),
        0 <= i < several@.len() ==> paths(several@)[i] == several@[i]@,
{
    assert(paths(copies@).len() == copies@.len());
    assert(paths(several@).len() == several@.len());
    if 0 <= i < several@.len() {
        assert(paths(copies@)[i] == copies@[i]@);
        assert(paths(several@)[i] == several@[i]@);
    }
}

/// The backends of a list are seen each as it is.
pub proof fn law_backends_are_seen(backends: Seq<BesBackend>, i: int)
    ensures
        backend_views(backends).len() == backends.len(),
        0 <= i < backends.len() ==> backend_views(backends)[i] == backends[i]@,
{
}

/// The bounds that the outside world sets.
pub proof fn law_bounds()
    ensures
        MAX_URL_LEN == 2147483647,
        MAX_ENDPOINT_LEN == 357892096,
        MAX_HEADER_NAMES == 6553,
        Code::Internal != Code::InvalidArgument,
{
}

} // verus!
