//! What backends, their connections and the calls of them are for, said of the calls themselves.
use tonic::metadata::MetadataMap;
use vstd::prelude::*;
use vstd::utf8::encode_utf8;

use crate::endpoint::{
    endpoint_of, url_of, EndpointError, EndpointErrorView, EndpointUrl, UrlView,
};
use crate::forwarding::header_files::{
    are_header_files, header_file_error, header_file_position, header_file_values,
    header_files_error, law_few_header_files_fit, load_remote_header_files, reads_view,
    with_header_file, FileRead, FileReadView, HeaderFileView, RemoteHeaderFiles,
};
use crate::forwarding::service::{
    awaited, lifecycle_answer, lifecycle_reply_step, lifecycle_step, outbound_headers,
    outbound_metadata,
    BesForwardingService, LifecycleReply, LifecycleReplyView, LifecycleStep, LifecycleStepView,
    StartStep, StartStepView,
};
use crate::forwarding::{
    channel_result, https_url, is_generated_name, Addresses, BackendView, BesBackend,
    BesBackendBuilder, BuilderView, Client, ClientTls, ConnectError, ConnectErrorView, KeyPairView,
    Timeout, TlsOutcome,
};
use crate::metadata::{
    contents, copy_request_metadata, grouped, is_ascii_key, is_ascii_value, lemma_stopped_copying,
    merged, metadata_headers, values_of, HeaderValues,
};
use crate::path::{lossy_text, paths, FilePath};
use crate::status::{Code, Status, StatusView};
use crate::text::{
    all_digits, ascii_lowered, decimal, digits_value, is_ascii_lowercase, lemma_decimal,
    trimmed_end,
};

verus! {

// ---------------------------------------------------------------------------
// Connecting
// ---------------------------------------------------------------------------

/// The secure address of a host and a port names both: it is `https://` and the host, and behind a
/// colon stands a numeral of the port.
pub proof fn law_secure_address_names_host_and_port(host: Seq<char>, port: u16)
    ensures
        ("https://"@ + host + ":"@).is_prefix_of(https_url(host, port)),
        all_digits(https_url(host, port).skip(9 + host.len() as int)),
        https_url(host, port).len() > 9 + host.len(),
        digits_value(https_url(host, port).skip(9 + host.len() as int)) == port,
{
    reveal_strlit("https://");
    reveal_strlit(":");
    lemma_decimal(port as nat);
    assert(https_url(host, port).skip(9 + host.len() as int) =~= decimal(port as nat));
}

/// Different hosts, and different ports of one host, have different secure addresses.
pub proof fn law_secure_addresses_differ(host: Seq<char>, port: u16, other: Seq<char>, another: u16)
    requires
        https_url(host, port) == https_url(other, another),
    ensures
        host == other,
        port == another,
{
    law_secure_address_names_host_and_port(host, port);
    law_secure_address_names_host_and_port(other, another);
    reveal_strlit("https://");
    reveal_strlit(":");
    let text = https_url(host, port);
    let a = host.len() as int;
    let b = other.len() as int;
    assert(text[8 + a] == ("https://"@ + host + ":"@)[8 + a]);
    assert(text[8 + b] == ("https://"@ + other + ":"@)[8 + b]);
    if a < b {
        assert(text.skip(9 + a)[b - a - 1] == ':');
    }
    if b < a {
        assert(text.skip(9 + b)[a - b - 1] == ':');
    }
    assert(host =~= text.subrange(8, 8 + a)) by {
        assert forall|i: int| 0 <= i < a implies host[i] == text.subrange(8, 8 + a)[i] by {
            assert(text[8 + i] == ("https://"@ + host + ":"@)[8 + i]);
        }
    }
    assert(other =~= text.subrange(8, 8 + b)) by {
        assert forall|i: int| 0 <= i < b implies other[i] == text.subrange(8, 8 + b)[i] by {
            assert(text[8 + i] == ("https://"@ + other + ":"@)[8 + i]);
        }
    }
}

/// A client that is set up goes to the endpoint of its backend: for `grpcs` to the host and port
/// of the endpoint, for a unix domain socket to its file, and otherwise to the URL of the endpoint.
pub proof fn law_client_goes_to_the_endpoint(
    backend: &mut BesBackend,
    certificates: &Vec<FilePath>,
    tls: &TlsOutcome,
    r: Result<(), ConnectError>,
)
    requires
        call_ensures(BesBackend::lazy_connect, (backend, certificates, tls), r),
        old(backend)@.client is None,
        r is Ok,
    ensures
        final(backend)@.client is Some,
        ({
            let b = old(backend)@;
            let client = final(backend)@.client->0;
            let scheme = b.endpoint.scheme;
            &&& scheme == "grpcs"@ ==> {
                let url = url_of(
                    "https://"@ + b.endpoint.host->0 + ":"@ + decimal(b.endpoint.port->0 as nat),
                );
                url is Ok && client.uri == url->Ok_0.text
            }
            &&& scheme == "unix"@ ==> client.socket is Some && client.socket == b.endpoint.path
            &&& scheme == "unix"@ && b.uds_tls_uri is Some ==> client.uri == b.uds_tls_uri->0.text
            &&& scheme == "unix"@ && b.uds_tls_uri is None ==> client.uri == "http://[::]:50051"@
            &&& scheme != "unix"@ ==> client.socket is None
            &&& scheme != "unix"@ && scheme != "grpcs"@ ==> client.uri == b.endpoint.text
        }),
{
    reveal_strlit("grpcs");
    reveal_strlit("unix");
    assert("grpcs"@[0] == 'g');
    assert("unix"@[0] == 'u');
}

/// A client has the time limits of its backend. Its connection is secured exactly for the schemes
/// `grpcs` and `https` and for sockets with an address for TLS, and then trusts the certificates
/// that are given and identifies itself as the backend says.
pub proof fn law_client_is_set_up_as_the_backend_says(
    backend: &mut BesBackend,
    certificates: &Vec<FilePath>,
    tls: &TlsOutcome,
    r: Result<(), ConnectError>,
)
    requires
        call_ensures(BesBackend::lazy_connect, (backend, certificates, tls), r),
        old(backend)@.client is None,
        r is Ok,
    ensures
        ({
            let b = old(backend)@;
            let client = final(backend)@.client->0;
            &&& client.connect_timeout == b.connect_timeout
            &&& client.request_timeout == b.request_timeout
            &&& client.tls is Some <==> b.endpoint.scheme == "grpcs"@ || b.endpoint.scheme
                == "https"@ || b.uds_tls_uri is Some
            &&& client.tls matches Some(settings) ==> settings.trusted == paths(certificates@)
                && settings.identity == b.tls_client_identity
        }),
{
}

/// The TLS settings that are prepared are those that the client gets.
pub proof fn law_prepared_settings_are_those_of_the_client(
    backend: &mut BesBackend,
    certificates: &Vec<FilePath>,
    tls: &TlsOutcome,
    settings: Option<ClientTls>,
    r: Result<(), ConnectError>,
)
    requires
        call_ensures(BesBackend::tls_settings, (&*old(backend), certificates), settings),
        call_ensures(BesBackend::lazy_connect, (backend, certificates, tls), r),
        old(backend)@.client is None,
        r is Ok,
    ensures
        settings is Some <==> final(backend)@.client->0.tls is Some,
        settings matches Some(settings) ==> final(backend)@.client->0.tls == Some(settings@),
{
}

/// Connecting changes nothing of a backend but its client. A client that was set up before is
/// kept, and where none can be set up nothing changes.
pub proof fn law_connecting_sets_the_client_alone(
    backend: &mut BesBackend,
    certificates: &Vec<FilePath>,
    tls: &TlsOutcome,
    r: Result<(), ConnectError>,
)
    requires
        call_ensures(BesBackend::lazy_connect, (backend, certificates, tls), r),
    ensures
        final(backend)@ == (BackendView { client: final(backend)@.client, ..old(backend)@ }),
        old(backend)@.client is Some ==> r is Ok && final(backend)@.client
            == old(backend)@.client,
        r is Ok <==> final(backend)@.client is Some,
        r is Err ==> final(backend)@ == old(backend)@,
{
}

/// Why a client cannot be set up: the secure address is no URL, the address is not that of a
/// channel, the TLS settings could not be prepared, or the socket is at no file path.
pub proof fn law_why_no_client(
    backend: &mut BesBackend,
    certificates: &Vec<FilePath>,
    tls: &TlsOutcome,
    r: Result<(), ConnectError>,
)
    requires
        call_ensures(BesBackend::lazy_connect, (backend, certificates, tls), r),
        r is Err,
    ensures
        ({
            let b = old(backend)@;
            let secured = b.endpoint.scheme == "grpcs"@ || b.endpoint.scheme == "https"@
                || b.uds_tls_uri is Some;
            match r->Err_0@ {
                ConnectErrorView::NoUrl(words) => b.endpoint.scheme == "grpcs"@ && url_of(
                    "https://"@ + b.endpoint.host->0 + ":"@ + decimal(
                        b.endpoint.port->0 as nat,
                    ),
                ) == Err::<UrlView, Seq<char>>(words),
                ConnectErrorView::NoTlsUri(words) => b.endpoint.scheme == "unix"@ && b.uds_tls_uri
                    is Some && channel_result(b.uds_tls_uri->0.text) == Err::<(), Seq<char>>(
                    words,
                ),
                ConnectErrorView::NoEndpoint(name) => b.endpoint.scheme != "unix"@ && name
                    == b.name,
                ConnectErrorView::Tls(words) => secured && *tls is Failed && tls->Failed_0@
                    == words,
                ConnectErrorView::NoFilePath(text) => b.endpoint.scheme == "unix"@
                    && b.endpoint.path is None && text == b.endpoint.text,
            }
        }),
{
    reveal_strlit("grpcs");
    reveal_strlit("unix");
    assert("grpcs"@[0] == 'g');
    assert("unix"@[0] == 'u');
}

/// A client can be set up for a unix domain socket at a file path without TLS, and for another
/// endpoint if its address is that of a channel and the TLS settings, where it needs them, could
/// be prepared.
pub proof fn law_when_there_is_a_client(
    backend: &mut BesBackend,
    certificates: &Vec<FilePath>,
    tls: &TlsOutcome,
    r: Result<(), ConnectError>,
)
    requires
        call_ensures(BesBackend::lazy_connect, (backend, certificates, tls), r),
    ensures
        ({
            let b = old(backend)@;
            let secure = url_of(
                "https://"@ + b.endpoint.host->0 + ":"@ + decimal(b.endpoint.port->0 as nat),
            );
            &&& b.endpoint.scheme == "unix"@ && b.uds_tls_uri is None && b.endpoint.path is Some
                ==> r is Ok
            &&& b.endpoint.scheme == "unix"@ && b.uds_tls_uri is Some && channel_result(
                b.uds_tls_uri->0.text,
            ) is Ok && *tls is Prepared && b.endpoint.path is Some ==> r is Ok
            &&& b.endpoint.scheme == "grpcs"@ && secure is Ok && channel_result(
                secure->Ok_0.text,
            ) is Ok && *tls is Prepared ==> r is Ok
            &&& b.endpoint.scheme == "grpc"@ && b.uds_tls_uri is None && channel_result(
                b.endpoint.text,
            ) is Ok ==> r is Ok
        }),
{
    reveal_strlit("grpcs");
    reveal_strlit("grpc");
    reveal_strlit("https");
    reveal_strlit("unix");
    assert("grpcs"@[0] == 'g');
    assert("grpc"@[0] == 'g' && "grpc"@.len() == 4);
    assert("grpcs"@.len() == 5);
    assert("https"@[0] == 'h');
    assert("unix"@[0] == 'u');
}

/// What is found out about addresses decides: no URL to connect to, then no address of a channel,
/// then no TLS settings, then no file path of a socket, and else there is a client.
pub proof fn law_what_is_found_decides(
    backend: &mut BesBackend,
    certificates: &Vec<FilePath>,
    tls: &TlsOutcome,
    found: Addresses,
    r: Result<(), ConnectError>,
)
    requires
        call_ensures(BesBackend::connect_with, (backend, certificates, tls, found), r),
        old(backend)@.client is None,
    ensures
        ({
            let b = old(backend)@;
            let unix = b.endpoint.scheme == "unix"@;
            let secured = b.endpoint.scheme == "grpcs"@ || b.endpoint.scheme == "https"@
                || b.uds_tls_uri is Some;
            if found.target is Err {
                r is Err && r->Err_0@ == ConnectErrorView::NoUrl(found.target->Err_0@)
            } else if found.accepted is Err && unix {
                r is Err && r->Err_0@ == ConnectErrorView::NoTlsUri(found.accepted->Err_0@)
            } else if found.accepted is Err {
                r is Err && r->Err_0@ == ConnectErrorView::NoEndpoint(b.name)
            } else if secured && *tls is Failed {
                r is Err && r->Err_0@ == ConnectErrorView::Tls(tls->Failed_0@)
            } else if unix && found.path is None {
                r is Err && r->Err_0@ == ConnectErrorView::NoFilePath(b.endpoint.text)
            } else {
                &&& r is Ok
                &&& final(backend)@.client is Some
                &&& !unix ==> final(backend)@.client->0.uri == found.target->Ok_0@
                    && final(backend)@.client->0.socket is None
                &&& unix ==> final(backend)@.client->0.socket == Some(found.path->0@)
            }
        }),
{
}

/// The words for why there is no client.
pub proof fn law_connect_error_words(error: &ConnectError, r: String)
    requires
        call_ensures(ConnectError::message, (error,), r),
    ensures
        match error {
            ConnectError::NoUrl(words) => r@ == words@,
            ConnectError::NoTlsUri(words) => r@ == words@,
            ConnectError::NoEndpoint(name) => r@ == "failed to parse endpoint for backend "@
                + name@,
            ConnectError::Tls(words) => r@ == words@,
            ConnectError::NoFilePath(text) => r@ == "failed to convert url "@ + text@
                + " to file path"@,
        },
{
}

// ---------------------------------------------------------------------------
// Building
// ---------------------------------------------------------------------------

/// Each setter of a builder sets what it is named for, to what it is given, and nothing else.
pub proof fn law_builder_setters(
    b: BesBackendBuilder,
    name: &str,
    headers: MetadataMap,
    files: RemoteHeaderFiles,
    asynchronous: bool,
    certificate: FilePath,
    key: FilePath,
    timeout: Timeout,
    size: usize,
    r: Seq<BesBackendBuilder>,
)
    requires
        r.len() == 8,
        call_ensures(BesBackendBuilder::name, (b, name), r[0]),
        call_ensures(BesBackendBuilder::remote_headers, (b, headers), r[1]),
        call_ensures(BesBackendBuilder::remote_header_files, (b, files), r[2]),
        call_ensures(BesBackendBuilder::asynchronous, (b, asynchronous), r[3]),
        call_ensures(BesBackendBuilder::tls_client_identity, (b, certificate, key), r[4]),
        call_ensures(BesBackendBuilder::connect_timeout, (b, timeout), r[5]),
        call_ensures(BesBackendBuilder::request_timeout, (b, timeout), r[6]),
        call_ensures(BesBackendBuilder::request_buffer_size, (b, size), r[7]),
    ensures
        r[0]@ == (BuilderView { name: Some(name@), ..b@ }),
        r[1]@ == (BuilderView { remote_headers: contents(headers), ..b@ }),
        r[2]@ == (BuilderView { remote_header_files: files@, ..b@ }),
        r[3]@ == (BuilderView { asynchronous, ..b@ }),
        r[4]@ == (BuilderView {
            tls_client_identity: Some(KeyPairView { certificate: certificate@, key: key@ }),
            ..b@
        }),
        r[5]@ == (BuilderView { connect_timeout: Some(timeout), ..b@ }),
        r[6]@ == (BuilderView { request_timeout: Some(timeout), ..b@ }),
        r[7]@ == (BuilderView { request_buffer_size: size, ..b@ }),
{
}

/// A backend has all that was set in its builder, and no client yet. Its name is the one that was
/// set; else it is made of eight lower case letters.
pub proof fn law_backend_is_as_it_was_built(b: BesBackendBuilder, r: BesBackend)
    requires
        call_ensures(BesBackendBuilder::build, (b,), r),
    ensures
        r@.endpoint == b@.endpoint,
        r@.remote_headers == b@.remote_headers,
        r@.remote_header_files == b@.remote_header_files,
        r@.asynchronous == b@.asynchronous,
        r@.tls_client_identity == b@.tls_client_identity,
        r@.connect_timeout == b@.connect_timeout,
        r@.request_timeout == b@.request_timeout,
        r@.request_buffer_size == b@.request_buffer_size,
        r@.client is None,
        r@.uds_tls_uri is None,
        b@.name is Some ==> Some(r@.name) == b@.name,
        b@.name is None ==> r@.name.len() == 8 && forall|i: int|
            0 <= i < r@.name.len() ==> 'a' <= #[trigger] r@.name[i] <= 'z',
{
    if b@.name is None {
        assert(is_generated_name(r@.name));
        assert forall|i: int| 0 <= i < r@.name.len() implies 'a' <= #[trigger] r@.name[i]
            <= 'z' by {
            assert(is_ascii_lowercase(r@.name[i]));
        }
    }
}

/// Building with letters gives the same backend as building without, but that a name that was not
/// set is made of these letters.
pub proof fn law_letters_become_the_name(b: BesBackendBuilder, letters: &str, r: BesBackend)
    requires
        call_ensures(BesBackendBuilder::build_with, (b, letters), r),
    ensures
        b@.name is Some ==> Some(r@.name) == b@.name,
        b@.name is None ==> r@.name == ascii_lowered(letters@),
        r@ == (BackendView {
            name: r@.name,
            endpoint: b@.endpoint,
            remote_headers: b@.remote_headers,
            remote_header_files: b@.remote_header_files,
            asynchronous: b@.asynchronous,
            client: None,
            uds_tls_uri: None,
            tls_client_identity: b@.tls_client_identity,
            connect_timeout: b@.connect_timeout,
            request_timeout: b@.request_timeout,
            request_buffer_size: b@.request_buffer_size,
        }),
{
}

/// A backend of which only the endpoint is known is waited for, has no headers, no identity and no
/// time limits, and room for five hundred requests.
pub proof fn law_backend_defaults(
    endpoint: &str,
    builder: Result<BesBackendBuilder, EndpointError>,
    name: String,
    url: EndpointUrl,
    backend: BesBackend,
)
    requires
        call_ensures(BesBackend::builder, (endpoint,), builder),
        call_ensures(BesBackend::new, (name, url), backend),
    ensures
        builder matches Ok(b) ==> {
            &&& b@.name is None
            &&& b@.remote_headers == HeaderValues::empty()
            &&& b@.remote_header_files.len() == 0
            &&& !b@.asynchronous
            &&& b@.tls_client_identity is None
            &&& b@.connect_timeout is None
            &&& b@.request_timeout is None
            &&& b@.request_buffer_size == 500
            &&& endpoint_of(endpoint@) == Ok::<
                UrlView,
                EndpointErrorView,
            >(b@.endpoint)
        },
        builder matches Err(error) ==> endpoint_of(endpoint@) == Err::<
            UrlView,
            EndpointErrorView,
        >(error@),
        backend@.name == name@,
        backend@.endpoint == url@,
        backend@.remote_headers == HeaderValues::empty(),
        backend@.remote_header_files.len() == 0,
        !backend@.asynchronous,
        backend@.client is None,
        backend@.uds_tls_uri is None,
        backend@.tls_client_identity is None,
        backend@.connect_timeout is None,
        backend@.request_timeout is None,
        backend@.request_buffer_size == 500,
{
}

/// Each setter of a backend sets what it is named for and nothing else, and what is asked of a
/// backend is what it holds.
pub proof fn law_backend_setters_and_getters(
    b: &BesBackend,
    name: &String,
    size: usize,
    set: &mut BesBackend,
    asynchronous: bool,
    identified: &mut BesBackend,
    certificate: FilePath,
    key: FilePath,
    addressed: &mut BesBackend,
    url: EndpointUrl,
)
    requires
        call_ensures(BesBackend::name, (b,), name),
        call_ensures(BesBackend::request_buffer_size, (b,), size),
        call_ensures(BesBackend::set_async, (set, asynchronous), ()),
        call_ensures(
            BesBackend::set_client_tls_identity,
            (identified, certificate, key),
            (),
        ),
        call_ensures(BesBackend::use_uds_tls_uri, (addressed, url), ()),
    ensures
        name@ == b@.name,
        size == b@.request_buffer_size,
        final(set)@ == (BackendView { asynchronous, ..old(set)@ }),
        final(identified)@ == (BackendView {
            tls_client_identity: Some(KeyPairView { certificate: certificate@, key: key@ }),
            ..old(identified)@
        }),
        final(addressed)@ == (BackendView { uds_tls_uri: Some(url@), ..old(addressed)@ }),
{
}

// ---------------------------------------------------------------------------
// The service
// ---------------------------------------------------------------------------

/// An event stream is started with every backend in turn: detached with the asynchronous ones, and
/// with the others so that their responses are kept. After the last one the build tool is answered
/// with a stream of which nothing is known yet.
pub proof fn law_stream_is_started_with_every_backend(
    service: &BesForwardingService,
    done: usize,
    r: StartStep,
)
    requires
        call_ensures(BesForwardingService::next_start, (service, done), r),
    ensures
        r matches StartStep::Open(i) ==> i == done,
        r matches StartStep::Detach(i) ==> i == done,
        r is Detach <==> done < service@.backends.len()
            && service@.backends[done as int].asynchronous,
        r is Open <==> done < service@.backends.len()
            && !service@.backends[done as int].asynchronous,
        r is Respond <==> done >= service@.backends.len(),
        r matches StartStep::Respond(state) ==> {
            &&& state@.stream_id is None
            &&& state@.error_at_latest is None
            &&& !state@.request_stream_completed
            &&& !state@.controlled_exit
            &&& state@.backends == service@.backends.filter(
                |b: BackendView| !b.asynchronous,
            ).map_values(|b: BackendView| b.name)
        },
{
    lemma_awaited(service@.backends);
}

/// The backends that are waited for are those that are not asynchronous, in their order.
proof fn lemma_awaited(backends: Seq<BackendView>)
    ensures
        awaited(backends) == backends.filter(|b: BackendView| !b.asynchronous).map_values(
            |b: BackendView| b.name,
        ),
    decreases backends.len(),
{
    reveal(Seq::filter);
    let kept = |b: BackendView| !b.asynchronous;
    let name = |b: BackendView| b.name;
    if backends.len() > 0 {
        lemma_awaited(backends.drop_last());
        let before = backends.drop_last().filter(kept);
        if !backends.last().asynchronous {
            assert(backends.filter(kept) =~= before.push(backends.last()));
            assert(before.push(backends.last()).map_values(name) =~= before.map_values(name).push(
                backends.last().name,
            ));
        } else {
            assert(backends.filter(kept) =~= before);
        }
    }
    assert(awaited(backends) =~= backends.filter(kept).map_values(name));
}

/// After a backend that the stream was started with comes the next one. The first failure is what
/// the build tool is answered, as it is.
pub proof fn law_start_goes_on_or_fails(
    service: &BesForwardingService,
    i: usize,
    outcome: Result<(), Status>,
    r: StartStep,
    next: StartStep,
)
    requires
        i < service@.backends.len(),
        i < usize::MAX,
        call_ensures(BesForwardingService::on_started, (service, i, outcome), r),
        call_ensures(BesForwardingService::next_start, (service, (i + 1) as usize), next),
    ensures
        outcome matches Err(status) ==> r@ == StartStepView::Fail(status@),
        outcome is Ok ==> r@ == next@ && !(r is Fail),
{
}

/// A lifecycle event is sent to every backend in turn, asynchronous or not, and acknowledged after
/// the last one has accepted it.
pub proof fn law_lifecycle_event_is_sent_to_every_backend(
    service: &BesForwardingService,
    done: usize,
    r: LifecycleStep,
)
    requires
        call_ensures(BesForwardingService::next_lifecycle, (service, done), r),
    ensures
        done < service@.backends.len() ==> r@ == LifecycleStepView::Send(done as int),
        done >= service@.backends.len() ==> r is Acknowledge,
{
}

/// After a backend that accepted a lifecycle event comes the next one, or the acknowledgement. A
/// backend that refuses it fails it with its own status, told under its name; a request that
/// could not be made fails it as it is.
pub proof fn law_lifecycle_goes_on_or_fails(
    service: &BesForwardingService,
    i: usize,
    reply: &LifecycleReply,
    r: LifecycleStep,
)
    requires
        i < service@.backends.len(),
        call_ensures(BesForwardingService::on_lifecycle_reply, (service, i, reply), r),
    ensures
        match reply@ {
            LifecycleReplyView::Accepted => if i + 1 < service@.backends.len() {
                r@ == LifecycleStepView::Send(i + 1)
            } else {
                r is Acknowledge
            },
            LifecycleReplyView::Refused(status) => r@ == LifecycleStepView::Fail(
                StatusView {
                    code: status.code,
                    message: service@.backends[i as int].name + " failed lifecycle request: "@
                        + status.message,
                    details: status.details,
                    metadata: status.metadata,
                },
            ),
            LifecycleReplyView::NotSent(status) => r@ == LifecycleStepView::Fail(status),
        },
{
}

/// A lifecycle event that every backend accepts has been sent to every one of them.
pub proof fn law_acknowledged_lifecycle_event_reached_all(
    backends: Seq<BackendView>,
    replies: Seq<LifecycleReplyView>,
    done: int,
)
    requires
        replies.len() == backends.len(),
        0 <= done <= backends.len(),
        forall|i: int| done <= i < replies.len() ==> (#[trigger] replies[i]) is Accepted,
    ensures
        lifecycle_answer(backends, replies, done) == (
            backends.len() as int,
            LifecycleStepView::Acknowledge,
        ),
    decreases backends.len() - done,
{
    if done < backends.len() {
        assert(replies[done] is Accepted);
        law_acknowledged_lifecycle_event_reached_all(backends, replies, done + 1);
        assert(lifecycle_step(backends, done) == LifecycleStepView::Send(done));
        if done + 1 == backends.len() {
            assert(lifecycle_reply_step(backends, done, replies[done]) is Acknowledge);
        }
    }
}

/// Certificates are trusted for backends that are added later, and backends stay in the order in
/// which they were added, each with a client.
pub proof fn law_service_grows(
    fresh: BesForwardingService,
    trusting: &mut BesForwardingService,
    certificate: FilePath,
    service: &mut BesForwardingService,
    backend: BesBackend,
    tls: &TlsOutcome,
    r: Result<(), ConnectError>,
)
    requires
        call_ensures(BesForwardingService::new, (), fresh),
        call_ensures(BesForwardingService::add_tls_trusted_cert, (trusting, certificate), ()),
        call_ensures(BesForwardingService::add_backend, (service, backend, tls), r),
    ensures
        fresh@.backends.len() == 0,
        fresh@.tls_certificates.len() == 0,
        final(trusting)@.backends == old(trusting)@.backends,
        final(trusting)@.tls_certificates == old(trusting)@.tls_certificates.push(certificate@),
        final(service)@.tls_certificates == old(service)@.tls_certificates,
        r is Err ==> final(service)@ == old(service)@,
        r is Ok ==> {
            let added = final(service)@.backends.last();
            &&& final(service)@.backends == old(service)@.backends.push(added)
            &&& added == (BackendView { client: added.client, ..backend@ })
            &&& added.client is Some
            &&& backend@.client is None ==> added.client->0.connect_timeout
                == backend@.connect_timeout && (added.client->0.tls matches Some(settings)
                ==> settings.trusted == old(service)@.tls_certificates && settings.identity
                == backend@.tls_client_identity)
        },
{
}

// ---------------------------------------------------------------------------
// Headers
// ---------------------------------------------------------------------------

/// A request to a backend has exactly the headers of the build tool's request, of the backend and
/// of its files; the values of a name stand in this order.
pub proof fn law_outbound_headers(
    client: &MetadataMap,
    backend: &MetadataMap,
    files: &MetadataMap,
    name: Seq<char>,
    r: Option<MetadataMap>,
)
    requires
        call_ensures(outbound_metadata, (client, backend, files), r),
        r is Some,
    ensures
        contents(r->0).contains_key(name) <==> contents(*client).contains_key(name) || contents(
            *backend,
        ).contains_key(name) || contents(*files).contains_key(name),
        values_of(contents(r->0), name) == values_of(contents(*client), name) + values_of(
            contents(*backend),
            name,
        ) + values_of(contents(*files), name),
{
    assert(values_of(contents(r->0), name) =~= values_of(contents(*client), name) + values_of(
        contents(*backend),
        name,
    ) + values_of(contents(*files), name));
}

/// Copying headers keeps those that are there and puts the values of the copied ones behind them.
pub proof fn law_copied_headers(
    from: &MetadataMap,
    to: &mut MetadataMap,
    name: Seq<char>,
    r: bool,
)
    requires
        call_ensures(copy_request_metadata, (from, to), r),
        r,
    ensures
        contents(*final(to)).contains_key(name) <==> contents(*old(to)).contains_key(name)
            || contents(*from).contains_key(name),
        values_of(contents(*final(to)), name) == values_of(contents(*old(to)), name) + values_of(
            contents(*from),
            name,
        ),
{
    assert(values_of(contents(*final(to)), name) =~= values_of(contents(*old(to)), name)
        + values_of(contents(*from), name));
}

/// The values of a name are those that are held under it, none if the name is absent.
pub proof fn law_values_of_a_name(m: HeaderValues, name: Seq<char>)
    ensures
        m.contains_key(name) ==> values_of(m, name) == m[name],
        !m.contains_key(name) ==> values_of(m, name).len() == 0,
{
}

/// Headers are made of the files of a backend only if each was read and holds the value of a
/// header; then each header has the text of its file, without trailing white space, as its only
/// value, which is kept out of logs.
pub proof fn law_headers_are_read_from_files(
    files: &RemoteHeaderFiles,
    reads: &Vec<FileRead>,
    backend: &str,
    k: int,
    r: Result<MetadataMap, Status>,
)
    requires
        reads@.len() == files@.len(),
        are_header_files(files@),
        call_ensures(load_remote_header_files, (files, reads, backend), r),
        r is Ok,
        0 <= k < files@.len(),
    ensures
        reads@[k] is Text,
        ({
            let text = reads@[k]->Text_0@;
            let values = contents(r->Ok_0)[files@[k].key];
            &&& contents(r->Ok_0).contains_key(files@[k].key)
            &&& values.len() == 1
            &&& values[0].sensitive
            &&& values[0].bytes == encode_utf8(trimmed_end(text))
            &&& is_ascii_value(trimmed_end(text))
        }),
{
    let views = reads_view(reads@);
    assert(views[k] == reads@[k]@);
    lemma_no_file_error(files@, views, backend@, 0, k);
    lemma_file_value(files@, views, files@.len() as int, k);
}

proof fn lemma_no_file_error(
    entries: Seq<HeaderFileView>,
    reads: Seq<FileReadView>,
    backend: Seq<char>,
    from: int,
    k: int,
)
    requires
        0 <= from <= k < entries.len(),
        header_files_error(entries, reads, backend, from) is None,
    ensures
        reads[k] matches FileReadView::Text(text) && is_ascii_value(trimmed_end(text)),
    decreases k - from,
{
    if from < k {
        lemma_no_file_error(entries, reads, backend, from + 1, k);
    }
}

proof fn lemma_file_value(
    entries: Seq<HeaderFileView>,
    reads: Seq<FileReadView>,
    n: int,
    k: int,
)
    requires
        0 <= k < n <= entries.len(),
        are_header_files(entries),
    ensures
        ({
            let all = header_file_values(entries, reads, n);
            &&& all.contains_key(entries[k].key)
            &&& all[entries[k].key].len() == 1
            &&& all[entries[k].key][0].sensitive
            &&& all[entries[k].key][0].bytes == encode_utf8(trimmed_end(reads[k]->Text_0))
        }),
    decreases n,
{
    if k < n - 1 {
        lemma_file_value(entries, reads, n - 1, k);
        assert(entries[k].key != entries[n - 1].key);
    }
}

/// Headers made of files have no other names than those of the files.
pub proof fn law_no_other_headers_from_files(
    files: &RemoteHeaderFiles,
    reads: &Vec<FileRead>,
    backend: &str,
    name: Seq<char>,
    r: Result<MetadataMap, Status>,
)
    requires
        call_ensures(load_remote_header_files, (files, reads, backend), r),
        r is Ok,
        contents(r->Ok_0).contains_key(name),
    ensures
        exists|k: int| 0 <= k < files@.len() && (#[trigger] files@[k]).key == name,
{
    lemma_file_name(files@, reads_view(reads@), files@.len() as int, name);
}

proof fn lemma_file_name(
    entries: Seq<HeaderFileView>,
    reads: Seq<FileReadView>,
    n: int,
    name: Seq<char>,
)
    requires
        n <= entries.len(),
        header_file_values(entries, reads, n).contains_key(name),
    ensures
        exists|k: int| 0 <= k < n && (#[trigger] entries[k]).key == name,
    decreases n,
{
    if n > 0 {
        if entries[n - 1].key != name {
            lemma_file_name(entries, reads, n - 1, name);
        }
    }
}

/// The first file that could not be read, or that holds no value of a header, is what is reported,
/// with its path and the name of the backend, unless a map refused a header before it.
pub proof fn law_first_wrong_file_is_reported(
    files: &RemoteHeaderFiles,
    reads: &Vec<FileRead>,
    backend: &str,
    k: int,
    r: Result<MetadataMap, Status>,
)
    requires
        reads@.len() == files@.len() <= 6553,
        call_ensures(load_remote_header_files, (files, reads, backend), r),
        0 <= k < files@.len(),
        forall|i: int|
            0 <= i < k ==> (#[trigger] reads@[i]) is Text && is_ascii_value(
                trimmed_end(reads@[i]->Text_0@),
            ),
        !(reads@[k] is Text && is_ascii_value(trimmed_end(reads@[k]->Text_0@))),
    ensures
        r matches Err(status) && status@.code == Code::Internal && status@.details.len() == 0
            && status@.metadata.len() == 0 && status@.message == match reads@[k] {
            FileRead::Text(_) => "remote header from file "@ + lossy_text(files@[k].path)
                + " for backend "@ + backend@ + " has invalid value"@,
            FileRead::Failed(error) => "failed to load remote header file "@ + lossy_text(
                files@[k].path,
            ) + " for backend "@ + backend@ + ": "@ + error@,
        },
{
    let views = reads_view(reads@);
    assert forall|i: int| 0 <= i < reads@.len() implies #[trigger] views[i] == reads@[i]@ by {
    }
    assert forall|i: int| 0 <= i < k implies (#[trigger] views[i] matches FileReadView::Text(text)
        && is_ascii_value(trimmed_end(text))) by {
        assert(views[i] == reads@[i]@);
        assert(reads@[i] is Text);
    }
    lemma_first_file_error(files@, views, backend@, 0, k);
    law_few_header_files_fit(files@, views, backend@);
}

proof fn lemma_first_file_error(
    entries: Seq<HeaderFileView>,
    reads: Seq<FileReadView>,
    backend: Seq<char>,
    from: int,
    k: int,
)
    requires
        0 <= from <= k < entries.len(),
        forall|i: int|
            from <= i < k ==> (#[trigger] reads[i] matches FileReadView::Text(text)
                && is_ascii_value(trimmed_end(text))),
    ensures
        header_file_error(entries[k], reads[k], backend) is Some ==> header_files_error(
            entries,
            reads,
            backend,
            from,
        ) == header_file_error(entries[k], reads[k], backend),
    decreases k - from,
{
    if from < k {
        assert(reads[from] matches FileReadView::Text(text) && is_ascii_value(trimmed_end(text)));
        lemma_first_file_error(entries, reads, backend, from + 1, k);
    }
}

/// The file of a header is set under its name in lower case. Files of other headers stay, and each
/// header has one file. A key that is not that of an ASCII header changes nothing.
pub proof fn law_header_file_is_set(
    files: &mut RemoteHeaderFiles,
    key: &str,
    path: FilePath,
    other: HeaderFileView,
    r: bool,
)
    requires
        call_ensures(RemoteHeaderFiles::insert, (files, key, path), r),
        are_header_files(old(files)@),
    ensures
        r == is_ascii_key(key@),
        !r ==> final(files)@ == old(files)@,
        r ==> final(files)@.contains(HeaderFileView { key: ascii_lowered(key@), path: path@ }),
        r && other.key != ascii_lowered(key@) ==> (final(files)@.contains(other) <==> old(
            files,
        )@.contains(other)),
        r && other.key == ascii_lowered(key@) && final(files)@.contains(other) ==> other.path
            == path@,
{
    let entries = old(files)@;
    let entry = HeaderFileView { key: ascii_lowered(key@), path: path@ };
    lemma_with_header_file(entries, entry, other);
}

proof fn lemma_position(entries: Seq<HeaderFileView>, key: Seq<char>, from: int)
    requires
        0 <= from <= entries.len(),
    ensures
        ({
            let i = header_file_position(entries, key, from);
            &&& from <= i <= entries.len()
            &&& i < entries.len() ==> entries[i].key == key
            &&& forall|j: int| from <= j < i ==> (#[trigger] entries[j]).key != key
        }),
    decreases entries.len() - from,
{
    if from < entries.len() && entries[from].key != key {
        lemma_position(entries, key, from + 1);
    }
}

proof fn lemma_with_header_file(
    entries: Seq<HeaderFileView>,
    entry: HeaderFileView,
    other: HeaderFileView,
)
    requires
        are_header_files(entries),
    ensures
        with_header_file(entries, entry).contains(entry),
        other.key != entry.key ==> (with_header_file(entries, entry).contains(other)
            <==> entries.contains(other)),
        other.key == entry.key && with_header_file(entries, entry).contains(other) ==> other
            == entry,
{
    lemma_position(entries, entry.key, 0);
    let i = header_file_position(entries, entry.key, 0);
    let r = with_header_file(entries, entry);
    if i < entries.len() {
        assert(r[i] == entry);
    } else {
        assert(r[entries.len() as int] == entry);
    }
    if entries.contains(other) && other.key != entry.key {
        let k = choose|k: int| 0 <= k < entries.len() && entries[k] == other;
        assert(r[k] == other);
    }
    if r.contains(other) {
        let k = choose|k: int| 0 <= k < r.len() && r[k] == other;
        if other.key != entry.key {
            assert(entries[k] == other);
        } else if k != i {
            assert(entries[k].key == entry.key);
        }
    }
}

/// The client of a backend is the one that was set up for it.
pub proof fn law_client_of_a_backend(b: BesBackend, client: Option<&Client>)
    requires
        call_ensures(BesBackend::client, (&b,), client),
    ensures
        client is Some <==> b@.client is Some,
        client matches Some(client) ==> b@.client == Some(client@),
{
}

/// What decides whether there is a client, in this order: the secure address of a `grpcs` endpoint
/// is a URL; the address is that of a channel, which for a socket without TLS is not asked; the
/// TLS settings, where they are needed, could be prepared; a socket is at a file path.
pub proof fn law_what_decides_on_a_client(
    backend: &mut BesBackend,
    certificates: &Vec<FilePath>,
    tls: &TlsOutcome,
    r: Result<(), ConnectError>,
)
    requires
        call_ensures(BesBackend::lazy_connect, (backend, certificates, tls), r),
        old(backend)@.client is None,
    ensures
        ({
            let b = old(backend)@;
            let unix = b.endpoint.scheme == "unix"@;
            let grpcs = b.endpoint.scheme == "grpcs"@;
            let secured = grpcs || b.endpoint.scheme == "https"@ || b.uds_tls_uri is Some;
            let secure = url_of(
                "https://"@ + b.endpoint.host->0 + ":"@ + decimal(b.endpoint.port->0 as nat),
            );
            let uri = if unix && b.uds_tls_uri is Some {
                b.uds_tls_uri->0.text
            } else if unix {
                "http://[::]:50051"@
            } else if grpcs {
                secure->Ok_0.text
            } else {
                b.endpoint.text
            };
            let accepted = uri == "http://[::]:50051"@ || channel_result(uri) is Ok;
            if grpcs && secure is Err {
                r is Err && r->Err_0@ == ConnectErrorView::NoUrl(secure->Err_0)
            } else if !accepted && unix {
                r is Err && r->Err_0@ == ConnectErrorView::NoTlsUri(channel_result(uri)->Err_0)
            } else if !accepted {
                r is Err && r->Err_0@ == ConnectErrorView::NoEndpoint(b.name)
            } else if secured && *tls is Failed {
                r is Err && r->Err_0@ == ConnectErrorView::Tls(tls->Failed_0@)
            } else if unix && b.endpoint.path is None {
                r is Err && r->Err_0@ == ConnectErrorView::NoFilePath(b.endpoint.text)
            } else {
                r is Ok && final(backend)@.client is Some && final(backend)@.client->0.uri == uri
            }
        }),
{
    reveal_strlit("grpcs");
    reveal_strlit("unix");
    assert("grpcs"@[0] == 'g');
    assert("unix"@[0] == 'u');
}

/// A service takes a backend exactly if the backend can be connected to with the certificates that
/// the service trusts, and then keeps it as it is once connected.
pub proof fn law_service_connects_its_backends(
    service: &mut BesForwardingService,
    backend: BesBackend,
    alike: &mut BesBackend,
    certificates: &Vec<FilePath>,
    tls: &TlsOutcome,
    r: Result<(), ConnectError>,
    t: Result<(), ConnectError>,
)
    requires
        call_ensures(BesForwardingService::add_backend, (service, backend, tls), r),
        old(alike)@ == backend@,
        paths(certificates@) == old(service)@.tls_certificates,
        call_ensures(BesBackend::lazy_connect, (alike, certificates, tls), t),
    ensures
        r is Ok <==> t is Ok,
        r matches Err(error) ==> error@ == t->Err_0@,
        r is Ok ==> final(service)@.backends == old(service)@.backends.push(final(alike)@),
{
}

/// Headers that have few names reach the backend.
pub proof fn law_few_headers_reach_the_backend(
    client: &MetadataMap,
    backend: &MetadataMap,
    files: &MetadataMap,
    r: Option<MetadataMap>,
)
    requires
        call_ensures(outbound_metadata, (client, backend, files), r),
        contents(*client).dom().finite(),
        contents(*backend).dom().finite(),
        contents(*files).dom().finite(),
        contents(*client).dom().len() + contents(*backend).dom().len() + contents(
            *files,
        ).dom().len() <= 6553,
    ensures
        r is Some,
{
    let c = contents(*client).dom();
    let b = contents(*backend).dom();
    let f = contents(*files).dom();
    vstd::set_lib::lemma_len_union(c, b);
    vstd::set_lib::lemma_len_union(c.union(b), f);
    assert(outbound_headers(contents(*client), contents(*backend), contents(*files)).dom()
        =~= c.union(b).union(f));
}

/// Headers that have few names are all copied.
pub proof fn law_few_headers_are_copied(from: &MetadataMap, to: &mut MetadataMap, r: bool)
    requires
        call_ensures(copy_request_metadata, (from, to), r),
        contents(*old(to)).dom().finite(),
        contents(*from).dom().finite(),
        contents(*old(to)).dom().len() + contents(*from).dom().len() <= 6553,
    ensures
        r,
{
    if !r {
        lemma_stopped_copying(contents(*old(to)), *from, contents(*final(to)));
        let a = contents(*old(to)).dom();
        let b = contents(*from).dom();
        vstd::set_lib::lemma_len_union(a, b);
        assert(merged(contents(*old(to)), contents(*from)).dom() =~= a.union(b));
    }
}

/// The headers of a backend's files can be made if each file was read and holds the value of a
/// header, and they are no more than a map is known to take.
pub proof fn law_proper_files_make_headers(
    files: &RemoteHeaderFiles,
    reads: &Vec<FileRead>,
    backend: &str,
    r: Result<MetadataMap, Status>,
)
    requires
        reads@.len() == files@.len() <= 6553,
        call_ensures(load_remote_header_files, (files, reads, backend), r),
        forall|i: int|
            0 <= i < reads@.len() ==> (#[trigger] reads@[i]) is Text && is_ascii_value(
                trimmed_end(reads@[i]->Text_0@),
            ),
    ensures
        r is Ok,
{
    let views = reads_view(reads@);
    assert forall|i: int| 0 <= i < reads@.len() implies #[trigger] header_file_error(
        files@[i],
        views[i],
        backend@,
    ) is None by {
        assert(views[i] == reads@[i]@);
        assert(reads@[i] is Text);
    }
    lemma_proper_files(files@, views, backend@, 0);
    law_few_header_files_fit(files@, views, backend@);
}

proof fn lemma_proper_files(
    entries: Seq<HeaderFileView>,
    reads: Seq<FileReadView>,
    backend: Seq<char>,
    from: int,
)
    requires
        0 <= from <= entries.len(),
        forall|i: int|
            from <= i < entries.len() ==> #[trigger] header_file_error(
                entries[i],
                reads[i],
                backend,
            ) is None,
    ensures
        header_files_error(entries, reads, backend, from) is None,
    decreases entries.len() - from,
{
    if from < entries.len() {
        assert(header_file_error(entries[from], reads[from], backend) is None);
        lemma_proper_files(entries, reads, backend, from + 1);
    }
}

/// Copying that stops has taken nothing away: each name has the values that it had, before any that
/// were added.
pub proof fn law_stopped_copying_takes_nothing_away(
    from: &MetadataMap,
    to: &mut MetadataMap,
    name: Seq<char>,
    r: bool,
)
    requires
        call_ensures(copy_request_metadata, (from, to), r),
        !r,
    ensures
        contents(*final(to)).dom().len() > 6553,
        values_of(contents(*old(to)), name).is_prefix_of(values_of(contents(*final(to)), name)),
{
    let before = contents(*old(to));
    let headers = metadata_headers(*from);
    let n = choose|n: int|
        0 <= n < headers.len() && contents(*final(to)) == merged(
            before,
            grouped(#[trigger] headers.take(n)),
        );
    assert(values_of(contents(*final(to)), name) =~= values_of(before, name) + values_of(
        grouped(headers.take(n)),
        name,
    ));
}

/// Where nothing is wrong with any file and there are still no headers, there are more files than a
/// map is known to take, and that is what is said.
pub proof fn law_too_many_files_are_reported(
    files: &RemoteHeaderFiles,
    reads: &Vec<FileRead>,
    backend: &str,
    r: Result<MetadataMap, Status>,
)
    requires
        reads@.len() == files@.len(),
        call_ensures(load_remote_header_files, (files, reads, backend), r),
        forall|i: int|
            0 <= i < reads@.len() ==> (#[trigger] reads@[i]) is Text && is_ascii_value(
                trimmed_end(reads@[i]->Text_0@),
            ),
        r is Err,
    ensures
        files@.len() > 6553,
        r->Err_0@.code == Code::Internal,
        r->Err_0@.message == "too many remote header files for backend "@ + backend@,
{
    let views = reads_view(reads@);
    assert forall|i: int| 0 <= i < reads@.len() implies #[trigger] header_file_error(
        files@[i],
        views[i],
        backend@,
    ) is None by {
        assert(views[i] == reads@[i]@);
        assert(reads@[i] is Text);
    }
    lemma_proper_files(files@, views, backend@, 0);
    if files@.len() <= 6553 {
        law_few_header_files_fit(files@, views, backend@);
    }
}

} // verus!
