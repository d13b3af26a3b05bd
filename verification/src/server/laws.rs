//! What the server is made of, said of the calls themselves.
use vstd::prelude::*;

use crate::binding::{Binding, BindingView};
use crate::forwarding::service::connected;
use crate::forwarding::{
    BackendView, BesBackend, BesForwardingService, ConnectError, ConnectErrorView, TlsOutcome,
};
use crate::path::{paths, FilePath};
use crate::server::{
    GrpcBesServer, GrpcBesServerConfig, ServePlan, ServePlanView, ServerLimits,
    ServerTlsSettings, ServerTlsSettingsView, ServerView,
};
use crate::{all_backends_connected, prepare, Config};

verus! {

/// Each setting of a server is the one that was given, and setting one leaves the others.
pub proof fn law_server_settings(
    binding: Binding,
    bare: GrpcBesServerConfig,
    config: GrpcBesServerConfig,
    certificate: FilePath,
    key: FilePath,
    clients: Vec<FilePath>,
    require: bool,
    secured: GrpcBesServerConfig,
    limits: ServerLimits,
    limited: GrpcBesServerConfig,
    service: BesForwardingService,
    server: GrpcBesServer,
)
    requires
        call_ensures(GrpcBesServer::listen, (binding,), bare),
        call_ensures(
            GrpcBesServerConfig::tls_config,
            (config, certificate, key, clients, require),
            secured,
        ),
        call_ensures(GrpcBesServerConfig::limits, (config, limits), limited),
        call_ensures(GrpcBesServerConfig::bes_service, (config, service), server),
    ensures
        bare@.binding == binding@,
        bare@.tls is None,
        bare@.limits.concurrency_limit_per_connection is None,
        !bare@.limits.load_shed_requests,
        bare@.limits.max_concurrent_streams is None,
        bare@.limits.max_connection_age is None,
        bare@.limits.max_connection_age_grace is None,
        secured@ == (ServerView { tls: secured@.tls, ..config@ }),
        secured@.tls matches Some(tls) && tls.certificate == certificate@ && tls.key == key@
            && tls.client_certificates == paths(clients@) && tls.require_client_auth == require,
        limited@ == (ServerView { limits, ..config@ }),
        server@ == config@,
        server.offered() == service@,
{
}

/// What is asked of a server is what it was made with.
pub proof fn law_server_answers(
    server: &GrpcBesServer,
    binding: &Binding,
    tls: Option<&ServerTlsSettings>,
    limits: ServerLimits,
    given_up: GrpcBesServer,
    service: BesForwardingService,
)
    requires
        call_ensures(GrpcBesServer::binding, (server,), binding),
        call_ensures(GrpcBesServer::tls, (server,), tls),
        call_ensures(GrpcBesServer::limits, (server,), limits),
        call_ensures(GrpcBesServer::into_service, (given_up,), service),
    ensures
        binding@ == server@.binding,
        tls is Some <==> server@.tls is Some,
        tls matches Some(tls) ==> server@.tls == Some(tls@),
        limits == server@.limits,
        service@ == given_up.offered(),
{
}

/// The server begins to listen at its address, or at its unix domain socket, where a file is
/// removed exactly if there is one.
pub proof fn law_server_listens(server: &GrpcBesServer, exists_already: bool, r: ServePlan)
    requires
        call_ensures(GrpcBesServer::serve, (server, exists_already), r),
    ensures
        match server@.binding {
            BindingView::SocketAddr(addr) => r@ == ServePlanView::Address(addr),
            BindingView::UnixDomainSocket(path) => r@ == (ServePlanView::Socket {
                path,
                remove_first: exists_already,
            }),
        },
{
}

/// A server is made as its configuration says: it listens there, within these bounds, secured with
/// that certificate and key, without asking clients who they are; and it forwards to the backends
/// of the configuration in their order, each of which has a client.
pub proof fn law_server_is_made_as_configured(
    config: Config,
    tls: &Vec<TlsOutcome>,
    k: int,
    r: Result<GrpcBesServer, ConnectError>,
)
    requires
        call_ensures(prepare, (config, tls), r),
        r is Ok,
    ensures
        r->Ok_0@.binding == config@.listen,
        r->Ok_0@.limits == config@.limits,
        r->Ok_0@.tls is Some <==> config@.server_tls_config is Some,
        r->Ok_0@.tls matches Some(settings) ==> {
            &&& settings.certificate == config@.server_tls_config->0.certificate
            &&& settings.key == config@.server_tls_config->0.key
            &&& settings.client_certificates.len() == 0
            &&& !settings.require_client_auth
        },
        r->Ok_0.offered().tls_certificates == config@.tls_certificates,
        r->Ok_0.offered().backends.len() == config@.bes_backends.len(),
        0 <= k < config@.bes_backends.len() ==> {
            let b = r->Ok_0.offered().backends[k];
            &&& b.client is Some
            &&& b == (BackendView { client: b.client, ..config@.bes_backends[k] })
            &&& config@.bes_backends[k].client is None ==> (b.client->0.tls matches Some(settings)
                ==> settings.trusted == config@.tls_certificates && settings.identity
                == b.tls_client_identity)
        },
{
    let n = config@.bes_backends.len() as int;
    lemma_all_connected(config@.bes_backends, config@.tls_certificates, tls@, n);
    if 0 <= k < n {
        lemma_connected_at(config@.bes_backends, config@.tls_certificates, tls@, n, k);
    }
}

proof fn lemma_all_connected(
    backends: Seq<BackendView>,
    trusted: Seq<Seq<u8>>,
    tls: Seq<TlsOutcome>,
    n: int,
)
    requires
        0 <= n,
    ensures
        all_backends_connected(backends, trusted, tls, n) matches Ok(all) ==> all.len() == n,
    decreases n,
{
    if n > 0 {
        lemma_all_connected(backends, trusted, tls, n - 1);
    }
}

proof fn lemma_connected_at(
    backends: Seq<BackendView>,
    trusted: Seq<Seq<u8>>,
    tls: Seq<TlsOutcome>,
    n: int,
    k: int,
)
    requires
        0 <= k < n,
        all_backends_connected(backends, trusted, tls, n) is Ok,
    ensures
        Ok::<BackendView, ConnectErrorView>(
            all_backends_connected(backends, trusted, tls, n)->Ok_0[k],
        ) == connected(backends[k], trusted, tls[k]),
    decreases n,
{
    lemma_all_connected(backends, trusted, tls, n - 1);
    if k < n - 1 {
        lemma_connected_at(backends, trusted, tls, n - 1, k);
    }
}

/// A server cannot be made exactly if one of its backends cannot be connected to; the first of
/// these is why.
pub proof fn law_first_unconnected_backend_is_reported(
    config: Config,
    tls: &Vec<TlsOutcome>,
    k: int,
    r: Result<GrpcBesServer, ConnectError>,
)
    requires
        call_ensures(prepare, (config, tls), r),
        0 <= k < config@.bes_backends.len(),
        forall|i: int|
            0 <= i < k ==> connected(
                #[trigger] config@.bes_backends[i],
                config@.tls_certificates,
                tls@[i],
            ) is Ok,
        connected(config@.bes_backends[k], config@.tls_certificates, tls@[k]) is Err,
    ensures
        r is Err,
        r->Err_0@ == connected(
            config@.bes_backends[k],
            config@.tls_certificates,
            tls@[k],
        )->Err_0,
{
    let n = config@.bes_backends.len() as int;
    lemma_ok_before(config@.bes_backends, config@.tls_certificates, tls@, k);
    lemma_err_stays(config@.bes_backends, config@.tls_certificates, tls@, k + 1, n);
}

proof fn lemma_ok_before(
    backends: Seq<BackendView>,
    trusted: Seq<Seq<u8>>,
    tls: Seq<TlsOutcome>,
    n: int,
)
    requires
        0 <= n,
        forall|i: int|
            0 <= i < n ==> connected(#[trigger] backends[i], trusted, tls[i]) is Ok,
    ensures
        all_backends_connected(backends, trusted, tls, n) is Ok,
    decreases n,
{
    if n > 0 {
        lemma_ok_before(backends, trusted, tls, n - 1);
        assert(connected(backends[n - 1], trusted, tls[n - 1]) is Ok);
    }
}

proof fn lemma_err_stays(
    backends: Seq<BackendView>,
    trusted: Seq<Seq<u8>>,
    tls: Seq<TlsOutcome>,
    i: int,
    n: int,
)
    requires
        0 <= i <= n,
        all_backends_connected(backends, trusted, tls, i) is Err,
    ensures
        all_backends_connected(backends, trusted, tls, n) == all_backends_connected(
            backends,
            trusted,
            tls,
            i,
        ),
    decreases n - i,
{
    if i < n {
        lemma_err_stays(backends, trusted, tls, i, n - 1);
    }
}

/// TLS settings and plans are seen as they are.
pub proof fn law_settings_are_seen(settings: ServerTlsSettings, seen: ServerTlsSettingsView)
    requires
        seen == settings@,
    ensures
        seen.certificate == settings.certificate@,
        seen.key == settings.key@,
        seen.client_certificates == paths(settings.client_certificates@),
        seen.require_client_auth == settings.require_client_auth,
{
}

/// A server can be made if each of its backends can be connected to.
pub proof fn law_server_can_be_made(
    config: Config,
    tls: &Vec<TlsOutcome>,
    r: Result<GrpcBesServer, ConnectError>,
)
    requires
        call_ensures(prepare, (config, tls), r),
        forall|i: int|
            0 <= i < config@.bes_backends.len() ==> connected(
                #[trigger] config@.bes_backends[i],
                config@.tls_certificates,
                tls@[i],
            ) is Ok,
    ensures
        r is Ok,
{
    lemma_ok_before(
        config@.bes_backends,
        config@.tls_certificates,
        tls@,
        config@.bes_backends.len() as int,
    );
}

/// Whether a backend can be connected to, and what it is then, is what connecting it gives.
pub proof fn law_connected_is_what_connecting_gives(
    backend: &mut BesBackend,
    certificates: &Vec<FilePath>,
    tls: &TlsOutcome,
    r: Result<(), ConnectError>,
)
    requires
        call_ensures(BesBackend::lazy_connect, (backend, certificates, tls), r),
    ensures
        connected(old(backend)@, paths(certificates@), *tls) is Ok <==> r is Ok,
        r is Ok ==> connected(old(backend)@, paths(certificates@), *tls)->Ok_0 == final(backend)@,
        r matches Err(error) ==> connected(old(backend)@, paths(certificates@), *tls)->Err_0
            == error@,
{
}

} // verus!
