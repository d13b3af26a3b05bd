//! A build event service backend that forwards build event streams to other backends.
use vstd::prelude::*;

use crate::binding::{default_binding, BindingView};
use crate::forwarding::service::{backend_views, connected, ServiceView};
use crate::forwarding::{
    has_secure_target, BackendView, BesBackend, BesForwardingService, ConnectError,
    ConnectErrorView, Timeout, TlsOutcome,
};
use crate::path::{paths, FilePath};
use crate::server::{GrpcBesServer, ServerLimits, ServerView};

pub mod args;
pub mod backend;
pub mod binding;
pub mod build_config;
pub mod call_laws;
pub mod config_file;
pub mod endpoint;
pub mod event;
pub mod forwarding;
pub mod metadata;
pub mod names;
pub mod nbes;
pub mod path;
pub mod server;
pub mod status;
pub mod text;
pub mod view_laws;

pub use crate::binding::Binding;

verus! {

/// What the server does: where it listens, and which backends it forwards to.
#[derive(Debug)]
pub struct Config {
    pub bes_backends: Vec<BesBackend>,
    pub listen: Binding,
    pub server_tls_config: Option<ServerTlsConfig>,
    /// Certificates that are trusted to sign those of backends.
    pub tls_certificates: Vec<FilePath>,
    /// The number of concurrent inbound requests per connection.
    pub concurrency_limit_per_connection: Option<usize>,
    /// Reject requests when the concurrency limit is reached.
    pub load_shed_requests: bool,
    /// Limit concurrent HTTP/2 streams per connection.
    pub max_concurrent_streams: Option<u32>,
    /// The maximum duration that a connection may exist.
    pub max_connection_age: Option<Timeout>,
    /// The maximum duration that a connection may continue to exist after that.
    pub max_connection_age_grace: Option<Timeout>,
}

/// The files of the server for TLS.
#[derive(Debug)]
pub struct ServerTlsConfig {
    pub certificate: FilePath,
    pub key: FilePath,
}

pub struct ServerTlsView {
    pub certificate: Seq<u8>,
    pub key: Seq<u8>,
}

impl View for ServerTlsConfig {
    type V = ServerTlsView;

    open spec fn view(&self) -> ServerTlsView {
        ServerTlsView { certificate: self.certificate@, key: self.key@ }
    }
}

#[verifier::ext_equal]
pub struct ConfigView {
    pub bes_backends: Seq<BackendView>,
    pub listen: BindingView,
    pub server_tls_config: Option<ServerTlsView>,
    pub tls_certificates: Seq<Seq<u8>>,
    pub limits: ServerLimits,
}

impl View for Config {
    type V = ConfigView;

    open spec fn view(&self) -> ConfigView {
        ConfigView {
            bes_backends: backend_views(self.bes_backends@),
            listen: self.listen@,
            server_tls_config: match self.server_tls_config {
                Some(tls) => Some(tls@),
                None => None,
            },
            tls_certificates: paths(self.tls_certificates@),
            limits: ServerLimits {
                concurrency_limit_per_connection: self.concurrency_limit_per_connection,
                load_shed_requests: self.load_shed_requests,
                max_concurrent_streams: self.max_concurrent_streams,
                max_connection_age: self.max_connection_age,
                max_connection_age_grace: self.max_connection_age_grace,
            },
        }
    }
}

impl Default for Config {
    /// A server without backends that listens where it does by default.
    fn default() -> (r: Self)
        ensures
            r@ == (ConfigView {
                bes_backends: Seq::empty(),
                listen: default_binding(),
                server_tls_config: None,
                tls_certificates: Seq::empty(),
                limits: server::no_limits(),
            }),
    {
        let r = Config {
            bes_backends: Vec::new(),
            listen: Binding::default(),
            server_tls_config: None,
            tls_certificates: Vec::new(),
            concurrency_limit_per_connection: None,
            load_shed_requests: false,
            max_concurrent_streams: None,
            max_connection_age: None,
            max_connection_age_grace: None,
        };
        assert(r@.bes_backends =~= Seq::empty());
        assert(r@.tls_certificates =~= Seq::empty());
        r
    }
}

/// The first `n` backends with their clients, or why the first that has none cannot have one.
pub open spec fn all_backends_connected(
    backends: Seq<BackendView>,
    trusted: Seq<Seq<u8>>,
    tls: Seq<TlsOutcome>,
    n: int,
) -> Result<Seq<BackendView>, ConnectErrorView>
    decreases n,
{
    if n <= 0 {
        Ok(Seq::empty())
    } else {
        match all_backends_connected(backends, trusted, tls, n - 1) {
            Err(error) => Err(error),
            Ok(before) => match connected(backends[n - 1], trusted, tls[n - 1]) {
                Err(error) => Err(error),
                Ok(backend) => Ok(before.push(backend)),
            },
        }
    }
}

/// The first backend that cannot be connected to decides the error.
proof fn lemma_connected_err(
    backends: Seq<BackendView>,
    trusted: Seq<Seq<u8>>,
    tls: Seq<TlsOutcome>,
    i: int,
    n: int,
)
    requires
        0 <= i <= n,
        all_backends_connected(backends, trusted, tls, i) is Err,
    ensures
        all_backends_connected(backends, trusted, tls, n) == all_backends_connected(
            backends,
            trusted,
            tls,
            i,
        ),
    decreases n - i,
{
    if i < n {
        lemma_connected_err(backends, trusted, tls, i, n - 1);
    }
}

/// The forwarding service that a configuration asks for: it trusts every certificate before the
/// first backend is added, and has the backends in their order.
pub open spec fn service_of(config: ConfigView, tls: Seq<TlsOutcome>) -> Result<
    ServiceView,
    ConnectErrorView,
> {
    match all_backends_connected(
        config.bes_backends,
        config.tls_certificates,
        tls,
        config.bes_backends.len() as int,
    ) {
        Ok(backends) => Ok(ServiceView { backends, tls_certificates: config.tls_certificates }),
        Err(error) => Err(error),
    }
}

/// The server settings that a configuration asks for.
pub open spec fn server_of(config: ConfigView) -> ServerView {
    ServerView {
        binding: config.listen,
        tls: match config.server_tls_config {
            Some(tls) => Some(
                server::ServerTlsSettingsView {
                    certificate: tls.certificate,
                    key: tls.key,
                    client_certificates: Seq::empty(),
                    require_client_auth: false,
                },
            ),
            None => None,
        },
        limits: config.limits,
    }
}

/// Makes a server of its configuration. `tls` is, for each backend, what came of preparing the
/// TLS settings of its connection.
pub fn prepare(config: Config, tls: &Vec<TlsOutcome>) -> (r: Result<GrpcBesServer, ConnectError>)
    requires
        tls@.len() == config@.bes_backends.len(),
        forall|i: int|
            0 <= i < config@.bes_backends.len() ==> has_secure_target(
                #[trigger] config@.bes_backends[i],
            ),
    ensures
        match (r, service_of(config@, tls@)) {
            (Ok(server), Ok(service)) => server@ == server_of(config@) && server.offered()
                == service,
            (Err(error), Err(view)) => error@ == view,
            _ => false,
        },
{
    let ghost view = config@;
    let mut service = BesForwardingService::new();
    let mut tls_certificates = config.tls_certificates;
    let ghost certificates = tls_certificates@;
    let ghost mut done: int = 0;
    while tls_certificates.len() > 0
        invariant
            0 <= done <= certificates.len(),
            tls_certificates@ =~= certificates.skip(done),
            paths(certificates) == view.tls_certificates,
            service@.backends =~= Seq::<BackendView>::empty(),
            service@.tls_certificates =~= view.tls_certificates.take(done),
        decreases tls_certificates@.len(),
    {
        let certificate = tls_certificates.remove(0);
        proof {
            assert(certificate == certificates[done]);
            assert(view.tls_certificates[done] == certificate@);
        }
        service.add_tls_trusted_cert(certificate);
        proof {
            done = done + 1;
        }
    }
    assert(service@.tls_certificates =~= view.tls_certificates);

    let mut backends = config.bes_backends;
    let ghost all = backends@;
    let n: usize = backends.len();
    let mut i: usize = 0;
    while backends.len() > 0
        invariant
            view == config@,
            i <= n == all.len(),
            tls@.len() == all.len(),
            backends@ =~= all.skip(i as int),
            backend_views(all) == view.bes_backends,
            service@.tls_certificates == view.tls_certificates,
            all_backends_connected(view.bes_backends, view.tls_certificates, tls@, i as int)
                == Ok::<Seq<BackendView>, ConnectErrorView>(service@.backends),
            forall|k: int|
                0 <= k < view.bes_backends.len() ==> has_secure_target(
                    #[trigger] view.bes_backends[k],
                ),
        decreases backends@.len(),
    {
        let backend = backends.remove(0);
        proof {
            assert(backend == all[i as int]);
            assert(view.bes_backends[i as int] == backend@);
        }
        match service.add_backend(backend, &tls[i]) {
            Ok(()) => {},
            Err(error) => {
                proof {
                    lemma_connected_err(
                        view.bes_backends,
                        view.tls_certificates,
                        tls@,
                        i + 1,
                        view.bes_backends.len() as int,
                    );
                }
                return Err(error);
            },
        }
        i = i + 1;
    }

    let mut server = GrpcBesServer::listen(config.listen);
    if let Some(tls_config) = config.server_tls_config {
        server = server.tls_config(tls_config.certificate, tls_config.key, Vec::new(), false);
    }
    let server = server.limits(
        ServerLimits {
            concurrency_limit_per_connection: config.concurrency_limit_per_connection,
            load_shed_requests: config.load_shed_requests,
            max_concurrent_streams: config.max_concurrent_streams,
            max_connection_age: config.max_connection_age,
            max_connection_age_grace: config.max_connection_age_grace,
        },
    );
    Ok(server.bes_service(service))
}

} // verus!
