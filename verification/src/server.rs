//! The gRPC server: what it listens on, and how.
use vstd::prelude::*;

use crate::binding::{Binding, BindingView, SocketAddrV4};
use crate::forwarding::service::ServiceView;
use crate::forwarding::{BesForwardingService, Timeout};
use crate::path::{paths, FilePath};

pub mod laws;

verus! {

/// Bounds on what clients of the server may use.
#[derive(Clone, Copy, Debug, PartialEq, Eq)]
pub struct ServerLimits {
    pub concurrency_limit_per_connection: Option<usize>,
    pub load_shed_requests: bool,
    pub max_concurrent_streams: Option<u32>,
    pub max_connection_age: Option<Timeout>,
    pub max_connection_age_grace: Option<Timeout>,
}

pub open spec fn no_limits() -> ServerLimits {
    ServerLimits {
        concurrency_limit_per_connection: None,
        load_shed_requests: false,
        max_concurrent_streams: None,
        max_connection_age: None,
        max_connection_age_grace: None,
    }
}

/// How the server secures its connections.
#[derive(Debug)]
pub struct ServerTlsSettings {
    pub certificate: FilePath,
    pub key: FilePath,
    /// Certificates that are trusted to sign those of clients.
    pub client_certificates: Vec<FilePath>,
    /// Whether clients must identify themselves.
    pub require_client_auth: bool,
}

#[verifier::ext_equal]
pub struct ServerTlsSettingsView {
    pub certificate: Seq<u8>,
    pub key: Seq<u8>,
    pub client_certificates: Seq<Seq<u8>>,
    pub require_client_auth: bool,
}

impl View for ServerTlsSettings {
    type V = ServerTlsSettingsView;

    open spec fn view(&self) -> ServerTlsSettingsView {
        ServerTlsSettingsView {
            certificate: self.certificate@,
            key: self.key@,
            client_certificates: paths(self.client_certificates@),
            require_client_auth: self.require_client_auth,
        }
    }
}

/// The settings of a server.
#[derive(Debug)]
pub struct GrpcBesServerConfig {
    binding: Binding,
    tls: Option<ServerTlsSettings>,
    limits: ServerLimits,
}

#[verifier::ext_equal]
pub struct ServerView {
    pub binding: BindingView,
    pub tls: Option<ServerTlsSettingsView>,
    pub limits: ServerLimits,
}

/// TLS settings, if there are any, by their view.
pub open spec fn server_tls_view(tls: Option<ServerTlsSettings>) -> Option<ServerTlsSettingsView> {
    match tls {
        Some(tls) => Some(tls@),
        None => None,
    }
}

impl View for GrpcBesServerConfig {
    type V = ServerView;

    closed spec fn view(&self) -> ServerView {
        ServerView {
            binding: self.binding@,
            tls: server_tls_view(self.tls),
            limits: self.limits,
        }
    }
}

/// A server with the service that it offers.
#[derive(Debug)]
pub struct GrpcBesServer {
    config: GrpcBesServerConfig,
    service: BesForwardingService,
}

impl View for GrpcBesServer {
    type V = ServerView;

    closed spec fn view(&self) -> ServerView {
        self.config@
    }
}

/// How the server begins to listen.
#[derive(Debug)]
pub enum ServePlan {
    /// At a socket address.
    Address(SocketAddrV4),
    /// At a unix domain socket. A file that is already there is removed first.
    Socket { path: FilePath, remove_first: bool },
}

#[verifier::ext_equal]
pub enum ServePlanView {
    Address(SocketAddrV4),
    Socket { path: Seq<u8>, remove_first: bool },
}

impl View for ServePlan {
    type V = ServePlanView;

    open spec fn view(&self) -> ServePlanView {
        match self {
            ServePlan::Address(addr) => ServePlanView::Address(*addr),
            ServePlan::Socket { path, remove_first } => ServePlanView::Socket {
                path: path@,
                remove_first: *remove_first,
            },
        }
    }
}

/// How a server begins to listen, given whether there is a file at its unix domain socket.
pub open spec fn serve_plan(binding: BindingView, exists_already: bool) -> ServePlanView {
    match binding {
        BindingView::SocketAddr(addr) => ServePlanView::Address(addr),
        BindingView::UnixDomainSocket(path) => ServePlanView::Socket {
            path,
            remove_first: exists_already,
        },
    }
}

impl GrpcBesServer {
    /// The service that the server offers.
    pub closed spec fn offered(&self) -> ServiceView {
        self.service@
    }

    /// The settings of a server that listens there.
    pub fn listen(binding: Binding) -> (r: GrpcBesServerConfig)
        ensures
            r@ == (ServerView { binding: binding@, tls: None, limits: no_limits() }),
    {
        GrpcBesServerConfig {
            binding,
            tls: None,
            limits: ServerLimits {
                concurrency_limit_per_connection: None,
                load_shed_requests: false,
                max_concurrent_streams: None,
                max_connection_age: None,
                max_connection_age_grace: None,
            },
        }
    }

    /// How the server begins to listen, given whether there is a file at its unix domain socket.
    pub fn serve(&self, exists_already: bool) -> (r: ServePlan)
        ensures
            r@ == serve_plan(self@.binding, exists_already),
    {
        match &self.config.binding {
            Binding::SocketAddr(addr) => ServePlan::Address(*addr),
            Binding::UnixDomainSocket(path) => ServePlan::Socket {
                path: path.clone(),
                remove_first: exists_already,
            },
        }
    }

    /// What the server listens on.
    pub fn binding(&self) -> (r: &Binding)
        ensures
            r@ == self@.binding,
    {
        &self.config.binding
    }

    /// How the server secures its connections.
    pub fn tls(&self) -> (r: Option<&ServerTlsSettings>)
        ensures
            r is Some <==> self@.tls is Some,
            r matches Some(tls) ==> Some(tls@) == self@.tls,
    {
        match &self.config.tls {
            Some(tls) => Some(tls),
            None => None,
        }
    }

    /// The service that the server offers.
    pub fn into_service(self) -> (r: BesForwardingService)
        ensures
            r@ == self.offered(),
    {
        self.service
    }

    /// Bounds on what clients of the server may use.
    pub fn limits(&self) -> (r: ServerLimits)
        ensures
            r == self@.limits,
    {
        self.config.limits
    }
}

impl GrpcBesServerConfig {
    /// Secures the connections of the server.
    pub fn tls_config(
        self,
        certificate: FilePath,
        key: FilePath,
        client_certificates: Vec<FilePath>,
        require_client_auth: bool,
    ) -> (r: Self)
        ensures
            r@ == (ServerView {
                tls: Some(
                    ServerTlsSettingsView {
                        certificate: certificate@,
                        key: key@,
                        client_certificates: paths(client_certificates@),
                        require_client_auth,
                    },
                ),
                ..self@
            }),
    {
        GrpcBesServerConfig {
            tls: Some(
                ServerTlsSettings { certificate, key, client_certificates, require_client_auth },
            ),
            ..self
        }
    }

    /// Sets bounds on what clients of the server may use.
    pub fn limits(self, limits: ServerLimits) -> (r: Self)
        ensures
            r@ == (ServerView { limits, ..self@ }),
    {
        GrpcBesServerConfig { limits, ..self }
    }

    /// The server that offers this service.
    pub fn bes_service(self, service: BesForwardingService) -> (r: GrpcBesServer)
        ensures
            r@ == self@,
            r.offered() == service@,
    {
        GrpcBesServer { config: self, service }
    }
}

} // verus!
