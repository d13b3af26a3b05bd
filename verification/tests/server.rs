use nbes::args::{Args, BesBackendArg};
use nbes::binding::{BindingError, Ipv4Addr, SocketAddrV4};
use nbes::build_config::{
    build_config, combine_backends_from_config_and_args, BuildConfigError,
};
use nbes::config_file::{BesBackend as ConfigBackend, ConfigFile, Server};
use nbes::forwarding::{BesBackend, ConnectError, Timeout, TlsOutcome};
use nbes::path::FilePath;
use nbes::server::{GrpcBesServer, ServePlan};
use nbes::{prepare, Binding, Config, ServerTlsConfig};

fn addr(a: u8, b: u8, c: u8, d: u8, port: u16) -> SocketAddrV4 {
    SocketAddrV4::new(Ipv4Addr { a, b, c, d }, port)
}

#[test]
fn a_server_listens_on_port_9000_by_default() {
    assert_eq!("0.0.0.0:9000", Binding::default().to_string());
}

#[test]
fn socket_addresses_are_parsed() {
    assert_eq!(Some(addr(127, 0, 0, 1, 80)), SocketAddrV4::parse("127.0.0.1:80"));
    assert_eq!(
        Some(addr(255, 255, 255, 255, 65535)),
        SocketAddrV4::parse("255.255.255.255:65535")
    );
    assert_eq!(Some(addr(0, 0, 0, 0, 7)), SocketAddrV4::parse("0.0.0.0:00007"));
    for text in [
        "",
        "127.0.0.1",
        "127.0.0.1:",
        "127.0.0.1:65536",
        "127.0.0.1:+80",
        "127.0.0:80",
        "127.0.0.0.1:80",
        "127.0.0.01:80",
        "256.0.0.1:80",
        "127..0.1:80",
        "localhost:80",
        "127.0.0.1:80 ",
        "[::1]:80",
        "127.0.0.1:80:80",
    ] {
        assert_eq!(None, SocketAddrV4::parse(text), "{text}");
    }
}

#[test]
fn socket_addresses_are_read_back() {
    for a in [addr(0, 0, 0, 0, 0), addr(10, 200, 3, 40, 9000), addr(255, 1, 9, 99, 65535)] {
        assert_eq!(Some(a), SocketAddrV4::parse(&a.to_text()));
    }
    assert_eq!("10.200.3.40:9000", addr(10, 200, 3, 40, 9000).to_text());
}

#[test]
fn bindings_are_parsed() {
    let Ok(Binding::SocketAddr(a)) = "0.0.0.0:3000".parse::<Binding>() else {
        panic!("expected a socket address");
    };
    assert_eq!(addr(0, 0, 0, 0, 3000), a);
    let Ok(Binding::UnixDomainSocket(path)) = "unix:/tmp/foo%20bar".parse::<Binding>() else {
        panic!("expected a unix domain socket");
    };
    assert_eq!("/tmp/foo bar", path.to_string_lossy());
    assert_eq!("unix:/tmp/foo bar", Binding::UnixDomainSocket(path).to_string());
    let error = Binding::parse("unix").unwrap_err();
    assert!(matches!(error, BindingError::NoSocketAddress));
    assert_eq!("invalid IPv4 socket address syntax", error.message());
    let error = Binding::parse("unix://foo/bar").unwrap_err();
    assert!(matches!(error, BindingError::NoSocketPath));
    assert_eq!("invalid unix domain socket path", error.message());
    let error = Binding::parse("unix://[/").unwrap_err();
    assert!(matches!(error, BindingError::NoUrl(_)));
    assert_eq!(url::Url::parse("unix://[/").unwrap_err().to_string(), error.message());
    assert_eq!("invalid IPv6 address", error.message());
}

#[test]
fn a_unix_domain_socket_needs_a_url_and_a_path() {
    let path = Some(FilePath::new("/tmp/foobar"));
    assert_eq!("unix:/tmp/foobar", Binding::at_socket(Ok(path)).unwrap().to_string());
    assert!(matches!(Binding::at_socket(Ok(None)), Err(BindingError::NoSocketPath)));
    assert_eq!("oops", Binding::at_socket(Err("oops".to_string())).unwrap_err().message());
}

#[test]
fn unix_domain_sockets_are_read_back() {
    for path in ["/tmp/nbes.sock", "/a", "/Run/user-1/..b/x_y/..."] {
        let text = Binding::UnixDomainSocket(FilePath::new(path)).to_string();
        assert_eq!(format!("unix:{path}"), text);
        let Ok(Binding::UnixDomainSocket(read)) = text.parse::<Binding>() else {
            panic!("expected a unix domain socket");
        };
        assert_eq!(path, read.to_string_lossy());
    }
}

#[test]
fn a_unix_domain_socket_has_a_url() {
    let binding = Binding::UnixDomainSocket(FilePath::new("/tmp/foobar"));
    assert_eq!("unix:/tmp/foobar", binding.try_into_url().unwrap().as_str());
    assert!(Binding::default().try_into_url().is_none());
}

/// A backend at a unix domain socket.
fn backend(name: &str, endpoint: &str) -> BesBackend {
    BesBackend::builder(endpoint).unwrap().name(name).build()
}

#[test]
fn backends_in_arguments_take_priority() {
    let combined = combine_backends_from_config_and_args(
        vec![backend("a", "grpc://config.a"), backend("b", "grpc://config.b")],
        vec![backend("b", "grpc://args.b"), backend("c", "grpc://args.c")],
    );
    let found: Vec<(String, String)> = combined
        .iter()
        .map(|b| (b.name.clone(), b.endpoint.host_str().unwrap().to_string()))
        .collect();
    assert_eq!(3, found.len());
    assert!(found.contains(&("a".to_string(), "config.a".to_string())));
    assert!(found.contains(&("b".to_string(), "args.b".to_string())));
    assert!(found.contains(&("c".to_string(), "args.c".to_string())));
}

#[test]
fn arguments_take_priority_over_the_configuration_file() {
    let args = Args {
        bes_backends: vec!["name=a,endpoint=grpc://args.a".parse::<BesBackendArg>().unwrap()],
        listen: Some("127.0.0.1:1".to_string()),
        server_tls_certificate: Some(FilePath::new("/args/cert")),
        tls_certificate: vec![FilePath::new("/args/ca")],
        concurrency_limit_per_connection: Some(5),
        max_connection_age: Some(60),
        ..Default::default()
    };
    let mut server = Server::default();
    server.listen = Some("127.0.0.1:2".to_string());
    server.tls.certificate = Some(FilePath::new("/config/cert"));
    server.tls.key = Some(FilePath::new("/config/key"));
    server.concurrency_limit_per_connection = Some(6);
    server.load_shed_requests = true;
    server.max_concurrent_streams = Some(7);
    server.max_connection_age_grace = Some(8);
    let file = ConfigFile {
        server,
        bes_backends: vec![ConfigBackend::Endpoint("grpc://config.b".to_string())],
        tls_certificates: vec![FilePath::new("/config/ca")],
    };
    let config = build_config(args, file).unwrap();

    assert_eq!("127.0.0.1:1", config.listen.to_string());
    assert_eq!(2, config.bes_backends.len());
    let tls = config.server_tls_config.unwrap();
    assert_eq!("/args/cert", tls.certificate.to_string_lossy());
    assert_eq!("/config/key", tls.key.to_string_lossy());
    assert_eq!("/args/ca", config.tls_certificates[0].to_string_lossy());
    assert_eq!("/config/ca", config.tls_certificates[1].to_string_lossy());
    assert_eq!(Some(5), config.concurrency_limit_per_connection);
    assert!(config.load_shed_requests);
    assert_eq!(Some(7), config.max_concurrent_streams);
    assert_eq!(Some(Timeout { secs: 60, nanos: 0 }), config.max_connection_age);
    assert_eq!(Some(Timeout { secs: 8, nanos: 0 }), config.max_connection_age_grace);
}

#[test]
fn nothing_configured_is_a_black_hole_on_the_default_port() {
    let config = build_config(Args::default(), ConfigFile::default()).unwrap();
    assert!(config.bes_backends.is_empty());
    assert_eq!("0.0.0.0:9000", config.listen.to_string());
    assert!(config.server_tls_config.is_none());
    assert!(!config.load_shed_requests);
}

#[test]
fn each_configuration_error_has_a_cause() {
    let args = Args {
        server_tls_certificate: Some(FilePath::new("/cert")),
        listen: Some("nowhere".to_string()),
        ..Default::default()
    };
    let error = build_config(args, ConfigFile::default()).unwrap_err();
    assert!(matches!(error, BuildConfigError::MissingServerTlsKey));
    assert!(error.message().starts_with("server tls certificate provided but key is missing"));

    let args = Args { server_tls_key: Some(FilePath::new("/key")), ..Default::default() };
    let error = build_config(args, ConfigFile::default()).unwrap_err();
    assert!(matches!(error, BuildConfigError::MissingServerTlsCertificate));

    let args = Args { listen: Some("nowhere".to_string()), ..Default::default() };
    let error = build_config(args, ConfigFile::default()).unwrap_err();
    assert!(matches!(error, BuildConfigError::Listen(BindingError::NoSocketAddress)));

    let args = Args {
        bes_backends: vec!["http://a".parse::<BesBackendArg>().unwrap()],
        listen: Some("nowhere".to_string()),
        ..Default::default()
    };
    let error = build_config(args, ConfigFile::default()).unwrap_err();
    assert!(matches!(error, BuildConfigError::ArgBackend(_)));
    assert_eq!("backend endpoint http://a has invalid scheme", error.message());

    let args = Args {
        bes_backends: vec!["http://a".parse::<BesBackendArg>().unwrap()],
        ..Default::default()
    };
    let file = ConfigFile {
        bes_backends: vec![ConfigBackend::Endpoint("http://b".to_string())],
        ..Default::default()
    };
    let error = build_config(args, file).unwrap_err();
    assert!(matches!(error, BuildConfigError::ConfigBackend(_)));
    assert_eq!("backend endpoint http://b has invalid scheme", error.message());
}

#[test]
fn a_server_is_made_of_its_configuration() {
    let config = Config {
        bes_backends: vec![backend("a", "grpcs://foo.bar"), backend("b", "unix:/tmp/b")],
        listen: Binding::UnixDomainSocket(FilePath::new("/tmp/nbes")),
        server_tls_config: Some(ServerTlsConfig {
            certificate: FilePath::new("/cert"),
            key: FilePath::new("/key"),
        }),
        tls_certificates: vec![FilePath::new("/ca1"), FilePath::new("/ca2")],
        max_concurrent_streams: Some(3),
        ..Default::default()
    };
    let server = prepare(config, &vec![TlsOutcome::Prepared, TlsOutcome::Prepared]).unwrap();

    assert_eq!("unix:/tmp/nbes", server.binding().to_string());
    assert_eq!(Some(3), server.limits().max_concurrent_streams);
    let tls = server.tls().unwrap();
    assert_eq!("/cert", tls.certificate.to_string_lossy());
    assert!(!tls.require_client_auth);
    let service = server.into_service();
    assert_eq!(2, service.backends().len());
    let trusted = &service.backends()[0].client().unwrap().tls.as_ref().unwrap().trusted;
    assert_eq!(2, trusted.len());
    assert_eq!("/ca2", trusted[1].to_string_lossy());
    assert_eq!("b", service.backends()[1].name);
}

#[test]
fn a_backend_that_cannot_be_connected_to_is_reported() {
    let config = Config {
        bes_backends: vec![backend("a", "unix:/tmp/a"), backend("b", "grpcs://foo.bar")],
        ..Default::default()
    };
    let outcomes =
        vec![TlsOutcome::Failed("unused".to_string()), TlsOutcome::Failed("oops".to_string())];
    let error = prepare(config, &outcomes).unwrap_err();
    assert!(matches!(error, ConnectError::Tls(_)));
    assert_eq!("oops", error.message());
}

#[test]
fn an_existing_socket_is_removed_first() {
    let listen = |binding| {
        GrpcBesServer::listen(binding).bes_service(nbes::forwarding::BesForwardingService::new())
    };
    let server = listen(Binding::UnixDomainSocket(FilePath::new("/tmp/nbes")));
    let ServePlan::Socket { path, remove_first } = server.serve(true) else {
        panic!("expected a unix domain socket");
    };
    assert_eq!("/tmp/nbes", path.to_string_lossy());
    assert!(remove_first);
    assert!(matches!(server.serve(false), ServePlan::Socket { remove_first: false, .. }));
    let server = listen(Binding::default());
    assert!(matches!(server.serve(true), ServePlan::Address(a) if a == addr(0, 0, 0, 0, 9000)));
}

#[test]
fn a_server_can_require_clients_to_identify_themselves() {
    let server = GrpcBesServer::listen(Binding::default())
        .tls_config(
            FilePath::new("/cert"),
            FilePath::new("/key"),
            vec![FilePath::new("/client")],
            true,
        )
        .bes_service(nbes::forwarding::BesForwardingService::new());
    let tls = server.tls().unwrap();
    assert!(tls.require_client_auth);
    assert_eq!("/client", tls.client_certificates[0].to_string_lossy());
}
