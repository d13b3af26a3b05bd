use nbes::endpoint::{
    check_endpoint, parse_endpoint, EndpointCheck, EndpointError, EndpointUrl, UrlParts,
};
use nbes::forwarding::{Addresses, BesBackend, ConnectError, Timeout, TlsOutcome};
use nbes::path::FilePath;

#[test]
fn test_bes_backend_url_endpoint() {
    let result = BesBackend::builder("grpc://127.0.0.1:3000");

    assert!(result.is_ok());
}

#[test]
fn test_bes_backend_url_endpoint_defaults_scheme_to_grpcs_and_port_443() {
    let result = BesBackend::builder("127.0.0.1");

    assert!(result.is_ok());
    let backend = result.unwrap().build();
    assert_eq!("grpcs", backend.endpoint.scheme());
    assert_eq!(443, backend.endpoint.port().unwrap());
}

#[test]
fn test_bes_backend_url_endpoint_defaults_port_for_grpc() {
    let result = BesBackend::builder("grpc://127.0.0.1");

    assert!(result.is_ok());
    let backend = result.unwrap().build();
    assert_eq!(80, backend.endpoint.port().unwrap());
}

#[test]
fn test_bes_backend_url_endpoint_defaults_port_for_grpcs() {
    let result = BesBackend::builder("grpcs://127.0.0.1");

    assert!(result.is_ok());
    let backend = result.unwrap().build();
    assert_eq!(443, backend.endpoint.port().unwrap());
}

#[test]
fn test_bes_backend_url_endpoint_invalid_scheme() {
    let result = BesBackend::builder("http://127.0.0.1");

    assert!(result.is_err());
}

#[test]
fn test_bes_backend_invalid_endpoint() {
    let result = BesBackend::builder("foobar::21q34");

    assert!(result.is_err());
}

#[test]
fn test_bes_backend_unix_domain_socket() {
    let result = BesBackend::builder("unix:/tmp/foobar");

    assert!(result.is_ok());
    let backend = result.unwrap().build();
    assert_eq!("unix", backend.endpoint.scheme());
    let result = backend.endpoint.to_file_path();
    assert!(result.is_some());
    let path = result.unwrap();
    assert_eq!("/tmp/foobar", path.to_string_lossy());
}

#[test]
fn test_bes_backend_unix_domain_socket_missing_scheme() {
    let result = BesBackend::builder("/tmp/foobar");

    assert!(result.is_err());
}

#[test]
fn test_bes_backend_no_name_generates_random_name() {
    let b1 = BesBackend::builder("grpcs://127.0.0.1:3000")
        .unwrap()
        .build();
    let b2 = BesBackend::builder("grpcs://127.0.0.1:3000")
        .unwrap()
        .build();

    assert!(b1.name.len() == 8);
    assert!(b2.name.len() == 8);
    assert_ne!(b1.name, b2.name);
    assert!(b1.name.chars().all(|c| c.is_ascii_lowercase()));
}

#[test]
fn test_bes_backend_uses_provided_name() {
    let backend = BesBackend::builder("grpcs://127.0.0.1:3000")
        .unwrap()
        .name("foobar")
        .build();

    assert_eq!("foobar", backend.name);
}

#[test]
fn a_name_that_is_made_up_is_in_lower_case() {
    let backend = BesBackend::builder("grpcs://127.0.0.1:3000").unwrap().build_with("AbcXyZqq");
    assert_eq!("abcxyzqq", backend.name);
}

#[test]
fn each_endpoint_error_has_an_endpoint() {
    let error = |text: &str| parse_endpoint(text.to_string()).unwrap_err();
    assert!(matches!(error("a b"), EndpointError::Unparsable(_)));
    assert_eq!("failed to parse backend endpoint grpcs://a b", error("a b").message());
    assert!(matches!(error("ftp://a"), EndpointError::InvalidScheme(_)));
    assert_eq!("backend endpoint ftp://a has invalid scheme", error("ftp://a").message());
    assert!(matches!(error("grpc:a://"), EndpointError::MissingHost(_)));
    assert_eq!("backend endpoint grpc:a:// is missing host", error("grpc:a://").message());
    assert!(matches!(error("grpc:///a"), EndpointError::MissingHost(_)));
    assert_eq!(
        "failed to set default port on bes backend url x",
        EndpointError::PortNotSet("x".to_string()).message()
    );
}

#[test]
fn the_port_that_is_named_is_kept() {
    let url = parse_endpoint("grpcs://foo.bar:8443/x".to_string()).unwrap();
    assert_eq!(Some(8443), url.port());
    assert_eq!(Some("foo.bar"), url.host_str());
    assert_eq!("grpcs://foo.bar:8443/x", url.as_str());
}

#[test]
fn the_default_port_is_part_of_the_url() {
    let url = parse_endpoint("grpc://foo.bar".to_string()).unwrap();
    assert_eq!("grpc://foo.bar:80", url.as_str());
    let url = parse_endpoint("foo.bar".to_string()).unwrap();
    assert_eq!("grpcs://foo.bar:443", url.as_str());
}

#[test]
fn urls_are_checked_by_their_parts() {
    let parts = |scheme: &str, host: Option<&str>, port: Option<u16>| UrlParts {
        text: String::new(),
        scheme: scheme.to_string(),
        host: host.map(|h| h.to_string()),
        port,
        path: None,
    };
    assert_eq!(EndpointCheck::Complete, check_endpoint(&parts("unix", None, None)));
    assert_eq!(EndpointCheck::Complete, check_endpoint(&parts("grpc", Some("a"), Some(1))));
    assert_eq!(EndpointCheck::NeedsPort(80), check_endpoint(&parts("grpc", Some("a"), None)));
    assert_eq!(EndpointCheck::NeedsPort(443), check_endpoint(&parts("grpcs", Some("a"), None)));
    assert_eq!(EndpointCheck::MissingHost, check_endpoint(&parts("grpcs", None, Some(1))));
    assert_eq!(EndpointCheck::InvalidScheme, check_endpoint(&parts("https", Some("a"), None)));
}

/// A backend at an endpoint.
fn backend(endpoint: &str) -> BesBackend {
    BesBackend::builder(endpoint).unwrap().name("b1").build()
}

#[test]
fn a_secure_backend_is_connected_to_over_https() {
    let mut b = backend("grpcs://foo.bar");
    let trusted = vec![FilePath::new("/ca")];
    b.lazy_connect(&trusted, &TlsOutcome::Prepared).unwrap();

    let client = b.client().unwrap();
    assert_eq!("https://foo.bar/", client.uri);
    let tls = client.tls.as_ref().unwrap();
    assert_eq!("/ca", tls.trusted[0].to_string_lossy());
    assert!(tls.identity.is_none());
    assert!(client.socket.is_none());
}

#[test]
fn a_plain_backend_is_connected_to_without_tls() {
    let mut b = BesBackend::builder("grpc://foo.bar:3000")
        .unwrap()
        .request_timeout(Timeout { secs: 7, nanos: 0 })
        .build();
    let settings = b.tls_settings(&vec![FilePath::new("/ca")]);
    assert!(settings.is_none());
    // What came of TLS settings that there are none of does not matter.
    b.lazy_connect(&vec![], &TlsOutcome::Failed("oops".to_string())).unwrap();

    let client = b.client().unwrap();
    assert_eq!("grpc://foo.bar:3000", client.uri);
    assert!(client.tls.is_none());
    assert_eq!(Some(Timeout { secs: 7, nanos: 0 }), client.request_timeout);
}

#[test]
fn a_unix_domain_socket_is_connected_to_by_its_path() {
    let mut b = backend("unix:/tmp/foo%20bar");
    b.lazy_connect(&vec![], &TlsOutcome::Prepared).unwrap();

    let client = b.client().unwrap();
    assert_eq!("http://[::]:50051", client.uri);
    assert!(client.tls.is_none());
    assert_eq!("/tmp/foo bar", client.socket.as_ref().unwrap().to_string_lossy());
}

#[test]
fn a_unix_domain_socket_can_be_secured() {
    let mut b = backend("unix:/tmp/foobar");
    b.use_uds_tls_uri(EndpointUrl::parse("https://foo.bar").unwrap());
    b.set_client_tls_identity(FilePath::new("/cert"), FilePath::new("/key"));
    b.set_async(true);
    assert!(b.asynchronous);
    b.lazy_connect(&vec![], &TlsOutcome::Prepared).unwrap();

    let client = b.client().unwrap();
    assert_eq!("https://foo.bar/", client.uri);
    let identity = client.tls.as_ref().unwrap().identity.as_ref().unwrap();
    assert_eq!("/cert", identity.certificate.to_string_lossy());
}

#[test]
fn each_connect_error_has_a_backend() {
    let mut b = backend("grpcs://foo.bar");
    let error = b.lazy_connect(&vec![], &TlsOutcome::Failed("oops".to_string())).unwrap_err();
    assert!(matches!(error, ConnectError::Tls(_)));
    assert_eq!("oops", error.message());
    assert!(b.client().is_none());

    let mut b = backend("unix://foo/bar");
    let error = b.lazy_connect(&vec![], &TlsOutcome::Prepared).unwrap_err();
    assert!(matches!(error, ConnectError::NoFilePath(_)));
    assert_eq!("failed to convert url unix://foo/bar to file path", error.message());

    let mut b = backend("unix:/tmp/foobar");
    b.use_uds_tls_uri(EndpointUrl::parse("data:a b").unwrap());
    let error = b.lazy_connect(&vec![], &TlsOutcome::Prepared).unwrap_err();
    assert!(matches!(error, ConnectError::NoTlsUri(_)));
    let words = "data:a b".parse::<tonic::transport::Endpoint>().unwrap_err().to_string();
    assert_eq!(words, error.message());

    let long = format!("grpc://foo.bar/{}", "x".repeat(70000));
    let mut b = backend(&long);
    let error = b.lazy_connect(&vec![], &TlsOutcome::Prepared).unwrap_err();
    assert!(matches!(error, ConnectError::NoEndpoint(_)));
    assert_eq!("failed to parse endpoint for backend b1", error.message());

    let mut b = backend("grpcs://foo%20bar");
    let error = b.lazy_connect(&vec![], &TlsOutcome::Prepared).unwrap_err();
    assert!(matches!(error, ConnectError::NoUrl(_)));
    let words = url::Url::parse("https://foo%20bar:443").unwrap_err().to_string();
    assert_eq!(words, error.message());
}

#[test]
fn a_client_is_kept() {
    let mut b = backend("grpcs://foo.bar");
    b.lazy_connect(&vec![], &TlsOutcome::Prepared).unwrap();
    b.lazy_connect(&vec![FilePath::new("/ca")], &TlsOutcome::Failed("oops".to_string())).unwrap();

    assert!(b.client().unwrap().tls.as_ref().unwrap().trusted.is_empty());
}

#[test]
fn a_backend_has_defaults() {
    let url = EndpointUrl::parse("unix:/tmp/foobar").unwrap();
    let b = BesBackend::new("b1".to_string(), url);
    assert_eq!("b1", b.name);
    assert_eq!(500, b.request_buffer_size());
    assert!(!b.asynchronous);
    assert_eq!(0, b.remote_headers.len());
    assert!(b.remote_header_files.entries().is_empty());
    assert!(b.client().is_none());
}

#[test]
fn a_client_is_set_up_by_what_is_known_of_the_addresses() {
    let text = |text: &str| text.to_string();
    let found = |target: Result<&str, &str>, accepted: Result<(), &str>, path: Option<&str>| {
        Addresses {
            target: target.map(text).map_err(text),
            accepted: accepted.map_err(text),
            path: path.map(FilePath::new),
        }
    };
    let prepared = TlsOutcome::Prepared;

    let mut b = backend("grpcs://foo.bar");
    let error = b.connect_with(&vec![], &prepared, found(Err("no"), Ok(()), None)).unwrap_err();
    assert!(matches!(error, ConnectError::NoUrl(_)));
    assert_eq!("no", error.message());
    let error = b.connect_with(&vec![], &prepared, found(Ok("x"), Err("no"), None)).unwrap_err();
    assert_eq!("failed to parse endpoint for backend b1", error.message());
    b.connect_with(&vec![], &prepared, found(Ok("x"), Ok(()), Some("/y"))).unwrap();
    assert_eq!("x", b.client().unwrap().uri);
    assert!(b.client().unwrap().tls.is_some());
    assert!(b.client().unwrap().socket.is_none());

    let mut b = backend("unix:/tmp/foobar");
    let refused = found(Ok("x"), Err("no"), Some("/y"));
    let error = b.connect_with(&vec![], &prepared, refused).unwrap_err();
    assert!(matches!(error, ConnectError::NoTlsUri(_)));
    assert_eq!("no", error.message());
    let error = b.connect_with(&vec![], &prepared, found(Ok("x"), Ok(()), None)).unwrap_err();
    assert_eq!("failed to convert url unix:/tmp/foobar to file path", error.message());
    b.connect_with(&vec![], &prepared, found(Ok("x"), Ok(()), Some("/y"))).unwrap();
    assert_eq!("http://[::]:50051", b.client().unwrap().uri);
    assert_eq!("/y", b.client().unwrap().socket.as_ref().unwrap().to_string_lossy());
}

#[test]
fn an_endpoint_is_parsed_to_itself() {
    for (text, url) in [
        ("127.0.0.1", "grpcs://127.0.0.1:443"),
        ("GRPC://Foo.bar/a/../b?c d#e", "grpc://Foo.bar:80/b?c%20d#e"),
        ("grpcs://u:p@[0:0::1]:9/x", "grpcs://u:p@[::1]:9/x"),
        ("unix:/tmp/foo bar", "unix:/tmp/foo%20bar"),
        ("unix:/a/..//b", "unix:/.//b"),
        ("unix:///a", "unix:///a"),
        ("unix:a://b", "unix:a://b"),
        (" UNIX:x\ty ?unix:/\u{e9}", "unix:xy ?unix:/%C3%A9"),
    ] {
        let parsed = parse_endpoint(text.to_string()).unwrap();
        assert_eq!(url, parsed.as_str());
        let again = parse_endpoint(url.to_string()).unwrap();
        assert_eq!(url, again.as_str());
        assert_eq!(parsed.scheme(), again.scheme());
        assert_eq!(parsed.host_str(), again.host_str());
        assert_eq!(parsed.port(), again.port());
    }
}

#[test]
fn a_unix_domain_socket_reads_as_it_is_written() {
    let url = parse_endpoint("unix:/tmp/foobar.sock".to_string()).unwrap();
    assert_eq!("unix:/tmp/foobar.sock", url.as_str());
    assert_eq!("unix", url.scheme());
    assert_eq!(None, url.host_str());
    assert_eq!(None, url.port());
    assert_eq!("/tmp/foobar.sock", url.to_file_path().unwrap().to_string_lossy());

    let url = parse_endpoint("grpc://localhost/a%20b".to_string()).unwrap();
    assert_eq!("grpc://localhost:80/a%20b", url.as_str());
    assert_eq!("/a b", url.to_file_path().unwrap().to_string_lossy());
    assert!(parse_endpoint("grpc://foo/a".to_string()).unwrap().to_file_path().is_none());
    assert!(parse_endpoint("unix:a://b".to_string()).unwrap().to_file_path().is_none());
}
