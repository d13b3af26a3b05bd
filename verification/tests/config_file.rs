use nbes::config_file::{
    BesBackend, BesBackendSpec, ConfigBackendError, ConfigFile, ConfigFileError, RemoteHeader,
};
use nbes::path::FilePath;

/// The settings of a backend of which only the endpoint is given.
fn spec(name: Option<&str>, endpoint: &str) -> BesBackendSpec {
    BesBackendSpec {
        name: name.map(|n| n.to_string()),
        endpoint: endpoint.to_string(),
        asynchronous: false,
        remote_headers: vec![],
        tls_client_certificate: None,
        tls_client_key: None,
        connect_timeout: None,
        request_timeout: None,
        request_buffer_size: None,
    }
}

fn header(name: &str, value: &str) -> RemoteHeader {
    RemoteHeader { name: name.to_string(), value: value.to_string() }
}

#[test]
fn test_parse_empty() {
    let result = ConfigFile::parse_yaml(Ok(ConfigFile::default()));

    assert!(result.is_ok());
    let config = result.unwrap();
    assert!(config.server.listen.is_none());
    assert!(config.server.tls.certificate.is_none());
    assert!(config.server.tls.key.is_none());
    assert!(config.server.concurrency_limit_per_connection.is_none());
    assert_eq!(false, config.server.load_shed_requests);
    assert!(config.server.max_concurrent_streams.is_none());
    assert!(config.server.max_connection_age.is_none());
    assert!(config.server.max_connection_age_grace.is_none());
    assert!(config.bes_backends.is_empty());
    assert!(config.tls_certificates.is_empty());
}

#[test]
fn test_parse_bes_backend_multiple() {
    let result = ConfigFile::parse_yaml(Ok(ConfigFile {
        bes_backends: vec![
            BesBackend::Endpoint("grpcs://foo.bar".to_string()),
            BesBackend::Spec(spec(Some("foobar"), "grpc://127.0.0.1")),
        ],
        ..Default::default()
    }));

    assert!(result.is_ok());
    let config = result.unwrap();
    assert_eq!(2, config.bes_backends.len());
}

#[test]
fn test_parse_bes_backend_multiple_same_name() {
    let result = ConfigFile::parse_yaml(Ok(ConfigFile {
        bes_backends: vec![
            BesBackend::Spec(spec(Some("foobar"), "grpc://127.0.0.1:3000")),
            BesBackend::Spec(spec(Some("foobar"), "grpc://127.0.0.1:3001")),
        ],
        ..Default::default()
    }));

    assert!(result.is_err());
    assert_eq!(
        "invalid config file: multiple bes backends have the same name foobar",
        result.unwrap_err().message()
    );
}

#[test]
fn text_that_is_no_configuration_is_refused() {
    let result = ConfigFile::parse_yaml(Err("oops".to_string()));

    assert_eq!("failed to parse config file yaml: oops", result.unwrap_err().message());
}

#[test]
fn a_client_identity_needs_both_files() {
    let mut certificate_only = spec(None, "grpc://127.0.0.1");
    certificate_only.tls_client_certificate = Some(FilePath::new("/cert"));
    let mut key_only = spec(None, "grpc://127.0.0.1");
    key_only.tls_client_key = Some(FilePath::new("/key"));
    let mut both = spec(None, "grpc://127.0.0.1");
    both.tls_client_certificate = Some(FilePath::new("/cert"));
    both.tls_client_key = Some(FilePath::new("/key"));

    for incomplete in [certificate_only, key_only] {
        let config = ConfigFile {
            bes_backends: vec![BesBackend::Spec(incomplete)],
            ..Default::default()
        };
        assert!(matches!(
            config.validate(),
            Err(ConfigFileError::IncompleteClientIdentity)
        ));
    }
    let config = ConfigFile { bes_backends: vec![BesBackend::Spec(both)], ..Default::default() };
    assert!(config.validate().is_ok());
}

#[test]
fn an_endpoint_alone_becomes_a_backend() {
    let backend = BesBackend::Endpoint("grpc://127.0.0.1".to_string()).try_into().unwrap();

    assert_eq!("grpc", backend.endpoint.scheme());
    assert_eq!(Some(80), backend.endpoint.port());
    assert_eq!(8, backend.name.len());
    assert!(!backend.asynchronous);
}

#[test]
fn settings_become_a_backend() {
    let mut settings = spec(Some("foobar"), "grpc://127.0.0.1");
    settings.asynchronous = true;
    settings.remote_headers = vec![header("Foo", "bar")];
    settings.request_buffer_size = Some(1000);
    let backend = BesBackend::Spec(settings).try_into().unwrap();

    assert_eq!("foobar", backend.name);
    assert!(backend.asynchronous);
    assert_eq!(1, backend.remote_headers.len());
    assert_eq!("bar", backend.remote_headers.get("foo").unwrap());
    assert_eq!(1000, backend.request_buffer_size());
}

#[test]
fn settings_that_are_wrong_become_no_backend() {
    let mut bad_name = spec(None, "grpc://127.0.0.1");
    bad_name.remote_headers = vec![header("f o", "bar")];
    assert!(matches!(
        BesBackend::Spec(bad_name).try_into(),
        Err(ConfigBackendError::InvalidRemoteHeaderName)
    ));

    let mut bad_value = spec(None, "grpc://127.0.0.1");
    bad_value.remote_headers = vec![header("foo", "b\u{7f}r")];
    assert!(matches!(
        BesBackend::Spec(bad_value).try_into(),
        Err(ConfigBackendError::InvalidRemoteHeaderValue)
    ));

    // The endpoint is looked at first.
    let mut bad_endpoint = spec(None, "http://127.0.0.1");
    bad_endpoint.remote_headers = vec![header("f o", "bar")];
    let error = BesBackend::Spec(bad_endpoint).try_into().unwrap_err();
    assert_eq!("backend endpoint http://127.0.0.1 has invalid scheme", error.message());
}

#[test]
fn headers_are_kept_as_long_as_the_map_takes_them() {
    let mut many = spec(None, "grpc://127.0.0.1");
    many.remote_headers = (0..7000).map(|i| header(&format!("h{}", i % 6560), "x")).collect();
    let backend = BesBackend::Spec(many).try_into().unwrap();
    assert_eq!(7000, backend.remote_headers.len());
    assert_eq!(6560, backend.remote_headers.keys_len());

    let mut too_many = spec(None, "grpc://127.0.0.1");
    too_many.remote_headers = (0..24577).map(|i| header(&format!("h{i}"), "x")).collect();
    let error = BesBackend::Spec(too_many).try_into().unwrap_err();
    assert!(matches!(error, ConfigBackendError::TooManyRemoteHeaders));
    assert_eq!("too many remote headers", error.message());
}
