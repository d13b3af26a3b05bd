use nbes::args::{Args, ArgsError, BackendArgError, BesBackendArg};
use nbes::endpoint::EndpointError;
use nbes::forwarding::Timeout;

#[test]
fn parse_bes_backend_arg_as_endpoint() {
    let result = "grpc://127.0.0.1:6000".parse::<BesBackendArg>();

    assert!(result.is_ok());
    let backend = result.unwrap();
    assert_eq!("grpc://127.0.0.1:6000", backend.endpoint,);
}

#[test]
fn parse_bes_backend_with_properties() {
    let result = "name=foobar,endpoint=grpc://127.0.0.1:6000".parse::<BesBackendArg>();

    assert!(result.is_ok());
    let backend = result.unwrap();
    assert_eq!("grpc://127.0.0.1:6000", backend.endpoint);
    assert_eq!(Some("foobar".to_string()), backend.name);
}

#[test]
fn parse_bes_backend_endpoint_multiple_values_fail() {
    let result = "endpoint=grpc://127.0.0.1:3000,endpoint=grpc://127.0.0.1:3001"
        .parse::<BesBackendArg>();

    assert!(result.is_err());
    assert!(matches!(result, Err(BackendArgError::MultipleEndpoints)));
}

#[test]
fn parse_bes_backend_no_name() {
    let result = "endpoint=grpc://127.0.0.1:6000".parse::<BesBackendArg>();

    assert!(result.is_ok());
    let backend = result.unwrap();
    assert!(backend.name.is_none());
}

#[test]
fn parse_bes_backend_name_multiple_values_fail() {
    let result = "name=a,name=b,endpoint=grpc://127.0.0.1:3000".parse::<BesBackendArg>();

    assert!(result.is_err());
    assert!(matches!(result, Err(BackendArgError::MultipleNames)));
}

#[test]
fn parse_bes_backend_remote_header() {
    let result = "endpoint=grpc://127.0.0.1:3000,remote_header=x-foobar-key=12345"
        .parse::<BesBackendArg>();

    assert!(result.is_ok());
    let headers = result.unwrap().remote_headers;
    assert_eq!(1, headers.len());
    assert_eq!("12345", headers.get("x-foobar-key").unwrap());
}

#[test]
fn parse_bes_backend_remote_header_multiple() {
    let result =
        "endpoint=grpc://127.0.0.1:3000,remote_header=x-foobar-key=12345,remote_header=moo=cow"
            .parse::<BesBackendArg>();

    assert!(result.is_ok());
    let headers = result.unwrap().remote_headers;
    assert_eq!(2, headers.len());
    assert_eq!("12345", headers.get("x-foobar-key").unwrap());
    assert_eq!("cow", headers.get("moo").unwrap());
}

#[test]
fn parse_bes_backend_async() {
    let result = "endpoint=grpc://127.0.0.1:3000,async=true".parse::<BesBackendArg>();

    assert!(result.is_ok());
    let backend = result.unwrap();
    assert!(backend.asynchronous);
}

#[test]
fn parse_bes_backend_tls_client_certificate() {
    let result =
        "endpoint=grpc://127.0.0.1:3000,tls_client_certificate=/cert".parse::<BesBackendArg>();

    assert!(result.is_ok());
    let arg = result.unwrap();
    let cert = arg.tls_client_certificate;
    assert!(cert.is_some());
    assert_eq!("/cert", cert.unwrap().to_string_lossy());
}

#[test]
fn parse_bes_backend_tls_client_key() {
    let result = "endpoint=grpc://127.0.0.1:3000,tls_client_key=/key".parse::<BesBackendArg>();

    assert!(result.is_ok());
    let arg = result.unwrap();
    let key = arg.tls_client_key;
    assert!(key.is_some());
    assert_eq!("/key", key.unwrap().to_string_lossy());
}

#[test]
fn parse_bes_backend_connect_timeout() {
    let result = "endpoint=grpc://127.0.0.1:3000,connect_timeout=15".parse::<BesBackendArg>();

    assert!(result.is_ok());
    let arg = result.unwrap();
    let connect_timeout = arg.connect_timeout;
    assert!(connect_timeout.is_some());
    assert_eq!(15, connect_timeout.unwrap());
}

#[test]
fn parse_bes_backend_request_timeout() {
    let result = "endpoint=grpc://127.0.0.1:3000,request_timeout=10".parse::<BesBackendArg>();

    assert!(result.is_ok());
    let arg = result.unwrap();
    let request_timeout = arg.request_timeout;
    assert!(request_timeout.is_some());
    assert_eq!(10, request_timeout.unwrap());
}

#[test]
fn parse_bes_backend_request_buffer_size() {
    let result =
        "endpoint=grpc://127.0.0.1:3000,request_buffer_size=2000".parse::<BesBackendArg>();

    assert!(result.is_ok());
    let arg = result.unwrap();
    let request_buffer_size = arg.request_buffer_size;
    assert!(request_buffer_size.is_some());
    assert_eq!(2000, request_buffer_size.unwrap());
}

#[test]
fn validate_duplicate_bes_backend_names() {
    let args = Args {
        bes_backends: vec![
            BesBackendArg {
                name: Some("foobar".to_string()),
                ..Default::default()
            },
            BesBackendArg {
                name: Some("foobar".to_string()),
                ..Default::default()
            },
        ],
        ..Default::default()
    };

    assert!(args.validate().is_err());
    let ArgsError::SameName(name) = args.validate().unwrap_err();
    assert_eq!("foobar", name);
    assert_eq!(
        "multiple bes backends have the same name foobar",
        args.validate().unwrap_err().message()
    );
}

#[test]
fn validate_different_bes_backend_names() {
    let args = Args {
        bes_backends: vec![
            BesBackendArg {
                name: Some("foobar".to_string()),
                ..Default::default()
            },
            BesBackendArg {
                name: Some("moocow".to_string()),
                ..Default::default()
            },
        ],
        ..Default::default()
    };

    assert!(args.validate().is_ok());
}

#[test]
fn backends_without_a_name_are_not_alike() {
    let args = Args {
        bes_backends: vec![BesBackendArg::default(), BesBackendArg::default()],
        ..Default::default()
    };

    assert!(args.validate().is_ok());
}

/// The words for what is wrong with an argument.
fn complaint(arg: &str) -> String {
    arg.parse::<BesBackendArg>().unwrap_err().message()
}

#[test]
fn each_error_has_an_argument() {
    assert_eq!("invalid endpoint", complaint("grpc://a,grpc://b"));
    assert_eq!("missing endpoint", complaint("name=a"));
    assert_eq!("multiple endpoints", complaint("endpoint=a,endpoint=b"));
    assert_eq!("multiple names", complaint("endpoint=a,name=b,name=c"));
    assert_eq!("invalid remote header foo", complaint("endpoint=a,remote_header=foo"));
    assert_eq!("invalid remote header key f o", complaint("endpoint=a,remote_header=f o=b"));
    assert_eq!(
        "invalid remote header key foo-bin",
        complaint("endpoint=a,remote_header=foo-bin=b")
    );
    assert_eq!("invalid remote header key ", complaint("endpoint=a,remote_header==b"));
    assert_eq!("invalid remote header value b\n", complaint("endpoint=a,remote_header=foo=b\n"));
    assert_eq!("multiple values for async", complaint("endpoint=a,async=true,async=true"));
    assert_eq!("invalid async value", complaint("endpoint=a,async=True"));
    assert_eq!(
        "multiple tls client certificates",
        complaint("endpoint=a,tls_client_certificate=b,tls_client_certificate=c")
    );
    assert_eq!(
        "multiple tls client keys",
        complaint("endpoint=a,tls_client_key=b,tls_client_key=c")
    );
    assert_eq!(
        "multiple connect timeouts",
        complaint("endpoint=a,connect_timeout=1,connect_timeout=2")
    );
    assert_eq!("invalid connect_timeout", complaint("endpoint=a,connect_timeout=-1"));
    assert_eq!(
        "multiple request timeouts",
        complaint("endpoint=a,request_timeout=1,request_timeout=2")
    );
    assert_eq!("invalid request_timeout", complaint("endpoint=a,request_timeout="));
    assert_eq!(
        "multiple request buffer sizes",
        complaint("endpoint=a,request_buffer_size=1,request_buffer_size=2")
    );
    assert_eq!("invalid request_buffer_size", complaint("endpoint=a,request_buffer_size=1k"));
}

#[test]
fn the_first_error_is_reported() {
    assert_eq!("missing endpoint", complaint("name=a,name=b,async=x"));
    assert_eq!("multiple names", complaint("endpoint=x,name=a,name=b,async=x"));
    assert_eq!(
        "invalid remote header a",
        complaint("endpoint=x,async=x,remote_header=a,remote_header= =b")
    );
    assert_eq!("invalid async value", complaint("endpoint=x,connect_timeout=x,async=x"));
}

#[test]
fn numbers_are_bounded() {
    let largest = "endpoint=a,connect_timeout=18446744073709551615".parse::<BesBackendArg>();
    assert_eq!(Some(u64::MAX), largest.unwrap().connect_timeout);
    assert_eq!(
        "invalid connect_timeout",
        complaint("endpoint=a,connect_timeout=18446744073709551616")
    );
    let signed = "endpoint=a,connect_timeout=+0015".parse::<BesBackendArg>();
    assert_eq!(Some(15), signed.unwrap().connect_timeout);
    assert_eq!("invalid connect_timeout", complaint("endpoint=a,connect_timeout=+"));
}

#[test]
fn values_may_hold_equals_signs_and_unknown_properties_are_ignored() {
    let arg = "endpoint=grpc://a?b=c,color=red,remote_header=Foo==x=".parse::<BesBackendArg>();
    let arg = arg.unwrap();
    assert_eq!("grpc://a?b=c", arg.endpoint);
    assert_eq!("=x=", arg.remote_headers.get("foo").unwrap());
}

#[test]
fn a_header_may_be_given_several_times() {
    let arg = "endpoint=a,remote_header=foo=1,remote_header=moo=cow,remote_header=FOO=2"
        .parse::<BesBackendArg>()
        .unwrap();
    assert_eq!(3, arg.remote_headers.len());
    let values: Vec<_> = arg.remote_headers.get_all("foo").iter().collect();
    assert_eq!(2, values.len());
    assert_eq!("1", values[0]);
    assert_eq!("2", values[1]);
    assert!(!values[0].is_sensitive());
}

/// So many headers, each of a name of its own.
fn distinct_headers(n: usize) -> String {
    (0..n).map(|i| format!(",remote_header=h{i}=x")).collect()
}

#[test]
fn any_number_of_values_of_a_header_is_kept() {
    let text = format!("endpoint=a{}", ",remote_header=h=x".repeat(6554));
    let arg = text.parse::<BesBackendArg>().unwrap();
    assert_eq!(6554, arg.remote_headers.len());
    assert_eq!(1, arg.remote_headers.keys_len());
}

#[test]
fn headers_of_many_names_are_kept() {
    let text = format!("endpoint=a{}", distinct_headers(6554));
    let arg = text.parse::<BesBackendArg>().unwrap();
    assert_eq!(6554, arg.remote_headers.len());
    assert_eq!("x", arg.remote_headers.get("h6553").unwrap());
}

#[test]
fn more_names_of_headers_than_a_map_takes_are_refused() {
    let headers = distinct_headers(24577);
    assert_eq!("too many remote headers", complaint(&format!("endpoint=a{headers}")));
    assert_eq!("missing endpoint", complaint(&format!("name=b1{headers}")));
    assert_eq!("multiple endpoints", complaint(&format!("endpoint=a,endpoint=b{headers}")));
    assert_eq!(
        "multiple names",
        complaint(&format!("endpoint=a,name=b1,name=b2{headers}"))
    );
    let wrong = format!("endpoint=a,remote_header=oops{headers}");
    assert_eq!("invalid remote header oops", complaint(&wrong));
}

#[test]
fn the_order_of_properties_does_not_matter() {
    let properties = [
        "endpoint=grpc://a",
        "name=b1",
        "remote_header=foo=1",
        "async=true",
        "remote_header=foo=2",
        "connect_timeout=5",
    ];
    for order in [[0, 1, 2, 3, 4, 5], [2, 5, 4, 1, 3, 0], [3, 2, 0, 4, 5, 1]] {
        let text = order.map(|i: usize| properties[i]).join(",");
        let arg = text.parse::<BesBackendArg>().unwrap();
        assert_eq!("grpc://a", arg.endpoint);
        assert_eq!(Some("b1".to_string()), arg.name);
        assert!(arg.asynchronous);
        assert_eq!(Some(5), arg.connect_timeout);
        let values: Vec<_> = arg.remote_headers.get_all("foo").iter().collect();
        assert_eq!(vec!["1", "2"], values);
    }
    for text in ["async=x,connect_timeout=y", "connect_timeout=y,async=x"] {
        assert_eq!("missing endpoint", complaint(text));
        assert_eq!("invalid async value", complaint(&format!("{text},endpoint=a")));
    }
}

#[test]
fn properties_of_other_names_do_not_matter() {
    for text in [
        "color=red,endpoint=a,name=b1",
        "endpoint=a,color=red,name=b1",
        "endpoint=a,name=b1,color=red,=,color=blue",
    ] {
        let arg = text.parse::<BesBackendArg>().unwrap();
        assert_eq!("a", arg.endpoint);
        assert_eq!(Some("b1".to_string()), arg.name);
    }
    assert_eq!("missing endpoint", complaint("name=b1,Endpoint=a"));
}

#[test]
fn an_argument_becomes_a_backend() {
    let arg = "name=b1,endpoint=127.0.0.1,async=true,tls_client_certificate=/cert,tls_client_key=/key,connect_timeout=5,remote_header=foo=bar"
        .parse::<BesBackendArg>()
        .unwrap();
    let mut backend = arg.try_into().unwrap();

    assert_eq!("b1", backend.name);
    assert_eq!("grpcs", backend.endpoint.scheme());
    assert_eq!(Some(443), backend.endpoint.port());
    assert!(backend.asynchronous);
    assert_eq!("bar", backend.remote_headers.get("foo").unwrap());
    assert_eq!(500, backend.request_buffer_size());
    backend
        .lazy_connect(&vec![], &nbes::forwarding::TlsOutcome::Prepared)
        .unwrap();
    let client = backend.client().unwrap();
    assert_eq!(Some(Timeout { secs: 5, nanos: 0 }), client.connect_timeout);
    assert_eq!(None, client.request_timeout);
    let identity = client.tls.as_ref().unwrap().identity.as_ref().unwrap();
    assert_eq!("/cert", identity.certificate.to_string_lossy());
    assert_eq!("/key", identity.key.to_string_lossy());
}

#[test]
fn an_argument_with_a_bad_endpoint_becomes_no_backend() {
    let arg = "http://127.0.0.1".parse::<BesBackendArg>().unwrap();
    assert!(matches!(arg.try_into(), Err(EndpointError::InvalidScheme(_))));
}
