//! What arguments and configuration file together make, said of the calls themselves.
use vstd::prelude::*;

use crate::args::{ArgView, Args, BesBackendArg};
use crate::binding::{
    addr_text, binding_error_message, binding_of, law_socket_binding_round_trip, BindingErrorView,
    BindingView, Ipv4Addr, SocketAddrV4,
};
use crate::build_config::{
    arg_backends_built, arg_describes, assemble_config, assembled, build_config,
    combine_backends_from_config_and_args, combined, config_backends_built,
    config_backends_overflow, config_result, describes, first_arg_error, first_config_error,
    has_name, is_config_of, is_last_at, last_of_name, law_args_take_priority,
    law_combined_names_are_unique, law_default_listen, BuildConfigError, BuildConfigErrorView,
};
use crate::config_file::laws::given_name;
use crate::config_file::{
    config_backend_error_message, config_builder, BesBackend as DescribedBackend,
    ConfigBackendError, ConfigFile,
};
use crate::endpoint::{endpoint_error_message, endpoint_of};
use crate::forwarding::service::backend_views;
use crate::forwarding::{BackendView, BesBackend, Timeout};
use crate::path::paths;
use crate::text::decimal;
use crate::{Config, ConfigView};

verus! {

/// The server listens on what the arguments name; where they name nothing, on what the
/// configuration file names; and where that names nothing either, on every address at port 9000.
pub proof fn law_listens_where_it_is_told(
    args: Args,
    file: ConfigFile,
    backends: Vec<BesBackend>,
    r: Result<Config, BuildConfigError>,
)
    requires
        call_ensures(assemble_config, (args, file, backends), r),
        r is Ok,
    ensures
        args.listen matches Some(text) ==> binding_of(text@) == Ok::<BindingView, BindingErrorView>(
            r->Ok_0@.listen,
        ),
        args.listen is None && file.server.listen is Some ==> binding_of(
            file.server.listen->0@,
        ) == Ok::<BindingView, BindingErrorView>(r->Ok_0@.listen),
        args.listen is None && file.server.listen is None ==> r->Ok_0@.listen
            == BindingView::SocketAddr(
            SocketAddrV4 { ip: Ipv4Addr { a: 0, b: 0, c: 0, d: 0 }, port: 9000 },
        ),
{
    if args.listen is None && file.server.listen is None {
        law_default_listen(args, file, backend_views(backends@));
    }
}

/// Each bound is the one that the arguments set; where they set none, it is the one of the
/// configuration file; and where neither sets one, there is none. Requests are shed if one of the
/// two says so.
pub proof fn law_bounds_come_from_arguments_then_file(
    args: Args,
    file: ConfigFile,
    backends: Vec<BesBackend>,
    r: Result<Config, BuildConfigError>,
)
    requires
        call_ensures(assemble_config, (args, file, backends), r),
        r is Ok,
    ensures
        ({
            let limits = r->Ok_0@.limits;
            &&& limits.concurrency_limit_per_connection
                == if args.concurrency_limit_per_connection is Some {
                args.concurrency_limit_per_connection
            } else {
                file.server.concurrency_limit_per_connection
            }
            &&& limits.load_shed_requests <==> args.load_shed_requests
                || file.server.load_shed_requests
            &&& limits.max_concurrent_streams == if args.max_concurrent_streams is Some {
                args.max_concurrent_streams
            } else {
                file.server.max_concurrent_streams
            }
            &&& args.max_connection_age matches Some(secs) ==> limits.max_connection_age == Some(
                Timeout { secs, nanos: 0 },
            )
            &&& args.max_connection_age is None ==> match file.server.max_connection_age {
                Some(secs) => limits.max_connection_age == Some(Timeout { secs, nanos: 0 }),
                None => limits.max_connection_age is None,
            }
            &&& args.max_connection_age_grace matches Some(secs) ==> limits.max_connection_age_grace
                == Some(Timeout { secs, nanos: 0 })
            &&& args.max_connection_age_grace is None
                ==> match file.server.max_connection_age_grace {
                Some(secs) => limits.max_connection_age_grace == Some(Timeout { secs, nanos: 0 }),
                None => limits.max_connection_age_grace is None,
            }
        }),
{
}

/// The server is secured with the certificate and the key that the arguments name, or else with
/// those of the configuration file; it takes both or neither. Certificates of arguments and file
/// are trusted, those of the arguments first. The backends are those that were handed over.
pub proof fn law_certificates_and_backends(
    args: Args,
    file: ConfigFile,
    backends: Vec<BesBackend>,
    r: Result<Config, BuildConfigError>,
)
    requires
        call_ensures(assemble_config, (args, file, backends), r),
        r is Ok,
    ensures
        ({
            let tls = r->Ok_0@.server_tls_config;
            &&& tls is Some <==> args.server_tls_certificate is Some || file.server.tls.certificate
                is Some
            &&& tls is Some <==> args.server_tls_key is Some || file.server.tls.key is Some
            &&& tls matches Some(tls) ==> {
                &&& args.server_tls_certificate matches Some(path) ==> tls.certificate == path@
                &&& args.server_tls_certificate is None ==> tls.certificate
                    == file.server.tls.certificate->0@
                &&& args.server_tls_key matches Some(path) ==> tls.key == path@
                &&& args.server_tls_key is None ==> tls.key == file.server.tls.key->0@
            }
            &&& r->Ok_0@.tls_certificates == paths(args.tls_certificate@) + paths(
                file.tls_certificates@,
            )
            &&& r->Ok_0@.bes_backends == backend_views(backends@)
        }),
{
}

/// There is no configuration exactly if one of certificate and key is missing, or if what is named
/// to listen on is nothing to listen on; the first of these is reported.
pub proof fn law_why_no_configuration(
    args: Args,
    file: ConfigFile,
    backends: Vec<BesBackend>,
    r: Result<Config, BuildConfigError>,
)
    requires
        call_ensures(assemble_config, (args, file, backends), r),
    ensures
        ({
            let certificate = args.server_tls_certificate is Some || file.server.tls.certificate
                is Some;
            let key = args.server_tls_key is Some || file.server.tls.key is Some;
            let listen = if args.listen is Some {
                binding_of(args.listen->0@)
            } else if file.server.listen is Some {
                binding_of(file.server.listen->0@)
            } else {
                binding_of("0.0.0.0:9000"@)
            };
            &&& r is Err && r->Err_0 is MissingServerTlsKey <==> certificate && !key
            &&& r is Err && r->Err_0 is MissingServerTlsCertificate <==> key && !certificate
            &&& certificate == key ==> (r is Err <==> listen is Err)
            &&& certificate == key && listen is Err ==> r->Err_0@ == BuildConfigErrorView::Listen(
                listen->Err_0,
            )
        }),
{
}

/// The text that stands in where nothing is named names every address at port 9000.
pub proof fn law_default_text_names_the_default()
    ensures
        binding_of("0.0.0.0:9000"@) == Ok::<BindingView, BindingErrorView>(
            BindingView::SocketAddr(
                SocketAddrV4 { ip: Ipv4Addr { a: 0, b: 0, c: 0, d: 0 }, port: 9000 },
            ),
        ),
{
    let addr = SocketAddrV4 { ip: Ipv4Addr { a: 0, b: 0, c: 0, d: 0 }, port: 9000 };
    law_socket_binding_round_trip(addr);
    reveal_strlit("0.0.0.0:9000");
    reveal_with_fuel(decimal, 4);
    assert(decimal(0) =~= seq!['0']);
    assert(decimal(9000) =~= seq!['9', '0', '0', '0']);
    assert(addr_text(addr) =~= "0.0.0.0:9000"@);
}

/// The words for why there is no configuration.
pub proof fn law_no_configuration_words(error: &BuildConfigError, r: String)
    requires
        call_ensures(BuildConfigError::message, (error,), r),
    ensures
        match error {
            BuildConfigError::ConfigBackend(error) => r@
                == config_backend_error_message(error@),
            BuildConfigError::ArgBackend(error) => r@
                == endpoint_error_message(error@),
            BuildConfigError::MissingServerTlsKey => r@
                == "server tls certificate provided but key is missing; provide the --server_tls_key arg or server.tls.key config option"@,
            BuildConfigError::MissingServerTlsCertificate => r@
                == "server tls key provided but certificate is missing; provide the --server_tls_certificate arg or server.tls.certificate config option"@,
            BuildConfigError::Listen(error) => r@
                == "failed to parse server binding (bad --listen arg or server.listen config option): "@
                + binding_error_message(error@),
        },
{
}

/// Of all backends one of each name remains: that of the arguments where they have one, the last
/// if they have several, and else that of the configuration file.
pub proof fn law_one_backend_of_each_name(
    config_backends: Vec<BesBackend>,
    args_backends: Vec<BesBackend>,
    b: BackendView,
    r: Vec<BesBackend>,
)
    requires
        call_ensures(
            combine_backends_from_config_and_args,
            (config_backends, args_backends),
            r,
        ),
    ensures
        ({
            let config = backend_views(config_backends@);
            let args = backend_views(args_backends@);
            let all = backend_views(r@);
            let last_in_args = exists|i: int| is_last_of_its_name(args, i, b);
            let last_in_config = exists|i: int| is_last_of_its_name(config, i, b);
            let named_in_args = exists|i: int|
                0 <= i < args.len() && (#[trigger] args[i]).name == b.name;
            &&& all.contains(b) <==> last_in_args || last_in_config && !named_in_args
            &&& forall|i: int, j: int|
                0 <= i < j < all.len() ==> (#[trigger] all[i]).name != (#[trigger] all[j]).name
        }),
{
    let config = backend_views(config_backends@);
    let args = backend_views(args_backends@);
    law_args_take_priority(config, args, b);
    law_combined_names_are_unique(config, args);
    lemma_last_of_name(args, b);
    lemma_last_of_name(config, b);
    assert(has_name(args, args.len() as int, b.name) <==> exists|i: int|
        0 <= i < args.len() && (#[trigger] args[i]).name == b.name);
}

/// A backend stands at a position, and none behind it has its name.
pub open spec fn is_last_of_its_name(backends: Seq<BackendView>, i: int, b: BackendView) -> bool {
    &&& 0 <= i < backends.len()
    &&& backends[i] == b
    &&& forall|j: int| i < j < backends.len() ==> (#[trigger] backends[j]).name != b.name
}

proof fn lemma_last_of_name(backends: Seq<BackendView>, b: BackendView)
    ensures
        last_of_name(backends, backends.len() as int, b) <==> exists|i: int|
            is_last_of_its_name(backends, i, b),
{
    let n = backends.len() as int;
    if last_of_name(backends, n, b) {
        let i = choose|i: int| is_last_at(backends, n, b, i);
        assert(is_last_of_its_name(backends, i, b));
    }
    if exists|i: int| is_last_of_its_name(backends, i, b) {
        let i = choose|i: int| is_last_of_its_name(backends, i, b);
        assert(is_last_at(backends, n, b, i));
    }
}

/// A configuration has a backend for each that the arguments describe, with what they say of it.
pub proof fn law_described_backends_are_configured(
    args: Args,
    file: ConfigFile,
    i: int,
    r: Result<Config, BuildConfigError>,
)
    requires
        call_ensures(build_config, (args, file), r),
        r is Ok,
        0 <= i < args.bes_backends@.len(),
        args.bes_backends@[i]@.name is Some,
        forall|j: int|
            i < j < args.bes_backends@.len() ==> (#[trigger] args.bes_backends@[j])@.name is Some
                && args.bes_backends@[j]@.name != args.bes_backends@[i]@.name,
    ensures
        exists|k: int|
            0 <= k < r->Ok_0@.bes_backends.len() && has_settings(
                #[trigger] r->Ok_0@.bes_backends[k],
                args.bes_backends@[i]@,
            ),
{
    let config = r->Ok_0@;
    lemma_no_error(args.bes_backends@, 0, i);
    let (c, a) = choose|c: Seq<BackendView>, a: Seq<BackendView>|
        #[trigger] config_backends_built(file.bes_backends@, c) && #[trigger] arg_backends_built(
            args.bes_backends@,
            a,
        ) && Ok::<ConfigView, BuildConfigErrorView>(config) == assembled(
            args,
            file,
            combined(c, a),
        );
    let b = a[i];
    assert(arg_describes(args.bes_backends@[i]@, b));
    assert forall|j: int| i < j < a.len() implies (#[trigger] a[j]).name != b.name by {
        assert(arg_describes(args.bes_backends@[j]@, a[j]));
    }
    assert(is_last_at(a, a.len() as int, b, i));
    law_args_take_priority(c, a, b);
    let k = choose|k: int| 0 <= k < combined(c, a).len() && combined(c, a)[k] == b;
    assert(config.bes_backends[k] == b);
    assert(has_settings(config.bes_backends[k], args.bes_backends@[i]@));
}

/// A backend that is named has all that is said of it, and else the defaults.
pub open spec fn has_settings(b: BackendView, s: ArgView) -> bool {
    &&& s.name == Some(b.name)
    &&& endpoint_of(s.endpoint) is Ok
    &&& b.endpoint == endpoint_of(s.endpoint)->Ok_0
    &&& b.asynchronous == s.asynchronous
    &&& b.remote_headers == s.remote_headers
    &&& b.client is None
    &&& seconds_of(b.connect_timeout) == s.connect_timeout
    &&& seconds_of(b.request_timeout) == s.request_timeout
    &&& b.request_buffer_size == match s.request_buffer_size {
        Some(size) => size,
        None => 500usize,
    }
    &&& b.tls_client_identity is Some <==> s.tls_client_certificate is Some && s.tls_client_key
        is Some
    &&& b.tls_client_identity matches Some(pair) ==> s.tls_client_certificate == Some(
        pair.certificate,
    ) && s.tls_client_key == Some(pair.key)
}

/// A configuration has a backend for each that the configuration file describes under a name that
/// the arguments do not give.
pub proof fn law_backends_of_the_file_are_configured(
    args: Args,
    file: ConfigFile,
    i: int,
    r: Result<Config, BuildConfigError>,
)
    requires
        call_ensures(build_config, (args, file), r),
        r is Ok,
        0 <= i < file.bes_backends@.len(),
        given_name(file.bes_backends@[i]) is Some,
        forall|j: int|
            i < j < file.bes_backends@.len() ==> given_name(#[trigger] file.bes_backends@[j])
                is Some && given_name(file.bes_backends@[j]) != given_name(file.bes_backends@[i]),
        forall|j: int|
            0 <= j < args.bes_backends@.len() ==> (#[trigger] args.bes_backends@[j])@.name is Some
                && args.bes_backends@[j]@.name != given_name(file.bes_backends@[i]),
    ensures
        exists|k: int|
            0 <= k < r->Ok_0@.bes_backends.len() && Some(
                (#[trigger] r->Ok_0@.bes_backends[k]).name,
            ) == given_name(file.bes_backends@[i]) && is_described(
                file.bes_backends@[i],
                r->Ok_0@.bes_backends[k],
            ),
{
    let config = r->Ok_0@;
    let (c, a) = choose|c: Seq<BackendView>, a: Seq<BackendView>|
        #[trigger] config_backends_built(file.bes_backends@, c) && #[trigger] arg_backends_built(
            args.bes_backends@,
            a,
        ) && Ok::<ConfigView, BuildConfigErrorView>(config) == assembled(
            args,
            file,
            combined(c, a),
        );
    let b = c[i];
    assert(describes(file.bes_backends@[i], b));
    assert forall|j: int| i < j < c.len() implies (#[trigger] c[j]).name != b.name by {
        assert(describes(file.bes_backends@[j], c[j]));
    }
    assert(is_last_at(c, c.len() as int, b, i));
    assert forall|j: int| 0 <= j < a.len() implies (#[trigger] a[j]).name != b.name by {
        assert(arg_describes(args.bes_backends@[j]@, a[j]));
    }
    assert(!has_name(a, a.len() as int, b.name));
    law_args_take_priority(c, a, b);
    let k = choose|k: int| 0 <= k < combined(c, a).len() && combined(c, a)[k] == b;
    assert(config.bes_backends[k] == b);
}

proof fn lemma_no_error(backends: Seq<BesBackendArg>, from: int, i: int)
    requires
        0 <= from <= i < backends.len(),
        first_arg_error(backends, from) is None,
    ensures
        endpoint_of(backends[i]@.endpoint) is Ok,
    decreases i - from,
{
    if from < i {
        lemma_no_error(backends, from + 1, i);
    }
}

/// A configuration has no other backends than those that the arguments or the configuration file
/// describe, and no two of one name.
pub proof fn law_no_other_backends(
    args: Args,
    file: ConfigFile,
    k: int,
    r: Result<Config, BuildConfigError>,
)
    requires
        call_ensures(build_config, (args, file), r),
        r is Ok,
        0 <= k < r->Ok_0@.bes_backends.len(),
    ensures
        ({
            let b = r->Ok_0@.bes_backends[k];
            ||| exists|i: int|
                0 <= i < args.bes_backends@.len() && endpoint_of(
                    (#[trigger] args.bes_backends@[i])@.endpoint,
                ) is Ok && b.endpoint == endpoint_of(args.bes_backends@[i]@.endpoint)->Ok_0
                    && b.asynchronous == args.bes_backends@[i]@.asynchronous
            ||| exists|i: int|
                0 <= i < file.bes_backends@.len() && is_described(
                    #[trigger] file.bes_backends@[i],
                    b,
                )
        }),
        forall|j: int|
            0 <= j < r->Ok_0@.bes_backends.len() && j != k ==> (
            #[trigger] r->Ok_0@.bes_backends[j]).name != r->Ok_0@.bes_backends[k].name,
{
    let config = r->Ok_0@;
    let (c, a) = choose|c: Seq<BackendView>, a: Seq<BackendView>|
        #[trigger] config_backends_built(file.bes_backends@, c) && #[trigger] arg_backends_built(
            args.bes_backends@,
            a,
        ) && Ok::<ConfigView, BuildConfigErrorView>(config) == assembled(
            args,
            file,
            combined(c, a),
        );
    let b = config.bes_backends[k];
    assert(combined(c, a).contains(b));
    law_args_take_priority(c, a, b);
    law_combined_names_are_unique(c, a);
    if last_of_name(a, a.len() as int, b) {
        let n = a.len() as int;
        let i = choose|i: int| is_last_at(a, n, b, i);
        assert(arg_describes(args.bes_backends@[i]@, a[i]));
        assert(b.endpoint == endpoint_of(args.bes_backends@[i]@.endpoint)->Ok_0);
    } else {
        let n = c.len() as int;
        let i = choose|i: int| is_last_at(c, n, b, i);
        assert(describes(file.bes_backends@[i], c[i]));
        assert(is_described(file.bes_backends@[i], b));
    }
}

/// A backend is one that the configuration file describes: it goes to its endpoint, and is waited
/// for unless the file says that it is asynchronous.
pub open spec fn is_described(described: DescribedBackend, b: BackendView) -> bool {
    match described {
        DescribedBackend::Endpoint(endpoint) => endpoint_of(endpoint@) is Ok && b.endpoint
            == endpoint_of(endpoint@)->Ok_0 && !b.asynchronous,
        DescribedBackend::Spec(spec) => endpoint_of(spec.endpoint@) is Ok && b.endpoint
            == endpoint_of(spec.endpoint@)->Ok_0 && b.asynchronous == spec.asynchronous,
    }
}

/// A backend that cannot be described stops the configuration: the first one of the configuration
/// file, and where all of these are in order, the first one of the arguments.
pub proof fn law_wrong_backend_is_reported(
    args: Args,
    file: ConfigFile,
    k: int,
    r: Result<Config, BuildConfigError>,
)
    requires
        call_ensures(build_config, (args, file), r),
        file.bes_backends@.len() == 0,
        0 <= k < args.bes_backends@.len(),
        forall|i: int|
            0 <= i < k ==> endpoint_of((#[trigger] args.bes_backends@[i])@.endpoint) is Ok,
        endpoint_of(args.bes_backends@[k]@.endpoint) is Err,
    ensures
        r is Err,
        r->Err_0@ == BuildConfigErrorView::ArgBackend(
            endpoint_of(args.bes_backends@[k]@.endpoint)->Err_0,
        ),
{
    assert(first_config_error(file.bes_backends@, 0) is None);
    lemma_first_arg_error(args.bes_backends@, 0, k);
    assert(!config_backends_overflow(file.bes_backends@));
    assert(is_config_of(args, file, config_result(r)));
}

proof fn lemma_first_arg_error(backends: Seq<BesBackendArg>, from: int, k: int)
    requires
        0 <= from <= k < backends.len(),
        forall|i: int| from <= i < k ==> endpoint_of((#[trigger] backends[i])@.endpoint) is Ok,
        endpoint_of(backends[k]@.endpoint) is Err,
    ensures
        first_arg_error(backends, from) == Some(endpoint_of(backends[k]@.endpoint)->Err_0),
    decreases k - from,
{
    if from < k {
        assert(endpoint_of(backends[from]@.endpoint) is Ok);
        lemma_first_arg_error(backends, from + 1, k);
    }
}

/// Of the backends of the configuration file the first that is wrong is reported, whatever the
/// arguments say.
pub proof fn law_wrong_backend_of_the_file_is_reported(
    args: Args,
    file: ConfigFile,
    k: int,
    r: Result<Config, BuildConfigError>,
)
    requires
        call_ensures(build_config, (args, file), r),
        !config_backends_overflow(file.bes_backends@),
        0 <= k < file.bes_backends@.len(),
        forall|i: int| 0 <= i < k ==> config_builder(#[trigger] file.bes_backends@[i]) is Ok,
        config_builder(file.bes_backends@[k]) is Err,
    ensures
        r is Err,
        r->Err_0@ == BuildConfigErrorView::ConfigBackend(
            config_builder(file.bes_backends@[k])->Err_0,
        ),
{
    lemma_first_config_error(file.bes_backends@, 0, k);
}

proof fn lemma_first_config_error(backends: Seq<DescribedBackend>, from: int, k: int)
    requires
        0 <= from <= k < backends.len(),
        forall|i: int| from <= i < k ==> config_builder(#[trigger] backends[i]) is Ok,
        config_builder(backends[k]) is Err,
    ensures
        first_config_error(backends, from) == Some(config_builder(backends[k])->Err_0),
    decreases k - from,
{
    if from < k {
        assert(config_builder(backends[from]) is Ok);
        lemma_first_config_error(backends, from + 1, k);
    }
}

/// Where nothing is wrong with any backend, what arguments and file say of everything else decides:
/// the configuration is the one that is put together of it.
pub proof fn law_settings_reach_the_configuration(
    args: Args,
    file: ConfigFile,
    r: Result<Config, BuildConfigError>,
)
    requires
        call_ensures(build_config, (args, file), r),
        r is Ok,
    ensures
        args.listen matches Some(text) ==> binding_of(text@) == Ok::<BindingView, BindingErrorView>(
            r->Ok_0@.listen,
        ),
        args.listen is None && file.server.listen is Some ==> binding_of(
            file.server.listen->0@,
        ) == Ok::<BindingView, BindingErrorView>(r->Ok_0@.listen),
        r->Ok_0@.tls_certificates == paths(args.tls_certificate@) + paths(file.tls_certificates@),
        r->Ok_0@.limits.load_shed_requests <==> args.load_shed_requests
            || file.server.load_shed_requests,
        args.max_concurrent_streams is Some ==> r->Ok_0@.limits.max_concurrent_streams
            == args.max_concurrent_streams,
        args.max_concurrent_streams is None ==> r->Ok_0@.limits.max_concurrent_streams
            == file.server.max_concurrent_streams,
        args.listen is None && file.server.listen is None ==> r->Ok_0@.listen
            == BindingView::SocketAddr(
            SocketAddrV4 { ip: Ipv4Addr { a: 0, b: 0, c: 0, d: 0 }, port: 9000 },
        ),
        args.concurrency_limit_per_connection is Some
            ==> r->Ok_0@.limits.concurrency_limit_per_connection
            == args.concurrency_limit_per_connection,
        args.concurrency_limit_per_connection is None
            ==> r->Ok_0@.limits.concurrency_limit_per_connection
            == file.server.concurrency_limit_per_connection,
        seconds_of(r->Ok_0@.limits.max_connection_age) == if args.max_connection_age is Some {
            args.max_connection_age
        } else {
            file.server.max_connection_age
        },
        seconds_of(r->Ok_0@.limits.max_connection_age_grace)
            == if args.max_connection_age_grace is Some {
            args.max_connection_age_grace
        } else {
            file.server.max_connection_age_grace
        },
        r->Ok_0@.server_tls_config is Some <==> args.server_tls_certificate is Some
            || file.server.tls.certificate is Some,
        r->Ok_0@.server_tls_config is Some <==> args.server_tls_key is Some || file.server.tls.key
            is Some,
        r->Ok_0@.server_tls_config matches Some(tls) ==> {
            &&& args.server_tls_certificate matches Some(path) ==> tls.certificate == path@
            &&& args.server_tls_certificate is None ==> tls.certificate
                == file.server.tls.certificate->0@
            &&& args.server_tls_key matches Some(path) ==> tls.key == path@
            &&& args.server_tls_key is None ==> tls.key == file.server.tls.key->0@
        },
{
    if args.listen is None && file.server.listen is None {
        law_default_text_names_the_default();
    }
}

/// A span of whole seconds, as their number.
pub open spec fn seconds_of(timeout: Option<Timeout>) -> Option<u64> {
    match timeout {
        Some(timeout) => Some(timeout.secs),
        None => None,
    }
}

/// There is a configuration exactly if nothing is wrong with any backend, certificate and key are
/// both given or neither, and there is something to listen on; unless a map refuses the headers of
/// a backend.
pub proof fn law_when_there_is_a_configuration(
    args: Args,
    file: ConfigFile,
    r: Result<Config, BuildConfigError>,
)
    requires
        call_ensures(build_config, (args, file), r),
        !config_backends_overflow(file.bes_backends@),
    ensures
        ({
            let certificate = args.server_tls_certificate is Some || file.server.tls.certificate
                is Some;
            let key = args.server_tls_key is Some || file.server.tls.key is Some;
            let listen = if args.listen is Some {
                binding_of(args.listen->0@)
            } else if file.server.listen is Some {
                binding_of(file.server.listen->0@)
            } else {
                binding_of("0.0.0.0:9000"@)
            };
            r is Ok <==> {
                &&& forall|i: int|
                    0 <= i < file.bes_backends@.len() ==> config_builder(
                        #[trigger] file.bes_backends@[i],
                    ) is Ok
                &&& forall|i: int|
                    0 <= i < args.bes_backends@.len() ==> endpoint_of(
                        (#[trigger] args.bes_backends@[i])@.endpoint,
                    ) is Ok
                &&& certificate == key
                &&& listen is Ok
            }
        }),
{
    lemma_config_errors(file.bes_backends@, 0);
    lemma_arg_errors(args.bes_backends@, 0);
}

proof fn lemma_config_errors(backends: Seq<DescribedBackend>, from: int)
    requires
        0 <= from <= backends.len(),
    ensures
        first_config_error(backends, from) is None <==> forall|i: int|
            from <= i < backends.len() ==> config_builder(#[trigger] backends[i]) is Ok,
    decreases backends.len() - from,
{
    if from < backends.len() {
        lemma_config_errors(backends, from + 1);
    }
}

proof fn lemma_arg_errors(backends: Seq<BesBackendArg>, from: int)
    requires
        0 <= from <= backends.len(),
    ensures
        first_arg_error(backends, from) is None <==> forall|i: int|
            from <= i < backends.len() ==> endpoint_of((#[trigger] backends[i])@.endpoint) is Ok,
    decreases backends.len() - from,
{
    if from < backends.len() {
        lemma_arg_errors(backends, from + 1);
    }
}

/// What is wrong with a backend of the configuration file is what making it a backend gives.
pub proof fn law_described_backend_is_checked(
    described: DescribedBackend,
    r: Result<BesBackend, ConfigBackendError>,
)
    requires
        call_ensures(DescribedBackend::try_into, (described,), r),
        !(r is Err && r->Err_0 is TooManyRemoteHeaders),
    ensures
        config_builder(described) is Ok <==> r is Ok,
        r matches Err(error) ==> config_builder(described)->Err_0 == error@,
{
}

} // verus!
