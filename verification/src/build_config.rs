//! Putting a configuration together from arguments and a configuration file.
use vstd::prelude::*;

use crate::args::{
    arg_builder, builds, settings_over, timeout_of, ArgView, Args, BesBackendArg,
};
use crate::binding::{
    addr_text, binding_error_message, binding_of, default_binding, law_socket_binding_round_trip,
    Binding, BindingError, BindingErrorView, BindingView, Ipv4Addr, SocketAddrV4,
};
use crate::config_file::{
    config_backend_error_message, config_backend_fits, config_backend_overflows, config_builder,
    ConfigBackendError, ConfigBackendErrorView, ConfigFile,
};
use crate::endpoint::{
    endpoint_error_message, with_scheme, EndpointError, EndpointErrorView, MAX_ENDPOINT_LEN,
};
use crate::forwarding::service::backend_views;
use crate::forwarding::{builder_of, has_secure_target, BackendView, BesBackend, Timeout};
use crate::path::{path_view, paths, FilePath};
use crate::server::ServerLimits;
use crate::text::{decimal, text_view};
use crate::{config_file, Config, ConfigView, ServerTlsConfig, ServerTlsView};

pub mod laws;

verus! {

// ---------------------------------------------------------------------------
// Combining backends
// ---------------------------------------------------------------------------

/// The position of the backend of this name at or after `from`, or the number of backends.
pub open spec fn name_position(backends: Seq<BackendView>, name: Seq<char>, from: int) -> int
    decreases backends.len() - from,
{
    if from < 0 || from >= backends.len() {
        backends.len() as int
    } else if backends[from].name == name {
        from
    } else {
        name_position(backends, name, from + 1)
    }
}

/// `backends` with one more, which replaces one of the same name.
pub open spec fn with_backend(backends: Seq<BackendView>, b: BackendView) -> Seq<BackendView> {
    let i = name_position(backends, b.name, 0);
    if 0 <= i < backends.len() {
        backends.update(i, b)
    } else {
        backends.push(b)
    }
}

/// `backends` with the first `n` of others, each of which replaces one of the same name.
pub open spec fn with_backends(backends: Seq<BackendView>, more: Seq<BackendView>, n: int) -> Seq<
    BackendView,
>
    decreases n,
{
    if n <= 0 {
        backends
    } else {
        with_backend(with_backends(backends, more, n - 1), more[n - 1])
    }
}

/// The backends of the configuration file and those of the arguments, one for each name.
pub open spec fn combined(config: Seq<BackendView>, args: Seq<BackendView>) -> Seq<BackendView> {
    with_backends(
        with_backends(Seq::empty(), config, config.len() as int),
        args,
        args.len() as int,
    )
}

proof fn lemma_name_position(backends: Seq<BackendView>, name: Seq<char>, from: int)
    requires
        0 <= from <= backends.len(),
    ensures
        from <= name_position(backends, name, from) <= backends.len(),
        forall|j: int|
            from <= j < name_position(backends, name, from) ==> (#[trigger] backends[j]).name
                != name,
        name_position(backends, name, from) < backends.len() ==> backends[name_position(
            backends,
            name,
            from,
        )].name == name,
    decreases backends.len() - from,
{
    if from < backends.len() && backends[from].name != name {
        lemma_name_position(backends, name, from + 1);
    }
}

proof fn lemma_name_position_is(backends: Seq<BackendView>, name: Seq<char>, from: int, i: int)
    requires
        0 <= from <= i <= backends.len(),
        forall|j: int| from <= j < i ==> (#[trigger] backends[j]).name != name,
        i < backends.len() ==> backends[i].name == name,
    ensures
        name_position(backends, name, from) == i,
    decreases i - from,
{
    if from < i {
        lemma_name_position_is(backends, name, from + 1, i);
    }
}

/// No two backends have the same name.
pub open spec fn backend_names_unique(backends: Seq<BackendView>) -> bool {
    forall|i: int, j: int|
        0 <= i < j < backends.len() ==> (#[trigger] backends[i]).name != (#[trigger]
        backends[j]).name
}

/// What adding one backend does: its name stays unique, it is there, and backends of other names
/// are there as they were before.
proof fn lemma_with_backend(backends: Seq<BackendView>, b: BackendView, other: BackendView)
    requires
        backend_names_unique(backends),
    ensures
        backend_names_unique(with_backend(backends, b)),
        with_backend(backends, b).contains(b),
        other.name != b.name ==> (with_backend(backends, b).contains(other)
            <==> backends.contains(other)),
        other.name == b.name && with_backend(backends, b).contains(other) ==> other == b,
{
    lemma_name_position(backends, b.name, 0);
    let i = name_position(backends, b.name, 0);
    let r = with_backend(backends, b);
    if i < backends.len() {
        assert(r[i] == b);
    } else {
        assert(r[backends.len() as int] == b);
    }
    if other.name != b.name && backends.contains(other) {
        let k = choose|k: int| 0 <= k < backends.len() && backends[k] == other;
        assert(r[k] == other);
    }
    if other.name != b.name && r.contains(other) {
        let k = choose|k: int| 0 <= k < r.len() && r[k] == other;
        assert(backends[k] == other);
    }
    if other.name == b.name && r.contains(other) {
        let k = choose|k: int| 0 <= k < r.len() && r[k] == other;
        if k != i {
            assert(backends[k].name == b.name);
        }
    }
}

/// Where a backend of the list comes from once the first `n` of others are added: it is the last
/// of them with its name, or was there before and none of them has its name.
proof fn lemma_with_backends(
    backends: Seq<BackendView>,
    more: Seq<BackendView>,
    n: int,
    b: BackendView,
)
    requires
        backend_names_unique(backends),
        0 <= n <= more.len(),
    ensures
        backend_names_unique(with_backends(backends, more, n)),
        with_backends(backends, more, n).contains(b) <==> last_of_name(more, n, b) || backends
            .contains(b) && !has_name(more, n, b.name),
    decreases n,
{
    if n > 0 {
        lemma_with_backends(backends, more, n - 1, b);
        let before = with_backends(backends, more, n - 1);
        lemma_with_backend(before, more[n - 1], b);
        if b.name == more[n - 1].name {
            assert(has_name(more, n, b.name));
            if last_of_name(more, n, b) {
                let i = choose|i: int| is_last_at(more, n, b, i);
                if i < n - 1 {
                    assert(more[n - 1].name != b.name);
                }
                assert(b == more[n - 1]);
            }
            if b == more[n - 1] {
                assert(is_last_at(more, n, b, n - 1));
            }
        } else {
            if last_of_name(more, n - 1, b) {
                let m = n - 1;
                let i = choose|i: int| is_last_at(more, m, b, i);
                assert(is_last_at(more, n, b, i));
            }
            if last_of_name(more, n, b) {
                let i = choose|i: int| is_last_at(more, n, b, i);
                assert(is_last_at(more, n - 1, b, i));
            }
            if has_name(more, n, b.name) {
                let i = choose|i: int| 0 <= i < n && (#[trigger] more[i]).name == b.name;
                assert(0 <= i < n - 1);
            }
        }
    }
}

/// One of the first `n` backends has this name.
pub open spec fn has_name(backends: Seq<BackendView>, n: int, name: Seq<char>) -> bool {
    exists|i: int| 0 <= i < n && (#[trigger] backends[i]).name == name
}

/// `b` stands at position `i`, and none of the first `n` backends after it has its name.
pub open spec fn is_last_at(backends: Seq<BackendView>, n: int, b: BackendView, i: int) -> bool {
    &&& 0 <= i < n
    &&& backends[i] == b
    &&& forall|j: int| i < j < n ==> (#[trigger] backends[j]).name != b.name
}

/// Of the first `n` backends of its name, `b` is the last.
pub open spec fn last_of_name(backends: Seq<BackendView>, n: int, b: BackendView) -> bool {
    exists|i: int| is_last_at(backends, n, b, i)
}

/// Combined backends have different names.
pub proof fn law_combined_names_are_unique(config: Seq<BackendView>, args: Seq<BackendView>)
    ensures
        backend_names_unique(combined(config, args)),
{
    let b = arbitrary::<BackendView>();
    lemma_with_backends(Seq::empty(), config, config.len() as int, b);
    lemma_with_backends(
        with_backends(Seq::empty(), config, config.len() as int),
        args,
        args.len() as int,
        b,
    );
}

/// A backend is among the combined ones exactly if it is that of the arguments with its name (the
/// last one, if there are several), or if the arguments have none of its name and it is that of
/// the configuration file. So backends in arguments take priority.
pub proof fn law_args_take_priority(
    config: Seq<BackendView>,
    args: Seq<BackendView>,
    b: BackendView,
)
    ensures
        combined(config, args).contains(b) <==> last_of_name(args, args.len() as int, b)
            || last_of_name(config, config.len() as int, b) && !has_name(
            args,
            args.len() as int,
            b.name,
        ),
{
    lemma_with_backends(Seq::empty(), config, config.len() as int, b);
    lemma_with_backends(
        with_backends(Seq::empty(), config, config.len() as int),
        args,
        args.len() as int,
        b,
    );
}

/// Adds a backend, which replaces one of the same name.
fn add_or_replace(backends: &mut Vec<BesBackend>, backend: BesBackend)
    ensures
        backend_views(final(backends)@) == with_backend(backend_views(old(backends)@), backend@),
{
    let ghost views = backend_views(backends@);
    let ghost b = backend@;
    let mut i: usize = 0;
    while i < backends.len() && *backends[i].name() != *backend.name()
        invariant
            i <= backends@.len(),
            b == backend@,
            views == backend_views(backends@),
            forall|j: int| 0 <= j < i ==> (#[trigger] views[j]).name != b.name,
        decreases backends@.len() - i,
    {
        assert(views[i as int] == backends@[i as int]@);
        i = i + 1;
    }
    proof {
        if i < backends@.len() {
            assert(views[i as int] == backends@[i as int]@);
        }
        lemma_name_position_is(views, b.name, 0, i as int);
    }
    if i < backends.len() {
        backends.set(i, backend);
        assert(backend_views(backends@) =~= views.update(i as int, b));
    } else {
        backends.push(backend);
        assert(backend_views(backends@) =~= views.push(b));
    }
}

/// Combine backends declared in the configuration file and provided as arguments. Backends in
/// arguments that have the same name as one of the configuration file take priority.
pub fn combine_backends_from_config_and_args(
    config_backends: Vec<BesBackend>,
    args_backends: Vec<BesBackend>,
) -> (r: Vec<BesBackend>)
    ensures
        backend_views(r@) == combined(
            backend_views(config_backends@),
            backend_views(args_backends@),
        ),
{
    let mut backends: Vec<BesBackend> = Vec::new();
    assert(backend_views(backends@) =~= Seq::<BackendView>::empty());
    add_all(&mut backends, config_backends);
    add_all(&mut backends, args_backends);
    backends
}

/// Adds backends in order, each of which replaces one of the same name.
fn add_all(backends: &mut Vec<BesBackend>, more: Vec<BesBackend>)
    ensures
        backend_views(final(backends)@) == with_backends(
            backend_views(old(backends)@),
            backend_views(more@),
            more@.len() as int,
        ),
{
    let ghost before = backend_views(backends@);
    let ghost views = backend_views(more@);
    let ghost all = more@;
    let mut more = more;
    let ghost mut n: int = 0;
    while more.len() > 0
        invariant
            0 <= n <= all.len(),
            more@ =~= all.skip(n),
            views == backend_views(all),
            backend_views(backends@) == with_backends(before, views, n),
        decreases more@.len(),
    {
        let backend = more.remove(0);
        assert(backend == all[n]);
        assert(views[n] == backend@);
        add_or_replace(backends, backend);
        proof {
            n = n + 1;
        }
    }
}

// ---------------------------------------------------------------------------
// Building the configuration
// ---------------------------------------------------------------------------

/// Why there is no configuration.
#[derive(Debug)]
pub enum BuildConfigError {
    /// A backend of the configuration file is none.
    ConfigBackend(ConfigBackendError),
    /// A backend of the arguments is none.
    ArgBackend(EndpointError),
    /// There is a server certificate and no key.
    MissingServerTlsKey,
    /// There is a server key and no certificate.
    MissingServerTlsCertificate,
    /// There is nothing to listen on.
    Listen(BindingError),
}

#[verifier::ext_equal]
pub enum BuildConfigErrorView {
    ConfigBackend(ConfigBackendErrorView),
    ArgBackend(EndpointErrorView),
    MissingServerTlsKey,
    MissingServerTlsCertificate,
    Listen(BindingErrorView),
}

impl View for BuildConfigError {
    type V = BuildConfigErrorView;

    open spec fn view(&self) -> BuildConfigErrorView {
        match self {
            BuildConfigError::ConfigBackend(error) => BuildConfigErrorView::ConfigBackend(error@),
            BuildConfigError::ArgBackend(error) => BuildConfigErrorView::ArgBackend(error@),
            BuildConfigError::MissingServerTlsKey => BuildConfigErrorView::MissingServerTlsKey,
            BuildConfigError::MissingServerTlsCertificate =>
                BuildConfigErrorView::MissingServerTlsCertificate,
            BuildConfigError::Listen(error) => BuildConfigErrorView::Listen(error@),
        }
    }
}

/// The words for why there is no configuration.
pub open spec fn build_config_error_message(error: BuildConfigErrorView) -> Seq<char> {
    match error {
        BuildConfigErrorView::ConfigBackend(error) => config_backend_error_message(error),
        BuildConfigErrorView::ArgBackend(error) => endpoint_error_message(error),
        BuildConfigErrorView::MissingServerTlsKey =>
            "server tls certificate provided but key is missing; provide the --server_tls_key arg or server.tls.key config option"@,
        BuildConfigErrorView::MissingServerTlsCertificate =>
            "server tls key provided but certificate is missing; provide the --server_tls_certificate arg or server.tls.certificate config option"@,
        BuildConfigErrorView::Listen(error) =>
            "failed to parse server binding (bad --listen arg or server.listen config option): "@
            + binding_error_message(error),
    }
}

impl BuildConfigError {
    /// The words for why there is no configuration.
    pub fn message(&self) -> (r: String)
        ensures
            r@ == build_config_error_message(self@),
    {
        match self {
            BuildConfigError::ConfigBackend(error) => error.message(),
            BuildConfigError::ArgBackend(error) => error.message(),
            BuildConfigError::MissingServerTlsKey =>
                "server tls certificate provided but key is missing; provide the --server_tls_key arg or server.tls.key config option".to_owned(),
            BuildConfigError::MissingServerTlsCertificate =>
                "server tls key provided but certificate is missing; provide the --server_tls_certificate arg or server.tls.certificate config option".to_owned(),
            BuildConfigError::Listen(error) =>
                "failed to parse server binding (bad --listen arg or server.listen config option): "
                .to_owned().concat(error.message().as_str()),
        }
    }
}

/// What the arguments say, or else what the configuration file says.
pub open spec fn either<T>(arg: Option<T>, config: Option<T>) -> Option<T> {
    if arg is Some {
        arg
    } else {
        config
    }
}

/// The files of the server for TLS: both, or neither.
pub open spec fn server_tls_of(certificate: Option<Seq<u8>>, key: Option<Seq<u8>>) -> Result<
    Option<ServerTlsView>,
    BuildConfigErrorView,
> {
    match (certificate, key) {
        (Some(certificate), Some(key)) => Ok(Some(ServerTlsView { certificate, key })),
        (Some(_), None) => Err(BuildConfigErrorView::MissingServerTlsKey),
        (None, Some(_)) => Err(BuildConfigErrorView::MissingServerTlsCertificate),
        (None, None) => Ok(None),
    }
}

/// The text that names what to listen on.
pub open spec fn listen_text(args: Args, file: ConfigFile) -> Seq<char> {
    match either(text_view(args.listen), text_view(file.server.listen)) {
        Some(listen) => listen,
        None => "0.0.0.0:9000"@,
    }
}

/// The bounds that the arguments set, or else the configuration file; requests are shed if
/// either says so.
pub open spec fn limits_of(args: Args, file: ConfigFile) -> ServerLimits {
    ServerLimits {
        concurrency_limit_per_connection: either(
            args.concurrency_limit_per_connection,
            file.server.concurrency_limit_per_connection,
        ),
        load_shed_requests: args.load_shed_requests || file.server.load_shed_requests,
        max_concurrent_streams: either(
            args.max_concurrent_streams,
            file.server.max_concurrent_streams,
        ),
        max_connection_age: timeout_of(
            either(args.max_connection_age, file.server.max_connection_age),
        ),
        max_connection_age_grace: timeout_of(
            either(args.max_connection_age_grace, file.server.max_connection_age_grace),
        ),
    }
}

/// The configuration with these backends, or why there is none. Everything else is as the
/// arguments say, or else as the configuration file says; certificates of both are trusted.
pub open spec fn assembled(args: Args, file: ConfigFile, backends: Seq<BackendView>) -> Result<
    ConfigView,
    BuildConfigErrorView,
> {
    match server_tls_of(
        either(path_view(args.server_tls_certificate), path_view(file.server.tls.certificate)),
        either(path_view(args.server_tls_key), path_view(file.server.tls.key)),
    ) {
        Err(error) => Err(error),
        Ok(server_tls_config) => match binding_of(listen_text(args, file)) {
            Err(error) => Err(BuildConfigErrorView::Listen(error)),
            Ok(listen) => Ok(
                ConfigView {
                    bes_backends: backends,
                    listen,
                    server_tls_config,
                    tls_certificates: paths(args.tls_certificate@) + paths(file.tls_certificates@),
                    limits: limits_of(args, file),
                },
            ),
        },
    }
}

/// A result by the views of what it holds.
pub open spec fn config_result(r: Result<Config, BuildConfigError>) -> Result<
    ConfigView,
    BuildConfigErrorView,
> {
    match r {
        Ok(config) => Ok(config@),
        Err(error) => Err(error@),
    }
}

/// What the arguments say, or else what the configuration file says.
fn or<T>(arg: Option<T>, config: Option<T>) -> (r: Option<T>)
    ensures
        r == either(arg, config),
{
    match arg {
        Some(value) => Some(value),
        None => config,
    }
}

/// A number of seconds as a span of time.
fn timeout(secs: Option<u64>) -> (r: Option<Timeout>)
    ensures
        r == timeout_of(secs),
{
    match secs {
        Some(secs) => Some(Timeout { secs, nanos: 0 }),
        None => None,
    }
}

/// The paths of both lists.
fn chain(first: Vec<FilePath>, second: Vec<FilePath>) -> (r: Vec<FilePath>)
    ensures
        paths(r@) == paths(first@) + paths(second@),
{
    let ghost a = first@;
    let ghost b = second@;
    let mut r = first;
    let mut second = second;
    r.append(&mut second);
    assert(r@ =~= a + b);
    assert(paths(r@) =~= paths(a) + paths(b));
    r
}

/// Puts a configuration with these backends together.
pub fn assemble_config(args: Args, config_file: ConfigFile, backends: Vec<BesBackend>) -> (r:
    Result<Config, BuildConfigError>)
    ensures
        config_result(r) == assembled(args, config_file, backend_views(backends@)),
{
    let certificate = or(args.server_tls_certificate, config_file.server.tls.certificate);
    let key = or(args.server_tls_key, config_file.server.tls.key);
    let server_tls_config = match (certificate, key) {
        (Some(certificate), Some(key)) => Some(ServerTlsConfig { certificate, key }),
        (Some(_), None) => {
            return Err(BuildConfigError::MissingServerTlsKey);
        },
        (None, Some(_)) => {
            return Err(BuildConfigError::MissingServerTlsCertificate);
        },
        (None, None) => None,
    };
    let listen = match or(args.listen, config_file.server.listen) {
        Some(listen) => listen,
        None => "0.0.0.0:9000".to_owned(),
    };
    let listen = match Binding::parse(listen.as_str()) {
        Ok(listen) => listen,
        Err(error) => {
            return Err(BuildConfigError::Listen(error));
        },
    };
    Ok(
        Config {
            bes_backends: backends,
            listen,
            server_tls_config,
            tls_certificates: chain(args.tls_certificate, config_file.tls_certificates),
            concurrency_limit_per_connection: or(
                args.concurrency_limit_per_connection,
                config_file.server.concurrency_limit_per_connection,
            ),
            load_shed_requests: args.load_shed_requests || config_file.server.load_shed_requests,
            max_concurrent_streams: or(
                args.max_concurrent_streams,
                config_file.server.max_concurrent_streams,
            ),
            max_connection_age: timeout(
                or(args.max_connection_age, config_file.server.max_connection_age),
            ),
            max_connection_age_grace: timeout(
                or(args.max_connection_age_grace, config_file.server.max_connection_age_grace),
            ),
        },
    )
}

/// Where arguments and configuration file both say something, the arguments decide.
pub proof fn law_arguments_decide(args: Args, file: ConfigFile, backends: Seq<BackendView>)
    requires
        assembled(args, file, backends) is Ok,
    ensures
        ({
            let config = assembled(args, file, backends)->Ok_0;
            let tls = config.server_tls_config;
            &&& args.listen matches Some(listen) ==> binding_of(listen@) == Ok::<
                BindingView,
                BindingErrorView,
            >(config.listen)
            &&& args.server_tls_certificate matches Some(path) ==> tls is Some
                && tls->0.certificate == path@
            &&& args.server_tls_key matches Some(path) ==> tls is Some && tls->0.key == path@
            &&& args.concurrency_limit_per_connection is Some
                ==> config.limits.concurrency_limit_per_connection
                == args.concurrency_limit_per_connection
            &&& args.load_shed_requests ==> config.limits.load_shed_requests
            &&& args.max_concurrent_streams is Some ==> config.limits.max_concurrent_streams
                == args.max_concurrent_streams
            &&& args.max_connection_age is Some ==> config.limits.max_connection_age == timeout_of(
                args.max_connection_age,
            )
            &&& args.max_connection_age_grace is Some ==> config.limits.max_connection_age_grace
                == timeout_of(args.max_connection_age_grace)
        }),
{
}

/// Where neither says what to listen on, it is every address of the machine, port 9000.
pub proof fn law_default_listen(args: Args, file: ConfigFile, backends: Seq<BackendView>)
    requires
        args.listen is None,
        file.server.listen is None,
        assembled(args, file, backends) is Ok,
    ensures
        assembled(args, file, backends)->Ok_0.listen == default_binding(),
{
    let addr = SocketAddrV4 { ip: Ipv4Addr { a: 0, b: 0, c: 0, d: 0 }, port: 9000 };
    law_socket_binding_round_trip(addr);
    reveal_strlit("0.0.0.0:9000");
    reveal_with_fuel(decimal, 4);
    assert(decimal(0) =~= seq!['0']);
    assert(decimal(9000) =~= seq!['9', '0', '0', '0']);
    assert(addr_text(addr) =~= "0.0.0.0:9000"@);
}

/// What is wrong with the first backend of the configuration file, at or after position `i`,
/// that is none.
pub open spec fn first_config_error(backends: Seq<config_file::BesBackend>, i: int) -> Option<
    ConfigBackendErrorView,
>
    decreases backends.len() - i,
{
    if i < 0 || i >= backends.len() {
        None
    } else {
        match config_builder(backends[i]) {
            Err(error) => Some(error),
            Ok(_) => first_config_error(backends, i + 1),
        }
    }
}

/// What is wrong with the first backend of the arguments, at or after position `i`, that is none.
pub open spec fn first_arg_error(backends: Seq<BesBackendArg>, i: int) -> Option<EndpointErrorView>
    decreases backends.len() - i,
{
    if i < 0 || i >= backends.len() {
        None
    } else {
        match arg_builder(backends[i]@) {
            Err(error) => Some(error),
            Ok(_) => first_arg_error(backends, i + 1),
        }
    }
}

/// A backend that one of the configuration file describes.
pub open spec fn describes(described: config_file::BesBackend, b: BackendView) -> bool {
    config_builder(described) is Ok && builds(config_builder(described)->Ok_0, b)
}

/// A backend that one of the arguments describes.
pub open spec fn arg_describes(described: ArgView, b: BackendView) -> bool {
    arg_builder(described) is Ok && builds(arg_builder(described)->Ok_0, b)
}

/// Backends that those of the configuration file describe, in order.
pub open spec fn config_backends_built(
    backends: Seq<config_file::BesBackend>,
    built: Seq<BackendView>,
) -> bool {
    &&& built.len() == backends.len()
    &&& forall|i: int|
        0 <= i < built.len() ==> describes(backends[i], #[trigger] built[i])
}

/// Backends that those of the arguments describe, in order.
pub open spec fn arg_backends_built(backends: Seq<BesBackendArg>, built: Seq<BackendView>) -> bool {
    &&& built.len() == backends.len()
    &&& forall|i: int|
        0 <= i < built.len() ==> arg_describes(backends[i]@, #[trigger] built[i])
}

/// Headers that a map may refuse belong to a backend of the configuration file, and nothing is
/// wrong with the backends before it.
pub open spec fn config_backends_overflow(backends: Seq<config_file::BesBackend>) -> bool {
    exists|i: int|
        {
            &&& 0 <= i < backends.len()
            &&& #[trigger] config_backend_overflows(backends[i])
            &&& forall|j: int| 0 <= j < i ==> config_builder(#[trigger] backends[j]) is Ok
        }
}

/// Builds the backends of the configuration file.
fn build_config_backends(described: Vec<config_file::BesBackend>) -> (r: Result<
    Vec<BesBackend>,
    ConfigBackendError,
>)
    requires
        forall|i: int| 0 <= i < described@.len() ==> config_backend_fits(#[trigger] described@[i]),
    ensures
        match (r, first_config_error(described@, 0)) {
            (Ok(built), None) => config_backends_built(described@, backend_views(built@)),
            (Ok(_), Some(_)) => false,
            (Err(error), view) => {
                ||| view == Some(error@)
                ||| error@ == ConfigBackendErrorView::TooManyRemoteHeaders
                    && config_backends_overflow(described@)
            },
        },
{
    let ghost all = described@;
    let mut backends = described;
    let mut built: Vec<BesBackend> = Vec::new();
    let ghost mut n: int = 0;
    while backends.len() > 0
        invariant
            all == described@,
            0 <= n <= all.len(),
            backends@ =~= all.skip(n),
            forall|i: int| 0 <= i < all.len() ==> config_backend_fits(#[trigger] all[i]),
            built@.len() == n,
            first_config_error(all, 0) == first_config_error(all, n),
            forall|i: int| 0 <= i < n ==> config_builder(#[trigger] all[i]) is Ok,
            forall|i: int| 0 <= i < n ==> describes(all[i], (#[trigger] built@[i])@),
        decreases backends@.len(),
    {
        let backend = backends.remove(0);
        assert(backend == all[n]);
        match backend.try_into() {
            Ok(backend) => {
                built.push(backend);
            },
            Err(error) => {
                return Err(error);
            },
        }
        proof {
            n = n + 1;
        }
    }
    Ok(built)
}

/// Builds the backends of the arguments.
fn build_arg_backends(described: Vec<BesBackendArg>) -> (r: Result<Vec<BesBackend>, EndpointError>)
    requires
        forall|i: int|
            0 <= i < described@.len() ==> with_scheme((#[trigger] described@[i]).endpoint@).len()
                <= MAX_ENDPOINT_LEN,
    ensures
        match (r, first_arg_error(described@, 0)) {
            (Ok(built), None) => arg_backends_built(described@, backend_views(built@)),
            (Err(error), Some(view)) => error@ == view,
            _ => false,
        },
{
    let ghost all = described@;
    let mut backends = described;
    let mut built: Vec<BesBackend> = Vec::new();
    let ghost mut n: int = 0;
    while backends.len() > 0
        invariant
            all == described@,
            0 <= n <= all.len(),
            backends@ =~= all.skip(n),
            forall|i: int|
                0 <= i < all.len() ==> with_scheme((#[trigger] all[i]).endpoint@).len()
                    <= MAX_ENDPOINT_LEN,
            built@.len() == n,
            first_arg_error(all, 0) == first_arg_error(all, n),
            forall|i: int| 0 <= i < n ==> arg_describes(all[i]@, (#[trigger] built@[i])@),
        decreases backends@.len(),
    {
        let backend = backends.remove(0);
        assert(backend == all[n]);
        match backend.try_into() {
            Ok(backend) => {
                built.push(backend);
            },
            Err(error) => {
                return Err(error);
            },
        }
        proof {
            n = n + 1;
        }
    }
    Ok(built)
}

/// Every backend that is described, by arguments or the configuration file, names what a secure
/// connection to it is made to.
pub proof fn law_described_backends_have_secure_targets(
    endpoint: Seq<char>,
    settings: ArgView,
    b: BackendView,
)
    requires
        builder_of(endpoint) is Ok,
        builds(builder_of(endpoint)->Ok_0, b) || builds(
            settings_over(builder_of(endpoint)->Ok_0, settings),
            b,
        ),
    ensures
        has_secure_target(b),
{
    reveal_strlit("grpcs");
    reveal_strlit("unix");
    assert("grpcs"@[0] == 'g');
    assert("unix"@[0] == 'u');
}

proof fn lemma_config_backends_secure(
    backends: Seq<config_file::BesBackend>,
    built: Seq<BackendView>,
    i: int,
)
    requires
        config_backends_built(backends, built),
        0 <= i < built.len(),
    ensures
        has_secure_target(built[i]),
{
    assert(describes(backends[i], built[i]));
    match backends[i] {
        config_file::BesBackend::Endpoint(endpoint) => {
            law_described_backends_have_secure_targets(
                endpoint@,
                arbitrary::<ArgView>(),
                built[i],
            );
        },
        config_file::BesBackend::Spec(spec) => {
            let headers = config_file::config_headers(
                spec.remote_headers@,
                spec.remote_headers@.len() as int,
            )->Ok_0;
            law_described_backends_have_secure_targets(
                spec.endpoint@,
                config_file::spec_settings(spec, headers),
                built[i],
            );
        },
    }
}

proof fn lemma_combined_secure(
    config: Seq<config_file::BesBackend>,
    c: Seq<BackendView>,
    args: Seq<BesBackendArg>,
    a: Seq<BackendView>,
)
    requires
        config_backends_built(config, c),
        arg_backends_built(args, a),
    ensures
        forall|i: int|
            0 <= i < combined(c, a).len() ==> has_secure_target(#[trigger] combined(c, a)[i]),
{
    assert forall|i: int| 0 <= i < combined(c, a).len() implies has_secure_target(
        #[trigger] combined(c, a)[i],
    ) by {
        let b = combined(c, a)[i];
        law_args_take_priority(c, a, b);
        assert(combined(c, a).contains(b));
        if last_of_name(a, a.len() as int, b) {
            let n = a.len() as int;
            let k = choose|k: int| is_last_at(a, n, b, k);
            assert(arg_describes(args[k]@, a[k]));
            law_described_backends_have_secure_targets(args[k]@.endpoint, args[k]@, b);
        } else {
            let n = c.len() as int;
            let k = choose|k: int| is_last_at(c, n, b, k);
            lemma_config_backends_secure(config, c, k);
        }
    }
}

/// A configuration that arguments and a configuration file give, or why there is none. Backends
/// of the configuration file are looked at first, then those of the arguments, then everything
/// else; the first thing that is wrong is reported.
pub open spec fn is_config_of(
    args: Args,
    file: ConfigFile,
    r: Result<ConfigView, BuildConfigErrorView>,
) -> bool {
    match (first_config_error(file.bes_backends@, 0), first_arg_error(args.bes_backends@, 0)) {
        (Some(error), _) => r == Err::<ConfigView, BuildConfigErrorView>(
            BuildConfigErrorView::ConfigBackend(error),
        ),
        (None, Some(error)) => r == Err::<ConfigView, BuildConfigErrorView>(
            BuildConfigErrorView::ArgBackend(error),
        ),
        (None, None) => exists|c: Seq<BackendView>, a: Seq<BackendView>|
            #[trigger] config_backends_built(file.bes_backends@, c)
                && #[trigger] arg_backends_built(args.bes_backends@, a) && r == assembled(
                args,
                file,
                combined(c, a),
            ),
    }
}

/// Build a configuration from command line arguments and a configuration file. Headers of a
/// backend of the configuration file are refused only where a map does not take them.
pub fn build_config(args: Args, config_file: ConfigFile) -> (r: Result<Config, BuildConfigError>)
    requires
        forall|i: int|
            0 <= i < config_file.bes_backends@.len() ==> config_backend_fits(
                #[trigger] config_file.bes_backends@[i],
            ),
        forall|i: int|
            0 <= i < args.bes_backends@.len() ==> with_scheme(
                (#[trigger] args.bes_backends@[i]).endpoint@,
            ).len() <= MAX_ENDPOINT_LEN,
    ensures
        is_config_of(args, config_file, config_result(r)) || config_result(r) == Err::<
            ConfigView,
            BuildConfigErrorView,
        >(
            BuildConfigErrorView::ConfigBackend(ConfigBackendErrorView::TooManyRemoteHeaders),
        ) && config_backends_overflow(config_file.bes_backends@),
        r matches Ok(config) ==> forall|i: int|
            0 <= i < config@.bes_backends.len() ==> has_secure_target(
                #[trigger] config@.bes_backends[i],
            ),
{
    let ghost all_args = args;
    let ghost all_config = config_file;
    let mut args = args;
    let mut config_file = config_file;
    let mut config_described: Vec<config_file::BesBackend> = Vec::new();
    let mut args_described: Vec<BesBackendArg> = Vec::new();
    std::mem::swap(&mut config_described, &mut config_file.bes_backends);
    std::mem::swap(&mut args_described, &mut args.bes_backends);
    let config_backends = match build_config_backends(config_described) {
        Ok(backends) => backends,
        Err(error) => {
            return Err(BuildConfigError::ConfigBackend(error));
        },
    };
    let args_backends = match build_arg_backends(args_described) {
        Ok(backends) => backends,
        Err(error) => {
            return Err(BuildConfigError::ArgBackend(error));
        },
    };
    let ghost c = backend_views(config_backends@);
    let ghost a = backend_views(args_backends@);
    let bes_backends = combine_backends_from_config_and_args(config_backends, args_backends);
    proof {
        lemma_combined_secure(all_config.bes_backends@, c, all_args.bes_backends@, a);
        assert(assembled(args, config_file, combined(c, a)) == assembled(
            all_args,
            all_config,
            combined(c, a),
        ));
    }
    assemble_config(args, config_file, bes_backends)
}

} // verus!
