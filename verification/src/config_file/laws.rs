//! What a configuration file says, said of the calls themselves.
use vstd::prelude::*;
use vstd::utf8::encode_utf8;

use crate::config_file::{
    config_builder, config_headers, config_names, identities_complete, identity_complete,
    law_few_config_headers_fit, BesBackend, BesBackendSpec, ConfigBackendError,
    ConfigBackendErrorView, ConfigFile, ConfigFileError, ConfigFileErrorView, RemoteHeader,
};
use crate::endpoint::{endpoint_error_message, endpoint_of};
use crate::forwarding::Timeout;
use crate::metadata::{is_ascii_key, is_ascii_value, values_of, HeaderValues, ValueView};
use crate::names::{is_first_repeated_at, law_no_repeated_name, lemma_repeated, names_unique};
use crate::path::path_view;
use crate::text::{ascii_lowered, text_view};

verus! {

/// The name that a backend is given: only settings can give one.
pub open spec fn given_name(b: BesBackend) -> Option<Seq<char>> {
    match b {
        BesBackend::Endpoint(_) => None,
        BesBackend::Spec(spec) => text_view(spec.name),
    }
}

/// A configuration is in order exactly if no name is given to two backends, and none has one of
/// the two files of a client identity without the other. A name that is given to two is reported
/// before a file that is missing.
pub proof fn law_configuration_is_checked(config: &ConfigFile, r: Result<(), ConfigFileError>)
    requires
        call_ensures(ConfigFile::validate, (config,), r),
    ensures
        ({
            let backends = config.bes_backends@;
            let different = forall|i: int, j: int|
                0 <= i < j < backends.len() && given_name(#[trigger] backends[i]) is Some
                    ==> given_name(backends[i]) != given_name(#[trigger] backends[j]);
            let complete = forall|i: int|
                0 <= i < backends.len() ==> (#[trigger] backends[i] matches BesBackend::Spec(spec)
                    ==> (spec.tls_client_certificate is Some <==> spec.tls_client_key is Some));
            &&& r is Ok <==> different && complete
            &&& r is Err && r->Err_0 is SameName <==> !different
            &&& r is Err && r->Err_0 is IncompleteClientIdentity <==> different && !complete
            &&& r matches Err(ConfigFileError::SameName(name)) ==> exists|i: int, j: int|
                0 <= i < j < backends.len() && given_name(#[trigger] backends[i]) == Some(name@)
                    && given_name(#[trigger] backends[j]) == Some(name@)
        }),
{
    let backends = config.bes_backends@;
    let names = config_names(backends);
    assert forall|i: int| 0 <= i < backends.len() implies #[trigger] names[i] == given_name(
        backends[i],
    ) by {
    }
    law_no_repeated_name(names);
    lemma_repeated(names, 0);
    if names_unique(names) {
        assert forall|i: int, j: int|
            0 <= i < j < backends.len() && given_name(#[trigger] backends[i]) is Some implies
            given_name(backends[i]) != given_name(#[trigger] backends[j]) by {
            assert(names[i] is Some);
            assert(names[i] != names[j]);
        }
    } else {
        let (i, j) = choose|i: int, j: int|
            0 <= i < j < names.len() && (#[trigger] names[i]) is Some && names[i]
                == #[trigger] names[j];
        assert(given_name(backends[i]) == given_name(backends[j]));
    }
    if identities_complete(backends) {
        assert forall|i: int| 0 <= i < backends.len() implies (
        #[trigger] backends[i] matches BesBackend::Spec(spec) ==> (spec.tls_client_certificate
            is Some <==> spec.tls_client_key is Some)) by {
            assert(identity_complete(backends[i]));
        }
    } else {
        let i = choose|i: int|
            0 <= i < backends.len() && !identity_complete(#[trigger] backends[i]);
        assert(backends[i] is Spec);
    }
    if let Err(ConfigFileError::SameName(name)) = r {
        let (i, j) = choose|i: int, j: int| is_first_repeated_at(names, name@, i, j);
        assert(given_name(backends[i]) == Some(name@));
        assert(given_name(backends[j]) == Some(name@));
    }
}

/// What parsing gave is passed on as it is: the words for why it failed, or a configuration, if
/// that is in order.
pub proof fn law_parsed_configuration_is_checked(
    parsed: Result<ConfigFile, String>,
    checked: Result<(), ConfigFileError>,
    r: Result<ConfigFile, ConfigFileError>,
)
    requires
        call_ensures(ConfigFile::parse_yaml, (parsed,), r),
        parsed is Ok ==> call_ensures(ConfigFile::validate, (&parsed->Ok_0,), checked),
    ensures
        parsed matches Err(words) ==> r is Err && r->Err_0@ == ConfigFileErrorView::Unparsable(
            words@,
        ),
        parsed matches Ok(config) ==> match checked {
            Ok(_) => r is Ok && r->Ok_0 == config,
            Err(error) => r is Err && r->Err_0@ == error@,
        },
{
}

/// The words for what is wrong with a configuration file.
pub proof fn law_configuration_words(error: &ConfigFileError, r: String)
    requires
        call_ensures(ConfigFileError::message, (error,), r),
    ensures
        match error {
            ConfigFileError::Unparsable(words) => r@ == "failed to parse config file yaml: "@
                + words@,
            ConfigFileError::SameName(name) => r@
                == "invalid config file: multiple bes backends have the same name "@ + name@,
            ConfigFileError::IncompleteClientIdentity => r@
                == "invalid config file: tls_client_certificate and tls_client_key must be specified together or not at all for a backend"@,
        },
{
}

/// The words for why a backend of the configuration file is none.
pub proof fn law_described_backend_words(error: &ConfigBackendError, r: String)
    requires
        call_ensures(ConfigBackendError::message, (error,), r),
    ensures
        match error {
            ConfigBackendError::Endpoint(error) => r@ == endpoint_error_message(error@),
            ConfigBackendError::InvalidRemoteHeaderName => r@ == "invalid remote header name"@,
            ConfigBackendError::InvalidRemoteHeaderValue => r@ == "invalid remote header value"@,
            ConfigBackendError::TooManyRemoteHeaders => r@ == "too many remote headers"@,
        },
{
}

/// The values that headers give a name, in order.
pub open spec fn listed_values(headers: Seq<RemoteHeader>, name: Seq<char>) -> Seq<ValueView>
    decreases headers.len(),
{
    if headers.len() == 0 {
        Seq::empty()
    } else {
        let before = listed_values(headers.drop_last(), name);
        if ascii_lowered(headers.last().name@) == name {
            before.push(
                ValueView { bytes: encode_utf8(headers.last().value@), sensitive: false },
            )
        } else {
            before
        }
    }
}

/// Each header has a name and a value that a header can have.
pub open spec fn are_proper_headers(headers: Seq<RemoteHeader>) -> bool {
    forall|i: int|
        0 <= i < headers.len() ==> is_ascii_key((#[trigger] headers[i]).name@) && is_ascii_value(
            headers[i].value@,
        )
}

/// A backend that is an endpoint alone is made a backend exactly if it is one, with everything
/// else as by default.
pub proof fn law_endpoint_becomes_a_backend(
    endpoint: String,
    r: Result<crate::forwarding::BesBackend, ConfigBackendError>,
)
    requires
        call_ensures(BesBackend::try_into, (BesBackend::Endpoint(endpoint),), r),
    ensures
        r is Ok <==> endpoint_of(endpoint@) is Ok,
        r matches Err(error) ==> error@ == ConfigBackendErrorView::Endpoint(
            endpoint_of(endpoint@)->Err_0,
        ),
        r matches Ok(b) ==> {
            &&& b@.endpoint == endpoint_of(endpoint@)->Ok_0
            &&& b@.remote_headers == HeaderValues::empty()
            &&& b@.remote_header_files.len() == 0
            &&& !b@.asynchronous
            &&& b@.client is None
            &&& b@.tls_client_identity is None
            &&& b@.connect_timeout is None
            &&& b@.request_timeout is None
            &&& b@.request_buffer_size == 500
            &&& b@.name.len() == 8
        },
{
}

/// Settings are made a backend exactly if their endpoint is one and their headers are such, unless
/// a map refuses the headers. The backend has what the settings say, and else the defaults.
pub proof fn law_settings_become_a_backend(
    spec: BesBackendSpec,
    name: Seq<char>,
    r: Result<crate::forwarding::BesBackend, ConfigBackendError>,
)
    requires
        call_ensures(BesBackend::try_into, (BesBackend::Spec(spec),), r),
        !(r is Err && r->Err_0 is TooManyRemoteHeaders),
    ensures
        r is Ok <==> endpoint_of(spec.endpoint@) is Ok && are_proper_headers(spec.remote_headers@),
        endpoint_of(spec.endpoint@) is Err ==> r->Err_0@ == ConfigBackendErrorView::Endpoint(
            endpoint_of(spec.endpoint@)->Err_0,
        ),
        r matches Ok(b) ==> {
            &&& b@.endpoint == endpoint_of(spec.endpoint@)->Ok_0
            &&& spec.name matches Some(name) ==> b@.name == name@
            &&& spec.name is None ==> b@.name.len() == 8
            &&& values_of(b@.remote_headers, name) == listed_values(spec.remote_headers@, name)
            &&& b@.remote_headers.contains_key(name) <==> listed_values(
                spec.remote_headers@,
                name,
            ).len() > 0
            &&& b@.remote_header_files.len() == 0
            &&& b@.asynchronous == spec.asynchronous
            &&& b@.client is None
            &&& b@.tls_client_identity is Some <==> spec.tls_client_certificate is Some
                && spec.tls_client_key is Some
            &&& b@.tls_client_identity matches Some(pair) ==> Some(pair.certificate) == path_view(
                spec.tls_client_certificate,
            ) && Some(pair.key) == path_view(spec.tls_client_key)
            &&& b@.connect_timeout == match spec.connect_timeout {
                Some(secs) => Some(Timeout { secs, nanos: 0 }),
                None => None,
            }
            &&& b@.request_timeout == match spec.request_timeout {
                Some(secs) => Some(Timeout { secs, nanos: 0 }),
                None => None,
            }
            &&& b@.request_buffer_size == match spec.request_buffer_size {
                Some(size) => size,
                None => 500usize,
            }
        },
{
    let headers = spec.remote_headers@;
    lemma_proper(headers, headers.len() as int);
    assert(headers.take(headers.len() as int) =~= headers);
    if config_headers(headers, headers.len() as int) is Ok {
        lemma_listed(headers, headers.len() as int, name);
    }
}

proof fn lemma_proper(headers: Seq<RemoteHeader>, n: int)
    requires
        0 <= n <= headers.len(),
    ensures
        config_headers(headers, n) is Ok <==> are_proper_headers(headers.take(n)),
    decreases n,
{
    let part = headers.take(n);
    if n > 0 {
        let before = headers.take(n - 1);
        lemma_proper(headers, n - 1);
        assert(part[n - 1] == headers[n - 1]);
        if are_proper_headers(part) {
            assert forall|i: int| 0 <= i < before.len() implies is_ascii_key(
                (#[trigger] before[i]).name@,
            ) && is_ascii_value(before[i].value@) by {
                assert(before[i] == part[i]);
            }
        }
        if config_headers(headers, n) is Ok {
            assert forall|i: int| 0 <= i < part.len() implies is_ascii_key(
                (#[trigger] part[i]).name@,
            ) && is_ascii_value(part[i].value@) by {
                if i < n - 1 {
                    assert(before[i] == part[i]);
                }
            }
        }
    }
}

proof fn lemma_listed(headers: Seq<RemoteHeader>, n: int, name: Seq<char>)
    requires
        0 <= n <= headers.len(),
        config_headers(headers, n) is Ok,
    ensures
        values_of(config_headers(headers, n)->Ok_0, name) == listed_values(headers.take(n), name),
        config_headers(headers, n)->Ok_0.contains_key(name) <==> listed_values(
            headers.take(n),
            name,
        ).len() > 0,
    decreases n,
{
    let part = headers.take(n);
    if n > 0 {
        lemma_listed(headers, n - 1, name);
        assert(part.drop_last() =~= headers.take(n - 1));
        assert(part.last() == headers[n - 1]);
    }
}

/// Of the headers of a backend the first that is wrong is reported: its name, if that is none, and
/// else its value.
pub proof fn law_first_wrong_header_of_a_backend(
    spec: BesBackendSpec,
    k: int,
    r: Result<crate::forwarding::BesBackend, ConfigBackendError>,
)
    requires
        call_ensures(BesBackend::try_into, (BesBackend::Spec(spec),), r),
        !(r is Err && r->Err_0 is TooManyRemoteHeaders),
        endpoint_of(spec.endpoint@) is Ok,
        0 <= k < spec.remote_headers@.len(),
        are_proper_headers(spec.remote_headers@.take(k)),
        !(is_ascii_key(spec.remote_headers@[k].name@) && is_ascii_value(
            spec.remote_headers@[k].value@,
        )),
    ensures
        r is Err,
        r->Err_0 is InvalidRemoteHeaderName <==> !is_ascii_key(spec.remote_headers@[k].name@),
        r->Err_0 is InvalidRemoteHeaderValue <==> is_ascii_key(spec.remote_headers@[k].name@),
{
    let headers = spec.remote_headers@;
    lemma_proper(headers, k);
    lemma_first_wrong(headers, k + 1, headers.len() as int);
    assert(config_builder(BesBackend::Spec(spec)) is Err);
}

proof fn lemma_first_wrong(headers: Seq<RemoteHeader>, i: int, n: int)
    requires
        0 <= i <= n,
        config_headers(headers, i) is Err,
    ensures
        config_headers(headers, n) == config_headers(headers, i),
    decreases n - i,
{
    if i < n {
        lemma_first_wrong(headers, i, n - 1);
    }
}

/// Settings with few headers are not refused for their number.
pub proof fn law_few_headers_of_a_backend_are_taken(
    spec: BesBackendSpec,
    r: Result<crate::forwarding::BesBackend, ConfigBackendError>,
)
    requires
        call_ensures(BesBackend::try_into, (BesBackend::Spec(spec),), r),
        spec.remote_headers@.len() <= 6553,
    ensures
        !(r is Err && r->Err_0 is TooManyRemoteHeaders),
{
    law_few_config_headers_fit(spec.remote_headers@);
    lemma_header_kinds(spec.remote_headers@, spec.remote_headers@.len() as int);
}

proof fn lemma_header_kinds(headers: Seq<RemoteHeader>, n: int)
    requires
        0 <= n <= headers.len(),
    ensures
        config_headers(headers, n) matches Err(error) ==> error is InvalidRemoteHeaderName || error
            is InvalidRemoteHeaderValue,
    decreases n,
{
    if n > 0 {
        lemma_header_kinds(headers, n - 1);
    }
}

} // verus!
