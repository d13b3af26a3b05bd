//! What endpoints are for, said of the calls themselves.
use vstd::prelude::*;

use crate::endpoint::{
    check_endpoint, endpoint_of, is_countable, is_plain_path, is_plain_socket,
    law_plain_socket_is_endpoint, lemma_plain_socket, parse_endpoint, socket_path, socket_url,
    url_of, url_result, with_scheme,
    EndpointCheck, EndpointError, EndpointErrorView, EndpointUrl, UrlParts, UrlView,
};
use crate::path::{path_view, FilePath};
use crate::text::contains_text;

verus! {

/// What is parsed as an endpoint: the text itself if it tells its scheme, and else the text behind
/// `grpcs://`.
pub proof fn law_scheme_is_grpcs_unless_given(endpoint: Seq<char>)
    ensures
        contains_text(endpoint, "://"@) ==> with_scheme(endpoint) == endpoint,
        contains_text(endpoint, "unix:/"@) ==> with_scheme(endpoint) == endpoint,
        !contains_text(endpoint, "://"@) && !contains_text(endpoint, "unix:/"@) ==> with_scheme(
            endpoint,
        ) == "grpcs://"@ + endpoint,
{
}

/// An endpoint keeps scheme, host and file path of the URL that was parsed. It keeps the port that
/// the URL names, and with it the text; where the URL names none, the port is 443 for `grpcs` and
/// 80 for `grpc`.
pub proof fn law_endpoint_is_the_url(endpoint: String, r: Result<EndpointUrl, EndpointError>)
    requires
        call_ensures(parse_endpoint, (endpoint,), r),
        r is Ok,
    ensures
        url_of(with_scheme(endpoint@)) is Ok,
        ({
            let url = url_of(with_scheme(endpoint@))->Ok_0;
            let e = r->Ok_0@;
            &&& e.scheme == url.scheme
            &&& e.host == url.host
            &&& e.path == url.path
            &&& e.scheme == "grpc"@ || e.scheme == "grpcs"@ || e.scheme == "unix"@
            &&& e.scheme != "unix"@ ==> e.host is Some && e.port is Some
            &&& e.scheme == "unix"@ ==> e == url
            &&& url.port is Some ==> e == url
            &&& url.port is None && e.scheme == "grpcs"@ ==> e.port == Some(443u16)
            &&& url.port is None && e.scheme == "grpc"@ ==> e.port == Some(80u16)
        }),
{
    reveal_strlit("grpcs");
    reveal_strlit("grpc");
    reveal_strlit("unix");
    assert("grpcs"@.len() == 5 && "grpc"@.len() == 4);
    assert("grpcs"@[0] == 'g' && "grpc"@[0] == 'g' && "unix"@[0] == 'u');
}

/// Why a text is no endpoint: it is no URL, its scheme is none of the three, it has no host, or its
/// host is empty and so cannot be given a port. Each of these holds exactly where it is reported,
/// and is reported with the text that was parsed.
pub proof fn law_why_no_endpoint(endpoint: String, r: Result<EndpointUrl, EndpointError>)
    requires
        call_ensures(parse_endpoint, (endpoint,), r),
    ensures
        ({
            let source = with_scheme(endpoint@);
            let parsed = url_of(source);
            let url = parsed->Ok_0;
            let known = url.scheme == "grpc"@ || url.scheme == "grpcs"@;
            &&& r is Err && r->Err_0@ is Unparsable <==> parsed is Err
            &&& r is Err && r->Err_0@ is InvalidScheme <==> parsed is Ok && !known && url.scheme
                != "unix"@
            &&& r is Err && r->Err_0@ is MissingHost <==> parsed is Ok && known && url.host is None
            &&& r is Err && r->Err_0@ is PortNotSet <==> parsed is Ok && known && url.host == Some(
                Seq::<char>::empty(),
            ) && url.port is None
            &&& r matches Err(error) ==> error@ == match error@ {
                EndpointErrorView::Unparsable(_) => EndpointErrorView::Unparsable(source),
                EndpointErrorView::InvalidScheme(_) => EndpointErrorView::InvalidScheme(source),
                EndpointErrorView::MissingHost(_) => EndpointErrorView::MissingHost(source),
                EndpointErrorView::PortNotSet(_) => EndpointErrorView::PortNotSet(source),
            }
        }),
{
    reveal_strlit("grpcs");
    reveal_strlit("grpc");
    reveal_strlit("unix");
    assert("grpcs"@[0] == 'g' && "grpc"@[0] == 'g' && "unix"@[0] == 'u');
}

/// What a URL lacks: a known scheme, a host, a port that is then the default one, or nothing.
pub proof fn law_endpoint_is_checked(url: &UrlParts, r: EndpointCheck)
    requires
        call_ensures(check_endpoint, (url,), r),
    ensures
        url@.scheme == "unix"@ ==> r is Complete,
        url@.scheme != "unix"@ && url@.scheme != "grpc"@ && url@.scheme != "grpcs"@ ==> r
            is InvalidScheme,
        (url@.scheme == "grpc"@ || url@.scheme == "grpcs"@) && url@.host is None ==> r
            is MissingHost,
        (url@.scheme == "grpc"@ || url@.scheme == "grpcs"@) && url@.host is Some && url@.port
            is Some ==> r is Complete,
        url@.scheme == "grpc"@ && url@.host is Some && url@.port is None ==> r
            == EndpointCheck::NeedsPort(80),
        url@.scheme == "grpcs"@ && url@.host is Some && url@.port is None ==> r
            == EndpointCheck::NeedsPort(443),
{
    reveal_strlit("grpcs");
    reveal_strlit("grpc");
    reveal_strlit("unix");
    assert("grpcs"@.len() == 5 && "grpc"@.len() == 4);
    assert("grpcs"@[0] == 'g' && "grpc"@[0] == 'g' && "unix"@[0] == 'u');
}

/// The words for why a text is no endpoint.
pub proof fn law_endpoint_error_words(error: &EndpointError, r: String)
    requires
        call_ensures(EndpointError::message, (error,), r),
    ensures
        match error {
            EndpointError::Unparsable(e) => r@ == "failed to parse backend endpoint "@ + e@,
            EndpointError::InvalidScheme(e) => r@ == "backend endpoint "@ + e@
                + " has invalid scheme"@,
            EndpointError::MissingHost(e) => r@ == "backend endpoint "@ + e@
                + " is missing host"@,
            EndpointError::PortNotSet(e) => r@ == "failed to set default port on bes backend url "@
                + e@,
        },
{
}

/// What is asked of a URL is what was read of it.
pub proof fn law_url_answers(
    url: &EndpointUrl,
    text: &str,
    scheme: &str,
    host: Option<&str>,
    port: Option<u16>,
    path: Option<FilePath>,
)
    requires
        call_ensures(EndpointUrl::as_str, (url,), text),
        call_ensures(EndpointUrl::scheme, (url,), scheme),
        call_ensures(EndpointUrl::host_str, (url,), host),
        call_ensures(EndpointUrl::port, (url,), port),
        call_ensures(EndpointUrl::to_file_path, (url,), path),
    ensures
        text@ == url@.text,
        scheme@ == url@.scheme,
        host is Some <==> url@.host is Some,
        host matches Some(host) ==> url@.host == Some(host@),
        port == url@.port,
        path_view(path) == url@.path,
{
}

/// A text is what the URL parser reads it as, unless it is longer than the parser can count.
pub proof fn law_url_is_what_the_parser_reads(source: &str, r: Result<EndpointUrl, String>)
    requires
        call_ensures(EndpointUrl::parse, (source,), r),
        source@.len() <= 0x7fff_ffff,
        !is_plain_socket(source@),
    ensures
        r is Ok <==> url_result(source@) is Ok,
        r matches Ok(url) ==> url@ == url_result(source@)->Ok_0,
        r matches Err(words) ==> words@ == url_result(source@)->Err_0,
{
}

/// `unix:` and a plain path is the endpoint of the unix domain socket at that path, and no part of
/// it is changed.
pub proof fn law_socket_endpoint_stands_for_its_path(
    path: Seq<char>,
    endpoint: String,
    r: Result<EndpointUrl, EndpointError>,
)
    requires
        is_plain_path(path),
        endpoint@ == "unix:"@ + path,
        call_ensures(parse_endpoint, (endpoint,), r),
    ensures
        r is Ok,
        r->Ok_0@.text == endpoint@,
        r->Ok_0@.scheme == "unix"@,
        r->Ok_0@.host is None,
        r->Ok_0@.port is None,
        r->Ok_0@.path == Some(vstd::utf8::encode_utf8(path)),
{
    reveal_strlit("unix:");
    assert(socket_path(endpoint@) =~= path);
    assert("unix:"@.is_prefix_of(endpoint@));
    assert(is_plain_socket(endpoint@));
    lemma_plain_socket(endpoint@);
    law_plain_socket_is_endpoint(endpoint@);
    assert(endpoint_of(endpoint@) == Ok::<UrlView, EndpointErrorView>(socket_url(endpoint@)));
    assert(is_countable(endpoint@));
}

/// A copy of the URL of an endpoint is the same URL.
pub proof fn law_endpoint_url_is_copied(url: EndpointUrl, copy: EndpointUrl)
    requires
        call_ensures(EndpointUrl::clone, (&url,), copy),
    ensures
        copy@ == url@,
{
}

} // verus!
