//! What each property of a backend in an argument is for, said of the calls themselves.
use vstd::prelude::*;
use vstd::utf8::encode_utf8;

use crate::args::laws::{
    all_properties, is_known_property, lemma_known_names, lemma_pieces_of_one, lemma_properties,
    lemma_property_text, lemma_values_inserted, values_in,
};
use crate::args::{
    arg_names, arg_of, arg_of_properties, arg_overflows, arg_result, configure, header_properties,
    header_property, is_endpoint_alone, is_parse_of, is_refusal, law_few_headers_fit,
    law_plain_endpoint, properties, values,
    ArgErrorView, ArgView, Args, ArgsError, BackendArgError, BesBackendArg, PropertyView,
};
use crate::endpoint::{endpoint_of, EndpointError};
use crate::forwarding::{BesBackend, BesBackendBuilder, KeyPairView, Timeout};
use crate::metadata::{is_ascii_key, is_ascii_value, values_of, HeaderValues, ValueView};
use crate::names::{is_first_repeated_at, lemma_repeated, names_unique};
use crate::text::laws::lemma_split_rejoins;
use crate::text::{
    ascii_lowered, contains_text, lemma_position_is, occurs_at, split_at_each, split_at_first,
    unsigned_value,
};

verus! {

/// A text has a comma or an equals sign: it writes properties.
pub open spec fn writes_properties(s: Seq<char>) -> bool {
    s.contains(',') || s.contains('=')
}

/// A text with neither a comma nor an equals sign is an endpoint alone.
proof fn lemma_writes_properties(s: Seq<char>)
    ensures
        writes_properties(s) <==> !is_endpoint_alone(s),
{
    let pieces = split_at_each(s, ',');
    lemma_pieces_of_one(s);
    reveal_strlit("=");
    if !writes_properties(s) {
        law_plain_endpoint(s);
        assert forall|i: int| !occurs_at(s, "="@, i) by {
            if occurs_at(s, "="@, i) {
                assert(s.subrange(i, i + 1)[0] == s[i]);
                assert("="@[0] == '=');
                assert(s.contains(s[i]));
            }
        }
        lemma_split_rejoins(s, ',');
        lemma_no_comma(s);
    } else if s.contains(',') {
        lemma_split_rejoins(s, ',');
        if pieces.len() == 1 {
            assert(pieces[0] == s);
        }
    } else {
        lemma_no_comma(s);
        let i = choose|i: int| 0 <= i < s.len() && s[i] == '=';
        assert(s.subrange(i, i + 1) =~= "="@);
        assert(occurs_at(s, "="@, i));
        assert(contains_text(pieces[0], "="@));
    }
}

proof fn lemma_no_comma(s: Seq<char>)
    requires
        !s.contains(','),
    ensures
        split_at_each(s, ',') == seq![s],
{
    assert forall|j: int| 0 <= j < s.len() implies s[j] != ',' by {
        assert(s.contains(s[j]));
    }
    lemma_position_is(s, ',', 0, s.len() as int);
}

/// An argument without a comma and an equals sign is an endpoint, and says nothing else.
pub proof fn law_endpoint_alone(s: &str, r: Result<BesBackendArg, BackendArgError>)
    requires
        call_ensures(BesBackendArg::parse, (s,), r),
        !writes_properties(s@),
    ensures
        r matches Ok(arg) && arg@.endpoint == s@ && arg@.name is None && !arg@.asynchronous
            && arg@.remote_headers == HeaderValues::empty() && arg@.tls_client_certificate is None
            && arg@.tls_client_key is None && arg@.connect_timeout is None
            && arg@.request_timeout is None && arg@.request_buffer_size is None,
{
    lemma_writes_properties(s@);
}

/// The properties that a text writes, when it is parsed to a backend.
proof fn lemma_parsed(s: Seq<char>, r: Result<BesBackendArg, BackendArgError>)
    requires
        is_parse_of(s, arg_result(r)),
        writes_properties(s),
        r is Ok,
    ensures
        ({
            let pieces = split_at_each(s, ',');
            let props = properties(pieces, pieces.len() as int)->0;
            &&& all_properties(pieces)
            &&& arg_of_properties(props) == Ok::<ArgView, ArgErrorView>(r->Ok_0@)
            &&& forall|name: Seq<char>| #[trigger] values(props, name) == values_in(pieces, name)
        }),
{
    lemma_writes_properties(s);
    let pieces = split_at_each(s, ',');
    lemma_properties(pieces, pieces.len() as int);
    assert(pieces.take(pieces.len() as int) =~= pieces);
}

/// In an argument with properties the endpoint is given once; the name, if there is one, is the
/// one that is given.
pub proof fn law_endpoint_and_name(s: &str, r: Result<BesBackendArg, BackendArgError>)
    requires
        call_ensures(BesBackendArg::parse, (s,), r),
        writes_properties(s@),
        r is Ok,
    ensures
        ({
            let pieces = split_at_each(s@, ',');
            let arg = r->Ok_0@;
            &&& values_in(pieces, "endpoint"@) == seq![arg.endpoint]
            &&& arg.name matches Some(name) ==> values_in(pieces, "name"@) == seq![name]
            &&& arg.name is None ==> values_in(pieces, "name"@).len() == 0
        }),
{
    lemma_parsed(s@, r);
    let pieces = split_at_each(s@, ',');
    let props = properties(pieces, pieces.len() as int)->0;
    assert(values(props, "endpoint"@) == values_in(pieces, "endpoint"@));
    assert(values(props, "name"@) == values_in(pieces, "name"@));
    assert(values_in(pieces, "endpoint"@) =~= seq![r->Ok_0@.endpoint]);
    if r->Ok_0@.name is Some {
        assert(values_in(pieces, "name"@) =~= seq![r->Ok_0@.name->0]);
    }
}

/// A backend is asynchronous exactly if the one value of its `async` property is `true`; the only
/// other value that the property may have is `false`.
pub proof fn law_asynchronous_if_true(s: &str, r: Result<BesBackendArg, BackendArgError>)
    requires
        call_ensures(BesBackendArg::parse, (s,), r),
        writes_properties(s@),
        r is Ok,
    ensures
        r->Ok_0@.asynchronous <==> values_in(split_at_each(s@, ','), "async"@) == seq!["true"@],
        !r->Ok_0@.asynchronous <==> values_in(split_at_each(s@, ','), "async"@).len() == 0
            || values_in(split_at_each(s@, ','), "async"@) == seq!["false"@],
{
    lemma_parsed(s@, r);
    let pieces = split_at_each(s@, ',');
    let props = properties(pieces, pieces.len() as int)->0;
    let vals = values_in(pieces, "async"@);
    assert(values(props, "async"@) == vals);
    reveal_strlit("true");
    reveal_strlit("false");
    assert("true"@[0] == 't');
    assert("false"@[0] == 'f');
    if vals.len() == 1 {
        assert(vals =~= seq![vals[0]]);
        assert(seq!["true"@][0] != seq!["false"@][0]);
        if vals[0] == "true"@ {
            assert(vals == seq!["true"@]);
        } else {
            assert(vals != seq!["true"@]);
        }
        assert(vals == seq!["false"@] ==> vals[0] == "false"@);
    } else {
        assert(vals != seq!["true"@]);
    }
}

/// Giving `async=false` means the same as not giving `async` at all, wherever it stands.
pub proof fn law_async_false_is_the_default(
    s: Seq<char>,
    t: Seq<char>,
    i: int,
    a: Result<ArgView, ArgErrorView>,
    b: Result<ArgView, ArgErrorView>,
)
    requires
        is_parse_of(s, a),
        is_parse_of(t, b),
        writes_properties(s),
        values_in(split_at_each(s, ','), "async"@).len() == 0,
        0 <= i <= split_at_each(s, ',').len(),
        split_at_each(t, ',') == split_at_each(s, ',').insert(i, "async=false"@),
    ensures
        a == b || is_refusal(a) || is_refusal(b),
{
    let before = split_at_each(s, ',');
    let after = split_at_each(t, ',');
    let piece = "async=false"@;
    lemma_writes_properties(s);
    lemma_pieces_of_one(s);
    reveal_strlit("async=false");
    reveal_strlit("async");
    reveal_strlit("false");
    reveal_strlit("true");
    assert("true"@[0] == 't' && "false"@[0] == 'f');
    assert(piece =~= "async"@ + seq!['='] + "false"@);
    lemma_known_names("async"@);
    lemma_property_text(piece, "async"@, "false"@);
    assert(after.len() >= 2);
    lemma_properties(before, before.len() as int);
    lemma_properties(after, after.len() as int);
    assert(before.take(before.len() as int) =~= before);
    assert(after.take(after.len() as int) =~= after);
    if all_properties(after) {
        assert forall|j: int| 0 <= j < before.len() implies split_at_first(
            #[trigger] before[j],
            '=',
        ) is Some by {
            if j < i {
                assert(after[j] == before[j]);
            } else {
                assert(after[j + 1] == before[j]);
            }
        }
    }
    if all_properties(before) {
        assert forall|j: int| 0 <= j < after.len() implies split_at_first(
            #[trigger] after[j],
            '=',
        ) is Some by {
            if j < i {
                assert(after[j] == before[j]);
            } else if j > i {
                assert(after[j] == before[j - 1]);
            }
        }
        let p = properties(before, before.len() as int)->0;
        let q = properties(after, after.len() as int)->0;
        reveal_strlit("endpoint");
        reveal_strlit("name");
        reveal_strlit("remote_header");
        reveal_strlit("tls_client_certificate");
        reveal_strlit("tls_client_key");
        reveal_strlit("connect_timeout");
        reveal_strlit("request_timeout");
        reveal_strlit("request_buffer_size");
        lemma_other_values(before, i, piece, "endpoint"@);
        lemma_other_values(before, i, piece, "name"@);
        lemma_other_values(before, i, piece, "remote_header"@);
        lemma_other_values(before, i, piece, "tls_client_certificate"@);
        lemma_other_values(before, i, piece, "tls_client_key"@);
        lemma_other_values(before, i, piece, "connect_timeout"@);
        lemma_other_values(before, i, piece, "request_timeout"@);
        lemma_other_values(before, i, piece, "request_buffer_size"@);
        lemma_only_value(before, i, piece, "async"@, "false"@);
        assert(values(q, "async"@) == values_in(after, "async"@));
        assert(values(p, "async"@) == values_in(before, "async"@));
        assert(values(p, "endpoint"@) == values(q, "endpoint"@));
        assert(values(p, "name"@) == values(q, "name"@));
        assert(values(p, "remote_header"@) == values(q, "remote_header"@));
        assert(values(p, "tls_client_certificate"@) == values(q, "tls_client_certificate"@));
        assert(values(p, "tls_client_key"@) == values(q, "tls_client_key"@));
        assert(values(p, "connect_timeout"@) == values(q, "connect_timeout"@));
        assert(values(p, "request_timeout"@) == values(q, "request_timeout"@));
        assert(values(p, "request_buffer_size"@) == values(q, "request_buffer_size"@));
        assert(arg_of_properties(p) == arg_of_properties(q));
    }
}

proof fn lemma_other_values(pieces: Seq<Seq<char>>, i: int, piece: Seq<char>, name: Seq<char>)
    requires
        0 <= i <= pieces.len(),
        split_at_first(piece, '=') == Some(("async"@, "false"@)),
        is_known_property(name),
        name.len() != 5,
    ensures
        values_in(pieces.insert(i, piece), name) == values_in(pieces, name),
{
    reveal_strlit("async");
    assert("async"@.len() == 5);
    lemma_values_inserted(pieces, i, piece, name);
}

proof fn lemma_only_value(
    pieces: Seq<Seq<char>>,
    i: int,
    piece: Seq<char>,
    name: Seq<char>,
    value: Seq<char>,
)
    requires
        0 <= i <= pieces.len(),
        values_in(pieces, name).len() == 0,
        split_at_first(piece, '=') == Some((name, value)),
    ensures
        values_in(pieces.insert(i, piece), name) == seq![value],
    decreases pieces.len(),
{
    let more = pieces.insert(i, piece);
    if i == pieces.len() {
        assert(more.drop_last() =~= pieces);
        assert(more.last() == piece);
        assert(values_in(more, name) =~= seq![value]);
    } else {
        assert(more.last() == pieces.last());
        assert(more.drop_last() =~= pieces.drop_last().insert(i, piece));
        lemma_only_value(pieces.drop_last(), i, piece, name, value);
    }
}

/// A path is the text that is given for it, and a number of seconds or requests is the one that is
/// written; each is missing exactly where it is not given.
pub proof fn law_paths_and_numbers(s: &str, r: Result<BesBackendArg, BackendArgError>)
    requires
        call_ensures(BesBackendArg::parse, (s,), r),
        writes_properties(s@),
        r is Ok,
    ensures
        ({
            let pieces = split_at_each(s@, ',');
            let arg = r->Ok_0@;
            &&& gives_path(values_in(pieces, "tls_client_certificate"@), arg.tls_client_certificate)
            &&& gives_path(values_in(pieces, "tls_client_key"@), arg.tls_client_key)
            &&& gives_number(
                values_in(pieces, "connect_timeout"@),
                u64::MAX as nat,
                match arg.connect_timeout {
                    Some(n) => Some(n as nat),
                    None => None,
                },
            )
            &&& gives_number(
                values_in(pieces, "request_timeout"@),
                u64::MAX as nat,
                match arg.request_timeout {
                    Some(n) => Some(n as nat),
                    None => None,
                },
            )
            &&& gives_number(
                values_in(pieces, "request_buffer_size"@),
                usize::MAX as nat,
                match arg.request_buffer_size {
                    Some(n) => Some(n as nat),
                    None => None,
                },
            )
        }),
{
    lemma_parsed(s@, r);
    let pieces = split_at_each(s@, ',');
    let props = properties(pieces, pieces.len() as int)->0;
    assert(values(props, "tls_client_certificate"@) == values_in(
        pieces,
        "tls_client_certificate"@,
    ));
    assert(values(props, "tls_client_key"@) == values_in(pieces, "tls_client_key"@));
    assert(values(props, "connect_timeout"@) == values_in(pieces, "connect_timeout"@));
    assert(values(props, "request_timeout"@) == values_in(pieces, "request_timeout"@));
    assert(values(props, "request_buffer_size"@) == values_in(pieces, "request_buffer_size"@));
}

/// No value gives no path, and one value gives the path that is written so.
pub open spec fn gives_path(vals: Seq<Seq<char>>, path: Option<Seq<u8>>) -> bool {
    match path {
        Some(path) => vals.len() == 1 && path == encode_utf8(vals[0]),
        None => vals.len() == 0,
    }
}

/// No value gives no number, and one value gives the number that it writes.
pub open spec fn gives_number(vals: Seq<Seq<char>>, max: nat, number: Option<nat>) -> bool {
    match number {
        Some(n) => vals.len() == 1 && unsigned_value(vals[0], max) == Some(n),
        None => vals.len() == 0,
    }
}

/// The values that headers written as `key=value` give a name, in order.
pub open spec fn given_values(headers: Seq<Seq<char>>, name: Seq<char>) -> Seq<ValueView>
    decreases headers.len(),
{
    if headers.len() == 0 {
        Seq::empty()
    } else {
        let before = given_values(headers.drop_last(), name);
        match split_at_first(headers.last(), '=') {
            Some((key, value)) if ascii_lowered(key) == name => before.push(
                ValueView { bytes: encode_utf8(value), sensitive: false },
            ),
            _ => before,
        }
    }
}

/// Each header is written as `key=value`, with a key and a value that a header can have.
pub open spec fn are_headers(headers: Seq<Seq<char>>) -> bool {
    forall|i: int|
        0 <= i < headers.len() ==> (split_at_first(#[trigger] headers[i], '=') matches Some((k, v))
            && is_ascii_key(k) && is_ascii_value(v))
}

/// The headers of a backend are those that are given: under each name, whatever the case of the
/// keys, the values in their order, none of which is kept out of logs.
pub proof fn law_headers_are_those_given(
    s: &str,
    name: Seq<char>,
    r: Result<BesBackendArg, BackendArgError>,
)
    requires
        call_ensures(BesBackendArg::parse, (s,), r),
        writes_properties(s@),
        r is Ok,
    ensures
        ({
            let headers = values_in(split_at_each(s@, ','), "remote_header"@);
            &&& are_headers(headers)
            &&& values_of(r->Ok_0@.remote_headers, name) == given_values(headers, name)
            &&& r->Ok_0@.remote_headers.contains_key(name) <==> given_values(headers, name).len()
                > 0
        }),
{
    lemma_parsed(s@, r);
    let pieces = split_at_each(s@, ',');
    let props = properties(pieces, pieces.len() as int)->0;
    let headers = values_in(pieces, "remote_header"@);
    assert(values(props, "remote_header"@) == headers);
    lemma_headers(headers, headers.len() as int, name);
    assert(headers.take(headers.len() as int) =~= headers);
}

proof fn lemma_headers(headers: Seq<Seq<char>>, n: int, name: Seq<char>)
    requires
        0 <= n <= headers.len(),
        header_properties(headers, n) is Ok,
    ensures
        are_headers(headers.take(n)),
        values_of(header_properties(headers, n)->Ok_0, name) == given_values(headers.take(n), name),
        header_properties(headers, n)->Ok_0.contains_key(name) <==> given_values(
            headers.take(n),
            name,
        ).len() > 0,
    decreases n,
{
    let part = headers.take(n);
    if n > 0 {
        lemma_headers(headers, n - 1, name);
        assert(part.drop_last() =~= headers.take(n - 1));
        assert(part.last() == headers[n - 1]);
        assert forall|i: int| 0 <= i < part.len() implies (split_at_first(
            #[trigger] part[i],
            '=',
        ) matches Some((k, v)) && is_ascii_key(k) && is_ascii_value(v)) by {
            if i < n - 1 {
                assert(part[i] == headers.take(n - 1)[i]);
            } else {
                assert(header_property(headers[n - 1]) is Ok);
            }
        }
    }
}

/// What must hold of the values of a property that may be given once.
pub open spec fn at_most_once(pieces: Seq<Seq<char>>, name: Seq<char>) -> bool {
    values_in(pieces, name).len() <= 1
}

/// A number that may be given once is one, and within its bound.
pub open spec fn number_in_order(pieces: Seq<Seq<char>>, name: Seq<char>, max: nat) -> bool {
    values_in(pieces, name).len() == 1 ==> unsigned_value(values_in(pieces, name)[0], max) is Some
}

/// A text is parsed to a backend, unless a map refuses its headers, exactly if each of its pieces
/// is a property, the endpoint is given once and every other property of one value at most once,
/// and headers, `async` and numbers are such.
pub proof fn law_when_an_argument_is_parsed(s: &str, r: Result<BesBackendArg, BackendArgError>)
    requires
        call_ensures(BesBackendArg::parse, (s,), r),
        writes_properties(s@),
        !is_refusal(arg_result(r)),
    ensures
        ({
            let pieces = split_at_each(s@, ',');
            let asynchronous = values_in(pieces, "async"@);
            r is Ok <==> {
                &&& all_properties(pieces)
                &&& values_in(pieces, "endpoint"@).len() == 1
                &&& at_most_once(pieces, "name"@)
                &&& are_headers(values_in(pieces, "remote_header"@))
                &&& at_most_once(pieces, "async"@)
                &&& asynchronous.len() == 1 ==> asynchronous[0] == "true"@ || asynchronous[0]
                    == "false"@
                &&& at_most_once(pieces, "tls_client_certificate"@)
                &&& at_most_once(pieces, "tls_client_key"@)
                &&& at_most_once(pieces, "connect_timeout"@)
                &&& number_in_order(pieces, "connect_timeout"@, u64::MAX as nat)
                &&& at_most_once(pieces, "request_timeout"@)
                &&& number_in_order(pieces, "request_timeout"@, u64::MAX as nat)
                &&& at_most_once(pieces, "request_buffer_size"@)
                &&& number_in_order(pieces, "request_buffer_size"@, usize::MAX as nat)
            }
        }),
{
    lemma_writes_properties(s@);
    let pieces = split_at_each(s@, ',');
    lemma_properties(pieces, pieces.len() as int);
    assert(pieces.take(pieces.len() as int) =~= pieces);
    if all_properties(pieces) {
        let props = properties(pieces, pieces.len() as int)->0;
        lemma_all_values(props, pieces);
        let headers = values_in(pieces, "remote_header"@);
        lemma_headers_in_order(headers, headers.len() as int);
        assert(headers.take(headers.len() as int) =~= headers);
    }
}

proof fn lemma_all_values(props: Seq<PropertyView>, pieces: Seq<Seq<char>>)
    requires
        forall|name: Seq<char>| #[trigger] values(props, name) == values_in(pieces, name),
    ensures
        values(props, "endpoint"@) == values_in(pieces, "endpoint"@),
        values(props, "name"@) == values_in(pieces, "name"@),
        values(props, "remote_header"@) == values_in(pieces, "remote_header"@),
        values(props, "async"@) == values_in(pieces, "async"@),
        values(props, "tls_client_certificate"@) == values_in(pieces, "tls_client_certificate"@),
        values(props, "tls_client_key"@) == values_in(pieces, "tls_client_key"@),
        values(props, "connect_timeout"@) == values_in(pieces, "connect_timeout"@),
        values(props, "request_timeout"@) == values_in(pieces, "request_timeout"@),
        values(props, "request_buffer_size"@) == values_in(pieces, "request_buffer_size"@),
{
}

proof fn lemma_headers_in_order(headers: Seq<Seq<char>>, n: int)
    requires
        0 <= n <= headers.len(),
    ensures
        header_properties(headers, n) is Ok <==> are_headers(headers.take(n)),
    decreases n,
{
    let part = headers.take(n);
    if n > 0 {
        let before = headers.take(n - 1);
        lemma_headers_in_order(headers, n - 1);
        if are_headers(part) {
            assert forall|i: int| 0 <= i < before.len() implies (split_at_first(
                #[trigger] before[i],
                '=',
            ) matches Some((k, v)) && is_ascii_key(k) && is_ascii_value(v)) by {
                assert(before[i] == part[i]);
            }
            assert(part[n - 1] == headers[n - 1]);
        }
        if header_properties(headers, n) is Ok {
            assert forall|i: int| 0 <= i < part.len() implies (split_at_first(
                #[trigger] part[i],
                '=',
            ) matches Some((k, v)) && is_ascii_key(k) && is_ascii_value(v)) by {
                if i < n - 1 {
                    assert(before[i] == part[i]);
                } else {
                    assert(part[i] == headers[n - 1]);
                }
            }
        }
    }
}

/// What is reported of an argument that is not parsed is wrong with it, and nothing that is looked
/// at before is.
pub proof fn law_what_is_wrong_with_an_argument(
    s: &str,
    error: BackendArgError,
    r: Result<BesBackendArg, BackendArgError>,
)
    requires
        call_ensures(BesBackendArg::parse, (s,), r),
        r == Err::<BesBackendArg, BackendArgError>(error),
        !(error is TooManyRemoteHeaders),
    ensures
        writes_properties(s@),
        ({
            let pieces = split_at_each(s@, ',');
            let asynchronous = values_in(pieces, "async"@);
            let named = all_properties(pieces) && values_in(pieces, "endpoint"@).len() == 1
                && at_most_once(pieces, "name"@);
            let headed = named && are_headers(values_in(pieces, "remote_header"@));
            let decided = headed && at_most_once(pieces, "async"@) && (asynchronous.len() == 1
                ==> asynchronous[0] == "true"@ || asynchronous[0] == "false"@);
            let certified = decided && at_most_once(pieces, "tls_client_certificate"@);
            let identified = certified && at_most_once(pieces, "tls_client_key"@);
            let connecting = identified && at_most_once(pieces, "connect_timeout"@)
                && number_in_order(pieces, "connect_timeout"@, u64::MAX as nat);
            let requesting = connecting && at_most_once(pieces, "request_timeout"@)
                && number_in_order(pieces, "request_timeout"@, u64::MAX as nat);
            match error@ {
                ArgErrorView::InvalidEndpoint => !all_properties(pieces),
                ArgErrorView::MissingEndpoint => all_properties(pieces) && values_in(
                    pieces,
                    "endpoint"@,
                ).len() == 0,
                ArgErrorView::MultipleEndpoints => all_properties(pieces) && values_in(
                    pieces,
                    "endpoint"@,
                ).len() > 1,
                ArgErrorView::MultipleNames => all_properties(pieces) && values_in(
                    pieces,
                    "endpoint"@,
                ).len() == 1 && !at_most_once(pieces, "name"@),
                ArgErrorView::InvalidRemoteHeader(_) => named && !headed,
                ArgErrorView::InvalidRemoteHeaderKey(_) => named && !headed,
                ArgErrorView::InvalidRemoteHeaderValue(_) => named && !headed,
                ArgErrorView::MultipleAsync => headed && !at_most_once(pieces, "async"@),
                ArgErrorView::InvalidAsync => headed && at_most_once(pieces, "async"@)
                    && !decided,
                ArgErrorView::MultipleTlsClientCertificates => decided && !certified,
                ArgErrorView::MultipleTlsClientKeys => certified && !identified,
                ArgErrorView::MultipleConnectTimeouts => identified && !at_most_once(
                    pieces,
                    "connect_timeout"@,
                ),
                ArgErrorView::InvalidConnectTimeout => identified && at_most_once(
                    pieces,
                    "connect_timeout"@,
                ) && !connecting,
                ArgErrorView::MultipleRequestTimeouts => connecting && !at_most_once(
                    pieces,
                    "request_timeout"@,
                ),
                ArgErrorView::InvalidRequestTimeout => connecting && at_most_once(
                    pieces,
                    "request_timeout"@,
                ) && !requesting,
                ArgErrorView::MultipleRequestBufferSizes => requesting && !at_most_once(
                    pieces,
                    "request_buffer_size"@,
                ),
                ArgErrorView::InvalidRequestBufferSize => requesting && at_most_once(
                    pieces,
                    "request_buffer_size"@,
                ) && !number_in_order(pieces, "request_buffer_size"@, usize::MAX as nat),
                ArgErrorView::TooManyRemoteHeaders => true,
            }
        }),
{
    lemma_writes_properties(s@);
    let pieces = split_at_each(s@, ',');
    lemma_properties(pieces, pieces.len() as int);
    assert(pieces.take(pieces.len() as int) =~= pieces);
    if all_properties(pieces) {
        let props = properties(pieces, pieces.len() as int)->0;
        lemma_all_values(props, pieces);
        let headers = values_in(pieces, "remote_header"@);
        lemma_headers_in_order(headers, headers.len() as int);
        assert(headers.take(headers.len() as int) =~= headers);
        lemma_header_errors(headers, headers.len() as int);
    }
}

proof fn lemma_header_errors(headers: Seq<Seq<char>>, n: int)
    requires
        0 <= n <= headers.len(),
    ensures
        header_properties(headers, n) matches Err(error) ==> error is InvalidRemoteHeader || error
            is InvalidRemoteHeaderKey || error is InvalidRemoteHeaderValue,
    decreases n,
{
    if n > 0 {
        lemma_header_errors(headers, n - 1);
    }
}

/// The first header that is wrong is what is reported: as it is written if it has no equals sign,
/// else its key if that is none, and else its value.
pub proof fn law_first_wrong_header_is_reported(
    s: &str,
    k: int,
    error: BackendArgError,
    r: Result<BesBackendArg, BackendArgError>,
)
    requires
        call_ensures(BesBackendArg::parse, (s,), r),
        r == Err::<BesBackendArg, BackendArgError>(error),
        error is InvalidRemoteHeader || error is InvalidRemoteHeaderKey || error
            is InvalidRemoteHeaderValue,
        ({
            let headers = values_in(split_at_each(s@, ','), "remote_header"@);
            0 <= k < headers.len() && are_headers(headers.take(k)) && !are_headers(
                headers.take(k + 1),
            )
        }),
    ensures
        ({
            let header = values_in(split_at_each(s@, ','), "remote_header"@)[k];
            error@ == match split_at_first(header, '=') {
                None => ArgErrorView::InvalidRemoteHeader(header),
                Some((key, value)) => if !is_ascii_key(key) {
                    ArgErrorView::InvalidRemoteHeaderKey(key)
                } else {
                    ArgErrorView::InvalidRemoteHeaderValue(value)
                },
            }
        }),
{
    law_what_is_wrong_with_an_argument(s, error, r);
    let pieces = split_at_each(s@, ',');
    lemma_properties(pieces, pieces.len() as int);
    assert(pieces.take(pieces.len() as int) =~= pieces);
    let props = properties(pieces, pieces.len() as int)->0;
    lemma_all_values(props, pieces);
    let headers = values_in(pieces, "remote_header"@);
    lemma_headers_in_order(headers, k);
    lemma_headers_in_order(headers, k + 1);
    lemma_first_header_error(headers, k + 1, headers.len() as int);
}

proof fn lemma_first_header_error(headers: Seq<Seq<char>>, i: int, n: int)
    requires
        0 <= i <= n,
        header_properties(headers, i) is Err,
    ensures
        header_properties(headers, n) == header_properties(headers, i),
    decreases n - i,
{
    if i < n {
        lemma_first_header_error(headers, i, n - 1);
    }
}

/// The words for what is wrong with an argument.
pub proof fn law_argument_error_words(error: &BackendArgError, r: String)
    requires
        call_ensures(BackendArgError::message, (error,), r),
    ensures
        r@ == match error {
            BackendArgError::InvalidEndpoint => "invalid endpoint"@,
            BackendArgError::MissingEndpoint => "missing endpoint"@,
            BackendArgError::MultipleEndpoints => "multiple endpoints"@,
            BackendArgError::MultipleNames => "multiple names"@,
            BackendArgError::InvalidRemoteHeader(h) => "invalid remote header "@ + h@,
            BackendArgError::InvalidRemoteHeaderKey(k) => "invalid remote header key "@ + k@,
            BackendArgError::InvalidRemoteHeaderValue(v) => "invalid remote header value "@ + v@,
            BackendArgError::MultipleAsync => "multiple values for async"@,
            BackendArgError::InvalidAsync => "invalid async value"@,
            BackendArgError::MultipleTlsClientCertificates => "multiple tls client certificates"@,
            BackendArgError::MultipleTlsClientKeys => "multiple tls client keys"@,
            BackendArgError::MultipleConnectTimeouts => "multiple connect timeouts"@,
            BackendArgError::InvalidConnectTimeout => "invalid connect_timeout"@,
            BackendArgError::MultipleRequestTimeouts => "multiple request timeouts"@,
            BackendArgError::InvalidRequestTimeout => "invalid request_timeout"@,
            BackendArgError::MultipleRequestBufferSizes => "multiple request buffer sizes"@,
            BackendArgError::InvalidRequestBufferSize => "invalid request_buffer_size"@,
            BackendArgError::TooManyRemoteHeaders => "too many remote headers"@,
        },
{
}

// ---------------------------------------------------------------------------
// Backends
// ---------------------------------------------------------------------------

/// Settings that are given go into a builder, each where it belongs, and those that are not given
/// leave it as it is. A client identity takes both files; numbers of seconds are whole ones.
pub proof fn law_settings_go_into_the_builder(
    builder: BesBackendBuilder,
    settings: BesBackendArg,
    r: BesBackendBuilder,
)
    requires
        call_ensures(configure, (builder, settings), r),
    ensures
        ({
            let s = settings@;
            &&& r@.endpoint == builder@.endpoint
            &&& r@.remote_header_files == builder@.remote_header_files
            &&& r@.remote_headers == s.remote_headers
            &&& r@.asynchronous == s.asynchronous
            &&& s.name is Some ==> r@.name == s.name
            &&& s.name is None ==> r@.name == builder@.name
            &&& s.tls_client_certificate is Some && s.tls_client_key is Some
                ==> r@.tls_client_identity == Some(
                KeyPairView {
                    certificate: s.tls_client_certificate->0,
                    key: s.tls_client_key->0,
                },
            )
            &&& s.tls_client_certificate is None || s.tls_client_key is None
                ==> r@.tls_client_identity == builder@.tls_client_identity
            &&& s.connect_timeout matches Some(secs) ==> r@.connect_timeout == Some(
                Timeout { secs, nanos: 0 },
            )
            &&& s.connect_timeout is None ==> r@.connect_timeout == builder@.connect_timeout
            &&& s.request_timeout matches Some(secs) ==> r@.request_timeout == Some(
                Timeout { secs, nanos: 0 },
            )
            &&& s.request_timeout is None ==> r@.request_timeout == builder@.request_timeout
            &&& s.request_buffer_size matches Some(size) ==> r@.request_buffer_size == size
            &&& s.request_buffer_size is None ==> r@.request_buffer_size
                == builder@.request_buffer_size
        }),
{
}

/// An argument is made a backend exactly if its endpoint is one. The backend has what the argument
/// says, and else the defaults.
pub proof fn law_argument_becomes_a_backend(
    arg: BesBackendArg,
    r: Result<BesBackend, EndpointError>,
)
    requires
        call_ensures(BesBackendArg::try_into, (arg,), r),
    ensures
        r is Ok <==> endpoint_of(arg@.endpoint) is Ok,
        r matches Err(error) ==> endpoint_of(arg@.endpoint)->Err_0 == error@,
        r matches Ok(b) ==> {
            &&& b@.endpoint == endpoint_of(arg@.endpoint)->Ok_0
            &&& arg@.name is Some ==> Some(b@.name) == arg@.name
            &&& b@.remote_headers == arg@.remote_headers
            &&& b@.remote_header_files.len() == 0
            &&& b@.asynchronous == arg@.asynchronous
            &&& b@.client is None
            &&& b@.uds_tls_uri is None
            &&& b@.tls_client_identity is Some <==> arg@.tls_client_certificate is Some
                && arg@.tls_client_key is Some
            &&& b@.tls_client_identity matches Some(pair) ==> Some(pair.certificate)
                == arg@.tls_client_certificate && Some(pair.key) == arg@.tls_client_key
            &&& b@.connect_timeout == match arg@.connect_timeout {
                Some(secs) => Some(Timeout { secs, nanos: 0 }),
                None => None,
            }
            &&& b@.request_timeout == match arg@.request_timeout {
                Some(secs) => Some(Timeout { secs, nanos: 0 }),
                None => None,
            }
            &&& b@.request_buffer_size == match arg@.request_buffer_size {
                Some(size) => size,
                None => 500usize,
            }
        },
{
}

/// Arguments are in order exactly if no name is given to two backends; otherwise one that is given
/// to two is reported.
pub proof fn law_names_of_arguments(args: &Args, r: Result<(), ArgsError>)
    requires
        call_ensures(Args::validate, (args,), r),
    ensures
        r is Ok <==> forall|i: int, j: int|
            0 <= i < j < args.bes_backends@.len() && (#[trigger] args.bes_backends@[i])@.name
                is Some ==> args.bes_backends@[i]@.name != (#[trigger] args.bes_backends@[j])@.name,
        r matches Err(ArgsError::SameName(name)) ==> exists|i: int, j: int|
            0 <= i < j < args.bes_backends@.len() && (#[trigger] args.bes_backends@[i])@.name
                == Some(name@) && (#[trigger] args.bes_backends@[j])@.name == Some(name@),
{
    let names = arg_names(args.bes_backends@);
    assert forall|i: int| 0 <= i < args.bes_backends@.len() implies #[trigger] names[i]
        == args.bes_backends@[i]@.name by {
    }
    if names_unique(names) {
        assert forall|i: int, j: int|
            0 <= i < j < args.bes_backends@.len() && (#[trigger] args.bes_backends@[i])@.name
                is Some implies args.bes_backends@[i]@.name != (
        #[trigger] args.bes_backends@[j])@.name by {
            assert(names[i] is Some);
            assert(names[i] != names[j]);
        }
    } else {
        let (i, j) = choose|i: int, j: int|
            0 <= i < j < names.len() && (#[trigger] names[i]) is Some && names[i]
                == #[trigger] names[j];
        assert(args.bes_backends@[i]@.name == args.bes_backends@[j]@.name);
    }
    if r is Err {
        lemma_repeated(names, 0);
        let name = r->Err_0->SameName_0@;
        let (i, j) = choose|i: int, j: int| is_first_repeated_at(names, name, i, j);
        assert(args.bes_backends@[i]@.name == Some(name));
        assert(args.bes_backends@[j]@.name == Some(name));
    }
}

/// The words for a name that is given to two backends.
pub proof fn law_same_name_words(error: &ArgsError, r: String)
    requires
        call_ensures(ArgsError::message, (error,), r),
    ensures
        error matches ArgsError::SameName(name) ==> r@
            == "multiple bes backends have the same name "@ + name@,
{
}

/// An argument with few headers is not refused for their number.
pub proof fn law_few_headers_are_taken(s: &str, r: Result<BesBackendArg, BackendArgError>)
    requires
        call_ensures(BesBackendArg::parse, (s,), r),
        values_in(split_at_each(s@, ','), "remote_header"@).len() <= 6553,
    ensures
        !(r is Err && r->Err_0 is TooManyRemoteHeaders),
{
    let pieces = split_at_each(s@, ',');
    lemma_properties(pieces, pieces.len() as int);
    assert(pieces.take(pieces.len() as int) =~= pieces);
    let headers = values_in(pieces, "remote_header"@);
    law_few_headers_fit(headers);
    if all_properties(pieces) {
        let props = properties(pieces, pieces.len() as int)->0;
        lemma_all_values(props, pieces);
        lemma_header_errors(headers, headers.len() as int);
    }
    if r is Err && r->Err_0 is TooManyRemoteHeaders {
        assert(is_refusal(arg_result(r)));
        assert(!arg_overflows(s@));
        assert(arg_of(s@) == arg_result(r));
    }
}

/// Nor is one that has neither a comma nor an equals sign.
pub proof fn law_endpoint_is_taken(s: &str, r: Result<BesBackendArg, BackendArgError>)
    requires
        call_ensures(BesBackendArg::parse, (s,), r),
        !s@.contains(','),
        !s@.contains('='),
    ensures
        r is Ok,
{
    lemma_writes_properties(s@);
}

} // verus!
