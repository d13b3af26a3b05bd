//! What the server can listen on, said of the calls themselves.
use vstd::prelude::*;
use vstd::utf8::encode_utf8;

use crate::binding::{
    addr_text, default_binding, ip_in, ip_text, law_addr_round_trip, lemma_ip_before_colon,
    octet_in, Binding, BindingError, BindingErrorView, BindingView, Ipv4Addr, SocketAddrV4,
};
use crate::endpoint::{url_of, EndpointUrl};
use crate::path::{lossy_text, FilePath};
use crate::text::laws::{joined, lemma_split_rejoins};
use crate::text::{
    all_digits, decimal, digit_char, digit_value, digits_value, is_digit, position_from,
    split_at_each, split_at_first,
};

verus! {

/// The text of a socket address is read as that address.
pub proof fn law_address_is_read_back(
    addr: &SocketAddrV4,
    text: String,
    s: &str,
    r: Option<SocketAddrV4>,
)
    requires
        call_ensures(SocketAddrV4::to_text, (addr,), text),
        s@ == text@,
        call_ensures(SocketAddrV4::parse, (s,), r),
    ensures
        r == Some(*addr),
{
    law_addr_round_trip(*addr);
}

/// A numeral without leading zeros is the one that is written for its number.
proof fn lemma_numeral_is_decimal(s: Seq<char>)
    requires
        s.len() > 0,
        all_digits(s),
        s.len() > 1 ==> s[0] != '0',
    ensures
        decimal(digits_value(s)) == s,
        s.len() > 1 ==> digits_value(s) >= 10,
        s[0] != '0' ==> digits_value(s) >= 1,
    decreases s.len(),
{
    let less = s.drop_last();
    let c = s.last();
    assert(is_digit(c));
    let d = digit_value(c);
    assert(digit_char(d) == c);
    if s.len() == 1 {
        assert(less =~= Seq::<char>::empty());
        assert(digits_value(less) == 0);
        assert(decimal(d) =~= s);
        if s[0] != '0' {
            assert(d >= 1);
        }
    } else {
        assert(all_digits(less)) by {
            assert forall|i: int| 0 <= i < less.len() implies is_digit(#[trigger] less[i]) by {
                assert(is_digit(s[i]));
            }
        }
        assert(less[0] == s[0]);
        lemma_numeral_is_decimal(less);
        let n = digits_value(less);
        assert(digits_value(s) == n * 10 + d);
        assert((n * 10 + d) / 10 == n && (n * 10 + d) % 10 == d);
        assert(decimal(n * 10 + d) == decimal(n).push(digit_char(d)));
        assert(less.push(c) =~= s);
    }
}

/// Only the text of an address is read as that address.
proof fn lemma_ip_text(s: Seq<char>, ip: Ipv4Addr)
    requires
        ip_in(s) == Some(ip),
    ensures
        s == ip_text(ip),
{
    let pieces = split_at_each(s, '.');
    lemma_split_rejoins(s, '.');
    lemma_octet(pieces[0]);
    lemma_octet(pieces[1]);
    lemma_octet(pieces[2]);
    lemma_octet(pieces[3]);
    let p1 = pieces.skip(1);
    let p2 = p1.skip(1);
    let p3 = p2.skip(1);
    assert(p1[0] == pieces[1] && p2[0] == pieces[2] && p3[0] == pieces[3]);
    assert(p3.len() == 1 && p2.len() == 2 && p1.len() == 3);
    assert(joined(p3, '.') == pieces[3]);
    assert(joined(p2, '.') == pieces[2] + seq!['.'] + joined(p3, '.'));
    assert(joined(p1, '.') == pieces[1] + seq!['.'] + joined(p2, '.'));
    assert(joined(pieces, '.') == pieces[0] + seq!['.'] + joined(p1, '.'));
}

proof fn lemma_octet(s: Seq<char>)
    ensures
        octet_in(s) matches Some(n) ==> s == decimal(n) && n <= 255,
{
    if octet_in(s) is Some {
        lemma_numeral_is_decimal(s);
    }
}

/// A text is read as a socket address only if it is the text of the address, a colon and a numeral
/// of the port.
pub proof fn law_only_addresses_are_read(s: &str, r: Option<SocketAddrV4>)
    requires
        call_ensures(SocketAddrV4::parse, (s,), r),
        r is Some,
    ensures
        ({
            let host = ip_text(r->0.ip) + seq![':'];
            let port = s@.skip(host.len() as int);
            &&& host.is_prefix_of(s@)
            &&& port.len() > 0
            &&& all_digits(port)
            &&& digits_value(port) == r->0.port
        }),
{
    let (host, port) = split_at_first(s@, ':')->0;
    lemma_ip_text(host, r->0.ip);
    lemma_colon(s@, 0);
    assert(s@ =~= host + seq![':'] + port);
    assert(s@.skip(host.len() as int + 1) =~= port);
}

proof fn lemma_colon(s: Seq<char>, from: int)
    requires
        0 <= from <= s.len(),
    ensures
        from <= position_from(s, ':', from) <= s.len(),
        position_from(s, ':', from) < s.len() ==> s[position_from(s, ':', from)] == ':',
    decreases s.len() - from,
{
    if from < s.len() && s[from] != ':' {
        lemma_colon(s, from + 1);
    }
}

/// The text of an address is its four octets in decimal with dots between them, and behind a colon
/// the port in decimal; addresses with the same text are the same.
pub proof fn law_address_text(addr: &SocketAddrV4, other: &SocketAddrV4, r: String, t: String)
    requires
        call_ensures(SocketAddrV4::to_text, (addr,), r),
        call_ensures(SocketAddrV4::to_text, (other,), t),
    ensures
        r@ == t@ ==> *addr == *other,
        r@ == decimal(addr.ip.a as nat) + seq!['.'] + decimal(addr.ip.b as nat) + seq!['.']
            + decimal(addr.ip.c as nat) + seq!['.'] + decimal(addr.ip.d as nat) + seq![':']
            + decimal(addr.port as nat),
{
    law_addr_round_trip(*addr);
    law_addr_round_trip(*other);
    assert(r@ =~= decimal(addr.ip.a as nat) + seq!['.'] + decimal(addr.ip.b as nat) + seq!['.']
        + decimal(addr.ip.c as nat) + seq!['.'] + decimal(addr.ip.d as nat) + seq![':'] + decimal(
        addr.port as nat,
    ));
}

/// A text that begins with `unix:/` names the unix domain socket at the file path that it stands
/// for as a URL; every other text names the socket address that it is.
pub proof fn law_binding_is_what_the_text_names(
    s: &str,
    addr: Option<SocketAddrV4>,
    r: Result<Binding, BindingError>,
)
    requires
        call_ensures(Binding::parse, (s,), r),
        call_ensures(SocketAddrV4::parse, (s,), addr),
    ensures
        "unix:/"@.is_prefix_of(s@) ==> match url_of(s@) {
            Ok(url) => match url.path {
                Some(path) => r is Ok && r->Ok_0@ == BindingView::UnixDomainSocket(path),
                None => r is Err && r->Err_0@ is NoSocketPath,
            },
            Err(words) => r is Err && r->Err_0@ == BindingErrorView::NoUrl(words),
        },
        !"unix:/"@.is_prefix_of(s@) ==> match addr {
            Some(addr) => r is Ok && r->Ok_0@ == BindingView::SocketAddr(addr),
            None => r is Err && r->Err_0@ is NoSocketAddress,
        },
{
}

/// What is found of a socket decides: a path, no path, or no URL.
pub proof fn law_socket_found_decides(
    found: Result<Option<FilePath>, String>,
    r: Result<Binding, BindingError>,
)
    requires
        call_ensures(Binding::at_socket, (found,), r),
    ensures
        match found {
            Ok(Some(path)) => r is Ok && r->Ok_0@ == BindingView::UnixDomainSocket(path@),
            Ok(None) => r is Err && r->Err_0@ is NoSocketPath,
            Err(words) => r is Err && r->Err_0@ == BindingErrorView::NoUrl(words@),
        },
{
}

/// A binding is shown as its address, or as `unix:` and its path.
pub proof fn law_binding_is_shown(binding: &Binding, r: String, url: Option<EndpointUrl>)
    requires
        call_ensures(Binding::to_string, (binding,), r),
        call_ensures(Binding::try_into_url, (binding,), url),
    ensures
        match binding {
            Binding::SocketAddr(addr) => r@ == addr_text(*addr),
            Binding::UnixDomainSocket(path) => r@ == "unix:"@ + lossy_text(path@),
        },
        url is Some <==> url_of(r@) is Ok,
        url matches Some(url) ==> url@ == url_of(r@)->Ok_0,
{
}

/// Text of a file path is shown as it is.
pub proof fn law_path_is_shown(text: &str, path: FilePath, r: String)
    requires
        call_ensures(FilePath::new, (text,), path),
        call_ensures(FilePath::to_string_lossy, (&path,), r),
    ensures
        path@ == encode_utf8(text@),
        r@ == text@,
{
    vstd::utf8::encode_utf8_valid_utf8(text@);
    vstd::utf8::encode_utf8_decode_utf8(text@);
}

/// By default the server listens on every address of the machine at port 9000.
pub proof fn law_default_binding()
    ensures
        default_binding() == BindingView::SocketAddr(
            SocketAddrV4 { ip: Ipv4Addr { a: 0, b: 0, c: 0, d: 0 }, port: 9000 },
        ),
{
}

/// The words for why a text names nothing to listen on.
pub proof fn law_binding_error_words(error: &BindingError, r: String)
    requires
        call_ensures(BindingError::message, (error,), r),
    ensures
        match error {
            BindingError::NoUrl(words) => r@ == words@,
            BindingError::NoSocketPath => r@ == "invalid unix domain socket path"@,
            BindingError::NoSocketAddress => r@ == "invalid IPv4 socket address syntax"@,
        },
{
}

/// The URL of a binding is what its text is parsed to.
pub proof fn law_binding_url(binding: &Binding, text: String, r: EndpointUrl)
    requires
        call_ensures(Binding::to_string, (binding,), text),
        url_of(text@) is Ok,
        call_ensures(Binding::into_url, (binding,), r),
    ensures
        r@ == url_of(text@)->Ok_0,
{
}

/// The text of an address, a colon and any numeral of a port is read as the address and the port,
/// whatever zeros the numeral begins with.
pub proof fn law_any_numeral_of_a_port_is_read(
    ip: Ipv4Addr,
    numeral: Seq<char>,
    s: &str,
    r: Option<SocketAddrV4>,
)
    requires
        numeral.len() > 0,
        all_digits(numeral),
        s@ == ip_text(ip) + seq![':'] + numeral,
        call_ensures(SocketAddrV4::parse, (s,), r),
    ensures
        r is Some <==> digits_value(numeral) <= 65535,
        r matches Some(addr) ==> addr.ip == ip && addr.port == digits_value(numeral),
{
    lemma_ip_before_colon(ip, numeral);
}

} // verus!
