//! What the server listens on: a socket address or a unix domain socket.
use std::str::FromStr;
use vstd::prelude::*;
use vstd::utf8::encode_utf8;

use crate::endpoint::{
    is_plain_path, lemma_plain_socket, socket_path, url_of, url_parts, EndpointUrl,
};
use crate::path::{lossy_text, path_view, FilePath};
use crate::text::{
    all_digits, chars_of, decimal, decimal_u64, digits_value, is_digit, lemma_decimal,
    lemma_position_is, parse_digits, split, split_at_each, split_at_first,
    split_once, starts_with, texts,
};

pub mod laws;

verus! {

/// An IPv4 address.
#[derive(Clone, Copy, Debug, PartialEq, Eq, Structural)]
pub struct Ipv4Addr {
    pub a: u8,
    pub b: u8,
    pub c: u8,
    pub d: u8,
}

/// An IPv4 socket address.
#[derive(Clone, Copy, Debug, PartialEq, Eq, Structural)]
pub struct SocketAddrV4 {
    pub ip: Ipv4Addr,
    pub port: u16,
}

/// The decimal numerals of the octets, with dots between them.
pub open spec fn ip_text(ip: Ipv4Addr) -> Seq<char> {
    decimal(ip.a as nat) + seq!['.'] + (decimal(ip.b as nat) + seq!['.'] + (decimal(ip.c as nat)
        + seq!['.'] + decimal(ip.d as nat)))
}

/// The address, a colon and the port.
pub open spec fn addr_text(addr: SocketAddrV4) -> Seq<char> {
    ip_text(addr.ip) + seq![':'] + decimal(addr.port as nat)
}

/// A number that is written in digits and is at most `max`.
pub open spec fn number_in(s: Seq<char>, max: nat) -> Option<nat> {
    if s.len() > 0 && all_digits(s) && digits_value(s) <= max {
        Some(digits_value(s))
    } else {
        None
    }
}

/// An octet of an address is written without leading zeros.
pub open spec fn octet_in(s: Seq<char>) -> Option<nat> {
    if s.len() > 1 && s[0] == '0' {
        None
    } else {
        number_in(s, 255)
    }
}

/// The address that a text names: four octets with dots between them.
pub open spec fn ip_in(s: Seq<char>) -> Option<Ipv4Addr> {
    let pieces = split_at_each(s, '.');
    if pieces.len() == 4 {
        match (octet_in(pieces[0]), octet_in(pieces[1]), octet_in(pieces[2]), octet_in(pieces[3])) {
            (Some(a), Some(b), Some(c), Some(d)) => Some(
                Ipv4Addr { a: a as u8, b: b as u8, c: c as u8, d: d as u8 },
            ),
            _ => None,
        }
    } else {
        None
    }
}

/// The socket address that a text names: an address, a colon and a port.
pub open spec fn addr_in(s: Seq<char>) -> Option<SocketAddrV4> {
    match split_at_first(s, ':') {
        Some((host, port)) => match (ip_in(host), number_in(port, 65535)) {
            (Some(ip), Some(port)) => Some(SocketAddrV4 { ip, port: port as u16 }),
            _ => None,
        },
        None => None,
    }
}

/// The separator does not occur in a text.
#[verifier::opaque]
spec fn lacks(s: Seq<char>, sep: char) -> bool {
    forall|i: int| 0 <= i < s.len() ==> s[i] != sep
}

/// A text without separators is a single piece.
proof fn lemma_no_split(s: Seq<char>, sep: char)
    requires
        lacks(s, sep),
    ensures
        split_at_each(s, sep) == seq![s],
{
    reveal(lacks);
    lemma_position_is(s, sep, 0, s.len() as int);
}

/// A piece without separators, a separator and the rest: the piece, and the pieces of the rest.
proof fn lemma_split_first(piece: Seq<char>, sep: char, rest: Seq<char>)
    requires
        lacks(piece, sep),
    ensures
        split_at_each(piece + seq![sep] + rest, sep) == seq![piece] + split_at_each(rest, sep),
        split_at_first(piece + seq![sep] + rest, sep) == Some((piece, rest)),
{
    reveal(lacks);
    let s = piece + seq![sep] + rest;
    lemma_position_is(s, sep, 0, piece.len() as int);
    assert(s.subrange(0, piece.len() as int) =~= piece);
    assert(s.subrange(piece.len() as int + 1, s.len() as int) =~= rest);
}

/// What lacks in two texts lacks in both together, with another character between them.
proof fn lemma_lacks_between(a: Seq<char>, between: char, b: Seq<char>, sep: char)
    requires
        lacks(a, sep),
        lacks(b, sep),
        between != sep,
    ensures
        lacks(a + seq![between] + b, sep),
{
    reveal(lacks);
}

/// A decimal numeral holds neither a dot nor a colon, and is the number that it writes.
proof fn lemma_numeral(n: nat)
    ensures
        lacks(decimal(n), '.'),
        lacks(decimal(n), ':'),
        n <= 255 ==> octet_in(decimal(n)) == Some(n),
        n <= 65535 ==> number_in(decimal(n), 65535) == Some(n),
{
    reveal(lacks);
    lemma_decimal(n);
    assert(!is_digit('.'));
    assert(!is_digit(':'));
}

/// An address is what its text names.
proof fn lemma_ip_round_trip(ip: Ipv4Addr)
    ensures
        ip_in(ip_text(ip)) == Some(ip),
        lacks(ip_text(ip), ':'),
{
    let a = decimal(ip.a as nat);
    let b = decimal(ip.b as nat);
    let c = decimal(ip.c as nat);
    let d = decimal(ip.d as nat);
    lemma_numeral(ip.a as nat);
    lemma_numeral(ip.b as nat);
    lemma_numeral(ip.c as nat);
    lemma_numeral(ip.d as nat);
    let cd = c + seq!['.'] + d;
    let bcd = b + seq!['.'] + cd;
    lemma_lacks_between(c, '.', d, ':');
    lemma_lacks_between(b, '.', cd, ':');
    lemma_lacks_between(a, '.', bcd, ':');
    lemma_no_split(d, '.');
    lemma_split_first(c, '.', d);
    lemma_split_first(b, '.', cd);
    lemma_split_first(a, '.', bcd);
    assert(seq![a] + (seq![b] + (seq![c] + seq![d])) =~= seq![a, b, c, d]);
}

/// A socket address is what its text names.
pub proof fn law_addr_round_trip(addr: SocketAddrV4)
    ensures
        addr_in(addr_text(addr)) == Some(addr),
{
    lemma_ip_round_trip(addr.ip);
    lemma_numeral(addr.port as nat);
    lemma_split_first(ip_text(addr.ip), ':', decimal(addr.port as nat));
}

/// What stands before the first colon behind the text of an address is that text.
pub proof fn lemma_ip_before_colon(ip: Ipv4Addr, rest: Seq<char>)
    ensures
        split_at_first(ip_text(ip) + seq![':'] + rest, ':') == Some((ip_text(ip), rest)),
        ip_in(ip_text(ip)) == Some(ip),
{
    lemma_ip_round_trip(ip);
    lemma_split_first(ip_text(ip), ':', rest);
}

impl SocketAddrV4 {
    pub fn new(ip: Ipv4Addr, port: u16) -> (r: Self)
        ensures
            r == (SocketAddrV4 { ip, port }),
    {
        SocketAddrV4 { ip, port }
    }

    /// The address, a colon and the port.
    pub fn to_text(&self) -> (r: String)
        ensures
            r@ == addr_text(*self),
    {
        let r = decimal_u64(self.ip.a as u64).concat(".").concat(
            decimal_u64(self.ip.b as u64).as_str(),
        ).concat(".").concat(decimal_u64(self.ip.c as u64).as_str()).concat(".").concat(
            decimal_u64(self.ip.d as u64).as_str(),
        ).concat(":").concat(decimal_u64(self.port as u64).as_str());
        proof {
            reveal_strlit(".");
            reveal_strlit(":");
            assert("."@ =~= seq!['.']);
            assert(":"@ =~= seq![':']);
            assert(r@ =~= addr_text(*self));
        }
        r
    }

    /// Parses a socket address.
    pub fn parse(s: &str) -> (r: Option<SocketAddrV4>)
        ensures
            r == addr_in(s@),
    {
        let (host, port) = match split_once(s, ':') {
            Some(parts) => parts,
            None => {
                return None;
            },
        };
        match (parse_ip(host.as_str()), parse_number(port.as_str(), 65535)) {
            (Some(ip), Some(port)) => Some(SocketAddrV4 { ip, port: port as u16 }),
            _ => None,
        }
    }
}

/// Parses a number that is at most `max`.
fn parse_number(s: &str, max: u64) -> (r: Option<u64>)
    ensures
        match (r, number_in(s@, max as nat)) {
            (Some(n), Some(m)) => n == m,
            (None, None) => true,
            _ => false,
        },
{
    let chars = chars_of(s);
    assert(s@.skip(0) =~= s@);
    parse_digits(&chars, 0, max)
}

/// Parses an octet of an address.
fn parse_octet(s: &str) -> (r: Option<u8>)
    ensures
        match (r, octet_in(s@)) {
            (Some(n), Some(m)) => n == m,
            (None, None) => true,
            _ => false,
        },
{
    let chars = chars_of(s);
    if chars.len() > 1 && chars[0] == '0' {
        return None;
    }
    match parse_number(s, 255) {
        Some(n) => Some(n as u8),
        None => None,
    }
}

/// Parses an address.
fn parse_ip(s: &str) -> (r: Option<Ipv4Addr>)
    ensures
        r == ip_in(s@),
{
    let pieces = split(s, '.');
    assert(texts(pieces@).len() == pieces@.len());
    if pieces.len() != 4 {
        return None;
    }
    assert(forall|i: int| 0 <= i < 4 ==> texts(pieces@)[i] == (#[trigger] pieces@[i])@);
    match (
        parse_octet(pieces[0].as_str()),
        parse_octet(pieces[1].as_str()),
        parse_octet(pieces[2].as_str()),
        parse_octet(pieces[3].as_str()),
    ) {
        (Some(a), Some(b), Some(c), Some(d)) => Some(Ipv4Addr { a, b, c, d }),
        _ => None,
    }
}

/// What the server listens on.
#[derive(Debug)]
pub enum Binding {
    SocketAddr(SocketAddrV4),
    UnixDomainSocket(FilePath),
}

#[verifier::ext_equal]
pub enum BindingView {
    SocketAddr(SocketAddrV4),
    UnixDomainSocket(Seq<u8>),
}

impl View for Binding {
    type V = BindingView;

    open spec fn view(&self) -> BindingView {
        match self {
            Binding::SocketAddr(addr) => BindingView::SocketAddr(*addr),
            Binding::UnixDomainSocket(path) => BindingView::UnixDomainSocket(path@),
        }
    }
}

impl Clone for Binding {
    fn clone(&self) -> (r: Self)
        ensures
            r@ == self@,
    {
        match self {
            Binding::SocketAddr(addr) => Binding::SocketAddr(*addr),
            Binding::UnixDomainSocket(path) => Binding::UnixDomainSocket(path.clone()),
        }
    }
}

/// Every address of the machine, port 9000.
pub open spec fn default_binding() -> BindingView {
    BindingView::SocketAddr(
        SocketAddrV4 { ip: Ipv4Addr { a: 0, b: 0, c: 0, d: 0 }, port: 9000 },
    )
}

impl Default for Binding {
    fn default() -> (r: Self)
        ensures
            r@ == default_binding(),
    {
        Binding::SocketAddr(SocketAddrV4::new(Ipv4Addr { a: 0, b: 0, c: 0, d: 0 }, 9000))
    }
}

/// Why a text names nothing to listen on.
#[derive(Debug)]
pub enum BindingError {
    /// The text begins with `unix:/` and is no URL, for which these are the words.
    NoUrl(String),
    /// The URL of a unix domain socket stands for no file path.
    NoSocketPath,
    /// The text is no IPv4 socket address.
    NoSocketAddress,
}

#[verifier::ext_equal]
pub enum BindingErrorView {
    NoUrl(Seq<char>),
    NoSocketPath,
    NoSocketAddress,
}

impl View for BindingError {
    type V = BindingErrorView;

    open spec fn view(&self) -> BindingErrorView {
        match self {
            BindingError::NoUrl(words) => BindingErrorView::NoUrl(words@),
            BindingError::NoSocketPath => BindingErrorView::NoSocketPath,
            BindingError::NoSocketAddress => BindingErrorView::NoSocketAddress,
        }
    }
}

/// The words for why a text names nothing to listen on.
pub open spec fn binding_error_message(error: BindingErrorView) -> Seq<char> {
    match error {
        BindingErrorView::NoUrl(words) => words,
        BindingErrorView::NoSocketPath => "invalid unix domain socket path"@,
        BindingErrorView::NoSocketAddress => "invalid IPv4 socket address syntax"@,
    }
}

impl BindingError {
    /// The words for why a text names nothing to listen on.
    pub fn message(&self) -> (r: String)
        ensures
            r@ == binding_error_message(self@),
    {
        match self {
            BindingError::NoUrl(words) => words.clone(),
            BindingError::NoSocketPath => "invalid unix domain socket path".to_owned(),
            BindingError::NoSocketAddress => "invalid IPv4 socket address syntax".to_owned(),
        }
    }
}

/// The unix domain socket at the path that a URL stands for, given the path, if there is one, or
/// the words for why there is no URL.
pub open spec fn socket_at(found: Result<Option<Seq<u8>>, Seq<char>>) -> Result<
    BindingView,
    BindingErrorView,
> {
    match found {
        Ok(Some(path)) => Ok(BindingView::UnixDomainSocket(path)),
        Ok(None) => Err(BindingErrorView::NoSocketPath),
        Err(words) => Err(BindingErrorView::NoUrl(words)),
    }
}

/// The path that the URL of a unix domain socket stands for, if it does for one, or the words for
/// why there is no URL.
pub open spec fn socket_found(s: Seq<char>) -> Result<Option<Seq<u8>>, Seq<char>> {
    match url_of(s) {
        Ok(url) => Ok(url.path),
        Err(words) => Err(words),
    }
}

/// What a text names to listen on, or why it names nothing.
pub open spec fn binding_of(s: Seq<char>) -> Result<BindingView, BindingErrorView> {
    if "unix:/"@.is_prefix_of(s) {
        socket_at(socket_found(s))
    } else {
        match addr_in(s) {
            Some(addr) => Ok(BindingView::SocketAddr(addr)),
            None => Err(BindingErrorView::NoSocketAddress),
        }
    }
}

/// A result by the views of what it holds.
pub open spec fn binding_result(r: Result<Binding, BindingError>) -> Result<
    BindingView,
    BindingErrorView,
> {
    match r {
        Ok(binding) => Ok(binding@),
        Err(error) => Err(error@),
    }
}

/// What is listened on, as text.
pub open spec fn binding_text(binding: BindingView) -> Seq<char> {
    match binding {
        BindingView::SocketAddr(addr) => addr_text(addr),
        BindingView::UnixDomainSocket(path) => "unix:"@ + lossy_text(path),
    }
}

impl Binding {
    /// Parses what to listen on: a unix domain socket, as `unix:/path`, or a socket address.
    pub fn parse(s: &str) -> (r: Result<Binding, BindingError>)
        ensures
            binding_result(r) == binding_of(s@),
    {
        if starts_with(s, "unix:/") {
            match EndpointUrl::parse(s) {
                Ok(url) => Self::at_socket(Ok(url.to_file_path())),
                Err(words) => Self::at_socket(Err(words)),
            }
        } else {
            match SocketAddrV4::parse(s) {
                Some(addr) => Ok(Binding::SocketAddr(addr)),
                None => Err(BindingError::NoSocketAddress),
            }
        }
    }

    /// The unix domain socket at the path that a URL stands for, given the path, if there is one,
    /// or the words for why there is no URL.
    pub fn at_socket(found: Result<Option<FilePath>, String>) -> (r: Result<Binding, BindingError>)
        ensures
            binding_result(r) == socket_at(
                match found {
                    Ok(path) => Ok(path_view(path)),
                    Err(words) => Err(words@),
                },
            ),
    {
        match found {
            Ok(Some(path)) => Ok(Binding::UnixDomainSocket(path)),
            Ok(None) => Err(BindingError::NoSocketPath),
            Err(words) => Err(BindingError::NoUrl(words)),
        }
    }

    /// What is listened on, as text.
    pub fn to_string(&self) -> (r: String)
        ensures
            r@ == binding_text(self@),
    {
        match self {
            Binding::SocketAddr(addr) => addr.to_text(),
            Binding::UnixDomainSocket(path) => "unix:".to_owned().concat(
                path.to_string_lossy().as_str(),
            ),
        }
    }

    /// The URL of what is listened on, which must be one.
    pub fn into_url(&self) -> (r: EndpointUrl)
        requires
            url_parts(binding_text(self@)) is Some,
        ensures
            Some(r@) == url_parts(binding_text(self@)),
    {
        let text = self.to_string();
        EndpointUrl::parse(text.as_str()).unwrap()
    }

    /// The URL of what is listened on, none if that is no URL.
    pub fn try_into_url(&self) -> (r: Option<EndpointUrl>)
        ensures
            r is Some <==> url_parts(binding_text(self@)) is Some,
            r matches Some(url) ==> Some(url@) == url_parts(binding_text(self@)),
    {
        let text = self.to_string();
        if EndpointUrl::parse(text.as_str()).is_ok() {
            Some(self.into_url())
        } else {
            None
        }
    }
}

impl FromStr for Binding {
    type Err = BindingError;

    /// Parses what to listen on: a unix domain socket, as `unix:/path`, or a socket address.
    fn from_str(s: &str) -> (r: Result<Self, Self::Err>)
        ensures
            binding_result(r) == binding_of(s@),
    {
        Binding::parse(s)
    }
}

/// A socket address that is listened on is named by its text.
pub proof fn law_socket_binding_round_trip(addr: SocketAddrV4)
    ensures
        binding_of(binding_text(BindingView::SocketAddr(addr))) == Ok::<
            BindingView,
            BindingErrorView,
        >(BindingView::SocketAddr(addr)),
{
    law_addr_round_trip(addr);
    reveal_strlit("unix:/");
    lemma_decimal(addr.ip.a as nat);
    let text = addr_text(addr);
    assert(text[0] == decimal(addr.ip.a as nat)[0]);
    assert(is_digit(text[0]));
    assert("unix:/"@[0] == 'u');
    assert(!"unix:/"@.is_prefix_of(text));
}

/// A unix domain socket that is listened on is named by its text, its path being a plain one.
pub proof fn law_unix_socket_binding_round_trip(path: Seq<char>)
    requires
        is_plain_path(path),
    ensures
        binding_of(binding_text(BindingView::UnixDomainSocket(encode_utf8(path)))) == Ok::<
            BindingView,
            BindingErrorView,
        >(BindingView::UnixDomainSocket(encode_utf8(path))),
{
    vstd::utf8::encode_utf8_valid_utf8(path);
    vstd::utf8::encode_utf8_decode_utf8(path);
    let text = "unix:"@ + path;
    reveal_strlit("unix:");
    assert(socket_path(text) =~= path);
    assert("unix:"@.is_prefix_of(text));
    lemma_plain_socket(text);
}

} // verus!
