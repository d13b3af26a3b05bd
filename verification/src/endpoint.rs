//! Endpoints of backends: URLs with a scheme, a host and a port, or unix domain sockets.
use url::Url;
use vstd::prelude::*;
use vstd::utf8::encode_utf8;

use crate::path::{clone_path, path_view, FilePath};
use crate::text::{
    contains, contains_text, is_ascii_lowercase, occurs_at, same_text, split_at_each, starts_with,
};

pub mod laws;

verus! {

/// What is read of a URL.
#[derive(Debug)]
pub struct UrlParts {
    /// The whole URL.
    pub text: String,
    pub scheme: String,
    pub host: Option<String>,
    /// The port, unless it is the default one of the scheme.
    pub port: Option<u16>,
    /// The file path that the URL stands for, if it does for one.
    pub path: Option<FilePath>,
}

#[verifier::ext_equal]
pub struct UrlView {
    pub text: Seq<char>,
    pub scheme: Seq<char>,
    pub host: Option<Seq<char>>,
    pub port: Option<u16>,
    pub path: Option<Seq<u8>>,
}

impl View for UrlParts {
    type V = UrlView;

    open spec fn view(&self) -> UrlView {
        UrlView {
            text: self.text@,
            scheme: self.scheme@,
            host: match self.host {
                Some(host) => Some(host@),
                None => None,
            },
            port: self.port,
            path: path_view(self.path),
        }
    }
}

impl Clone for UrlParts {
    fn clone(&self) -> (r: Self)
        ensures
            r@ == self@,
    {
        UrlParts {
            text: self.text.clone(),
            scheme: self.scheme.clone(),
            host: match &self.host {
                Some(host) => Some(host.clone()),
                None => None,
            },
            port: self.port,
            path: clone_path(&self.path),
        }
    }
}

/// The number of characters up to which a URL can be given a port in any case.
pub const MAX_ENDPOINT_LEN: usize = 0x1555_0000;

/// The number of characters up to which the URL parser can count.
pub const MAX_URL_LEN: usize = 0x7fff_ffff;

/// What the URL parser makes of a text: the parts of the URL, or the words for why it is none.
pub uninterp spec fn url_result(source: Seq<char>) -> Result<UrlView, Seq<char>>;

/// The text of a URL that is given a port.
pub uninterp spec fn url_text_with_port(source: Seq<char>, port: u16) -> Seq<char>;

/// The URL parser can read a text: it counts the characters of the part that names a host, and
/// where a single slash follows `unix:` there is no such part. It skips tabs and line breaks.
pub open spec fn is_countable(source: Seq<char>) -> bool {
    ||| source.len() <= MAX_URL_LEN
    ||| "unix:/"@.is_prefix_of(source) && !is_slash_or_skipped(source[6])
}

pub open spec fn is_slash_or_skipped(c: char) -> bool {
    c == '/' || c == '\t' || c == '\n' || c == '\r'
}

/// The URL that a text is, or the words for why it is none. The name of a unix domain socket at a
/// plain path reads as it is written; of other texts the URL parser decides.
pub open spec fn url_of(source: Seq<char>) -> Result<UrlView, Seq<char>> {
    if !is_countable(source) {
        Err("url is too long"@)
    } else if is_plain_socket(source) {
        Ok(socket_url(source))
    } else {
        url_result(source)
    }
}

/// What is read of the URL that a text is; none where it is not a URL.
pub open spec fn url_parts(source: Seq<char>) -> Option<UrlView> {
    match url_of(source) {
        Ok(url) => Some(url),
        Err(_) => None,
    }
}

/// A result by the views of what it holds.
pub open spec fn url_read(r: Result<UrlParts, String>) -> Result<UrlView, Seq<char>> {
    match r {
        Ok(parts) => Ok(parts@),
        Err(words) => Err(words@),
    }
}

/// A URL was read, and it is this one.
pub open spec fn reads_as(r: Result<UrlParts, String>, url: UrlView) -> bool {
    url_read(r) == Ok::<UrlView, Seq<char>>(url)
}

/// The schemes that the URL parser has rules of its own for.
pub open spec fn is_special(scheme: Seq<char>) -> bool {
    ||| scheme == "http"@ || scheme == "https"@
    ||| scheme == "ws"@ || scheme == "wss"@
    ||| scheme == "ftp"@ || scheme == "file"@
}

/// The path of a URL begins with a slash, or a host stands before it.
pub open spec fn is_rooted(url: UrlView) -> bool {
    (url.scheme + ":/"@).is_prefix_of(url.text)
}

/// A URL with a host names it behind the scheme and two slashes.
pub open spec fn shows_host(url: UrlView) -> bool {
    url.host is Some ==> (url.scheme + "://"@).is_prefix_of(url.text)
}

/// A URL whose scheme is not special is what its own text is parsed to.
pub open spec fn is_settled(url: UrlView) -> bool {
    !is_special(url.scheme) && is_countable(url.text) ==> url_of(url.text) == Ok::<
        UrlView,
        Seq<char>,
    >(url)
}

/// A URL that is not rooted, and whose scheme is not special, holds what the source holds of what
/// tells that a scheme is given.
pub open spec fn keeps_marks(source: Seq<char>, url: UrlView) -> bool {
    !is_rooted(url) && !is_special(url.scheme) ==> {
        &&& contains_text(source, "://"@) ==> contains_text(url.text, "://"@)
        &&& contains_text(source, "unix:/"@) ==> contains_text(url.text, "unix:/"@)
    }
}

/// A URL whose scheme is not special can be given a port if it has a host that is not empty.
pub open spec fn takes_port(url: Option<UrlView>) -> bool {
    match url {
        Some(url) => url.host is Some && url.host != Some(Seq::<char>::empty()),
        None => false,
    }
}

/// The URL parsed from `source` and given a port.
pub open spec fn url_with_port(source: Seq<char>, port: u16) -> Option<UrlView> {
    match url_parts(source) {
        Some(url) => Some(
            UrlView { text: url_text_with_port(source, port), port: Some(port), ..url },
        ),
        None => None,
    }
}

/// The characters that stand for themselves in the path of a URL, whatever is around them.
pub open spec fn is_plain_path_char(c: char) -> bool {
    ||| 'a' <= c <= 'z'
    ||| 'A' <= c <= 'Z'
    ||| '0' <= c <= '9'
    ||| c == '-' || c == '_' || c == '.'
}

/// A segment of a path that names what it says, which one dot and two dots do not.
pub open spec fn is_plain_segment(segment: Seq<char>) -> bool {
    &&& segment.len() > 0
    &&& segment != "."@
    &&& segment != ".."@
    &&& forall|i: int| 0 <= i < segment.len() ==> is_plain_path_char(#[trigger] segment[i])
}

/// An absolute path of plain segments.
pub open spec fn is_plain_path(path: Seq<char>) -> bool {
    &&& path.len() > 0
    &&& path[0] == '/'
    &&& forall|i: int|
        0 <= i < split_at_each(path.skip(1), '/').len() ==> is_plain_segment(
            #[trigger] split_at_each(path.skip(1), '/')[i],
        )
}

/// The name of a unix domain socket at a plain path.
pub open spec fn is_plain_socket(source: Seq<char>) -> bool {
    "unix:"@.is_prefix_of(source) && is_plain_path(socket_path(source))
}

/// What stands behind `unix:`.
pub open spec fn socket_path(source: Seq<char>) -> Seq<char> {
    source.skip(5)
}

/// The URL of a unix domain socket at a plain path.
pub open spec fn socket_url(source: Seq<char>) -> UrlView {
    UrlView {
        text: source,
        scheme: "unix"@,
        host: None,
        port: None,
        path: Some(encode_utf8(socket_path(source))),
    }
}

pub open spec fn lowercase_letters(s: Seq<char>) -> bool {
    forall|i: int| 0 <= i < s.len() ==> is_ascii_lowercase(#[trigger] s[i])
}

/// Lower case letters before a colon at the beginning of `source` are the scheme.
pub open spec fn begins_with_scheme(source: Seq<char>, scheme: Seq<char>) -> bool {
    forall|i: int|
        0 < i < source.len() && source[i] == ':' && lowercase_letters(source.take(i)) ==> scheme
            == #[trigger] source.take(i)
}

/// `Url::parse`, and `Url::to_file_path` on the URL: which texts are URLs, their parts, and the
/// words for why others are none, have a name only, but for this. Lower case letters before a colon
/// at the beginning are the scheme. A host stands behind two slashes. Where the scheme is not a
/// special one, parsing the text of the URL again gives the same URL, and a URL that is not rooted
/// keeps the `://` and the `unix:/` of the source. The name of a unix domain socket at a plain path
/// is a URL that reads as it is written and stands for that path.
#[verifier::external_body]
fn parse_url(source: &str) -> (r: Result<UrlParts, String>)
    requires
        is_countable(source@),
    ensures
        url_read(r) == url_result(source@),
        r matches Ok(parts) ==> begins_with_scheme(source@, parts@.scheme),
        r matches Ok(parts) ==> shows_host(parts@),
        r matches Ok(parts) ==> is_settled(parts@),
        r matches Ok(parts) ==> keeps_marks(source@, parts@),
        is_plain_socket(source@) ==> reads_as(r, socket_url(source@)),
{
    let url = Url::parse(source).map_err(|error| error.to_string())?;
    let path = url.to_file_path().ok().map(|path| path.into_os_string().into_encoded_bytes());
    Ok(UrlParts {
        text: url.as_str().to_string(),
        scheme: url.scheme().to_string(),
        host: url.host_str().map(|host| host.to_string()),
        port: url.port(),
        path: path.map(FilePath::from_bytes),
    })
}

/// `Url::set_port` on the URL that is parsed from `source`, whose scheme is not a special one;
/// none where there is no such URL or it cannot be given a port. The text that results has a name
/// only, but for this: parsing it gives the same URL. The file path stays what it was.
#[verifier::external_body]
fn set_url_port(source: &str, port: u16) -> (r: Option<UrlParts>)
    requires
        source@.len() <= MAX_ENDPOINT_LEN,
        url_parts(source@) matches Some(url) ==> !is_special(url.scheme),
    ensures
        r is Some <==> takes_port(url_parts(source@)),
        r matches Some(parts) ==> parts.text@ == url_text_with_port(source@, port),
        r matches Some(parts) ==> Some(parts@) == url_with_port(source@, port),
        r matches Some(parts) ==> shows_host(parts@),
        r matches Some(parts) ==> is_settled(parts@),
{
    let mut url = Url::parse(source).ok()?;
    url.set_port(Some(port)).ok()?;
    let path = url.to_file_path().ok().map(|path| path.into_os_string().into_encoded_bytes());
    Some(UrlParts {
        text: url.as_str().to_string(),
        scheme: url.scheme().to_string(),
        host: url.host_str().map(|host| host.to_string()),
        port: url.port(),
        path: path.map(FilePath::from_bytes),
    })
}

/// The URL of an endpoint.
#[derive(Debug)]
pub struct EndpointUrl {
    parts: UrlParts,
}

impl View for EndpointUrl {
    type V = UrlView;

    closed spec fn view(&self) -> UrlView {
        self.parts@
    }
}

impl Clone for EndpointUrl {
    fn clone(&self) -> (r: Self)
        ensures
            r@ == self@,
    {
        EndpointUrl { parts: self.parts.clone() }
    }
}

/// Whether the URL parser can read a text.
fn countable(source: &str) -> (r: bool)
    ensures
        r == is_countable(source@),
{
    if source.unicode_len() <= MAX_URL_LEN {
        return true;
    }
    if !starts_with(source, "unix:/") {
        return false;
    }
    let c = source.get_char(6);
    !(c == '/' || c == '\t' || c == '\n' || c == '\r')
}

impl EndpointUrl {
    /// Parses any URL. The error is the words for why a text is none.
    pub fn parse(source: &str) -> (r: Result<EndpointUrl, String>)
        ensures
            match (r, url_of(source@)) {
                (Ok(url), Ok(view)) => url@ == view,
                (Err(words), Err(view)) => words@ == view,
                _ => false,
            },
    {
        if !countable(source) {
            return Err("url is too long".to_owned());
        }
        match parse_url(source) {
            Ok(parts) => Ok(EndpointUrl { parts }),
            Err(words) => Err(words),
        }
    }

    /// The whole URL.
    pub fn as_str(&self) -> (r: &str)
        ensures
            r@ == self@.text,
    {
        self.parts.text.as_str()
    }

    pub fn scheme(&self) -> (r: &str)
        ensures
            r@ == self@.scheme,
    {
        self.parts.scheme.as_str()
    }

    pub fn host_str(&self) -> (r: Option<&str>)
        ensures
            r is Some <==> self@.host is Some,
            r matches Some(host) ==> Some(host@) == self@.host,
    {
        match &self.parts.host {
            Some(host) => Some(host.as_str()),
            None => None,
        }
    }

    pub fn port(&self) -> (r: Option<u16>)
        ensures
            r == self@.port,
    {
        self.parts.port
    }

    /// The file path that the URL stands for, if it does for one.
    pub fn to_file_path(&self) -> (r: Option<FilePath>)
        ensures
            path_view(r) == self@.path,
    {
        clone_path(&self.parts.path)
    }
}

/// Why a text is not the endpoint of a backend. Each case holds the endpoint, with its scheme.
#[derive(Debug)]
pub enum EndpointError {
    /// It is not a URL.
    Unparsable(String),
    /// The scheme is none of `grpc`, `grpcs` and `unix`.
    InvalidScheme(String),
    /// The URL has no host.
    MissingHost(String),
    /// The URL cannot be given the default port.
    PortNotSet(String),
}

#[verifier::ext_equal]
pub enum EndpointErrorView {
    Unparsable(Seq<char>),
    InvalidScheme(Seq<char>),
    MissingHost(Seq<char>),
    PortNotSet(Seq<char>),
}

impl View for EndpointError {
    type V = EndpointErrorView;

    open spec fn view(&self) -> EndpointErrorView {
        match self {
            EndpointError::Unparsable(endpoint) => EndpointErrorView::Unparsable(endpoint@),
            EndpointError::InvalidScheme(endpoint) => EndpointErrorView::InvalidScheme(endpoint@),
            EndpointError::MissingHost(endpoint) => EndpointErrorView::MissingHost(endpoint@),
            EndpointError::PortNotSet(endpoint) => EndpointErrorView::PortNotSet(endpoint@),
        }
    }
}

/// The words for what is wrong with an endpoint.
pub open spec fn endpoint_error_message(error: EndpointErrorView) -> Seq<char> {
    match error {
        EndpointErrorView::Unparsable(e) => "failed to parse backend endpoint "@ + e,
        EndpointErrorView::InvalidScheme(e) => "backend endpoint "@ + e + " has invalid scheme"@,
        EndpointErrorView::MissingHost(e) => "backend endpoint "@ + e + " is missing host"@,
        EndpointErrorView::PortNotSet(e) => "failed to set default port on bes backend url "@ + e,
    }
}

impl EndpointError {
    /// The words for what is wrong with an endpoint.
    pub fn message(&self) -> (r: String)
        ensures
            r@ == endpoint_error_message(self@),
    {
        match self {
            EndpointError::Unparsable(endpoint) => "failed to parse backend endpoint ".to_owned(

            ).concat(endpoint.as_str()),
            EndpointError::InvalidScheme(endpoint) => "backend endpoint ".to_owned().concat(
                endpoint.as_str(),
            ).concat(" has invalid scheme"),
            EndpointError::MissingHost(endpoint) => "backend endpoint ".to_owned().concat(
                endpoint.as_str(),
            ).concat(" is missing host"),
            EndpointError::PortNotSet(endpoint) =>
                "failed to set default port on bes backend url ".to_owned().concat(
                endpoint.as_str(),
            ),
        }
    }
}

/// An endpoint with its scheme, which is `grpcs` where none is given.
pub open spec fn with_scheme(endpoint: Seq<char>) -> Seq<char> {
    if contains_text(endpoint, "://"@) || contains_text(endpoint, "unix:/"@) {
        endpoint
    } else {
        "grpcs://"@ + endpoint
    }
}

/// The port of an endpoint that names none.
pub open spec fn default_port(scheme: Seq<char>) -> u16 {
    if scheme == "grpcs"@ {
        443
    } else {
        80
    }
}

/// What a URL lacks to be the endpoint of a backend.
#[derive(Clone, Copy, Debug, PartialEq, Eq, Structural)]
pub enum EndpointCheck {
    /// Nothing.
    Complete,
    /// A port, which is to be this one.
    NeedsPort(u16),
    /// A scheme that is one of `grpc`, `grpcs` and `unix`.
    InvalidScheme,
    /// A host.
    MissingHost,
}

/// The scheme must be known, and other than for unix domain sockets there must be a host; a
/// missing port is the default one of the scheme.
pub open spec fn endpoint_check(url: UrlView) -> EndpointCheck {
    if url.scheme == "unix"@ {
        EndpointCheck::Complete
    } else if url.scheme != "grpc"@ && url.scheme != "grpcs"@ {
        EndpointCheck::InvalidScheme
    } else if url.host is None {
        EndpointCheck::MissingHost
    } else if url.port is Some {
        EndpointCheck::Complete
    } else {
        EndpointCheck::NeedsPort(default_port(url.scheme))
    }
}

/// What a parsed URL makes of an endpoint. An empty host cannot be given a port.
pub open spec fn finished_endpoint(source: Seq<char>, url: UrlView) -> Result<
    UrlView,
    EndpointErrorView,
> {
    match endpoint_check(url) {
        EndpointCheck::Complete => Ok(url),
        EndpointCheck::InvalidScheme => Err(EndpointErrorView::InvalidScheme(source)),
        EndpointCheck::MissingHost => Err(EndpointErrorView::MissingHost(source)),
        EndpointCheck::NeedsPort(port) => if url.host == Some(Seq::<char>::empty()) {
            Err(EndpointErrorView::PortNotSet(source))
        } else {
            Ok(UrlView { text: url_text_with_port(source, port), port: Some(port), ..url })
        },
    }
}

/// The endpoint that a text names, or what is wrong with it.
pub open spec fn endpoint_of(endpoint: Seq<char>) -> Result<UrlView, EndpointErrorView> {
    match url_parts(with_scheme(endpoint)) {
        None => Err(EndpointErrorView::Unparsable(with_scheme(endpoint))),
        Some(url) => finished_endpoint(with_scheme(endpoint), url),
    }
}

/// A result by the views of what it holds.
pub open spec fn endpoint_result(r: Result<EndpointUrl, EndpointError>) -> Result<
    UrlView,
    EndpointErrorView,
> {
    match r {
        Ok(url) => Ok(url@),
        Err(error) => Err(error@),
    }
}

/// Checks what a URL lacks to be the endpoint of a backend.
pub fn check_endpoint(url: &UrlParts) -> (r: EndpointCheck)
    ensures
        r == endpoint_check(url@),
{
    if same_text(url.scheme.as_str(), "unix") {
        return EndpointCheck::Complete;
    }
    let secure = same_text(url.scheme.as_str(), "grpcs");
    if !secure && !same_text(url.scheme.as_str(), "grpc") {
        return EndpointCheck::InvalidScheme;
    }
    if url.host.is_none() {
        return EndpointCheck::MissingHost;
    }
    if url.port.is_some() {
        return EndpointCheck::Complete;
    }
    if secure {
        EndpointCheck::NeedsPort(443)
    } else {
        EndpointCheck::NeedsPort(80)
    }
}

/// The schemes of backends are not special.
proof fn lemma_backend_schemes(scheme: Seq<char>)
    requires
        scheme == "grpc"@ || scheme == "grpcs"@ || scheme == "unix"@,
    ensures
        !is_special(scheme),
{
    reveal_strlit("grpc");
    reveal_strlit("grpcs");
    reveal_strlit("unix");
    reveal_strlit("file");
    reveal_strlit("http");
    reveal_strlit("https");
    reveal_strlit("ws");
    reveal_strlit("wss");
    reveal_strlit("ftp");
    assert(scheme[0] == 'g' || scheme[0] == 'u');
    assert("file"@[0] == 'f' && "ftp"@[0] == 'f');
    assert("http"@[0] == 'h' && "https"@[0] == 'h');
    assert("ws"@[0] == 'w' && "wss"@[0] == 'w');
}

/// A text with its scheme tells that the scheme is given.
proof fn lemma_marks(endpoint: Seq<char>)
    ensures
        contains_text(with_scheme(endpoint), "://"@) || contains_text(
            with_scheme(endpoint),
            "unix:/"@,
        ),
{
    if !contains_text(endpoint, "://"@) && !contains_text(endpoint, "unix:/"@) {
        reveal_strlit("grpcs://");
        reveal_strlit("://");
        let source = "grpcs://"@ + endpoint;
        assert(source.subrange(5, 8) =~= "://"@);
        assert(occurs_at(source, "://"@, 5));
    }
}

/// A finished endpoint is named by its own text.
proof fn lemma_endpoint_again(endpoint: Seq<char>, url: UrlView)
    requires
        endpoint_check(url) is Complete,
        shows_host(url),
        is_settled(url),
        url.host is Some || keeps_marks(with_scheme(endpoint), url),
    ensures
        is_countable(url.text) ==> endpoint_of(url.text) == Ok::<UrlView, EndpointErrorView>(url),
{
    lemma_backend_schemes(url.scheme);
    lemma_marks(endpoint);
    let n = url.scheme.len() as int;
    reveal_strlit("://");
    reveal_strlit(":/");
    reveal_strlit("unix");
    reveal_strlit("unix:/");
    if url.host is Some {
        let start = url.scheme + "://"@;
        assert(url.text.subrange(n, n + 3) =~= start.subrange(n, n + 3));
        assert(start.subrange(n, n + 3) =~= "://"@);
        assert(occurs_at(url.text, "://"@, n));
    } else if is_rooted(url) {
        assert("unix"@ + ":/"@ =~= "unix:/"@);
        assert(url.text.subrange(0, 6) =~= "unix:/"@);
        assert(occurs_at(url.text, "unix:/"@, 0));
    }
    assert(with_scheme(url.text) == url.text);
}

/// The name of a unix domain socket at a plain path can be read, and has its scheme.
pub proof fn lemma_plain_socket(source: Seq<char>)
    requires
        is_plain_socket(source),
    ensures
        "unix:/"@.is_prefix_of(source),
        is_countable(source),
        with_scheme(source) == source,
{
    reveal_strlit("unix:");
    reveal_strlit("unix:/");
    let path = socket_path(source);
    let rest = path.skip(1);
    assert(source[5] == path[0]);
    assert("unix:/"@.is_prefix_of(source)) by {
        assert forall|i: int| 0 <= i < 6 implies source[i] == "unix:/"@[i] by {
            if i < 5 {
                assert(source[i] == "unix:"@[i]);
            }
        }
    }
    let first = split_at_each(rest, '/')[0];
    assert(is_plain_segment(first));
    assert(first[0] == rest[0]);
    assert(source[6] == rest[0]);
    assert(is_plain_path_char(first[0]));
    assert(source.subrange(0, 6) =~= "unix:/"@);
    assert(occurs_at(source, "unix:/"@, 0));
}

/// The name of a unix domain socket at a plain path is an endpoint, which reads as it is written.
pub proof fn law_plain_socket_is_endpoint(endpoint: Seq<char>)
    requires
        is_plain_socket(endpoint),
    ensures
        endpoint_of(endpoint) == Ok::<UrlView, EndpointErrorView>(socket_url(endpoint)),
{
    lemma_plain_socket(endpoint);
}

/// Parses the endpoint of a backend. Where the text names no scheme, the scheme is `grpcs`. What
/// comes of it is named by its own text, which is parsed to itself.
pub fn parse_endpoint(endpoint: String) -> (r: Result<EndpointUrl, EndpointError>)
    requires
        with_scheme(endpoint@).len() <= MAX_ENDPOINT_LEN,
    ensures
        endpoint_result(r) == endpoint_of(endpoint@),
        is_plain_socket(endpoint@) ==> r is Ok && r->Ok_0@ == socket_url(endpoint@),
        r matches Ok(url) ==> with_scheme(endpoint@) != endpoint@ ==> url@.scheme == "grpcs"@,
        r matches Ok(url) ==> is_countable(url@.text) ==> endpoint_of(url@.text) == Ok::<
            UrlView,
            EndpointErrorView,
        >(url@),
{
    // A missing scheme is not a valid URL, so prepend the default before parsing.
    let ghost named = endpoint@;
    proof {
        if is_plain_socket(named) {
            law_plain_socket_is_endpoint(named);
        }
    }
    let source = if !contains(endpoint.as_str(), "://") && !contains(endpoint.as_str(), "unix:/") {
        "grpcs://".to_owned().concat(endpoint.as_str())
    } else {
        endpoint
    };
    let parts = match parse_url(source.as_str()) {
        Ok(parts) => parts,
        Err(_) => {
            return Err(EndpointError::Unparsable(source));
        },
    };
    proof {
        if source@ != named {
            reveal_strlit("grpcs://");
            reveal_strlit("grpcs");
            assert(source@[5] == ':');
            assert(source@.take(5) =~= "grpcs"@);
            assert(lowercase_letters(source@.take(5)));
        }
    }
    match check_endpoint(&parts) {
        EndpointCheck::Complete => {
            proof {
                lemma_endpoint_again(named, parts@);
            }
            Ok(EndpointUrl { parts })
        },
        EndpointCheck::InvalidScheme => Err(EndpointError::InvalidScheme(source)),
        EndpointCheck::MissingHost => Err(EndpointError::MissingHost(source)),
        EndpointCheck::NeedsPort(port) => {
            proof {
                lemma_backend_schemes(parts@.scheme);
            }
            match set_url_port(source.as_str(), port) {
                Some(parts) => {
                    proof {
                        lemma_endpoint_again(named, parts@);
                    }
                    Ok(EndpointUrl { parts })
                },
                None => Err(EndpointError::PortNotSet(source)),
            }
        },
    }
}

/// The endpoint of a backend that is no unix domain socket has a host and a port: the one that it
/// names, or 443 for `grpcs` and 80 for `grpc`.
pub proof fn law_endpoint_has_host_and_port(endpoint: Seq<char>)
    requires
        endpoint_of(endpoint) is Ok,
        endpoint_of(endpoint)->Ok_0.scheme != "unix"@,
    ensures
        ({
            let parts = endpoint_of(endpoint)->Ok_0;
            let named = url_parts(with_scheme(endpoint))->0.port;
            &&& parts.scheme == "grpc"@ || parts.scheme == "grpcs"@
            &&& parts.host is Some
            &&& parts.port == if named is Some {
                named
            } else if parts.scheme == "grpcs"@ {
                Some(443u16)
            } else {
                Some(80u16)
            }
        }),
{
}

} // verus!
