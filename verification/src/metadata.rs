//! Request metadata: the headers that accompany a gRPC request.
//!
//! Metadata is kept in tonic's own [`MetadataMap`]. Contracts speak of what a map holds through
//! [`metadata_headers`], the headers in the order in which the map hands them out, and mostly
//! through [`contents`], which forgets the order between headers of different names.
use tonic::codegen::http::{HeaderMap, HeaderName, HeaderValue};
use tonic::metadata::errors::{InvalidMetadataKey, InvalidMetadataValue};
use tonic::metadata::{AsciiMetadataKey, AsciiMetadataValue, MetadataMap};
use vstd::prelude::*;
use vstd::utf8::encode_utf8;

use crate::text::ascii_lowered;

verus! {

#[verifier::external_type_specification]
#[verifier::external_body]
pub struct ExMetadataMap(MetadataMap);

#[verifier::external_type_specification]
#[verifier::external_body]
pub struct ExInvalidMetadataKey(InvalidMetadataKey);

#[verifier::external_type_specification]
#[verifier::external_body]
pub struct ExInvalidMetadataValue(InvalidMetadataValue);

/// One value of a header: its bytes on the wire, and whether it must be kept out of logs.
pub struct ValueView {
    pub bytes: Seq<u8>,
    pub sensitive: bool,
}

/// One header: a lower case name and one value.
pub struct HeaderView {
    pub name: Seq<char>,
    pub value: ValueView,
}

/// What a metadata map holds: its headers, in the order in which iteration yields them.
/// A name with several values occurs once for each of them.
pub uninterp spec fn metadata_headers(m: MetadataMap) -> Seq<HeaderView>;

/// The values of each name, in order.
pub type HeaderValues = Map<Seq<char>, Seq<ValueView>>;

/// The values of `name`, none if the name is absent.
pub open spec fn values_of(m: HeaderValues, name: Seq<char>) -> Seq<ValueView> {
    if m.contains_key(name) {
        m[name]
    } else {
        Seq::empty()
    }
}

/// `m` with one more value behind those that its name has.
pub open spec fn with_header(m: HeaderValues, h: HeaderView) -> HeaderValues {
    m.insert(h.name, values_of(m, h.name).push(h.value))
}

/// Headers grouped by name.
pub open spec fn grouped(headers: Seq<HeaderView>) -> HeaderValues
    decreases headers.len(),
{
    if headers.len() == 0 {
        Map::empty()
    } else {
        with_header(grouped(headers.drop_last()), headers.last())
    }
}

/// What a metadata map holds, by name.
pub open spec fn contents(m: MetadataMap) -> HeaderValues {
    grouped(metadata_headers(m))
}

/// The names and values of both maps; where both have a name, the values of `b` stand behind
/// those of `a`.
pub open spec fn merged(a: HeaderValues, b: HeaderValues) -> HeaderValues {
    Map::new(
        |name: Seq<char>| a.contains_key(name) || b.contains_key(name),
        |name: Seq<char>| values_of(a, name) + values_of(b, name),
    )
}

/// The header of a key and a value given as text, which may appear in logs.
pub open spec fn plain_header(key: Seq<char>, value: Seq<char>) -> HeaderView {
    HeaderView {
        name: ascii_lowered(key),
        value: ValueView { bytes: encode_utf8(value), sensitive: false },
    }
}

/// The number of distinct names up to which a metadata map is known to take another header.
pub const MAX_HEADER_NAMES: usize = 6553;

/// A name that ends in `-bin` holds binary values.
pub open spec fn is_binary_name(name: Seq<char>) -> bool {
    seq!['-', 'b', 'i', 'n'].is_suffix_of(name)
}

/// The characters that HTTP admits in a header name.
pub open spec fn is_token_char(c: char) -> bool {
    ||| 'a' <= c <= 'z'
    ||| 'A' <= c <= 'Z'
    ||| '0' <= c <= '9'
    ||| c == '!' || c == '#' || c == '$' || c == '%' || c == '&' || c == '\''
    ||| c == '*' || c == '+' || c == '-' || c == '.' || c == '^' || c == '_'
    ||| c == '`' || c == '|' || c == '~'
}

/// A key of an ASCII header, in any case.
pub open spec fn is_ascii_key(key: Seq<char>) -> bool {
    &&& 1 <= key.len() <= 65535
    &&& forall|i: int| 0 <= i < key.len() ==> is_token_char(#[trigger] key[i])
    &&& !is_binary_name(ascii_lowered(key))
}

/// A value of an ASCII header: no control character but the tab.
pub open spec fn is_ascii_value(value: Seq<char>) -> bool {
    forall|i: int|
        0 <= i < encode_utf8(value).len() ==> {
            let b = #[trigger] encode_utf8(value)[i];
            b >= 32 && b != 127 || b == 9
        }
}

/// `MetadataMap::new`: a map without headers.
#[verifier::external_body]
pub(crate) fn metadata_new() -> (r: MetadataMap)
    ensures
        metadata_headers(r) == Seq::<HeaderView>::empty(),
{
    MetadataMap::new()
}

/// `MetadataMap::clone`: the same headers in the same order.
#[verifier::external_body]
pub(crate) fn metadata_clone(m: &MetadataMap) -> (r: MetadataMap)
    ensures
        metadata_headers(r) == metadata_headers(*m),
{
    m.clone()
}

/// `MetadataMap::len`: the number of headers, counting each value of a name.
#[verifier::external_body]
fn metadata_len(m: &MetadataMap) -> (r: usize)
    ensures
        r == metadata_headers(*m).len(),
{
    m.len()
}

/// `HeaderMap::try_append`, on the map that a `MetadataMap` wraps, with the `i`th header that
/// `HeaderMap::iter` yields of `from`: its value, with its sensitivity, is put behind the values
/// that its name has in `to`. Where the map refuses to grow, it is left as it was. Above
/// [`MAX_HEADER_NAMES`] names it is not said when that is: it depends on how the names hash.
#[verifier::external_body]
fn try_append_header(to: &mut MetadataMap, from: &MetadataMap, i: usize) -> (r: bool)
    requires
        i < metadata_headers(*from).len(),
    ensures
        contents(*final(to)) == if r {
            with_header(contents(*old(to)), metadata_headers(*from)[i as int])
        } else {
            contents(*old(to))
        },
        contents(*old(to)).dom().len() <= MAX_HEADER_NAMES ==> r,
{
    let headers: &HeaderMap = from.as_ref();
    let (name, value) = headers.iter().nth(i).unwrap();
    to.as_mut().try_append(name.clone(), value.clone()).is_ok()
}

/// `HeaderMap::try_append`, on the map that a `MetadataMap` wraps, with a key and a value given as
/// text: the value, not a sensitive one, is put behind the values that the key has. Where the map
/// refuses to grow, it is left as it was. Above [`MAX_HEADER_NAMES`] names it is not said when
/// that is: it depends on how the names hash.
#[verifier::external_body]
pub(crate) fn metadata_try_append(m: &mut MetadataMap, key: &str, value: &str) -> (r: bool)
    requires
        is_ascii_key(key@),
        is_ascii_value(value@),
    ensures
        contents(*final(m)) == if r {
            with_header(contents(*old(m)), plain_header(key@, value@))
        } else {
            contents(*old(m))
        },
        contents(*old(m)).dom().len() <= MAX_HEADER_NAMES ==> r,
{
    let key = HeaderName::from_bytes(key.as_bytes()).unwrap();
    m.as_mut().try_append(key, HeaderValue::from_str(value).unwrap()).is_ok()
}

/// `HeaderMap::try_insert`, on the map that a `MetadataMap` wraps, with a key and a value given as
/// text: the value, sensitive or not, is afterwards the only one that the key has. Where the map
/// refuses to grow, it is left as it was. Above [`MAX_HEADER_NAMES`] names it is not said when
/// that is: it depends on how the names hash.
#[verifier::external_body]
pub(crate) fn metadata_try_insert(m: &mut MetadataMap, key: &str, value: &str, sensitive: bool)
    -> (r: bool)
    requires
        is_ascii_key(key@),
        is_ascii_value(value@),
    ensures
        contents(*final(m)) == if r {
            contents(*old(m)).insert(
                ascii_lowered(key@),
                seq![ValueView { bytes: encode_utf8(value@), sensitive }],
            )
        } else {
            contents(*old(m))
        },
        contents(*old(m)).dom().len() <= MAX_HEADER_NAMES ==> r,
{
    let key = HeaderName::from_bytes(key.as_bytes()).unwrap();
    let mut value = HeaderValue::from_str(value).unwrap();
    value.set_sensitive(sensitive);
    m.as_mut().try_insert(key, value).is_ok()
}

/// `AsciiMetadataKey::from_str`: accepts the keys of ASCII headers and puts them in lower case.
#[verifier::external_body]
pub(crate) fn parse_ascii_key(key: &str) -> (r: Result<String, InvalidMetadataKey>)
    ensures
        r is Ok <==> is_ascii_key(key@),
        r matches Ok(name) ==> name@ == ascii_lowered(key@),
{
    key.parse::<AsciiMetadataKey>().map(|key| key.as_str().to_string())
}

/// `AsciiMetadataValue::from_str`: accepts the values of ASCII headers.
#[verifier::external_body]
pub(crate) fn parse_ascii_value(value: &str) -> (r: Result<(), InvalidMetadataValue>)
    ensures
        r is Ok <==> is_ascii_value(value@),
{
    value.parse::<AsciiMetadataValue>().map(|_| ())
}

// ---------------------------------------------------------------------------
// Merging
// ---------------------------------------------------------------------------

/// A list of headers has no more names than headers.
pub proof fn lemma_grouped_len(headers: Seq<HeaderView>)
    ensures
        grouped(headers).dom().finite(),
        grouped(headers).dom().len() <= headers.len(),
    decreases headers.len(),
{
    if headers.len() > 0 {
        lemma_grouped_len(headers.drop_last());
        assert(grouped(headers).dom() == grouped(headers.drop_last()).dom().insert(
            headers.last().name,
        ));
    }
}

/// Each header of a list adds its name to the names of the list before it.
proof fn lemma_grouped_prefix(headers: Seq<HeaderView>, i: int)
    requires
        0 <= i <= headers.len(),
    ensures
        grouped(headers.take(i)).dom().subset_of(grouped(headers).dom()),
    decreases headers.len() - i,
{
    if i < headers.len() {
        lemma_grouped_prefix(headers, i + 1);
        assert(headers.take(i + 1).drop_last() == headers.take(i));
    } else {
        assert(headers.take(i) == headers);
    }
}

/// Nothing is merged from an empty map.
proof fn lemma_merged_empty(a: HeaderValues)
    ensures
        merged(a, Map::empty()) == a,
{
    assert forall|name: Seq<char>| a.contains_key(name) implies merged(a, Map::empty())[name]
        == a[name] by {
        assert(values_of(a, name) + Seq::<ValueView>::empty() == values_of(a, name));
    }
    assert(merged(a, Map::empty()) == a);
}

/// Merging one header more is merging and then adding the header.
proof fn lemma_merged_with_header(a: HeaderValues, b: HeaderValues, h: HeaderView)
    ensures
        merged(a, with_header(b, h)) == with_header(merged(a, b), h),
{
    let left = merged(a, with_header(b, h));
    let right = with_header(merged(a, b), h);
    assert(left.dom() == right.dom());
    assert forall|name: Seq<char>| left.contains_key(name) implies left[name] == right[name] by {
        if name == h.name {
            assert(values_of(merged(a, b), name) == values_of(a, name) + values_of(b, name));
            assert(values_of(a, name) + values_of(b, name).push(h.value) == (values_of(a, name)
                + values_of(b, name)).push(h.value));
        }
    }
    assert(left == right);
}

/// Headers were copied to a map that held `before` and now holds `after` until the map refused
/// the next one: it has more than [`MAX_HEADER_NAMES`] names.
pub open spec fn stopped_copying(
    before: HeaderValues,
    headers: Seq<HeaderView>,
    after: HeaderValues,
) -> bool {
    &&& after.dom().len() > MAX_HEADER_NAMES
    &&& exists|n: int|
        0 <= n < headers.len() && after == merged(before, grouped(#[trigger] headers.take(n)))
}

/// A copy that stopped leaves no more names than a full one would have made.
pub proof fn lemma_stopped_copying(before: HeaderValues, from: MetadataMap, after: HeaderValues)
    requires
        before.dom().finite(),
        stopped_copying(before, metadata_headers(from), after),
    ensures
        merged(before, contents(from)).dom().len() > MAX_HEADER_NAMES,
{
    let headers = metadata_headers(from);
    let n = choose|n: int|
        0 <= n < headers.len() && after == merged(before, grouped(#[trigger] headers.take(n)));
    let all = merged(before, contents(from)).dom();
    lemma_grouped_prefix(headers, n);
    lemma_grouped_len(headers);
    assert(all == before.dom().union(contents(from).dom()));
    assert(after.dom().subset_of(all));
    vstd::set_lib::lemma_len_subset(after.dom(), all);
}

/// Adds every header of `from` to `to`, keeping those that `to` has. A map that refuses another
/// header ends the copying, and the result is then false.
pub fn copy_request_metadata(from: &MetadataMap, to: &mut MetadataMap) -> (r: bool)
    ensures
        r ==> contents(*final(to)) == merged(contents(*old(to)), contents(*from)),
        !r ==> stopped_copying(contents(*old(to)), metadata_headers(*from), contents(*final(to))),
{
    let ghost headers = metadata_headers(*from);
    let ghost before = contents(*to);
    let n: usize = metadata_len(from);
    let mut i: usize = 0;
    proof {
        assert(headers.take(0) == Seq::<HeaderView>::empty());
        lemma_merged_empty(before);
    }
    while i < n
        invariant
            i <= n,
            n == headers.len(),
            headers == metadata_headers(*from),
            before == contents(*old(to)),
            contents(*to) == merged(before, grouped(headers.take(i as int))),
        decreases n - i,
    {
        proof {
            assert(headers.take(i + 1).drop_last() == headers.take(i as int));
            assert(headers.take(i + 1).last() == headers[i as int]);
            lemma_merged_with_header(
                before,
                grouped(headers.take(i as int)),
                headers[i as int],
            );
        }
        if !try_append_header(to, from, i) {
            return false;
        }
        i = i + 1;
    }
    assert(headers.take(n as int) == headers);
    true
}

} // verus!
