//! What does not matter in the properties of a backend: their order, and those of other names.
use vstd::prelude::*;

use crate::args::{
    arg_of, arg_of_properties, arg_overflows, at_most_one, is_endpoint_alone, is_parse_of,
    is_refusal, properties, properties_overflow, values, ArgErrorView, ArgView, PropertyView,
};
use crate::text::{lemma_position_is, position_from, split_at_each, split_at_first};

verus! {

/// The names of the properties that are looked at.
pub open spec fn is_known_property(name: Seq<char>) -> bool {
    ||| name == "endpoint"@
    ||| name == "remote_header"@
    ||| is_single_property(name)
}

/// The names of the properties that need not be given, and may be given once.
pub open spec fn is_single_property(name: Seq<char>) -> bool {
    ||| name == "name"@
    ||| name == "async"@
    ||| name == "tls_client_certificate"@
    ||| name == "tls_client_key"@
    ||| name == "connect_timeout"@
    ||| name == "request_timeout"@
    ||| name == "request_buffer_size"@
}

/// The values that the pieces `name=value` of this name have, in order.
pub open spec fn values_in(pieces: Seq<Seq<char>>, name: Seq<char>) -> Seq<Seq<char>>
    decreases pieces.len(),
{
    if pieces.len() == 0 {
        Seq::empty()
    } else {
        let before = values_in(pieces.drop_last(), name);
        match split_at_first(pieces.last(), '=') {
            Some((key, value)) if key == name => before.push(value),
            _ => before,
        }
    }
}

/// Each piece writes a property.
pub open spec fn all_properties(pieces: Seq<Seq<char>>) -> bool {
    forall|i: int|
        0 <= i < pieces.len() ==> split_at_first(#[trigger] pieces[i], '=') is Some
}

/// The properties that pieces write have the values that the pieces have.
pub proof fn lemma_properties(pieces: Seq<Seq<char>>, n: int)
    requires
        0 <= n <= pieces.len(),
    ensures
        properties(pieces, n) is Some <==> all_properties(pieces.take(n)),
        properties(pieces, n) matches Some(props) ==> forall|name: Seq<char>| #[trigger]
            values(props, name) == values_in(pieces.take(n), name),
    decreases n,
{
    let part = pieces.take(n);
    if n > 0 {
        lemma_properties(pieces, n - 1);
        let before = pieces.take(n - 1);
        assert(part.drop_last() == before);
        assert(part.last() == pieces[n - 1]);
        if all_properties(part) {
            assert forall|i: int| 0 <= i < before.len() implies split_at_first(
                #[trigger] before[i],
                '=',
            ) is Some by {
                assert(before[i] == part[i]);
            }
            assert(split_at_first(part[n - 1], '=') is Some);
        }
        if properties(pieces, n) is Some {
            assert forall|i: int| 0 <= i < part.len() implies split_at_first(
                #[trigger] part[i],
                '=',
            ) is Some by {
                if i < n - 1 {
                    assert(before[i] == part[i]);
                }
            }
            let props = properties(pieces, n)->0;
            let fewer = properties(pieces, n - 1)->0;
            assert(props.drop_last() == fewer);
            assert forall|name: Seq<char>| #[trigger] values(props, name) == values_in(
                part,
                name,
            ) by {
                assert(values(fewer, name) == values_in(before, name));
            }
        }
    }
}

/// A piece writes the property of a name and a value if it is the name, an equals sign and the
/// value.
pub proof fn lemma_property_text(piece: Seq<char>, name: Seq<char>, value: Seq<char>)
    requires
        !name.contains('='),
    ensures
        split_at_first(piece, '=') == Some((name, value)) <==> piece == name + seq!['='] + value,
{
    let i = position_from(piece, '=', 0);
    lemma_position_bounds(piece, '=', 0);
    if split_at_first(piece, '=') == Some((name, value)) {
        assert(piece =~= piece.subrange(0, i) + seq!['='] + piece.subrange(
            i + 1,
            piece.len() as int,
        ));
    }
    if piece == name + seq!['='] + value {
        assert forall|j: int| 0 <= j < name.len() implies piece[j] != '=' by {
            assert(name[j] == piece[j]);
            assert(name.contains(name[j]));
        }
        lemma_position_is(piece, '=', 0, name.len() as int);
        assert(piece.subrange(0, name.len() as int) =~= name);
        assert(piece.subrange(name.len() as int + 1, piece.len() as int) =~= value);
    }
}

/// Where the first separator is, if there is one.
proof fn lemma_position_bounds(s: Seq<char>, sep: char, from: int)
    requires
        0 <= from <= s.len(),
    ensures
        from <= position_from(s, sep, from) <= s.len(),
        position_from(s, sep, from) < s.len() ==> s[position_from(s, sep, from)] == sep,
    decreases s.len() - from,
{
    if from < s.len() && s[from] != sep {
        lemma_position_bounds(s, sep, from + 1);
    }
}

/// A value occurs among those of a name as often as its property among the pieces.
proof fn lemma_values_count(pieces: Seq<Seq<char>>, name: Seq<char>, value: Seq<char>)
    requires
        !name.contains('='),
    ensures
        values_in(pieces, name).to_multiset().count(value) == pieces.to_multiset().count(
            name + seq!['='] + value,
        ),
    decreases pieces.len(),
{
    broadcast use vstd::seq_lib::group_to_multiset_ensures;

    if pieces.len() > 0 {
        let before = pieces.drop_last();
        let piece = pieces.last();
        lemma_values_count(before, name, value);
        lemma_property_text(piece, name, value);
        assert(pieces =~= before.push(piece));
        assert(pieces.to_multiset() == before.to_multiset().insert(piece));
        match split_at_first(piece, '=') {
            Some((key, v)) if key == name => {
                assert(values_in(pieces, name) == values_in(before, name).push(v));
                assert(values_in(pieces, name).to_multiset() == values_in(
                    before,
                    name,
                ).to_multiset().insert(v));
            },
            _ => {},
        }
    }
}

/// The same pieces in another order have the same values in another order.
proof fn lemma_values_permuted(a: Seq<Seq<char>>, b: Seq<Seq<char>>, name: Seq<char>)
    requires
        a.to_multiset() == b.to_multiset(),
        !name.contains('='),
    ensures
        values_in(a, name).to_multiset() == values_in(b, name).to_multiset(),
{
    assert forall|value: Seq<char>|
        values_in(a, name).to_multiset().count(value) == values_in(b, name).to_multiset().count(
            value,
        ) by {
        lemma_values_count(a, name, value);
        lemma_values_count(b, name, value);
    }
    assert(values_in(a, name).to_multiset() =~= values_in(b, name).to_multiset());
}

/// The order of values does not matter to a property that may be given once.
proof fn lemma_at_most_one(a: Seq<Seq<char>>, b: Seq<Seq<char>>)
    requires
        a.to_multiset() == b.to_multiset(),
    ensures
        forall|multiple: ArgErrorView| #[trigger]
            at_most_one(a, multiple) == at_most_one(b, multiple),
{
    broadcast use vstd::seq_lib::group_to_multiset_ensures;

    assert(a.len() == a.to_multiset().len());
    assert(b.len() == b.to_multiset().len());
    if a.len() == 1 {
        assert(a.contains(a[0]));
        assert(a.to_multiset().count(a[0]) > 0);
        assert(b.contains(a[0]));
    }
}

/// Properties describe the same backend if they have the same headers in the same order, and of
/// each other name the same values.
proof fn lemma_same_arg(p: Seq<PropertyView>, q: Seq<PropertyView>)
    requires
        forall|name: Seq<char>|
            name == "endpoint"@ || is_single_property(name) ==> #[trigger] values(
                p,
                name,
            ).to_multiset() == values(q, name).to_multiset(),
        values(p, "remote_header"@) == values(q, "remote_header"@),
    ensures
        arg_of_properties(p) == arg_of_properties(q),
        properties_overflow(p) == properties_overflow(q),
{
    lemma_at_most_one(values(p, "endpoint"@), values(q, "endpoint"@));
    lemma_at_most_one(values(p, "name"@), values(q, "name"@));
    lemma_at_most_one(values(p, "async"@), values(q, "async"@));
    lemma_at_most_one(
        values(p, "tls_client_certificate"@),
        values(q, "tls_client_certificate"@),
    );
    lemma_at_most_one(values(p, "tls_client_key"@), values(q, "tls_client_key"@));
    lemma_at_most_one(values(p, "connect_timeout"@), values(q, "connect_timeout"@));
    lemma_at_most_one(values(p, "request_timeout"@), values(q, "request_timeout"@));
    lemma_at_most_one(values(p, "request_buffer_size"@), values(q, "request_buffer_size"@));
}

/// No property that is looked at has an equals sign in its name.
pub proof fn lemma_known_names(name: Seq<char>)
    requires
        is_known_property(name),
    ensures
        !name.contains('='),
{
    reveal_strlit("endpoint");
    reveal_strlit("remote_header");
    reveal_strlit("name");
    reveal_strlit("async");
    reveal_strlit("tls_client_certificate");
    reveal_strlit("tls_client_key");
    reveal_strlit("connect_timeout");
    reveal_strlit("request_timeout");
    reveal_strlit("request_buffer_size");
}

/// The same pieces stand in both texts, the headers among them in the same order.
pub open spec fn is_reordered(s: Seq<char>, t: Seq<char>) -> bool {
    &&& split_at_each(s, ',').to_multiset() == split_at_each(t, ',').to_multiset()
    &&& values_in(split_at_each(s, ','), "remote_header"@) == values_in(
        split_at_each(t, ','),
        "remote_header"@,
    )
}

/// The order of properties does not matter, but for that of the headers: a text with the same
/// pieces, the headers among them in the same order, is parsed to the same backend, or is wrong in
/// the same way. Only where a map may refuse the headers may it refuse those of one text alone.
pub proof fn law_order_of_properties_does_not_matter(
    s: Seq<char>,
    t: Seq<char>,
    a: Result<ArgView, ArgErrorView>,
    b: Result<ArgView, ArgErrorView>,
)
    requires
        is_reordered(s, t),
        is_parse_of(s, a),
        is_parse_of(t, b),
    ensures
        arg_of(t) == arg_of(s),
        arg_overflows(t) == arg_overflows(s),
        a == b || arg_overflows(s) && (is_refusal(a) || is_refusal(b)),
{
    broadcast use vstd::seq_lib::group_to_multiset_ensures;

    let before = split_at_each(s, ',');
    let after = split_at_each(t, ',');
    assert(before.len() == before.to_multiset().len());
    assert(after.len() == after.to_multiset().len());
    lemma_pieces_of_one(s);
    lemma_pieces_of_one(t);
    if before.len() == 1 {
        assert(before.contains(before[0]));
        assert(before.to_multiset().count(before[0]) > 0);
        assert(after.contains(before[0]));
        assert(s == t);
    } else {
        lemma_properties(before, before.len() as int);
        lemma_properties(after, after.len() as int);
        assert(before.take(before.len() as int) == before);
        assert(after.take(after.len() as int) == after);
        if all_properties(after) {
            lemma_all_properties_permuted(after, before);
        }
        if all_properties(before) {
            lemma_all_properties_permuted(before, after);
            let p = properties(before, before.len() as int)->0;
            let q = properties(after, after.len() as int)->0;
            assert forall|name: Seq<char>|
                name == "endpoint"@ || is_single_property(name) implies #[trigger] values(
                p,
                name,
            ).to_multiset() == values(q, name).to_multiset() by {
                lemma_known_names(name);
                lemma_values_permuted(before, after, name);
                assert(values(p, name) == values_in(before, name));
                assert(values(q, name) == values_in(after, name));
            }
            assert(values(p, "remote_header"@) == values_in(before, "remote_header"@));
            assert(values(q, "remote_header"@) == values_in(after, "remote_header"@));
            lemma_same_arg(p, q);
        }
    }
}

/// A text that is a single piece is that piece.
pub proof fn lemma_pieces_of_one(s: Seq<char>)
    ensures
        split_at_each(s, ',').len() >= 1,
        split_at_each(s, ',').len() == 1 ==> split_at_each(s, ',')[0] == s,
    decreases s.len(),
{
    let i = position_from(s, ',', 0);
    lemma_position_bounds(s, ',', 0);
    if i < s.len() {
        lemma_pieces_of_one(s.subrange(i + 1, s.len() as int));
    }
}

/// Whether each piece writes a property is not a matter of their order.
proof fn lemma_all_properties_permuted(a: Seq<Seq<char>>, b: Seq<Seq<char>>)
    requires
        a.to_multiset() == b.to_multiset(),
        all_properties(a),
    ensures
        all_properties(b),
{
    broadcast use vstd::seq_lib::group_to_multiset_ensures;

    assert forall|i: int| 0 <= i < b.len() implies split_at_first(#[trigger] b[i], '=') is Some by {
        assert(b.contains(b[i]));
        assert(b.to_multiset().count(b[i]) > 0);
        assert(a.contains(b[i]));
        let j = choose|j: int| 0 <= j < a.len() && a[j] == b[i];
        assert(split_at_first(a[j], '=') is Some);
    }
}

/// One more piece of another name leaves the values of a name as they are.
pub proof fn lemma_values_inserted(
    pieces: Seq<Seq<char>>,
    i: int,
    piece: Seq<char>,
    name: Seq<char>,
)
    requires
        0 <= i <= pieces.len(),
        split_at_first(piece, '=') matches Some((key, _)) ==> key != name,
    ensures
        values_in(pieces.insert(i, piece), name) == values_in(pieces, name),
    decreases pieces.len(),
{
    let more = pieces.insert(i, piece);
    if i == pieces.len() {
        assert(more.drop_last() =~= pieces);
        assert(more.last() == piece);
    } else {
        lemma_values_inserted(pieces.drop_last(), i, piece, name);
        assert(more.drop_last() =~= pieces.drop_last().insert(i, piece));
        assert(more.last() == pieces.last());
    }
}

/// Properties of other names do not matter: where one of them is put among the properties of a
/// text, the text is parsed to the same backend, or is wrong in the same way. Only where a map may
/// refuse the headers may it refuse those of one text alone.
pub proof fn law_other_properties_do_not_matter(
    s: Seq<char>,
    t: Seq<char>,
    i: int,
    name: Seq<char>,
    value: Seq<char>,
    a: Result<ArgView, ArgErrorView>,
    b: Result<ArgView, ArgErrorView>,
)
    requires
        is_parse_of(s, a),
        is_parse_of(t, b),
        !is_endpoint_alone(s),
        0 <= i <= split_at_each(s, ',').len(),
        !name.contains('='),
        !is_known_property(name),
        split_at_each(t, ',') == split_at_each(s, ',').insert(i, name + seq!['='] + value),
    ensures
        arg_of(t) == arg_of(s),
        arg_overflows(t) == arg_overflows(s),
        a == b || arg_overflows(s) && (is_refusal(a) || is_refusal(b)),
{
    let before = split_at_each(s, ',');
    let after = split_at_each(t, ',');
    let piece = name + seq!['='] + value;
    lemma_property_text(piece, name, value);
    lemma_pieces_of_one(s);
    assert(after.len() >= 2);
    lemma_properties(before, before.len() as int);
    lemma_properties(after, after.len() as int);
    assert(before.take(before.len() as int) == before);
    assert(after.take(after.len() as int) == after);
    if all_properties(after) {
        assert forall|j: int| 0 <= j < before.len() implies split_at_first(
            #[trigger] before[j],
            '=',
        ) is Some by {
            if j < i {
                assert(after[j] == before[j]);
            } else {
                assert(after[j + 1] == before[j]);
            }
        }
    }
    if all_properties(before) {
        assert forall|j: int| 0 <= j < after.len() implies split_at_first(
            #[trigger] after[j],
            '=',
        ) is Some by {
            if j < i {
                assert(after[j] == before[j]);
            } else if j > i {
                assert(after[j] == before[j - 1]);
            }
        }
        let p = properties(before, before.len() as int)->0;
        let q = properties(after, after.len() as int)->0;
        assert forall|known: Seq<char>| is_known_property(known) implies #[trigger] values(
            p,
            known,
        ) == values(q, known) by {
            lemma_values_inserted(before, i, piece, known);
            assert(values(p, known) == values_in(before, known));
            assert(values(q, known) == values_in(after, known));
        }
        lemma_same_arg(p, q);
    }
}

} // verus!
