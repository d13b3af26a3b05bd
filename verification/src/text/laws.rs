//! What the operations on strings are for, said of the calls themselves.
use vstd::prelude::*;

use crate::text::{
    all_digits, chars_of, clone_text, contains, contains_text, decimal, decimal_i64, decimal_int,
    decimal_u64, digit_value, digits_value, is_digit, is_white_space, lemma_decimal, occurs_at,
    parse_digits, parse_unsigned, position_from, same_text, split, split_at_each, split_once,
    starts_with, string_of, text_view, texts, to_ascii_lowercase, trim_end, trimmed_end,
    unsigned_value,
};

verus! {

/// Pieces with a separator between each two of them.
pub open spec fn joined(pieces: Seq<Seq<char>>, sep: char) -> Seq<char>
    decreases pieces.len(),
{
    if pieces.len() == 0 {
        Seq::empty()
    } else if pieces.len() == 1 {
        pieces[0]
    } else {
        pieces[0] + seq![sep] + joined(pieces.skip(1), sep)
    }
}

/// Splitting at each separator gives pieces that hold no separator and make up the text again.
pub proof fn law_split_rejoins(s: &str, sep: char, r: Vec<String>)
    requires
        call_ensures(split, (s, sep), r),
    ensures
        r@.len() > 0,
        joined(texts(r@), sep) == s@,
        forall|i: int| 0 <= i < r@.len() ==> !(#[trigger] r@[i])@.contains(sep),
{
    lemma_split_rejoins(s@, sep);
    assert forall|i: int| 0 <= i < r@.len() implies !(#[trigger] r@[i])@.contains(sep) by {
        assert(texts(r@)[i] == r@[i]@);
    }
    assert(texts(r@).len() == r@.len());
}

/// The pieces of a text hold no separator and make up the text again.
pub proof fn lemma_split_rejoins(s: Seq<char>, sep: char)
    ensures
        split_at_each(s, sep).len() > 0,
        joined(split_at_each(s, sep), sep) == s,
        forall|i: int|
            0 <= i < split_at_each(s, sep).len() ==> !(#[trigger] split_at_each(
                s,
                sep,
            )[i]).contains(sep),
    decreases s.len(),
{
    let i = position_from(s, sep, 0);
    lemma_first_position(s, sep, 0);
    let pieces = split_at_each(s, sep);
    if i < s.len() {
        let rest = s.subrange(i + 1, s.len() as int);
        lemma_split_rejoins(rest, sep);
        assert(pieces.skip(1) =~= split_at_each(rest, sep));
        assert(pieces[0] == s.subrange(0, i));
        assert(s =~= s.subrange(0, i) + seq![sep] + rest);
        assert forall|k: int| 0 <= k < pieces.len() implies !(#[trigger] pieces[k]).contains(
            sep,
        ) by {
            if k > 0 {
                assert(pieces[k] == split_at_each(rest, sep)[k - 1]);
            }
        }
    } else {
        assert(pieces =~= seq![s]);
    }
}

proof fn lemma_first_position(s: Seq<char>, sep: char, from: int)
    requires
        0 <= from <= s.len(),
    ensures
        from <= position_from(s, sep, from) <= s.len(),
        position_from(s, sep, from) < s.len() ==> s[position_from(s, sep, from)] == sep,
        forall|j: int| from <= j < position_from(s, sep, from) ==> s[j] != sep,
    decreases s.len() - from,
{
    if from < s.len() && s[from] != sep {
        lemma_first_position(s, sep, from + 1);
    }
}

/// Splitting once succeeds exactly if there is a separator, and parts the text at the first one.
pub proof fn law_split_once(s: &str, sep: char, r: Option<(String, String)>)
    requires
        call_ensures(split_once, (s, sep), r),
    ensures
        r is Some <==> s@.contains(sep),
        r matches Some((before, after)) ==> {
            &&& before@ + seq![sep] + after@ == s@
            &&& !before@.contains(sep)
        },
{
    lemma_first_position(s@, sep, 0);
    let i = position_from(s@, sep, 0);
    if i < s@.len() {
        assert(s@ =~= s@.subrange(0, i) + seq![sep] + s@.subrange(i + 1, s@.len() as int));
        assert(s@.contains(s@[i]));
    }
}

/// A text is made of three others, one behind the other.
pub open spec fn is_made_of(
    s: Seq<char>,
    before: Seq<char>,
    pattern: Seq<char>,
    after: Seq<char>,
) -> bool {
    s == before + pattern + after
}

/// A text contains another exactly if it is something, the other and something again.
pub proof fn law_contains(s: &str, pattern: &str, r: bool)
    requires
        call_ensures(contains, (s, pattern), r),
    ensures
        r <==> exists|before: Seq<char>, after: Seq<char>|
            is_made_of(s@, before, pattern@, after),
{
    if r {
        let i = choose|i: int| occurs_at(s@, pattern@, i);
        let before = s@.subrange(0, i);
        let after = s@.subrange(i + pattern@.len(), s@.len() as int);
        assert(s@ =~= before + pattern@ + after);
        assert(is_made_of(s@, before, pattern@, after));
    }
    if exists|before: Seq<char>, after: Seq<char>| is_made_of(s@, before, pattern@, after) {
        let (before, after) = choose|before: Seq<char>, after: Seq<char>|
            is_made_of(s@, before, pattern@, after);
        let i = before.len() as int;
        assert(s@.subrange(i, i + pattern@.len()) =~= pattern@);
        assert(occurs_at(s@, pattern@, i));
    }
}

/// A text begins with another exactly if it is the other and something behind it, and texts are
/// the same exactly if their characters are.
pub proof fn law_begins_and_equals(s: &str, pattern: &str, begins: bool, same: bool)
    requires
        call_ensures(starts_with, (s, pattern), begins),
        call_ensures(same_text, (s, pattern), same),
    ensures
        begins <==> exists|after: Seq<char>| s@ == #[trigger] (pattern@ + after),
        same <==> s@ == pattern@,
{
    if begins {
        let after = s@.subrange(pattern@.len() as int, s@.len() as int);
        assert(s@ =~= pattern@ + after);
    }
    if exists|after: Seq<char>| s@ == #[trigger] (pattern@ + after) {
        let after = choose|after: Seq<char>| s@ == #[trigger] (pattern@ + after);
        assert(pattern@ =~= s@.subrange(0, pattern@.len() as int));
    }
}

/// A string is made of its characters, a part of it of those in the part, and a copy of the same.
pub proof fn law_characters(
    s: &str,
    chars: Vec<char>,
    from: usize,
    to: usize,
    part: String,
    text: Option<String>,
    copy: Option<String>,
)
    requires
        from <= to <= chars@.len(),
        call_ensures(chars_of, (s,), chars),
        call_ensures(string_of, (&chars, from, to), part),
        call_ensures(clone_text, (&text,), copy),
    ensures
        chars@ == s@,
        part@ == s@.subrange(from as int, to as int),
        copy is Some <==> text is Some,
        text matches Some(text) ==> copy->0@ == text@,
{
}

/// Trimming takes white space off the end, all of it, and nothing else.
pub proof fn law_trim_end(s: &str, r: String)
    requires
        call_ensures(trim_end, (s,), r),
    ensures
        r@.is_prefix_of(s@),
        forall|i: int| r@.len() <= i < s@.len() ==> is_white_space(#[trigger] s@[i]),
        r@.len() > 0 ==> !is_white_space(r@.last()),
{
    lemma_trimmed_end(s@);
}

proof fn lemma_trimmed_end(s: Seq<char>)
    ensures
        trimmed_end(s).is_prefix_of(s),
        forall|i: int| trimmed_end(s).len() <= i < s.len() ==> is_white_space(#[trigger] s[i]),
        trimmed_end(s).len() > 0 ==> !is_white_space(trimmed_end(s).last()),
    decreases s.len(),
{
    if s.len() > 0 && is_white_space(s.last()) {
        let less = s.drop_last();
        lemma_trimmed_end(less);
        assert forall|i: int| trimmed_end(s).len() <= i < s.len() implies is_white_space(
            #[trigger] s[i],
        ) by {
            if i < less.len() {
                assert(less[i] == s[i]);
            }
        }
    }
}

/// White space is, of the ASCII characters, the space and those from tab to carriage return; of
/// the others, those that Unicode lists.
pub proof fn law_white_space(c: char)
    ensures
        (c as u32) < 0x80 ==> (is_white_space(c) <==> c == ' ' || c == '\t' || c == '\n' || c
            == '\r' || c as u32 == 0x0b || c as u32 == 0x0c),
        0x80 <= c as u32 ==> (is_white_space(c) <==> c == '\u{85}' || c == '\u{a0}' || c
            == '\u{1680}' || '\u{2000}' <= c <= '\u{200a}' || c == '\u{2028}' || c == '\u{2029}'
            || c == '\u{202f}' || c == '\u{205f}' || c == '\u{3000}'),
{
}

/// Lower case turns each of the letters from A to Z into the one that stands 32 places behind it,
/// and leaves every other character as it is.
pub proof fn law_lower_case(s: &str, r: String)
    requires
        call_ensures(to_ascii_lowercase, (s,), r),
    ensures
        r@.len() == s@.len(),
        forall|i: int|
            0 <= i < s@.len() ==> if 'A' <= #[trigger] s@[i] <= 'Z' {
                r@[i] as u32 == s@[i] as u32 + 32
            } else {
                r@[i] == s@[i]
            },
{
}

/// A numeral is read in base ten, its last digit counting once: the digits from 0 to 9 count what
/// they show.
pub proof fn law_base_ten(s: Seq<char>, c: char)
    requires
        '0' <= c <= '9',
    ensures
        digits_value(Seq::empty()) == 0,
        digits_value(s.push(c)) == 10 * digits_value(s) + (c as u32 - '0' as u32),
        is_digit(c),
        digit_value(c) == c as u32 - '0' as u32,
{
    assert(s.push(c).drop_last() =~= s);
}

/// Nothing but the characters from 0 to 9 is a digit.
pub proof fn law_digits(c: char, s: Seq<char>)
    ensures
        is_digit(c) <==> '0' <= c <= '9',
        all_digits(s) <==> forall|i: int| 0 <= i < s.len() ==> '0' <= #[trigger] s[i] <= '9',
{
    if forall|i: int| 0 <= i < s.len() ==> '0' <= #[trigger] s[i] <= '9' {
        assert forall|i: int| 0 <= i < s.len() implies is_digit(#[trigger] s[i]) by {
        }
    }
    if all_digits(s) {
        assert forall|i: int| 0 <= i < s.len() implies '0' <= #[trigger] s[i] <= '9' by {
            assert(is_digit(s[i]));
        }
    }
}

/// The numeral of a number is made of digits, has no leading zero, and is read as that number; that
/// of a negative one is a minus sign and the numeral of what it lacks to zero.
pub proof fn law_numerals(n: u64, r: String, i: i64, t: String)
    requires
        call_ensures(decimal_u64, (n,), r),
        call_ensures(decimal_i64, (i,), t),
    ensures
        r@.len() > 0,
        all_digits(r@),
        digits_value(r@) == n,
        r@.len() > 1 ==> r@[0] != '0',
        i >= 0 ==> all_digits(t@) && digits_value(t@) == i,
        i < 0 ==> t@[0] == '-' && all_digits(t@.skip(1)) && digits_value(t@.skip(1)) == -i
            && t@.len() > 1,
{
    lemma_decimal(n as nat);
    if i >= 0 {
        lemma_decimal(i as nat);
    } else {
        lemma_decimal((-i) as nat);
        assert(t@.skip(1) =~= decimal((-i) as nat));
    }
    assert(t@ == decimal_int(i as int));
}

/// A text is read as a number exactly if it is digits, at least one, behind an optional plus sign,
/// and the number is at most the bound.
pub proof fn law_unsigned_numbers(s: &str, max: u64, r: Option<u64>)
    requires
        call_ensures(parse_unsigned, (s, max), r),
    ensures
        ({
            let digits = if s@.len() > 0 && s@[0] == '+' {
                s@.skip(1)
            } else {
                s@
            };
            &&& r is Some <==> digits.len() > 0 && all_digits(digits) && digits_value(digits)
                <= max
            &&& r matches Some(n) ==> n == digits_value(digits) && n <= max
        }),
{
}

/// Characters from a position on are read as a number exactly if they are digits, at least one, and
/// the number is at most the bound.
pub proof fn law_digits_are_read(chars: &Vec<char>, start: usize, max: u64, r: Option<u64>)
    requires
        start <= chars@.len(),
        call_ensures(parse_digits, (chars, start, max), r),
    ensures
        ({
            let digits = chars@.skip(start as int);
            &&& r is Some <==> digits.len() > 0 && all_digits(digits) && digits_value(digits)
                <= max
            &&& r matches Some(n) ==> n == digits_value(digits)
        }),
{
}

/// What is written as a numeral is read as the same number, with or without a plus sign.
pub proof fn law_number_is_read_back(n: nat, max: nat)
    ensures
        unsigned_value(decimal(n), max) == if n <= max {
            Some(n)
        } else {
            None
        },
        unsigned_value(seq!['+'] + decimal(n), max) == unsigned_value(decimal(n), max),
{
    lemma_decimal(n);
    assert(is_digit(decimal(n)[0]));
    assert((seq!['+'] + decimal(n)).skip(1) =~= decimal(n));
}

/// Several texts, or one that may be missing, are seen as they are.
pub proof fn law_texts(v: Seq<String>, s: Option<String>)
    ensures
        texts(v).len() == v.len(),
        forall|i: int| 0 <= i < v.len() ==> #[trigger] texts(v)[i] == v[i]@,
        text_view(s) is Some <==> s is Some,
        s matches Some(s) ==> text_view(Some(s)) == Some(s@),
{
}

/// A text contains the pattern that it was put around.
pub proof fn law_contains_what_was_put_in(before: Seq<char>, pattern: Seq<char>, after: Seq<char>)
    ensures
        contains_text(before + pattern + after, pattern),
{
    let s = before + pattern + after;
    let i = before.len() as int;
    assert(s.subrange(i, i + pattern.len()) =~= pattern);
    assert(occurs_at(s, pattern, i));
}

} // verus!
