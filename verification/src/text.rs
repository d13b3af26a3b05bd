//! Strings as sequences of characters: searching, splitting and decimal numerals.
use vstd::prelude::*;

pub mod laws;

verus! {

/// `String::push` appends one character.
pub assume_specification[ String::push ](s: &mut String, c: char)
    ensures
        final(s)@ == old(s)@.push(c),
;

// ---------------------------------------------------------------------------
// Searching and splitting
// ---------------------------------------------------------------------------

/// `pattern` occurs in `s` starting at character `i`.
pub open spec fn occurs_at(s: Seq<char>, pattern: Seq<char>, i: int) -> bool {
    &&& 0 <= i
    &&& i + pattern.len() <= s.len()
    &&& s.subrange(i, i + pattern.len()) == pattern
}

/// `pattern` occurs somewhere in `s`.
pub open spec fn contains_text(s: Seq<char>, pattern: Seq<char>) -> bool {
    exists|i: int| occurs_at(s, pattern, i)
}

/// The position of the first `sep` at or after position `from`, or `s.len()`.
pub open spec fn position_from(s: Seq<char>, sep: char, from: int) -> int
    decreases s.len() - from,
{
    if from < 0 || from >= s.len() {
        s.len() as int
    } else if s[from] == sep {
        from
    } else {
        position_from(s, sep, from + 1)
    }
}

/// The pieces of `s` between its separators, in order. There is always at least one.
pub open spec fn split_at_each(s: Seq<char>, sep: char) -> Seq<Seq<char>>
    decreases s.len(),
{
    let i = position_from(s, sep, 0);
    if 0 <= i < s.len() {
        seq![s.subrange(0, i)] + split_at_each(s.subrange(i + 1, s.len() as int), sep)
    } else {
        seq![s]
    }
}

/// The two sides of the first separator of `s`, if it has one.
pub open spec fn split_at_first(s: Seq<char>, sep: char) -> Option<(Seq<char>, Seq<char>)> {
    let i = position_from(s, sep, 0);
    if i < s.len() {
        Some((s.subrange(0, i), s.subrange(i + 1, s.len() as int)))
    } else {
        None
    }
}

/// A position with a separator and none before it is the first one.
pub proof fn lemma_position_is(s: Seq<char>, sep: char, from: int, i: int)
    requires
        0 <= from <= i <= s.len(),
        forall|j: int| from <= j < i ==> s[j] != sep,
        i < s.len() ==> s[i] == sep,
    ensures
        position_from(s, sep, from) == i,
    decreases i - from,
{
    if from < i {
        lemma_position_is(s, sep, from + 1, i);
    }
}

/// The views of a vector of strings.
pub open spec fn texts(v: Seq<String>) -> Seq<Seq<char>> {
    v.map_values(|s: String| s@)
}

/// A string, if there is one, by its view.
pub open spec fn text_view(s: Option<String>) -> Option<Seq<char>> {
    match s {
        Some(s) => Some(s@),
        None => None,
    }
}

/// Copies a string, if there is one.
pub fn clone_text(s: &Option<String>) -> (r: Option<String>)
    ensures
        text_view(r) == text_view(*s),
{
    match s {
        Some(s) => Some(s.clone()),
        None => None,
    }
}

/// The characters of a string.
pub fn chars_of(s: &str) -> (r: Vec<char>)
    ensures
        r@ == s@,
{
    let mut r: Vec<char> = Vec::new();
    for c in it: s.chars()
        invariant
            r@ == it.seq().take(it.index() as int),
            it.seq() == s@,
    {
        r.push(c);
        assert(it.seq().take(it.index() + 1) == it.seq().take(it.index() as int).push(c));
    }
    assert(s@.take(s@.len() as int) == s@);
    r
}

/// The string made of the characters `from..to`.
pub fn string_of(chars: &Vec<char>, from: usize, to: usize) -> (r: String)
    requires
        from <= to <= chars@.len(),
    ensures
        r@ == chars@.subrange(from as int, to as int),
{
    let mut r = String::new();
    let mut i: usize = from;
    while i < to
        invariant
            from <= i <= to <= chars@.len(),
            r@ == chars@.subrange(from as int, i as int),
        decreases to - i,
    {
        r.push(chars[i]);
        i = i + 1;
        assert(chars@.subrange(from as int, i as int) == chars@.subrange(
            from as int,
            i - 1,
        ).push(chars@[i - 1]));
    }
    r
}

/// Whether two strings are equal.
pub fn same_text(a: &str, b: &str) -> (r: bool)
    ensures
        r == (a@ == b@),
{
    let a = a.to_owned();
    let b = b.to_owned();
    a == b
}

/// Whether `pattern` occurs in `chars` at `i`.
fn matches_at(chars: &Vec<char>, pattern: &Vec<char>, i: usize) -> (r: bool)
    requires
        i + pattern@.len() <= chars@.len(),
    ensures
        r == occurs_at(chars@, pattern@, i as int),
{
    let n: usize = chars.len();
    let mut j: usize = 0;
    while j < pattern.len()
        invariant
            n == chars@.len(),
            i + pattern@.len() <= n,
            j <= pattern@.len(),
            forall|k: int| 0 <= k < j ==> chars@[i + k] == pattern@[k],
        decreases pattern@.len() - j,
    {
        if chars[i + j] != pattern[j] {
            assert(chars@.subrange(i as int, i + pattern@.len())[j as int] != pattern@[j as int]);
            return false;
        }
        j = j + 1;
    }
    assert(chars@.subrange(i as int, i + pattern@.len()) == pattern@);
    true
}

/// Whether `s` begins with `pattern`.
pub fn starts_with(s: &str, pattern: &str) -> (r: bool)
    ensures
        r == pattern@.is_prefix_of(s@),
{
    let chars = chars_of(s);
    let pattern_chars = chars_of(pattern);
    if pattern_chars.len() > chars.len() {
        return false;
    }
    let r = matches_at(&chars, &pattern_chars, 0);
    proof {
        assert(occurs_at(s@, pattern@, 0) == pattern@.is_prefix_of(s@));
    }
    r
}

/// Whether `pattern` occurs in `s`.
pub fn contains(s: &str, pattern: &str) -> (r: bool)
    ensures
        r == contains_text(s@, pattern@),
{
    let chars = chars_of(s);
    let pattern_chars = chars_of(pattern);
    if pattern_chars.len() > chars.len() {
        return false;
    }
    let last: usize = chars.len() - pattern_chars.len();
    let mut i: usize = 0;
    while i <= last
        invariant
            chars@ == s@,
            pattern_chars@ == pattern@,
            last + pattern@.len() == s@.len(),
            i <= last + 1,
            forall|k: int| 0 <= k < i ==> !occurs_at(s@, pattern@, k),
        decreases last + 1 - i,
    {
        if matches_at(&chars, &pattern_chars, i) {
            return true;
        }
        if i == last {
            assert(forall|k: int| occurs_at(s@, pattern@, k) ==> 0 <= k <= last);
            return false;
        }
        i = i + 1;
    }
    false
}

/// Splits `s` at each separator.
pub fn split(s: &str, sep: char) -> (r: Vec<String>)
    ensures
        texts(r@) == split_at_each(s@, sep),
{
    let chars = chars_of(s);
    let mut r: Vec<String> = Vec::new();
    let mut start: usize = 0;
    let mut i: usize = 0;
    assert(s@.subrange(0, s@.len() as int) == s@);
    assert(texts(r@) + split_at_each(s@, sep) == split_at_each(s@, sep));
    while i < chars.len()
        invariant
            chars@ == s@,
            start <= i <= s@.len(),
            forall|j: int| start <= j < i ==> s@[j] != sep,
            texts(r@) + split_at_each(s@.subrange(start as int, s@.len() as int), sep)
                == split_at_each(s@, sep),
        decreases s@.len() - i,
    {
        if chars[i] == sep {
            let piece = string_of(&chars, start, i);
            let ghost rest = s@.subrange(start as int, s@.len() as int);
            let ghost before = r@;
            proof {
                lemma_position_is(rest, sep, 0, i - start);
                assert(rest.subrange(0, i - start) == s@.subrange(start as int, i as int));
                assert(rest.subrange(i - start + 1, rest.len() as int) == s@.subrange(
                    i + 1,
                    s@.len() as int,
                ));
            }
            r.push(piece);
            proof {
                assert(texts(r@) == texts(before).push(piece@));
                assert(texts(before) + (seq![piece@] + split_at_each(
                    s@.subrange(i + 1, s@.len() as int),
                    sep,
                )) == texts(before).push(piece@) + split_at_each(
                    s@.subrange(i + 1, s@.len() as int),
                    sep,
                ));
            }
            start = i + 1;
        }
        i = i + 1;
    }
    let piece = string_of(&chars, start, chars.len());
    let ghost before = r@;
    proof {
        let rest = s@.subrange(start as int, s@.len() as int);
        lemma_position_is(rest, sep, 0, rest.len() as int);
        assert(split_at_each(rest, sep) == seq![rest]);
    }
    r.push(piece);
    proof {
        assert(texts(r@) == texts(before).push(piece@));
        assert(texts(before).push(piece@) == texts(before) + seq![piece@]);
    }
    r
}

/// Splits `s` at its first separator.
pub fn split_once(s: &str, sep: char) -> (r: Option<(String, String)>)
    ensures
        r is Some <==> split_at_first(s@, sep) is Some,
        r matches Some(p) ==> (p.0@, p.1@) == split_at_first(s@, sep)->0,
{
    let chars = chars_of(s);
    let mut i: usize = 0;
    while i < chars.len()
        invariant
            chars@ == s@,
            i <= s@.len(),
            forall|j: int| 0 <= j < i ==> s@[j] != sep,
        decreases s@.len() - i,
    {
        if chars[i] == sep {
            proof {
                lemma_position_is(s@, sep, 0, i as int);
            }
            return Some((string_of(&chars, 0, i), string_of(&chars, i + 1, chars.len())));
        }
        i = i + 1;
    }
    proof {
        lemma_position_is(s@, sep, 0, s@.len() as int);
    }
    None
}

// ---------------------------------------------------------------------------
// Character classes
// ---------------------------------------------------------------------------

/// Unicode's `White_Space` property.
pub open spec fn is_white_space(c: char) -> bool {
    let u = c as u32;
    ||| 0x09 <= u <= 0x0d
    ||| u == 0x20
    ||| u == 0x85
    ||| u == 0xa0
    ||| u == 0x1680
    ||| 0x2000 <= u <= 0x200a
    ||| u == 0x2028
    ||| u == 0x2029
    ||| u == 0x202f
    ||| u == 0x205f
    ||| u == 0x3000
}

/// `s` without its trailing white space.
pub open spec fn trimmed_end(s: Seq<char>) -> Seq<char>
    decreases s.len(),
{
    if s.len() > 0 && is_white_space(s.last()) {
        trimmed_end(s.drop_last())
    } else {
        s
    }
}

fn white_space(c: char) -> (r: bool)
    ensures
        r == is_white_space(c),
{
    let u: u32 = c as u32;
    0x09 <= u && u <= 0x0d || u == 0x20 || u == 0x85 || u == 0xa0 || u == 0x1680 || 0x2000 <= u
        && u <= 0x200a || u == 0x2028 || u == 0x2029 || u == 0x202f || u == 0x205f || u == 0x3000
}

/// Removes the trailing white space of `s`.
pub fn trim_end(s: &str) -> (r: String)
    ensures
        r@ == trimmed_end(s@),
{
    let chars = chars_of(s);
    let mut n: usize = chars.len();
    assert(s@.take(s@.len() as int) == s@);
    while n > 0 && white_space(chars[n - 1])
        invariant
            chars@ == s@,
            n <= s@.len(),
            trimmed_end(s@.take(n as int)) == trimmed_end(s@),
        decreases n,
    {
        assert(s@.take(n as int).drop_last() == s@.take(n - 1));
        n = n - 1;
    }
    assert(s@.subrange(0, n as int) == s@.take(n as int));
    string_of(&chars, 0, n)
}

pub open spec fn is_ascii_letter(c: char) -> bool {
    'a' <= c <= 'z' || 'A' <= c <= 'Z'
}

pub open spec fn is_ascii_lowercase(c: char) -> bool {
    'a' <= c <= 'z'
}

/// The ASCII lower case of `c`.
pub open spec fn ascii_lower(c: char) -> char {
    if 'A' <= c <= 'Z' {
        (c as u32 + 32) as char
    } else {
        c
    }
}

/// Each character of `s` in ASCII lower case.
pub open spec fn ascii_lowered(s: Seq<char>) -> Seq<char> {
    s.map_values(|c: char| ascii_lower(c))
}

/// Puts `s` in ASCII lower case.
pub fn to_ascii_lowercase(s: &str) -> (r: String)
    ensures
        r@ == ascii_lowered(s@),
{
    let chars = chars_of(s);
    let mut r = String::new();
    let mut i: usize = 0;
    while i < chars.len()
        invariant
            chars@ == s@,
            i <= s@.len(),
            r@ == ascii_lowered(s@).take(i as int),
        decreases s@.len() - i,
    {
        let c = chars[i];
        if 'A' <= c && c <= 'Z' {
            let b: u8 = c as u8;
            r.push((b + 32) as char);
        } else {
            r.push(c);
        }
        i = i + 1;
        assert(ascii_lowered(s@).take(i as int) == ascii_lowered(s@).take(i - 1).push(
            ascii_lowered(s@)[i - 1],
        ));
    }
    assert(ascii_lowered(s@).take(s@.len() as int) == ascii_lowered(s@));
    r
}

// ---------------------------------------------------------------------------
// Decimal numerals
// ---------------------------------------------------------------------------

pub open spec fn is_digit(c: char) -> bool {
    '0' <= c <= '9'
}

pub open spec fn all_digits(s: Seq<char>) -> bool {
    forall|i: int| 0 <= i < s.len() ==> is_digit(#[trigger] s[i])
}

pub open spec fn digit_value(c: char) -> nat {
    (c as int - '0' as int) as nat
}

pub open spec fn digit_char(d: nat) -> char {
    ('0' as int + d) as char
}

/// The number that a sequence of digits writes in decimal.
pub open spec fn digits_value(s: Seq<char>) -> nat
    decreases s.len(),
{
    if s.len() == 0 {
        0
    } else {
        digits_value(s.drop_last()) * 10 + digit_value(s.last())
    }
}

/// The decimal numeral of `n`, without leading zeros.
pub open spec fn decimal(n: nat) -> Seq<char>
    decreases n,
{
    if n < 10 {
        seq![digit_char(n)]
    } else {
        decimal(n / 10).push(digit_char(n % 10))
    }
}

/// The decimal numeral of a signed number.
pub open spec fn decimal_int(i: int) -> Seq<char> {
    if i < 0 {
        seq!['-'] + decimal((-i) as nat)
    } else {
        decimal(i as nat)
    }
}

/// The number that `s` writes as an optional `+` and digits, if it is at most `max`.
pub open spec fn unsigned_value(s: Seq<char>, max: nat) -> Option<nat> {
    let digits = if s.len() > 0 && s[0] == '+' {
        s.skip(1)
    } else {
        s
    };
    if digits.len() > 0 && all_digits(digits) && digits_value(digits) <= max {
        Some(digits_value(digits))
    } else {
        None
    }
}

/// A decimal numeral is made of digits, has no leading zero, and writes its number.
pub proof fn lemma_decimal(n: nat)
    ensures
        decimal(n).len() > 0,
        all_digits(decimal(n)),
        digits_value(decimal(n)) == n,
        decimal(n)[0] == '0' <==> n == 0,
        decimal(n).len() == 1 <==> n < 10,
    decreases n,
{
    if n < 10 {
        let s = seq![digit_char(n)];
        assert(s.drop_last() == Seq::<char>::empty());
        assert(digits_value(s.drop_last()) == 0);
        assert(digits_value(s) == n);
    } else {
        lemma_decimal(n / 10);
        let s = decimal(n / 10).push(digit_char(n % 10));
        assert(s.drop_last() == decimal(n / 10));
    }
}

/// More digits never write a smaller number.
pub proof fn lemma_digits_value_grows(s: Seq<char>, i: int)
    requires
        0 <= i <= s.len(),
    ensures
        digits_value(s.take(i)) <= digits_value(s),
    decreases s.len() - i,
{
    if i < s.len() {
        lemma_digits_value_grows(s, i + 1);
        assert(s.take(i + 1).drop_last() == s.take(i));
    } else {
        assert(s.take(i) == s);
    }
}

/// The decimal numeral of an unsigned number.
pub fn decimal_u64(n: u64) -> (r: String)
    ensures
        r@ == decimal(n as nat),
    decreases n,
{
    let digit: u8 = (n % 10) as u8;
    if n < 10 {
        let mut r = String::new();
        r.push((48u8 + digit) as char);
        assert(r@ == seq![digit_char(n as nat)]);
        r
    } else {
        let mut r = decimal_u64(n / 10);
        r.push((48u8 + digit) as char);
        r
    }
}

/// The decimal numeral of a signed number.
pub fn decimal_i64(n: i64) -> (r: String)
    ensures
        r@ == decimal_int(n as int),
{
    if n >= 0 {
        decimal_u64(n as u64)
    } else {
        let magnitude: u64 = (-(n + 1)) as u64 + 1;
        let mut r = String::new();
        r.push('-');
        let digits = decimal_u64(magnitude);
        r.append(digits.as_str());
        assert(r@ == seq!['-'] + digits@);
        r
    }
}

/// The number that the characters from `start` on write, if they are digits, at least one,
/// and the number is at most `max`.
pub fn parse_digits(chars: &Vec<char>, start: usize, max: u64) -> (r: Option<u64>)
    requires
        start <= chars@.len(),
    ensures
        ({
            let digits = chars@.skip(start as int);
            r == if digits.len() > 0 && all_digits(digits) && digits_value(digits) <= max {
                Some(digits_value(digits) as u64)
            } else {
                None
            }
        }),
{
    let ghost digits = chars@.skip(start as int);
    if start == chars.len() {
        return None;
    }
    let mut value: u64 = 0;
    let mut i: usize = start;
    assert(digits.take(0) == Seq::<char>::empty());
    while i < chars.len()
        invariant
            start <= i <= chars@.len(),
            digits == chars@.skip(start as int),
            all_digits(digits.take(i - start)),
            value == digits_value(digits.take(i - start)),
            value <= max,
        decreases chars@.len() - i,
    {
        let c = chars[i];
        proof {
            assert(digits[i - start] == c);
            assert(digits.take(i - start + 1).drop_last() == digits.take(i - start));
            assert(digits.take(i - start + 1).last() == c);
            lemma_digits_value_grows(digits, i - start + 1);
        }
        if c < '0' || '9' < c {
            return None;
        }
        let digit: u64 = (c as u8 - 48) as u64;
        if digit > max || value > (max - digit) / 10 {
            assert(value * 10 + digit > max);
            return None;
        }
        value = value * 10 + digit;
        i = i + 1;
        assert(digits.take(i - start) == digits.take(i - start - 1).push(c));
    }
    assert(digits.take(digits.len() as int) == digits);
    Some(value)
}

/// Parses an unsigned number of at most `max`.
pub fn parse_unsigned(s: &str, max: u64) -> (r: Option<u64>)
    ensures
        r is Some <==> unsigned_value(s@, max as nat) is Some,
        r matches Some(n) ==> unsigned_value(s@, max as nat) == Some(n as nat),
{
    let chars = chars_of(s);
    proof {
        assert(s@.skip(0) == s@);
    }
    if chars.len() > 0 && chars[0] == '+' {
        parse_digits(&chars, 1, max)
    } else {
        parse_digits(&chars, 0, max)
    }
}

} // verus!
