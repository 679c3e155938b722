//! Character-level text primitives used throughout the crate.
//!
//! Strings are modelled by their view, a `Seq<char>`. Executable code works
//! on `Vec<char>` so that scanning is linear, and converts at the edges.

use vstd::prelude::*;

verus! {

/// Whether a character has the Unicode `White_Space` property: the
/// controls from tab to carriage return, the space, the next-line control,
/// the no-break spaces, the Ogham space mark, the spaces of fixed width,
/// the line and paragraph separators, the medium mathematical space and
/// the ideographic space.
pub open spec fn is_whitespace(c: char) -> bool {
    ||| '\u{9}' <= c <= '\u{d}'
    ||| c == ' '
    ||| c == '\u{85}'
    ||| c == '\u{a0}'
    ||| c == '\u{1680}'
    ||| '\u{2000}' <= c <= '\u{200a}'
    ||| c == '\u{2028}'
    ||| c == '\u{2029}'
    ||| c == '\u{202f}'
    ||| c == '\u{205f}'
    ||| c == '\u{3000}'
}

/// The Unicode lowercase form of a text, as the standard library computes it.
pub uninterp spec fn lowercase(s: Seq<char>) -> Seq<char>;

/// Appends one character to a string.
///
/// Trusted: `String::push` of the standard library, which adds the given
/// character at the end and leaves the rest as it was.
#[verifier::external_body]
pub(crate) fn push_char(s: &mut String, c: char)
    ensures
        final(s)@ == old(s)@.push(c),
{
    s.push(c)
}

/// Tells whether a character is white space.
///
/// Trusted: `char::is_whitespace` of the standard library, which answers
/// whether the character has the Unicode `White_Space` property.
#[verifier::external_body]
pub(crate) fn char_is_whitespace(c: char) -> (b: bool)
    ensures
        b == is_whitespace(c),
{
    c.is_whitespace()
}

/// Lowercases a string.
///
/// Trusted: `str::to_lowercase` of the standard library. The result depends
/// on the characters of the input alone; the contract gives it its name.
#[verifier::external_body]
pub(crate) fn to_lowercase(s: &str) -> (r: String)
    ensures
        r@ == lowercase(s@),
{
    s.to_lowercase()
}

/// `needle` stands in `hay` at position `i`.
pub open spec fn occurs_at(hay: Seq<char>, needle: Seq<char>, i: int) -> bool {
    &&& 0 <= i
    &&& i + needle.len() <= hay.len()
    &&& hay.subrange(i, i + needle.len()) == needle
}

pub open spec fn has_prefix(s: Seq<char>, prefix: Seq<char>) -> bool {
    occurs_at(s, prefix, 0)
}

pub open spec fn has_suffix(s: Seq<char>, suffix: Seq<char>) -> bool {
    occurs_at(s, suffix, s.len() - suffix.len())
}

/// The first position at or after `from` where `needle` stands in `hay`.
pub open spec fn find_from(hay: Seq<char>, needle: Seq<char>, from: int) -> Option<int>
    decreases hay.len() + 1 - from,
{
    if from < 0 || from + needle.len() > hay.len() {
        None
    } else if occurs_at(hay, needle, from) {
        Some(from)
    } else {
        find_from(hay, needle, from + 1)
    }
}

pub open spec fn contains(hay: Seq<char>, needle: Seq<char>) -> bool {
    find_from(hay, needle, 0) is Some
}

/// `find_from` returns the least matching position, and `None` only when
/// there is none.
pub proof fn lemma_find_from(hay: Seq<char>, needle: Seq<char>, from: int)
    requires
        0 <= from,
    ensures
        match find_from(hay, needle, from) {
            Some(i) => from <= i && occurs_at(hay, needle, i) && forall|j: int|
                from <= j < i ==> !occurs_at(hay, needle, j),
            None => forall|j: int| from <= j ==> !occurs_at(hay, needle, j),
        },
    decreases hay.len() + 1 - from,
{
    if from + needle.len() > hay.len() {
    } else if occurs_at(hay, needle, from) {
    } else {
        lemma_find_from(hay, needle, from + 1);
    }
}

/// A text contains a needle exactly when the needle stands somewhere in it.
pub proof fn lemma_contains(hay: Seq<char>, needle: Seq<char>)
    ensures
        contains(hay, needle) <==> exists|i: int| occurs_at(hay, needle, i),
{
    lemma_find_from(hay, needle, 0);
    if contains(hay, needle) {
        assert(occurs_at(hay, needle, find_from(hay, needle, 0)->0));
    }
}

/// Every occurrence of `target` replaced by `with`, left to right.
pub open spec fn replace_char(s: Seq<char>, target: char, with: Seq<char>) -> Seq<char>
    decreases s.len(),
{
    if s.len() == 0 {
        Seq::empty()
    } else if s.last() == target {
        replace_char(s.drop_last(), target, with) + with
    } else {
        replace_char(s.drop_last(), target, with).push(s.last())
    }
}

/// The first position at or after `i` that holds no white space.
pub open spec fn skip_whitespace(s: Seq<char>, i: int) -> int
    decreases s.len() - i,
{
    if 0 <= i < s.len() && is_whitespace(s[i]) {
        skip_whitespace(s, i + 1)
    } else {
        i
    }
}

/// The end of the text once trailing white space is cut, never below `lo`.
pub open spec fn cut_whitespace(s: Seq<char>, lo: int, j: int) -> int
    decreases j,
{
    if 0 <= lo < j <= s.len() && is_whitespace(s[j - 1]) {
        cut_whitespace(s, lo, j - 1)
    } else {
        j
    }
}

/// A text without its leading and trailing white space.
pub open spec fn trimmed(s: Seq<char>) -> Seq<char> {
    let a = skip_whitespace(s, 0);
    let b = cut_whitespace(s, a, s.len() as int);
    s.subrange(a, b)
}

/// The decimal digits of a number, most significant first.
pub open spec fn decimal(n: nat) -> Seq<char>
    decreases n,
{
    if n < 10 {
        seq![digit_char(n)]
    } else {
        decimal(n / 10).push(digit_char(n % 10))
    }
}

pub open spec fn digit_char(d: nat) -> char {
    (('0' as u8) + (d % 10) as u8) as char
}

/// Lexicographic order on texts, by code point.
pub open spec fn text_lt(a: Seq<char>, b: Seq<char>) -> bool
    decreases a.len(),
{
    if b.len() == 0 {
        false
    } else if a.len() == 0 {
        true
    } else if a[0] != b[0] {
        a[0] < b[0]
    } else {
        text_lt(a.drop_first(), b.drop_first())
    }
}

/// The characters of a string, in order.
pub fn chars_of(s: &str) -> (r: Vec<char>)
    ensures
        r@ == s@,
{
    let mut out: Vec<char> = Vec::new();
    for c in it: s.chars()
        invariant
            out@ == it.seq().take(it.index() as int),
            it.seq() == s@,
    {
        out.push(c);
    }
    out
}

/// The string made of the given characters, in order.
pub fn string_of(chars: &[char]) -> (r: String)
    ensures
        r@ == chars@,
{
    let mut out = String::new();
    let mut i: usize = 0;
    while i < chars.len()
        invariant
            i <= chars.len(),
            out@ == chars@.take(i as int),
        decreases chars.len() - i,
    {
        push_char(&mut out, chars[i]);
        i += 1;
    }
    assert(chars@.take(chars@.len() as int) =~= chars@);
    out
}

/// Whether `needle` stands in `hay` at position `i`.
pub fn matches_at(hay: &[char], needle: &[char], i: usize) -> (r: bool)
    ensures
        r == occurs_at(hay@, needle@, i as int),
{
    if needle.len() > hay.len() || i > hay.len() - needle.len() {
        return false;
    }
    let mut k: usize = 0;
    while k < needle.len()
        invariant
            k <= needle.len(),
            i + needle.len() <= hay.len(),
            forall|j: int| 0 <= j < k ==> hay@[i + j] == needle@[j],
        decreases needle.len() - k,
    {
        if hay[i + k] != needle[k] {
            assert(hay@.subrange(i as int, i + needle.len())[k as int] != needle@[k as int]);
            return false;
        }
        k += 1;
    }
    assert(hay@.subrange(i as int, i + needle.len()) =~= needle@);
    true
}

/// Whether two texts hold the same characters.
pub fn same_text(a: &[char], b: &[char]) -> (r: bool)
    ensures
        r == (a@ == b@),
{
    if a.len() != b.len() {
        return false;
    }
    let r = matches_at(a, b, 0);
    assert(a@.subrange(0, a@.len() as int) =~= a@);
    r
}

pub fn starts_with(s: &[char], prefix: &[char]) -> (r: bool)
    ensures
        r == has_prefix(s@, prefix@),
{
    matches_at(s, prefix, 0)
}

pub fn ends_with(s: &[char], suffix: &[char]) -> (r: bool)
    ensures
        r == has_suffix(s@, suffix@),
{
    if suffix.len() > s.len() {
        return false;
    }
    matches_at(s, suffix, s.len() - suffix.len())
}

/// The first position at or after `from` where `needle` stands in `hay`.
pub fn find(hay: &[char], needle: &[char], from: usize) -> (r: Option<usize>)
    ensures
        match r {
            Some(i) => find_from(hay@, needle@, from as int) == Some(i as int),
            None => find_from(hay@, needle@, from as int) is None,
        },
{
    if needle.len() > hay.len() {
        return None;
    }
    let last: usize = hay.len() - needle.len();
    let mut i: usize = from;
    while i <= last
        invariant
            from <= i,
            last == hay.len() - needle.len(),
            find_from(hay@, needle@, from as int) == find_from(hay@, needle@, i as int),
        decreases last + 1 - i,
    {
        if matches_at(hay, needle, i) {
            return Some(i);
        }
        if i == last {
            assert(find_from(hay@, needle@, i + 1) is None);
            return None;
        }
        i += 1;
    }
    None
}

pub fn contains_text(hay: &[char], needle: &[char]) -> (r: bool)
    ensures
        r == contains(hay@, needle@),
{
    find(hay, needle, 0).is_some()
}

/// Replaces every occurrence of `target` by `with`.
pub fn replace(s: &[char], target: char, with: &[char]) -> (r: Vec<char>)
    ensures
        r@ == replace_char(s@, target, with@),
{
    let mut out: Vec<char> = Vec::new();
    let mut i: usize = 0;
    while i < s.len()
        invariant
            i <= s.len(),
            out@ == replace_char(s@.take(i as int), target, with@),
        decreases s.len() - i,
    {
        proof {
            assert(s@.take(i + 1).drop_last() =~= s@.take(i as int));
        }
        if s[i] == target {
            out.extend_from_slice(with);
        } else {
            out.push(s[i]);
        }
        i += 1;
    }
    assert(s@.take(s@.len() as int) =~= s@);
    out
}

/// A copy of the characters from `lo` up to `hi`.
pub fn slice_of(s: &[char], lo: usize, hi: usize) -> (r: Vec<char>)
    requires
        lo <= hi <= s.len(),
    ensures
        r@ == s@.subrange(lo as int, hi as int),
{
    let mut out: Vec<char> = Vec::new();
    let mut i: usize = lo;
    while i < hi
        invariant
            lo <= i <= hi <= s.len(),
            out@ == s@.subrange(lo as int, i as int),
        decreases hi - i,
    {
        out.push(s[i]);
        assert(s@.subrange(lo as int, i + 1) =~= s@.subrange(lo as int, i as int).push(s@[i as int]));
        i += 1;
    }
    out
}

/// The text without leading and trailing white space.
pub fn trim(s: &[char]) -> (r: Vec<char>)
    ensures
        r@ == trimmed(s@),
{
    let mut a: usize = 0;
    while a < s.len() && char_is_whitespace(s[a])
        invariant
            a <= s.len(),
            skip_whitespace(s@, 0) == skip_whitespace(s@, a as int),
        decreases s.len() - a,
    {
        a += 1;
    }
    let mut b: usize = s.len();
    while a < b && char_is_whitespace(s[b - 1])
        invariant
            a <= b <= s.len(),
            cut_whitespace(s@, a as int, s@.len() as int) == cut_whitespace(s@, a as int, b as int),
        decreases b,
    {
        b -= 1;
    }
    slice_of(s, a, b)
}

/// The decimal form of a number.
pub fn decimal_of(n: u64) -> (r: Vec<char>)
    ensures
        r@ == decimal(n as nat),
{
    let mut digits: Vec<char> = Vec::new();
    let mut rest: u64 = n;
    // Collect the digits least significant first.
    while rest >= 10
        invariant
            decimal(n as nat) == decimal(rest as nat) + digits@.reverse(),
        decreases rest,
    {
        let d: u8 = (rest % 10) as u8;
        let ghost before = digits@;
        digits.push((('0' as u8) + d) as char);
        proof {
            assert(digits@.reverse() =~= seq![digit_char((rest % 10) as nat)] + before.reverse());
            assert(decimal(rest as nat) == decimal((rest / 10) as nat).push(
                digit_char((rest % 10) as nat),
            ));
            assert(decimal((rest / 10) as nat).push(digit_char((rest % 10) as nat))
                + before.reverse() =~= decimal((rest / 10) as nat) + digits@.reverse());
        }
        rest = rest / 10;
    }
    let ghost before = digits@;
    digits.push((('0' as u8) + (rest as u8)) as char);
    proof {
        assert(digits@.reverse() =~= seq![digit_char(rest as nat)] + before.reverse());
    }
    let mut out: Vec<char> = Vec::new();
    let mut i: usize = digits.len();
    while i > 0
        invariant
            i <= digits.len(),
            out@ == digits@.reverse().take(digits.len() - i),
        decreases i,
    {
        i -= 1;
        out.push(digits[i]);
        assert(digits@.reverse().take(digits.len() - i) =~= digits@.reverse().take(
            digits.len() - i - 1,
        ).push(digits@[i as int]));
    }
    assert(digits@.reverse().take(digits@.len() as int) =~= digits@.reverse());
    out
}

/// Whether `a` comes strictly before `b` in lexicographic order.
pub fn less_than(a: &[char], b: &[char]) -> (r: bool)
    ensures
        r == text_lt(a@, b@),
{
    let mut i: usize = 0;
    assert(a@.skip(0) =~= a@ && b@.skip(0) =~= b@);
    while i < a.len() && i < b.len()
        invariant
            i <= a.len(),
            i <= b.len(),
            text_lt(a@, b@) == text_lt(a@.skip(i as int), b@.skip(i as int)),
        decreases a.len() - i,
    {
        assert(a@.skip(i as int)[0] == a@[i as int] && b@.skip(i as int)[0] == b@[i as int]);
        if a[i] != b[i] {
            let r = a[i] < b[i];
            assert(a@.skip(i as int).len() > 0 && b@.skip(i as int).len() > 0);
            return r;
        }
        proof {
            assert(a@.skip(i as int).drop_first() =~= a@.skip(i + 1));
            assert(b@.skip(i as int).drop_first() =~= b@.skip(i + 1));
        }
        i += 1;
    }
    i < b.len()
}


/// No text comes before itself.
pub proof fn lemma_text_lt_irreflexive(a: Seq<char>)
    ensures
        !text_lt(a, a),
    decreases a.len(),
{
    if a.len() > 0 {
        lemma_text_lt_irreflexive(a.drop_first());
    }
}

/// The order is transitive.
pub proof fn lemma_text_lt_transitive(a: Seq<char>, b: Seq<char>, c: Seq<char>)
    requires
        text_lt(a, b),
        text_lt(b, c),
    ensures
        text_lt(a, c),
    decreases a.len(),
{
    if a.len() > 0 && b.len() > 0 && c.len() > 0 {
        if a[0] == b[0] && b[0] == c[0] {
            lemma_text_lt_transitive(a.drop_first(), b.drop_first(), c.drop_first());
        }
    }
}

/// Two different texts are ordered one way or the other.
pub proof fn lemma_text_lt_total(a: Seq<char>, b: Seq<char>)
    ensures
        a == b || text_lt(a, b) || text_lt(b, a),
    decreases a.len(),
{
    if a.len() == 0 || b.len() == 0 {
        if a.len() == 0 && b.len() == 0 {
            assert(a =~= b);
        }
    } else if a[0] == b[0] {
        lemma_text_lt_total(a.drop_first(), b.drop_first());
        if a.drop_first() == b.drop_first() {
            assert(a =~= seq![a[0]] + a.drop_first());
            assert(b =~= seq![b[0]] + b.drop_first());
        }
    }
}

/// A text never comes both before and after another.
pub proof fn lemma_text_lt_asymmetric(a: Seq<char>, b: Seq<char>)
    requires
        text_lt(a, b),
    ensures
        !text_lt(b, a),
        a != b,
{
    if text_lt(b, a) {
        lemma_text_lt_transitive(a, b, a);
    }
    lemma_text_lt_irreflexive(a);
}


/// Whether the characters spell the given string.
pub fn is_text(chars: &[char], s: &str) -> (r: bool)
    ensures
        r == (chars@ == s@),
{
    let other = chars_of(s);
    same_text(chars, other.as_slice())
}

/// Whether two strings hold the same text.
pub fn str_eq(a: &str, b: &str) -> (r: bool)
    ensures
        r == (a@ == b@),
{
    let x = chars_of(a);
    is_text(x.as_slice(), b)
}

/// The texts held by a sequence of strings.
pub open spec fn texts(v: Seq<String>) -> Seq<Seq<char>> {
    v.map_values(|s: String| s@)
}


/// The text that the bytes `start..end` of a string's UTF-8 form spell, if
/// the range lies within the string and cuts no character in two.
pub open spec fn span_text(source: Seq<char>, start: int, end: int) -> Option<Seq<char>> {
    let b = vstd::utf8::encode_utf8(source);
    if 0 <= start <= end <= b.len() && (start == end || (vstd::utf8::is_char_boundary(b, start)
        && vstd::utf8::is_char_boundary(b, end))) {
        Some(vstd::utf8::decode_utf8(b.subrange(start, end)))
    } else {
        None
    }
}

/// The part of a string between two byte offsets.
pub fn byte_span<'a>(source: &'a str, start: usize, end: usize) -> (r: Option<&'a str>)
    ensures
        match r {
            Some(t) => span_text(source@, start as int, end as int) == Some(t@),
            None => span_text(source@, start as int, end as int) is None,
        },
{
    broadcast use
        vstd::utf8::encode_utf8_valid_utf8,
        vstd::utf8::encode_utf8_decode_utf8,
        vstd::utf8::is_char_boundary_start_end_of_seq,
        vstd::utf8::valid_utf8_split,
    ;

    let ghost b = vstd::utf8::encode_utf8(source@);
    if start > end || end > source.as_bytes().len() {
        return None;
    }
    if start == end {
        let (nothing, _) = source.split_at(0);
        assert(b.subrange(0, 0) =~= b.subrange(start as int, end as int));
        assert(nothing@ == vstd::utf8::decode_utf8(vstd::utf8::encode_utf8(nothing@)));
        return Some(nothing);
    }
    if !source.is_char_boundary(start) || !source.is_char_boundary(end) {
        return None;
    }
    let (head, _) = source.split_at(end);
    proof {
        let hb = b.subrange(0, end as int);
        assert(vstd::utf8::encode_utf8(head@) == hb);
        vstd::utf8::is_char_boundary_iff_not_is_continuation_byte(b, start as int);
        vstd::utf8::is_char_boundary_iff_not_is_continuation_byte(hb, start as int);
    }
    let (_, mid) = head.split_at(start);
    proof {
        assert(b.subrange(0, end as int).subrange(start as int, end as int) =~= b.subrange(
            start as int,
            end as int,
        ));
        assert(mid@ == vstd::utf8::decode_utf8(vstd::utf8::encode_utf8(mid@)));
    }
    Some(mid)
}

/// A number brought into 32 bits: itself if it fits, else the greatest
/// 32-bit number.
pub open spec fn clamp_u32(n: int) -> u32 {
    if n > u32::MAX {
        u32::MAX
    } else if n < 0 {
        0
    } else {
        n as u32
    }
}

pub fn to_u32(n: usize) -> (r: u32)
    ensures
        r == clamp_u32(n as int),
{
    if n > u32::MAX as usize {
        u32::MAX
    } else {
        n as u32
    }
}


/// How many lines a text has: one for each line feed, and one more where
/// text follows the last line feed.
pub open spec fn line_count(s: Seq<char>) -> nat
    decreases s.len(),
{
    if s.len() == 0 {
        0
    } else {
        line_count(s.drop_last()) + (if s.len() == 1 || s[s.len() - 2] == '\n' {
            1nat
        } else {
            0nat
        })
    }
}

/// How many lines a text has.
pub fn count_lines(s: &[char]) -> (r: usize)
    ensures
        r == line_count(s@),
{
    let mut n: usize = 0;
    let mut i: usize = 0;
    while i < s.len()
        invariant
            i <= s.len(),
            n == line_count(s@.take(i as int)),
            n <= i,
        decreases s.len() - i,
    {
        proof {
            let t = s@.take(i + 1);
            assert(t.drop_last() =~= s@.take(i as int));
            assert(t.last() == s@[i as int]);
            if i > 0 {
                assert(t[t.len() - 2] == s@[i - 1]);
            }
        }
        let fresh_line = i == 0 || s[i - 1] == '\n';
        if fresh_line {
            n += 1;
        }
        i += 1;
    }
    assert(s@.take(s@.len() as int) =~= s@);
    n
}

/// Whether a byte sequence is UTF-8.
pub open spec fn is_utf8(bytes: Seq<u8>) -> bool {
    vstd::utf8::valid_utf8(bytes)
}

/// Reads bytes as text.
///
/// Trusted: `std::str::from_utf8`, which succeeds exactly on bytes that
/// are UTF-8 and then hands back the text that is made of the very bytes
/// it was given.
#[verifier::external_body]
pub(crate) fn utf8_text(bytes: &[u8]) -> (r: Option<&str>)
    ensures
        r is Some <==> is_utf8(bytes@),
        r matches Some(s) ==> vstd::utf8::encode_utf8(s@) == bytes@,
{
    std::str::from_utf8(bytes).ok()
}

} // verus!
