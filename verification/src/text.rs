//! Operations on text, stated over sequences of characters.

use vstd::prelude::*;
use vstd::string::*;
use vstd::utf8::*;

verus! {

/// Whether the Unicode tables of the standard library class a character as
/// alphabetic or numeric.
pub uninterp spec fn char_is_alphanumeric(c: char) -> bool;

/// `char::is_alphanumeric` depends on the character alone.
pub assume_specification[ char::is_alphanumeric ](c: char) -> (res: bool)
    ensures
        res == char_is_alphanumeric(c),
;

/// Whether the Unicode tables of the standard library class a character as
/// white space.
pub uninterp spec fn char_is_whitespace(c: char) -> bool;

/// `char::is_whitespace` depends on the character alone.
pub assume_specification[ char::is_whitespace ](c: char) -> (res: bool)
    ensures
        res == char_is_whitespace(c),
;

/// `String::push` appends one character at the end of the string.
pub assume_specification[ String::push ](s: &mut String, c: char)
    ensures
        final(s)@ == old(s)@.push(c),
;

/// The characters of `s`, in order.
pub fn chars_of(s: &str) -> (res: Vec<char>)
    ensures
        res@ == s@,
{
    let mut res: Vec<char> = Vec::new();
    for c in it: s.chars()
        invariant
            it.seq() == s@,
            res@ == s@.take(it.index()),
    {
        res.push(c);
    }
    res
}

/// Whether `a` and `b` hold the same characters.
pub fn same(a: &str, b: &str) -> (res: bool)
    ensures
        res == (a@ == b@),
{
    let x = chars_of(a);
    let y = chars_of(b);
    if x.len() != y.len() {
        return false;
    }
    let mut i: usize = 0;
    while i < x.len()
        invariant
            i <= x.len(),
            x.len() == y.len(),
            x@ == a@,
            y@ == b@,
            forall|j: int| 0 <= j < i ==> x@[j] == y@[j],
        decreases x.len() - i,
    {
        if x[i] != y[i] {
            return false;
        }
        i += 1;
    }
    assert(x@ =~= y@);
    true
}

/// A character with the upper case letters of ASCII mapped to lower case.
pub open spec fn ascii_lower(c: char) -> char {
    if 'A' <= c && c <= 'Z' {
        (c as u32 + 32) as char
    } else {
        c
    }
}

/// Whether two texts differ in nothing but the case of ASCII letters.
pub open spec fn same_ignoring_case(a: Seq<char>, b: Seq<char>) -> bool {
    &&& a.len() == b.len()
    &&& forall|i: int| 0 <= i < a.len() ==> ascii_lower(#[trigger] a[i]) == ascii_lower(b[i])
}

pub fn to_ascii_lower(c: char) -> (res: char)
    ensures
        res == ascii_lower(c),
{
    if 'A' <= c && c <= 'Z' {
        ((c as u8) + 32) as char
    } else {
        c
    }
}

/// Whether `a` and `b` are equal up to the case of ASCII letters.
pub fn eq_ignore_ascii_case(a: &str, b: &str) -> (res: bool)
    ensures
        res == same_ignoring_case(a@, b@),
{
    let x = chars_of(a);
    let y = chars_of(b);
    if x.len() != y.len() {
        return false;
    }
    let mut i: usize = 0;
    while i < x.len()
        invariant
            i <= x.len(),
            x.len() == y.len(),
            x@ == a@,
            y@ == b@,
            forall|j: int| 0 <= j < i ==> ascii_lower(#[trigger] x@[j]) == ascii_lower(y@[j]),
        decreases x.len() - i,
    {
        if to_ascii_lower(x[i]) != to_ascii_lower(y[i]) {
            assert(ascii_lower(a@[i as int]) != ascii_lower(b@[i as int]));
            return false;
        }
        i += 1;
    }
    true
}

/// Control characters: the C0 and C1 ranges and DEL.
pub open spec fn is_control(c: char) -> bool {
    (c as u32) < 0x20 || 0x7f <= (c as u32) <= 0x9f
}

pub fn char_is_control(c: char) -> (res: bool)
    ensures
        res == is_control(c),
{
    let code: u32 = c as u32;
    code < 0x20 || (0x7f <= code && code <= 0x9f)
}

/// The length of a text in bytes, encoded as UTF-8.
pub open spec fn byte_len(s: Seq<char>) -> nat {
    encode_utf8(s).len()
}

/// The encoding of a concatenation is the concatenation of the encodings.
pub proof fn lemma_encode_concat(a: Seq<char>, b: Seq<char>)
    ensures
        encode_utf8(a + b) == encode_utf8(a) + encode_utf8(b),
    decreases a.len(),
{
    if a.len() == 0 {
        assert(a + b =~= b);
        assert(encode_utf8(a) =~= Seq::<u8>::empty());
        assert(encode_utf8(a) + encode_utf8(b) =~= encode_utf8(b));
    } else {
        lemma_encode_concat(a.drop_first(), b);
        assert((a + b).drop_first() =~= a.drop_first() + b);
        assert((a + b)[0] == a[0]);
        assert(encode_utf8(a + b) =~= encode_utf8(a) + encode_utf8(b));
    }
}

/// The byte offset of the character at `char_idx`, or the length in bytes
/// where the text has no such character.
pub open spec fn byte_offset(s: Seq<char>, char_idx: int) -> nat {
    byte_len(s.take(if char_idx < s.len() { char_idx } else { s.len() as int }))
}

/// The byte offset at which the character `char_idx` of `text` begins; the
/// length of `text` in bytes where there is no such character.
pub fn char_index_to_byte_index(text: &str, char_idx: usize) -> (res: usize)
    ensures
        res == byte_offset(text@, char_idx as int),
{
    let len: usize = text.unicode_len();
    let end: usize = if char_idx < len { char_idx } else { len };
    let prefix = text.substring_char(0, end);
    assert(prefix@ =~= text@.take(end as int));
    prefix.as_bytes().len()
}

/// A character takes at least one byte.
pub proof fn lemma_byte_offset_step(s: Seq<char>, i: int)
    requires
        0 <= i < s.len(),
    ensures
        byte_offset(s, i) < byte_offset(s, i + 1),
        byte_offset(s, i + 1) == byte_offset(s, i) + encode_scalar(s[i] as u32).len(),
{
    assert(s.take(i + 1) =~= s.take(i) + seq![s[i]]);
    lemma_encode_concat(s.take(i), seq![s[i]]);
    lemma_encode_one(s[i]);
}

/// One character on its own is encoded in one to four bytes.
pub proof fn lemma_encode_one(c: char)
    ensures
        encode_utf8(seq![c]) == encode_scalar(c as u32),
        1 <= encode_scalar(c as u32).len() <= 4,
{
    let s = seq![c];
    assert(s.drop_first() =~= Seq::<char>::empty());
    assert(encode_utf8(s.drop_first()) =~= Seq::<u8>::empty());
    assert(encode_utf8(s) =~= encode_scalar(c as u32));
    char_is_scalar(c);
}

/// Byte offsets grow with the character index.
pub proof fn lemma_byte_offset_monotone(s: Seq<char>, i: int, j: int)
    requires
        0 <= i <= j,
    ensures
        byte_offset(s, i) <= byte_offset(s, j),
        i < j && i < s.len() ==> byte_offset(s, i) < byte_offset(s, j),
    decreases j - i,
{
    if i < j {
        if j <= s.len() {
            lemma_byte_offset_monotone(s, i, j - 1);
            lemma_byte_offset_step(s, j - 1);
        } else {
            lemma_byte_offset_monotone(s, i, j - 1);
            assert(byte_offset(s, j) == byte_offset(s, j - 1));
        }
    }
}

/// `s` with the characters from `start` to `end` replaced by `mid`.
pub open spec fn spliced(s: Seq<char>, start: int, end: int, mid: Seq<char>) -> Seq<char> {
    s.take(start) + mid + s.skip(end)
}

/// A copy of `s` with the characters from `start` to `end` replaced by `mid`.
pub fn splice(s: &str, start: usize, end: usize, mid: &str) -> (res: String)
    requires
        start <= end <= s@.len(),
    ensures
        res@ == spliced(s@, start as int, end as int, mid@),
{
    let len: usize = s.unicode_len();
    let mut res = s.substring_char(0, start).to_owned();
    res.append(mid);
    res.append(s.substring_char(end, len));
    assert(res@ =~= spliced(s@, start as int, end as int, mid@));
    res
}

/// A text of one character.
pub fn from_char(c: char) -> (res: String)
    ensures
        res@ == seq![c],
{
    let mut res = String::new();
    res.push(c);
    assert(res@ =~= seq![c]);
    res
}

/// `s` without the white space at its start.
pub open spec fn trim_start(s: Seq<char>) -> Seq<char>
    decreases s.len(),
{
    if s.len() > 0 && char_is_whitespace(s[0]) {
        trim_start(s.skip(1))
    } else {
        s
    }
}

/// `s` without the white space at its end.
pub open spec fn trim_end(s: Seq<char>) -> Seq<char>
    decreases s.len(),
{
    if s.len() > 0 && char_is_whitespace(s.last()) {
        trim_end(s.drop_last())
    } else {
        s
    }
}

/// `s` without the white space at either end.
pub open spec fn trimmed(s: Seq<char>) -> Seq<char> {
    trim_end(trim_start(s))
}

/// `s` without the white space at either end.
pub fn trim(s: &str) -> (res: &str)
    ensures
        res@ == trimmed(s@),
{
    let chars = chars_of(s);
    let len: usize = chars.len();
    let mut start: usize = 0;
    assert(s@.skip(0) =~= s@);
    while start < len && chars[start].is_whitespace()
        invariant
            start <= len,
            len == chars.len(),
            chars@ == s@,
            trim_start(s@.skip(start as int)) == trim_start(s@),
        decreases len - start,
    {
        assert(s@.skip(start as int).skip(1) =~= s@.skip(start as int + 1));
        start += 1;
    }
    let ghost rest = s@.skip(start as int);
    assert(trim_start(s@) == rest);
    let mut end: usize = len;
    assert(s@.subrange(start as int, len as int) =~= rest);
    while start < end && chars[end - 1].is_whitespace()
        invariant
            start <= end <= len,
            len == chars.len(),
            chars@ == s@,
            trim_end(s@.subrange(start as int, end as int)) == trim_end(rest),
        decreases end - start,
    {
        let ghost cur = s@.subrange(start as int, end as int);
        assert(cur.last() == s@[end - 1]);
        assert(cur.drop_last() =~= s@.subrange(start as int, end as int - 1));
        end -= 1;
    }
    let ghost cur = s@.subrange(start as int, end as int);
    assert(cur.len() > 0 ==> cur.last() == s@[end - 1]);
    s.substring_char(start, end)
}

/// Whether `c` occurs in `s`.
pub fn contains_char(s: &str, c: char) -> (res: bool)
    ensures
        res == s@.contains(c),
{
    let chars = chars_of(s);
    let mut i: usize = 0;
    while i < chars.len()
        invariant
            i <= chars.len(),
            chars@ == s@,
            forall|j: int| 0 <= j < i ==> chars@[j] != c,
        decreases chars.len() - i,
    {
        if chars[i] == c {
            assert(s@[i as int] == c);
            return true;
        }
        i += 1;
    }
    false
}

/// An ASCII digit.
pub open spec fn is_digit(c: char) -> bool {
    '0' <= c && c <= '9'
}

/// The part of a number's text behind its optional sign.
pub open spec fn number_body(s: Seq<char>) -> Seq<char> {
    if s.len() > 0 && s[0] == '-' {
        s.skip(1)
    } else {
        s
    }
}

/// What may be typed on the way to a number: an optional minus sign, then
/// digits with at most one point among them. The empty text, a lone sign and
/// a lone point qualify.
pub open spec fn number_text(s: Seq<char>) -> bool {
    let body = number_body(s);
    &&& forall|i: int| 0 <= i < body.len() ==> is_digit(#[trigger] body[i]) || body[i] == '.'
    &&& forall|i: int, j: int|
        0 <= i < j < body.len() ==> !(#[trigger] body[i] == '.' && #[trigger] body[j] == '.')
}

/// Whether `s` is what may be typed on the way to a number.
pub fn is_number_text(s: &str) -> (res: bool)
    ensures
        res == number_text(s@),
{
    let chars = chars_of(s);
    let len: usize = chars.len();
    let first: usize = if len > 0 && chars[0] == '-' { 1 } else { 0 };
    let ghost body = number_body(s@);
    assert(body =~= s@.skip(first as int));
    let mut seen_dot = false;
    let mut i: usize = first;
    while i < len
        invariant
            first <= i <= len,
            len == chars.len(),
            chars@ == s@,
            body == number_body(s@),
            body == s@.skip(first as int),
            forall|k: int| 0 <= k < i - first ==> is_digit(#[trigger] body[k]) || body[k] == '.',
            seen_dot == exists|k: int| 0 <= k < i - first && #[trigger] body[k] == '.',
            forall|j: int, k: int|
                0 <= j < k < i - first ==> !(#[trigger] body[j] == '.' && #[trigger] body[k]
                    == '.'),
        decreases len - i,
    {
        let c = chars[i];
        let ghost at = i - first;
        assert(body[at] == c);
        if '0' <= c && c <= '9' {
        } else if c == '.' && !seen_dot {
            seen_dot = true;
        } else {
            return false;
        }
        i += 1;
    }
    true
}

/// Whether a text holds a digit.
pub open spec fn has_digit(s: Seq<char>) -> bool {
    exists|i: int| 0 <= i < s.len() && is_digit(#[trigger] s[i])
}

/// Whether `s` holds a digit.
pub fn contains_digit(s: &str) -> (res: bool)
    ensures
        res == has_digit(s@),
{
    let chars = chars_of(s);
    let mut i: usize = 0;
    while i < chars.len()
        invariant
            i <= chars.len(),
            chars@ == s@,
            forall|j: int| 0 <= j < i ==> !is_digit(#[trigger] chars@[j]),
        decreases chars.len() - i,
    {
        let c = chars[i];
        if '0' <= c && c <= '9' {
            assert(is_digit(s@[i as int]));
            return true;
        }
        i += 1;
    }
    false
}

/// The decimal digit for a number below ten.
pub open spec fn digit(n: nat) -> char {
    (48 + n) as char
}

/// A number in decimal notation.
pub open spec fn decimal(n: nat) -> Seq<char>
    decreases n,
{
    if n < 10 {
        seq![digit(n)]
    } else {
        decimal(n / 10).push(digit(n % 10))
    }
}

/// `n` in decimal notation.
pub fn to_decimal(n: u64) -> (res: String)
    ensures
        res@ == decimal(n as nat),
    decreases n,
{
    if n < 10 {
        from_char((48u8 + n as u8) as char)
    } else {
        let mut res = to_decimal(n / 10);
        res.push((48u8 + (n % 10) as u8) as char);
        res
    }
}

/// The number that decimal digits denote.
pub open spec fn denoted(digits: Seq<char>) -> int
    decreases digits.len(),
{
    if digits.len() == 0 {
        0
    } else {
        10 * denoted(digits.drop_last()) + (digits.last() as int - '0' as int)
    }
}

/// A text is made of digits, at least one.
pub open spec fn all_digits(s: Seq<char>) -> bool {
    &&& s.len() > 0
    &&& forall|i: int| 0 <= i < s.len() ==> is_digit(#[trigger] s[i])
}

/// A text without the sign before it.
pub open spec fn unsigned(s: Seq<char>) -> Seq<char> {
    if s.len() > 0 && (s[0] == '-' || s[0] == '+') {
        s.skip(1)
    } else {
        s
    }
}

/// The whole number that a text denotes: decimal digits with an optional sign
/// before them.
pub open spec fn whole_number(s: Seq<char>) -> Option<int> {
    if !all_digits(unsigned(s)) {
        None
    } else if s[0] == '-' {
        Some(-denoted(unsigned(s)))
    } else {
        Some(denoted(unsigned(s)))
    }
}

/// The whole number that a text denotes, where that fits.
pub fn parse_whole_number(s: &str) -> (res: Option<i32>)
    ensures
        match whole_number(s@) {
            Some(n) => if i32::MIN <= n <= i32::MAX {
                res matches Some(value) && value == n
            } else {
                res is None
            },
            None => res is None,
        },
{
    let chars = chars_of(s);
    let len: usize = chars.len();
    let signed = len > 0 && (chars[0] == '-' || chars[0] == '+');
    let negative = len > 0 && chars[0] == '-';
    let first: usize = if signed {
        1
    } else {
        0
    };
    let ghost digits = unsigned(s@);
    if first == len {
        return None;
    }
    let mut value: i64 = 0;
    let mut large = false;
    let mut i: usize = first;
    assert(digits.take(0) =~= Seq::<char>::empty());
    while i < len
        invariant
            first <= i <= len,
            len == chars.len(),
            chars@ == s@,
            digits == unsigned(s@),
            digits.len() == len - first,
            forall|k: int| 0 <= k < digits.len() ==> #[trigger] digits[k] == s@[k + first],
            forall|k: int| 0 <= k < i - first ==> is_digit(#[trigger] digits[k]),
            0 <= value <= 0x8000_0000,
            !large ==> value == denoted(digits.take(i - first)),
            large ==> denoted(digits.take(i - first)) > 0x8000_0000,
        decreases len - i,
    {
        let c = chars[i];
        let ghost at = i - first;
        assert(digits[at] == c);
        if !('0' <= c && c <= '9') {
            assert(!is_digit(digits[at]));
            return None;
        }
        assert(digits.take(at + 1).drop_last() =~= digits.take(at));
        let digit: i64 = (c as u32 - '0' as u32) as i64;
        let next: i64 = value * 10 + digit;
        if next > 0x8000_0000 {
            large = true;
        } else if !large {
            value = next;
        }
        i += 1;
    }
    assert(digits.take(len - first) =~= digits);
    if large {
        return None;
    }
    if negative {
        Some((-value) as i32)
    } else if value <= 0x7fff_ffff {
        Some(value as i32)
    } else {
        None
    }
}

} // verus!
