//! What holds of texts: their bytes, their case, their white space and the
//! numbers that they denote.

use crate::text;
use crate::typing_laws;
use vstd::prelude::*;

verus! {

/// The small letters stand for the capitals, in their order, and nothing else is
/// changed.
pub proof fn law_capitals_have_small_letters(c: char)
    ensures
        'A' <= c && c <= 'Z' ==> 'a' <= text::ascii_lower(c) && text::ascii_lower(c) <= 'z'
            && text::ascii_lower(c) as int - 'a' as int == c as int - 'A' as int,
        !('A' <= c && c <= 'Z') ==> text::ascii_lower(c) == c,
        text::ascii_lower(text::ascii_lower(c)) == text::ascii_lower(c),
{
}

/// Being the same but for case is an equivalence, and two texts that are the
/// same are so.
pub proof fn law_case_is_ignored(a: Seq<char>, b: Seq<char>, c: Seq<char>)
    ensures
        text::same_ignoring_case(a, a),
        text::same_ignoring_case(a, b) ==> text::same_ignoring_case(b, a),
        text::same_ignoring_case(a, b) && text::same_ignoring_case(b, c)
            ==> text::same_ignoring_case(a, c),
        text::same_ignoring_case(a, b) <==> a.map_values(|x: char| text::ascii_lower(x))
            == b.map_values(|x: char| text::ascii_lower(x)),
{
    let f = |x: char| text::ascii_lower(x);
    if text::same_ignoring_case(a, b) {
        assert(a.map_values(f) =~= b.map_values(f));
        assert forall|i: int| 0 <= i < b.len() implies text::ascii_lower(#[trigger] b[i])
            == text::ascii_lower(a[i]) by {
            assert(text::ascii_lower(a[i]) == text::ascii_lower(b[i]));
        }
        if text::same_ignoring_case(b, c) {
            assert forall|i: int| 0 <= i < a.len() implies text::ascii_lower(#[trigger] a[i])
                == text::ascii_lower(c[i]) by {
                assert(text::ascii_lower(b[i]) == text::ascii_lower(c[i]));
            }
        }
    }
    if a.map_values(f) == b.map_values(f) {
        assert(a.map_values(f).len() == b.map_values(f).len());
        assert forall|i: int| 0 <= i < a.len() implies text::ascii_lower(#[trigger] a[i])
            == text::ascii_lower(b[i]) by {
            assert(a.map_values(f)[i] == b.map_values(f)[i]);
        }
    }
}

proof fn lemma_trim_start(s: Seq<char>) -> (from: int)
    ensures
        0 <= from <= s.len(),
        text::trim_start(s) == s.skip(from),
        forall|i: int| 0 <= i < from ==> text::char_is_whitespace(#[trigger] s[i]),
        from < s.len() ==> !text::char_is_whitespace(s[from]),
    decreases s.len(),
{
    if s.len() > 0 && text::char_is_whitespace(s[0]) {
        let rest = lemma_trim_start(s.skip(1));
        assert(s.skip(1).skip(rest) =~= s.skip(rest + 1));
        assert forall|i: int| 0 <= i < rest + 1 implies text::char_is_whitespace(
            #[trigger] s[i],
        ) by {
            if i > 0 {
                assert(s.skip(1)[i - 1] == s[i]);
            }
        }
        rest + 1
    } else {
        assert(s.skip(0) =~= s);
        0
    }
}

proof fn lemma_trim_end(s: Seq<char>) -> (to: int)
    ensures
        0 <= to <= s.len(),
        text::trim_end(s) == s.take(to),
        forall|i: int| to <= i < s.len() ==> text::char_is_whitespace(#[trigger] s[i]),
        to > 0 ==> !text::char_is_whitespace(s[to - 1]),
    decreases s.len(),
{
    if s.len() > 0 && text::char_is_whitespace(s.last()) {
        let to = lemma_trim_end(s.drop_last());
        assert(s.drop_last().take(to) =~= s.take(to));
        assert forall|i: int| to <= i < s.len() implies text::char_is_whitespace(#[trigger] s[i]) by {
            if i < s.len() - 1 {
                assert(s.drop_last()[i] == s[i]);
            }
        }
        to
    } else {
        assert(s.take(s.len() as int) =~= s);
        s.len() as int
    }
}

/// What is left of a text without the white space at its ends is a part of it:
/// all that comes before and behind it is white space, and neither its first nor
/// its last character is.
pub proof fn law_white_space_is_trimmed(s: Seq<char>)
    ensures
        exists|from: int, to: int| #[trigger]
            is_trimmed_part(s, from, to) && text::trimmed(s) == s.subrange(from, to),
{
    let from = lemma_trim_start(s);
    let rest = s.skip(from);
    let to = lemma_trim_end(rest);
    assert(rest.take(to) =~= s.subrange(from, from + to));
    assert forall|i: int| from + to <= i < s.len() implies text::char_is_whitespace(
        #[trigger] s[i],
    ) by {
        assert(rest[i - from] == s[i]);
    }
    if to > 0 {
        assert(rest[to - 1] == s[from + to - 1]);
    }
    assert(is_trimmed_part(s, from, from + to));
}

/// The part between two places is what is left of a text without the white space
/// at its ends.
pub open spec fn is_trimmed_part(s: Seq<char>, from: int, to: int) -> bool {
    &&& 0 <= from <= to <= s.len()
    &&& forall|i: int| 0 <= i < from ==> text::char_is_whitespace(#[trigger] s[i])
    &&& forall|i: int| to <= i < s.len() ==> text::char_is_whitespace(#[trigger] s[i])
    &&& from < to ==> !text::char_is_whitespace(s[from]) && !text::char_is_whitespace(s[to - 1])
}

/// The text on the way to a number: digits with at most one point among them,
/// and a minus sign at the very start or nowhere.
pub proof fn law_numbers_are_told_by_their_characters(s: Seq<char>)
    ensures
        text::number_text(s) <==> typing_laws::numeric(s),
        text::has_digit(s) <==> exists|i: int| 0 <= i < s.len() && '0' <= #[trigger] s[i] && s[i]
            <= '9',
{
    typing_laws::lemma_numeric(s);
    if text::has_digit(s) {
        let i = choose|i: int| 0 <= i < s.len() && text::is_digit(#[trigger] s[i]);
        assert('0' <= s[i] && s[i] <= '9');
    }
    if exists|i: int| 0 <= i < s.len() && '0' <= #[trigger] s[i] && s[i] <= '9' {
        let i = choose|i: int| 0 <= i < s.len() && '0' <= #[trigger] s[i] && s[i] <= '9';
        assert(text::is_digit(s[i]));
    }
}

/// Each digit is worth ten times the one behind it.
pub proof fn law_digits_are_worth_their_place(digits: Seq<char>, c: char)
    ensures
        text::denoted(digits.push(c)) == 10 * text::denoted(digits) + (c as int - '0' as int),
        text::denoted(Seq::empty()) == 0,
{
    assert(digits.push(c).drop_last() =~= digits);
}

/// A number in decimal notation is digits alone, without a needless zero in
/// front, and denotes the number.
pub proof fn law_decimals_denote_their_number(n: nat)
    ensures
        text::denoted(text::decimal(n)) == n,
        text::all_digits(text::decimal(n)),
        text::decimal(n)[0] == '0' ==> n == 0,
    decreases n,
{
    let d = text::decimal(n);
    if n < 10 {
        assert(d.drop_last() =~= Seq::<char>::empty());
        assert(text::denoted(d.drop_last()) == 0);
    } else {
        law_decimals_denote_their_number(n / 10);
        assert(d.drop_last() =~= text::decimal(n / 10));
        assert(d[0] == text::decimal(n / 10)[0]);
    }
}

/// The decimal notation of a number is read back as the number, with a plus sign
/// before it too, and with a minus sign as its negative. A sign alone, and the
/// empty text, are no number.
pub proof fn law_whole_numbers_are_read_back(n: nat)
    ensures
        text::whole_number(text::decimal(n)) == Some(n as int),
        text::whole_number(seq!['+'] + text::decimal(n)) == Some(n as int),
        text::whole_number(seq!['-'] + text::decimal(n)) == Some(-(n as int)),
        text::whole_number(seq!['-']) is None,
        text::whole_number(seq!['+']) is None,
        text::whole_number(Seq::empty()) is None,
{
    law_decimals_denote_their_number(n);
    let d = text::decimal(n);
    assert(text::is_digit(d[0]));
    assert((seq!['+'] + d).skip(1) =~= d);
    assert((seq!['-'] + d).skip(1) =~= d);
}

/// A text is a whole number exactly where, behind one sign at most, it is digits
/// alone, and at least one.
pub proof fn law_whole_numbers_are_digits(s: Seq<char>)
    ensures
        text::whole_number(s) is Some <==> {
            let first: int = if s.len() > 0 && (s[0] == '-' || s[0] == '+') {
                1
            } else {
                0
            };
            &&& first < s.len()
            &&& forall|i: int| first <= i < s.len() ==> '0' <= #[trigger] s[i] && s[i] <= '9'
        },
{
    let first: int = if s.len() > 0 && (s[0] == '-' || s[0] == '+') {
        1
    } else {
        0
    };
    let rest = text::unsigned(s);
    assert(rest =~= s.skip(first));
    if text::all_digits(rest) {
        assert forall|i: int| first <= i < s.len() implies '0' <= #[trigger] s[i] && s[i] <= '9' by {
            assert(rest[i - first] == s[i]);
            assert(text::is_digit(rest[i - first]));
        }
    }
    if forall|i: int| first <= i < s.len() ==> '0' <= #[trigger] s[i] && s[i] <= '9' {
        assert forall|i: int| 0 <= i < rest.len() implies text::is_digit(#[trigger] rest[i]) by {
            assert(rest[i] == s[i + first]);
        }
    }
}

/// The bytes before a character are those of the characters before it; behind
/// the end there is only the end.
pub proof fn law_offsets_count_the_bytes_before(s: Seq<char>, i: int)
    ensures
        0 <= i <= s.len() ==> text::byte_offset(s, i) == text::byte_len(s.take(i)),
        i >= s.len() ==> text::byte_offset(s, i) == text::byte_len(s),
        text::byte_offset(s, 0) == 0,
{
    assert(s.take(s.len() as int) =~= s);
    assert(s.take(0) =~= Seq::<char>::empty());
    assert(vstd::utf8::encode_utf8(Seq::<char>::empty()) =~= Seq::<u8>::empty());
}

} // verus!
