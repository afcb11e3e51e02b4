//! Identifiers in request paths: a quiz or session is named in the path by
//! its number, written in decimal with the grammar that Rust's `i32` parsing
//! accepts (an optional `+` or `-`, then at least one ASCII digit, and a
//! value that fits in an `i32`).

use vstd::prelude::*;

verus! {

/// Whether `c` is an ASCII decimal digit.
pub open spec fn is_digit(c: char) -> bool {
    '0' <= c && c <= '9'
}

/// Whether every character of `s` is an ASCII decimal digit.
pub open spec fn all_digits(s: Seq<char>) -> bool {
    forall|i: int| 0 <= i < s.len() ==> is_digit(#[trigger] s[i])
}

/// The number that a string of decimal digits denotes.
pub open spec fn decimal_value(s: Seq<char>) -> int
    decreases s.len(),
{
    if s.len() == 0 {
        0
    } else {
        10 * decimal_value(s.drop_last()) + (s.last() as int - '0' as int)
    }
}

/// Whether `s` starts with a sign character.
pub open spec fn has_sign(s: Seq<char>) -> bool {
    s.len() > 0 && (s[0] == '+' || s[0] == '-')
}

/// The digits of `s` after its sign, if it has one.
pub open spec fn unsigned_part(s: Seq<char>) -> Seq<char> {
    if has_sign(s) { s.drop_first() } else { s }
}

/// The signed number that `s` denotes, where its unsigned part is all digits.
pub open spec fn signed_value(s: Seq<char>) -> int {
    if s.len() > 0 && s[0] == '-' {
        -decimal_value(unsigned_part(s))
    } else {
        decimal_value(unsigned_part(s))
    }
}

/// The identifier that `s` denotes: none where `s` is empty, holds anything
/// but digits after an optional sign, or denotes a number outside `i32`.
pub open spec fn parsed_id(s: Seq<char>) -> Option<i32> {
    let digits = unsigned_part(s);
    if digits.len() == 0 || !all_digits(digits) {
        None
    } else if i32::MIN <= signed_value(s) <= i32::MAX {
        Some(signed_value(s) as i32)
    } else {
        None
    }
}

proof fn lemma_decimal_value_nonneg(s: Seq<char>)
    requires
        all_digits(s),
    ensures
        decimal_value(s) >= 0,
    decreases s.len(),
{
    if s.len() > 0 {
        assert(all_digits(s.drop_last()));
        lemma_decimal_value_nonneg(s.drop_last());
        assert(is_digit(s[s.len() - 1]));
    }
}

/// A single ASCII digit `'0'..='9'` is read as its value.
pub proof fn lemma_single_digit(c: char)
    requires
        '0' <= c && c <= '9',
    ensures
        parsed_id(seq![c]) == Some((c as int - '0' as int) as i32),
{
    let s = seq![c];
    assert(!has_sign(s));
    assert(unsigned_part(s) == s);
    assert(s.drop_last() =~= Seq::<char>::empty());
    assert(decimal_value(s.drop_last()) == 0);
    assert(s.last() == c);
    assert(decimal_value(s) == c as int - '0' as int);
    assert(all_digits(s));
}

/// Appending an ASCII digit `'0'..='9'` to a string of digits that reads as
/// `v` reads as `10 * v` plus that digit's value, where that fits in an
/// `i32`; where it does not, nothing is read.
pub proof fn lemma_append_digit(s: Seq<char>, c: char, v: i32)
    requires
        s.len() > 0,
        forall|i: int| 0 <= i < s.len() ==> '0' <= #[trigger] s[i] && s[i] <= '9',
        '0' <= c && c <= '9',
        parsed_id(s) == Some(v),
    ensures
        10 * v + (c as int - '0' as int) <= i32::MAX ==> parsed_id(s.push(c)) == Some(
            (10 * v + (c as int - '0' as int)) as i32,
        ),
        10 * v + (c as int - '0' as int) > i32::MAX ==> parsed_id(s.push(c)) is None,
{
    let t = s.push(c);
    assert(!has_sign(s));
    assert(!has_sign(t));
    assert(unsigned_part(s) == s);
    assert(unsigned_part(t) == t);
    assert(t.drop_last() =~= s);
    assert(all_digits(s));
    assert(all_digits(t)) by {
        assert forall|i: int| 0 <= i < t.len() implies is_digit(#[trigger] t[i]) by {
            if i < s.len() {
                assert(t[i] == s[i]);
            }
        }
    }
    assert(decimal_value(t) == 10 * decimal_value(s) + (c as int - '0' as int));
    assert(signed_value(s) == decimal_value(s));
    assert(signed_value(t) == decimal_value(t));
    lemma_decimal_value_nonneg(t);
}

/// A string of digits that is not read stays unread when a digit is
/// appended (its value only grows).
pub proof fn lemma_append_digit_to_unread(s: Seq<char>, c: char)
    requires
        s.len() > 0,
        forall|i: int| 0 <= i < s.len() ==> '0' <= #[trigger] s[i] && s[i] <= '9',
        '0' <= c && c <= '9',
        parsed_id(s) is None,
    ensures
        parsed_id(s.push(c)) is None,
{
    let t = s.push(c);
    assert(unsigned_part(s) == s);
    assert(unsigned_part(t) == t);
    assert(t.drop_last() =~= s);
    assert(all_digits(s));
    assert(all_digits(t)) by {
        assert forall|i: int| 0 <= i < t.len() implies is_digit(#[trigger] t[i]) by {
            if i < s.len() {
                assert(t[i] == s[i]);
            }
        }
    }
    lemma_decimal_value_nonneg(s);
    assert(decimal_value(t) == 10 * decimal_value(s) + (c as int - '0' as int));
}

/// A leading `+` keeps the value of a string of digits, and a leading `-`
/// negates it.
pub proof fn lemma_sign(s: Seq<char>, v: i32)
    requires
        s.len() > 0,
        forall|i: int| 0 <= i < s.len() ==> '0' <= #[trigger] s[i] && s[i] <= '9',
        parsed_id(s) == Some(v),
    ensures
        parsed_id(seq!['+'] + s) == Some(v),
        parsed_id(seq!['-'] + s) == Some(-v as i32),
{
    assert(unsigned_part(s) == s);
    assert(unsigned_part(seq!['+'] + s) =~= s);
    assert(unsigned_part(seq!['-'] + s) =~= s);
    assert(all_digits(s));
    lemma_decimal_value_nonneg(s);
}

/// A non-empty string of ASCII digits reads as its decimal value where that
/// is at most `i32::MAX`, and as nothing otherwise; with a leading `-` it
/// reads as the negated value where that is at least `i32::MIN`
/// (so down to -2147483648), and as nothing otherwise.
pub proof fn lemma_digits_read_as_decimal(s: Seq<char>)
    requires
        s.len() > 0,
        forall|i: int| 0 <= i < s.len() ==> '0' <= #[trigger] s[i] && s[i] <= '9',
    ensures
        decimal_value(s) <= i32::MAX ==> parsed_id(s) == Some(decimal_value(s) as i32),
        decimal_value(s) > i32::MAX ==> parsed_id(s) is None,
        decimal_value(s) <= 2147483648 ==> parsed_id(seq!['-'] + s) == Some((-decimal_value(s)) as i32),
        decimal_value(s) > 2147483648 ==> parsed_id(seq!['-'] + s) is None,
{
    assert(unsigned_part(s) == s);
    let t = seq!['-'] + s;
    assert(unsigned_part(t) =~= s);
    assert(t[0] == '-');
    assert(all_digits(s));
    lemma_decimal_value_nonneg(s);
}

/// Nothing is read from an empty string, from a lone sign, or from a string
/// holding, after an optional sign, anything but an ASCII digit.
pub proof fn lemma_unreadable(s: Seq<char>)
    ensures
        s.len() == 0 ==> parsed_id(s) is None,
        s == seq!['+'] || s == seq!['-'] ==> parsed_id(s) is None,
        (exists|i: int|
            (if has_sign(s) { 1int } else { 0int }) <= i < s.len() && !('0' <= #[trigger] s[i] && s[i] <= '9'))
            ==> parsed_id(s) is None,
{
    if s == seq!['+'] || s == seq!['-'] {
        assert(unsigned_part(s) =~= Seq::<char>::empty());
    }
    if exists|i: int|
        (if has_sign(s) { 1int } else { 0int }) <= i < s.len() && !('0' <= #[trigger] s[i] && s[i] <= '9') {
        let i = choose|i: int|
            (if has_sign(s) { 1int } else { 0int }) <= i < s.len() && !('0' <= #[trigger] s[i] && s[i] <= '9');
        let d = unsigned_part(s);
        let j = if has_sign(s) { i - 1 } else { i };
        assert(d[j] == s[i]);
        assert(!is_digit(d[j]));
    }
}

/// A value larger than any magnitude that fits in an `i32`.
const CAP: i64 = 2147483649;

/// Reads the identifier that `text` denotes, as Rust's `i32` parsing would.
pub fn parse_id(text: &str) -> (r: Option<i32>)
    ensures
        r == parsed_id(text@),
{
    let n = text.unicode_len();
    if n == 0 {
        return None;
    }
    let first = text.get_char(0);
    let negative = first == '-';
    let start: usize = if first == '+' || first == '-' { 1 } else { 0 };
    let ghost digits = unsigned_part(text@);
    assert(digits =~= text@.subrange(start as int, n as int));
    if start == n {
        return None;
    }
    let mut acc: i64 = 0;
    let mut i: usize = start;
    assert(text@.subrange(start as int, i as int) =~= Seq::<char>::empty());
    while i < n
        invariant
            start <= i <= n,
            n == text@.len(),
            digits == text@.subrange(start as int, n as int),
            digits == unsigned_part(text@),
            negative == (text@[0] == '-'),
            all_digits(text@.subrange(start as int, i as int)),
            0 <= acc <= CAP,
            decimal_value(text@.subrange(start as int, i as int)) < CAP ==> acc == decimal_value(
                text@.subrange(start as int, i as int),
            ),
            decimal_value(text@.subrange(start as int, i as int)) >= CAP ==> acc == CAP,
        decreases n - i,
    {
        let c = text.get_char(i);
        if !('0' <= c && c <= '9') {
            assert(!is_digit(c));
            assert(digits[i - start] == c);
            assert(!all_digits(digits));
            return None;
        }
        let ghost prefix = text@.subrange(start as int, i as int);
        let ghost next = text@.subrange(start as int, i + 1);
        assert(next.drop_last() =~= prefix);
        assert(next.last() == c);
        proof {
            lemma_decimal_value_nonneg(prefix);
        }
        let d: i64 = (c as u32 - '0' as u32) as i64;
        assert(d == c as int - '0' as int);
        let grown = acc * 10 + d;
        acc = if grown > CAP { CAP } else { grown };
        assert(all_digits(next)) by {
            assert forall|k: int| 0 <= k < next.len() implies is_digit(#[trigger] next[k]) by {
                if k < prefix.len() {
                    assert(next[k] == prefix[k]);
                }
            }
        }
        i = i + 1;
    }
    assert(text@.subrange(start as int, i as int) == digits);
    if acc == CAP {
        return None;
    }
    if negative {
        Some((0 - acc) as i32)
    } else if acc > 2147483647 {
        None
    } else {
        Some(acc as i32)
    }
}

} // verus!
