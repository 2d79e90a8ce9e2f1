//! Field codec: the mapping between logical field values and wire tokens.
//!
//! A token is the text of one field of a message. Booleans travel as `"0"` or
//! `"1"`, integers as decimal text, strings as they are, and an absent optional
//! value as the empty token.

use vstd::prelude::*;

verus! {

/// The token that stands for a boolean.
pub open spec fn bool_token(value: bool) -> Seq<char> {
    if value {
        seq!['1']
    } else {
        seq!['0']
    }
}

/// The boolean that a token stands for, if any.
pub open spec fn parse_bool_token(token: Seq<char>) -> Option<bool> {
    if token =~= seq!['1'] {
        Some(true)
    } else if token =~= seq!['0'] {
        Some(false)
    } else {
        None
    }
}

/// Writing a boolean as a token and reading the token back gives the
/// boolean.
pub proof fn lemma_bool_token_round_trip(value: bool)
    ensures
        parse_bool_token(bool_token(value)) == Some(value),
{
    assert(seq!['0'][0] == '0');
    assert(seq!['1'][0] == '1');
}

/// A token is read as true exactly when it is `1`, as false exactly when it
/// is `0`, and as no boolean otherwise.
pub proof fn lemma_bool_token_exact(token: Seq<char>)
    ensures
        parse_bool_token(token) == Some(true) <==> token == seq!['1'],
        parse_bool_token(token) == Some(false) <==> token == seq!['0'],
        parse_bool_token(token) is None <==> token != seq!['1'] && token != seq!['0'],
{
    assert(seq!['0'][0] == '0');
    assert(seq!['1'][0] == '1');
    if token == seq!['1'] {
        assert(token =~= seq!['1']);
    }
    if token == seq!['0'] {
        assert(token =~= seq!['0']);
    }
}

/// Encodes a boolean as `"1"` or `"0"`.
pub fn encode_bool(value: bool) -> (token: String)
    ensures
        token@ == bool_token(value),
{
    proof {
        reveal_strlit("1");
        reveal_strlit("0");
    }
    if value {
        assert("1"@ =~= seq!['1']);
        String::from_str("1")
    } else {
        assert("0"@ =~= seq!['0']);
        String::from_str("0")
    }
}

/// Decodes a boolean token: `"1"` is true, `"0"` is false, nothing else is a
/// boolean.
pub fn decode_bool(token: &str) -> (value: Option<bool>)
    ensures
        value == parse_bool_token(token@),
{
    if token.unicode_len() != 1 {
        return None;
    }
    let c = token.get_char(0);
    if c == '1' {
        assert(token@ =~= seq!['1']);
        Some(true)
    } else if c == '0' {
        assert(token@ =~= seq!['0']);
        Some(false)
    } else {
        None
    }
}

/// Whether a character is one of the ten decimal digits.
pub open spec fn is_digit(c: char) -> bool {
    '0' <= c && c <= '9'
}

/// The value of a decimal digit.
pub open spec fn digit_value(c: char) -> int {
    c as int - '0' as int
}

/// The character of a digit value between 0 and 9.
pub open spec fn digit_char(d: int) -> char {
    if d == 0 {
        '0'
    } else if d == 1 {
        '1'
    } else if d == 2 {
        '2'
    } else if d == 3 {
        '3'
    } else if d == 4 {
        '4'
    } else if d == 5 {
        '5'
    } else if d == 6 {
        '6'
    } else if d == 7 {
        '7'
    } else if d == 8 {
        '8'
    } else {
        '9'
    }
}

/// Whether every character of a text is a decimal digit.
pub open spec fn all_digits(s: Seq<char>) -> bool {
    forall|i: int| 0 <= i < s.len() ==> is_digit(#[trigger] s[i])
}

/// The number that a run of decimal digits denotes, most significant first.
pub open spec fn digits_value(s: Seq<char>) -> int
    decreases s.len(),
{
    if s.len() == 0 {
        0
    } else {
        digits_value(s.drop_last()) * 10 + digit_value(s.last())
    }
}

/// The decimal digits of a natural number, without leading zeros.
pub open spec fn nat_digits(n: int) -> Seq<char>
    decreases n,
{
    if n < 10 {
        seq![digit_char(n)]
    } else {
        nat_digits(n / 10).push(digit_char(n % 10))
    }
}

/// The token that stands for an integer: its decimal digits, after a minus
/// sign when it is negative.
pub open spec fn int_token(value: int) -> Seq<char> {
    if value < 0 {
        seq!['-'] + nat_digits(-value)
    } else {
        nat_digits(value)
    }
}

/// The integer that a token stands for: an optional sign, then one or more
/// decimal digits and nothing else.
pub open spec fn parse_int_token(token: Seq<char>) -> Option<int> {
    let signed = token.len() > 0 && (token[0] == '-' || token[0] == '+');
    let digits = if signed {
        token.skip(1)
    } else {
        token
    };
    if digits.len() == 0 || !all_digits(digits) {
        None
    } else if signed && token[0] == '-' {
        Some(-digits_value(digits))
    } else {
        Some(digits_value(digits))
    }
}

/// The integer that a token stands for, if it lies between two bounds.
pub open spec fn parse_bounded_int(token: Seq<char>, low: int, high: int) -> Option<int> {
    match parse_int_token(token) {
        Some(value) => if low <= value <= high {
            Some(value)
        } else {
            None
        },
        None => None,
    }
}

/// A run of digits denotes no less than any of its prefixes.
pub proof fn lemma_digits_value_prefix(s: Seq<char>, k: int)
    requires
        all_digits(s),
        0 <= k <= s.len(),
    ensures
        0 <= digits_value(s.take(k)) <= digits_value(s),
    decreases s.len() - k,
{
    if k == s.len() {
        assert(s.take(k) =~= s);
        lemma_digits_value_nonnegative(s);
    } else {
        lemma_digits_value_prefix(s, k + 1);
        let longer = s.take(k + 1);
        assert(longer.drop_last() =~= s.take(k));
        assert(is_digit(s[k]));
        assert(longer.last() == s[k]);
        lemma_digits_value_nonnegative(s.take(k));
    }
}

/// A run of digits denotes a natural number.
pub proof fn lemma_digits_value_nonnegative(s: Seq<char>)
    requires
        all_digits(s),
    ensures
        0 <= digits_value(s),
    decreases s.len(),
{
    if s.len() > 0 {
        lemma_digits_value_nonnegative(s.drop_last());
        assert(is_digit(s.last()));
    }
}

/// The digits written for a natural number are digits, at least one of them,
/// and denote that number.
pub proof fn lemma_nat_digits(n: int)
    requires
        0 <= n,
    ensures
        nat_digits(n).len() >= 1,
        all_digits(nat_digits(n)),
        digits_value(nat_digits(n)) == n,
    decreases n,
{
    if n < 10 {
        let s = nat_digits(n);
        assert(s.drop_last() =~= Seq::<char>::empty());
        assert(digits_value(s.drop_last()) == 0);
    } else {
        lemma_nat_digits(n / 10);
        let s = nat_digits(n);
        assert(s.drop_last() =~= nat_digits(n / 10));
        assert(s.last() == digit_char(n % 10));
    }
}

/// Writing an integer as a token and reading the token back gives the
/// integer.
pub proof fn lemma_int_token_round_trip(value: int)
    ensures
        parse_int_token(int_token(value)) == Some(value),
{
    if value < 0 {
        lemma_nat_digits(-value);
        let token = int_token(value);
        assert(token[0] == '-');
        assert(token.skip(1) =~= nat_digits(-value));
    } else {
        lemma_nat_digits(value);
        let token = int_token(value);
        assert(is_digit(token[0]));
    }
}

/// Appends one character to a text.
///
/// Calls `String::push`, which appends the given character to the end of the
/// string; the contract says that and nothing more.
#[verifier::external_body]
pub(crate) fn push_char(text: &mut String, c: char)
    ensures
        final(text)@ == old(text)@.push(c),
{
    text.push(c);
}

fn digit_of(d: u64) -> (c: char)
    requires
        d < 10,
    ensures
        c == digit_char(d as int),
{
    if d == 0 {
        '0'
    } else if d == 1 {
        '1'
    } else if d == 2 {
        '2'
    } else if d == 3 {
        '3'
    } else if d == 4 {
        '4'
    } else if d == 5 {
        '5'
    } else if d == 6 {
        '6'
    } else if d == 7 {
        '7'
    } else if d == 8 {
        '8'
    } else {
        '9'
    }
}

fn push_nat_digits(text: &mut String, n: u64)
    ensures
        final(text)@ == old(text)@ + nat_digits(n as int),
    decreases n,
{
    if n >= 10 {
        push_nat_digits(text, n / 10);
    }
    push_char(text, digit_of(n % 10));
    assert(text@ =~= old(text)@ + nat_digits(n as int));
}

/// Encodes an integer as decimal text.
pub fn encode_int(value: i64) -> (token: String)
    ensures
        token@ == int_token(value as int),
{
    let mut token = String::new();
    if value < 0 {
        push_char(&mut token, '-');
        let magnitude: u64 = if value == i64::MIN {
            9223372036854775808u64
        } else {
            (-value) as u64
        };
        push_nat_digits(&mut token, magnitude);
        assert(token@ =~= seq!['-'] + nat_digits(-(value as int)));
    } else {
        push_nat_digits(&mut token, value as u64);
        assert(token@ =~= nat_digits(value as int));
    }
    token
}

/// Decodes decimal text into an integer between `low` and `high`.
///
/// The token is an optional sign followed by one or more digits; anything
/// else, and any number outside the bounds, is no value.
pub fn decode_integer(token: &str, low: i64, high: i64) -> (value: Option<i64>)
    ensures
        value == match parse_bounded_int(token@, low as int, high as int) {
            Some(v) => Some(v as i64),
            None => None,
        },
{
    let mut first = true;
    let mut signed = false;
    let mut negative = false;
    let mut any_digit = false;
    let mut magnitude: i128 = 0;
    let ghost text = token@;
    let ghost start = 0int;
    for c in it: token.chars()
        invariant
            it.seq() == text,
            text == token@,
            first == (it.index() == 0),
            signed == (it.index() > 0 && (text[0] == '-' || text[0] == '+')),
            negative == (signed && text[0] == '-'),
            start == (if signed { 1int } else { 0int }),
            start <= it.index(),
            any_digit == (start < it.index()),
            all_digits(text.subrange(start, it.index() as int)),
            magnitude == digits_value(text.subrange(start, it.index() as int)),
            0 <= magnitude <= 9223372036854775808,
    {
        let ghost k = it.index() as int;
        if first && (c == '-' || c == '+') {
            first = false;
            signed = true;
            negative = c == '-';
            proof {
                start = 1;
                assert(text.subrange(1, 1) =~= Seq::<char>::empty());
            }
        } else {
            first = false;
            let ghost digits = text.skip(start);
            assert(digits =~= (if signed { text.skip(1) } else { text }));
            if !(c >= '0' && c <= '9') {
                proof {
                    assert(digits[k - start] == c);
                    assert(!is_digit(digits[k - start]));
                    assert(!all_digits(digits));
                }
                return None;
            }
            let d: i128 = (c as u32 - '0' as u32) as i128;
            proof {
                let longer = text.subrange(start, k + 1);
                assert(longer.drop_last() =~= text.subrange(start, k));
                assert(longer.last() == c);
                assert(is_digit(c));
                assert forall|i: int| 0 <= i < longer.len() implies is_digit(
                    #[trigger] longer[i],
                ) by {
                    if i < longer.len() - 1 {
                        assert(longer[i] == text.subrange(start, k)[i]);
                    }
                }
            }
            magnitude = magnitude * 10 + d;
            any_digit = true;
            if magnitude > 9223372036854775808 {
                proof {
                    if all_digits(digits) {
                        lemma_digits_value_prefix(digits, k + 1 - start);
                        assert(digits.take(k + 1 - start) =~= text.subrange(start, k + 1));
                        assert(digits_value(digits) > 9223372036854775808);
                    }
                }
                return None;
            }
        }
    }
    let ghost digits = text.skip(start);
    proof {
        assert(digits =~= text.subrange(start, text.len() as int));
        assert(digits =~= (if signed { text.skip(1) } else { text }));
    }
    if !any_digit {
        return None;
    }
    let number: i128 = if negative {
        -magnitude
    } else {
        magnitude
    };
    assert(parse_int_token(text) == Some(number as int));
    if low as i128 <= number && number <= high as i128 {
        Some(number as i64)
    } else {
        None
    }
}

/// Decodes a 32-bit integer token.
pub fn decode_int(token: &str) -> (value: Option<i32>)
    ensures
        value == match parse_bounded_int(token@, i32::MIN as int, i32::MAX as int) {
            Some(v) => Some(v as i32),
            None => None,
        },
{
    match decode_integer(token, -2147483648, 2147483647) {
        Some(v) => Some(v as i32),
        None => None,
    }
}

/// Decodes a 64-bit integer token.
pub fn decode_long(token: &str) -> (value: Option<i64>)
    ensures
        value == match parse_bounded_int(token@, i64::MIN as int, i64::MAX as int) {
            Some(v) => Some(v as i64),
            None => None,
        },
{
    decode_integer(token, i64::MIN, i64::MAX)
}

/// The part of a numeric token that follows its optional sign.
pub open spec fn unsigned_part(token: Seq<char>) -> Seq<char> {
    if token.len() > 0 && (token[0] == '-' || token[0] == '+') {
        token.skip(1)
    } else {
        token
    }
}

/// Whether a token is decimal text: an optional sign, then digits with at
/// most one decimal point among them, and at least one digit.
pub open spec fn is_decimal_token(token: Seq<char>) -> bool {
    let body = unsigned_part(token);
    &&& forall|i: int| 0 <= i < body.len() ==> is_digit(#[trigger] body[i]) || body[i] == '.'
    &&& forall|i: int, j: int|
        0 <= i < j < body.len() ==> !(#[trigger] body[i] == '.' && #[trigger] body[j] == '.')
    &&& exists|i: int| 0 <= i < body.len() && is_digit(#[trigger] body[i])
}

/// Tells whether a token is decimal text.
pub fn check_decimal(token: &str) -> (ok: bool)
    ensures
        ok == is_decimal_token(token@),
{
    let mut first = true;
    let mut seen_point = false;
    let mut seen_digit = false;
    let ghost text = token@;
    let ghost start = 0int;
    let ghost point = 0int;
    let ghost digit = 0int;
    for c in it: token.chars()
        invariant
            it.seq() == text,
            text == token@,
            first == (it.index() == 0),
            start == (if it.index() > 0 && (text[0] == '-' || text[0] == '+') {
                1int
            } else {
                0int
            }),
            start <= it.index(),
            forall|i: int| start <= i < it.index() ==> is_digit(#[trigger] text[i]) || text[i] == '.',
            seen_point ==> start <= point < it.index() && text[point] == '.',
            forall|i: int|
                start <= i < it.index() && #[trigger] text[i] == '.' ==> seen_point && i == point,
            seen_digit ==> start <= digit < it.index() && is_digit(text[digit]),
            !seen_digit ==> forall|i: int| start <= i < it.index() ==> !is_digit(#[trigger] text[i]),
    {
        let ghost k = it.index() as int;
        if first && (c == '-' || c == '+') {
            first = false;
            proof {
                start = 1;
            }
        } else {
            first = false;
            let ghost body = unsigned_part(text);
            assert(body =~= text.skip(start));
            if c == '.' {
                if seen_point {
                    proof {
                        assert(body[point - start] == '.' && body[k - start] == '.');
                    }
                    return false;
                }
                seen_point = true;
                proof {
                    point = k;
                }
            } else if c >= '0' && c <= '9' {
                seen_digit = true;
                proof {
                    digit = k;
                }
            } else {
                proof {
                    assert(body[k - start] == c);
                }
                return false;
            }
        }
    }
    proof {
        let body = unsigned_part(text);
        assert(body =~= text.skip(start));
        if seen_digit {
            assert(is_digit(body[digit - start]));
        }
        assert forall|i: int, j: int| 0 <= i < j < body.len() implies !(#[trigger] body[i] == '.'
            && #[trigger] body[j] == '.') by {
            if body[i] == '.' && body[j] == '.' {
                assert(text[i + start] == '.');
                assert(text[j + start] == '.');
            }
        }
        assert forall|i: int| 0 <= i < body.len() implies is_digit(#[trigger] body[i]) || body[i]
            == '.' by {
            assert(body[i] == text[i + start]);
        }
        if !seen_digit {
            assert forall|i: int| 0 <= i < body.len() implies !is_digit(#[trigger] body[i]) by {
                assert(body[i] == text[i + start]);
            }
        }
    }
    seen_digit
}

} // verus!
