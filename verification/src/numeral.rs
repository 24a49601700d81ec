//! Verified decimal rendering and strict decimal parsing for the integer
//! scalar family: rendering never loses a digit, and parsing never truncates
//! or wraps — an out-of-range or malformed text is rejected, not bent.

use vstd::prelude::*;

verus! {

/// The character for the decimal digit `d`.
pub open spec fn digit_char(d: int) -> char {
    if d == 0 {
        '0'
    } else if d == 1 {
        '1'
    } else if d == 2 {
        '2'
    } else if d == 3 {
        '3'
    } else if d == 4 {
        '4'
    } else if d == 5 {
        '5'
    } else if d == 6 {
        '6'
    } else if d == 7 {
        '7'
    } else if d == 8 {
        '8'
    } else {
        '9'
    }
}

/// The value of a decimal digit character, `-1` for any other character.
pub open spec fn digit_val(c: char) -> int {
    if c == '0' {
        0
    } else if c == '1' {
        1
    } else if c == '2' {
        2
    } else if c == '3' {
        3
    } else if c == '4' {
        4
    } else if c == '5' {
        5
    } else if c == '6' {
        6
    } else if c == '7' {
        7
    } else if c == '8' {
        8
    } else if c == '9' {
        9
    } else {
        -1
    }
}

pub open spec fn is_digit_char(c: char) -> bool {
    digit_val(c) >= 0
}

pub open spec fn all_digits(s: Seq<char>) -> bool {
    forall|i: int| 0 <= i < s.len() ==> is_digit_char(s[i])
}

/// The decimal rendering of a natural number, most significant digit first.
pub open spec fn dec_digits(n: nat) -> Seq<char>
    decreases n,
{
    if n < 10 {
        seq![digit_char(n as int)]
    } else {
        dec_digits(n / 10).push(digit_char((n % 10) as int))
    }
}

/// The decimal rendering of an integer: a leading minus sign when negative.
pub open spec fn dec_int(n: int) -> Seq<char> {
    if n < 0 {
        seq!['-'] + dec_digits((-n) as nat)
    } else {
        dec_digits(n as nat)
    }
}

/// The numeric value of a sequence of decimal digit characters.
pub open spec fn digits_val(s: Seq<char>) -> int
    decreases s.len(),
{
    if s.len() == 0 {
        0
    } else {
        digits_val(s.drop_last()) * 10 + digit_val(s.last())
    }
}

/// Rendering a natural number gives a nonempty digit string whose value is
/// the number again: rendering loses nothing.
pub proof fn lemma_dec_digits_val(n: nat)
    ensures
        digits_val(dec_digits(n)) == n,
        all_digits(dec_digits(n)),
        dec_digits(n).len() >= 1,
    decreases n,
{
    if n < 10 {
        let s = dec_digits(n);
        assert(digit_val(digit_char(n as int)) == n);
        assert(s.drop_last() =~= Seq::<char>::empty());
        assert(digits_val(s.drop_last()) == 0);
        assert(s.last() == digit_char(n as int));
        assert(digits_val(s) == digit_val(digit_char(n as int)));
    } else {
        lemma_dec_digits_val(n / 10);
        let s = dec_digits(n);
        assert(digit_val(digit_char((n % 10) as int)) == (n % 10) as int);
        assert(s.drop_last() =~= dec_digits(n / 10));
        assert(s.last() == digit_char((n % 10) as int));
        assert(digits_val(s) == digits_val(dec_digits(n / 10)) * 10 + (n % 10));
        assert(n / 10 * 10 + n % 10 == n);
    }
}

/// Distinct numbers render to distinct digit strings.
pub proof fn lemma_dec_digits_injective(a: nat, b: nat)
    requires
        dec_digits(a) == dec_digits(b),
    ensures
        a == b,
{
    lemma_dec_digits_val(a);
    lemma_dec_digits_val(b);
}

/// A digit string's value is never negative.
pub proof fn lemma_digits_val_nonneg(s: Seq<char>)
    requires
        all_digits(s),
    ensures
        digits_val(s) >= 0,
    decreases s.len(),
{
    if s.len() > 0 {
        assert(all_digits(s.drop_last()));
        lemma_digits_val_nonneg(s.drop_last());
    }
}

/// A digit string is worth at least any of its prefixes: later digits can
/// only grow the value.
pub proof fn lemma_digits_val_prefix(s: Seq<char>, i: int)
    requires
        all_digits(s),
        0 <= i <= s.len(),
    ensures
        digits_val(s.take(i)) <= digits_val(s),
    decreases s.len() - i,
{
    if i < s.len() {
        lemma_digits_val_prefix(s, i + 1);
        assert(s.take(i + 1).drop_last() =~= s.take(i));
        assert(all_digits(s.take(i)));
        lemma_digits_val_nonneg(s.take(i));
        assert(digits_val(s.take(i + 1)) == digits_val(s.take(i)) * 10 + digit_val(s[i]));
    } else {
        assert(s.take(i) =~= s);
    }
}

/// The character for the decimal digit `d`, executable form.
fn digit_char_of(d: u64) -> (c: char)
    requires
        d < 10,
    ensures
        c == digit_char(d as int),
{
    if d == 0 {
        '0'
    } else if d == 1 {
        '1'
    } else if d == 2 {
        '2'
    } else if d == 3 {
        '3'
    } else if d == 4 {
        '4'
    } else if d == 5 {
        '5'
    } else if d == 6 {
        '6'
    } else if d == 7 {
        '7'
    } else if d == 8 {
        '8'
    } else {
        '9'
    }
}

/// The value of a decimal digit character, executable form.
fn digit_val_of(c: char) -> (d: i32)
    ensures
        d == digit_val(c),
{
    if c == '0' {
        0
    } else if c == '1' {
        1
    } else if c == '2' {
        2
    } else if c == '3' {
        3
    } else if c == '4' {
        4
    } else if c == '5' {
        5
    } else if c == '6' {
        6
    } else if c == '7' {
        7
    } else if c == '8' {
        8
    } else if c == '9' {
        9
    } else {
        -1
    }
}

/// Renders an unsigned number in decimal.
pub fn u64_to_dec(m: u64) -> (r: String)
    ensures
        r@ == dec_digits(m as nat),
    decreases m,
{
    if m < 10 {
        let mut s = String::new();
        s.push(digit_char_of(m));
        proof {
            assert(s@ =~= dec_digits(m as nat));
        }
        s
    } else {
        let mut s = u64_to_dec(m / 10);
        s.push(digit_char_of(m % 10));
        s
    }
}

/// Renders a signed number in decimal, with a leading minus when negative.
pub fn i64_to_dec(n: i64) -> (r: String)
    ensures
        r@ == dec_int(n as int),
{
    proof {
        reveal_strlit("-");
    }
    if n >= 0 {
        u64_to_dec(n as u64)
    } else {
        let magnitude: u64 = if n == i64::MIN {
            9223372036854775808u64
        } else {
            (-n) as u64
        };
        let mut s = String::from_str("-");
        let digits = u64_to_dec(magnitude);
        s.append(digits.as_str());
        proof {
            assert(s@ =~= dec_int(n as int));
        }
        s
    }
}

/// What strict decimal parsing yields: the exact value of an optionally
/// minus-signed, nonempty, all-digit text when that value fits in the signed
/// 64-bit range (leading zeroes allowed), and nothing otherwise — never a
/// truncated or wrapped number.
pub open spec fn spec_parse_i64(s: Seq<char>) -> Option<i64> {
    if s.len() >= 1 && all_digits(s) {
        if digits_val(s) <= i64::MAX {
            Some(digits_val(s) as i64)
        } else {
            None
        }
    } else if s.len() >= 2 && s[0] == '-' && all_digits(s.subrange(1, s.len() as int)) {
        if digits_val(s.subrange(1, s.len() as int)) <= 9223372036854775808 {
            Some((-digits_val(s.subrange(1, s.len() as int))) as i64)
        } else {
            None
        }
    } else {
        None
    }
}

/// Rendering an integer and parsing the text strictly gives the integer
/// back: the decimal round trip loses nothing.
pub proof fn lemma_parse_dec_int(n: int)
    requires
        i64::MIN <= n <= i64::MAX,
    ensures
        spec_parse_i64(dec_int(n)) == Some(n as i64),
{
    if n >= 0 {
        lemma_dec_digits_val(n as nat);
    } else {
        lemma_dec_digits_val((-n) as nat);
        let s = dec_int(n);
        assert(s[0] == '-');
        assert(!is_digit_char(s[0]));
        assert(!all_digits(s));
        assert(s.subrange(1, s.len() as int) =~= dec_digits((-n) as nat));
    }
}

/// A rendered integer is never the `NULL` sentinel: its first character is a
/// digit or a minus sign, never a letter.
pub proof fn lemma_dec_int_not_sentinel(n: int)
    ensures
        dec_int(n) != "NULL"@,
{
    reveal_strlit("NULL");
    if n >= 0 {
        lemma_dec_digits_val(n as nat);
        if dec_int(n) == "NULL"@ {
            assert(is_digit_char(dec_digits(n as nat)[0]));
        }
    } else {
        assert(dec_int(n)[0] == '-');
    }
}

/// Accumulates the value of the digit region `s[from..]`, refusing any
/// non-digit and any value above `limit`.
fn parse_digit_region(s: &str, from: usize, limit: u64) -> (r: Option<u64>)
    requires
        from < s@.len(),
    ensures
        match r {
            Some(v) => all_digits(s@.subrange(from as int, s@.len() as int)) && v
                == digits_val(s@.subrange(from as int, s@.len() as int)) && v <= limit,
            None => !all_digits(s@.subrange(from as int, s@.len() as int)) || digits_val(
                s@.subrange(from as int, s@.len() as int),
            ) > limit,
        },
{
    let ghost region = s@.subrange(from as int, s@.len() as int);
    let len = s.unicode_len();
    let mut acc: u128 = 0;
    let mut i: usize = from;
    while i < len
        invariant
            from <= i <= len,
            len == s@.len(),
            from < len,
            region == s@.subrange(from as int, s@.len() as int),
            all_digits(region.take(i - from)),
            acc == digits_val(region.take(i - from)),
            acc <= limit,
        decreases len - i,
    {
        let c = s.get_char(i);
        let d = digit_val_of(c);
        proof {
            assert(region[i - from] == s@[i as int]);
        }
        if d < 0 {
            proof {
                assert(!is_digit_char(region[i - from]));
            }
            return None;
        }
        proof {
            lemma_digits_val_nonneg(region.take(i - from));
            assert(region.take(i - from + 1).drop_last() =~= region.take(i - from));
        }
        acc = acc * 10 + (d as u128);
        if acc > limit as u128 {
            proof {
                assert(all_digits(region.take(i - from + 1)));
                // a too-large prefix can only grow: the whole region is
                // over the limit if it is all digits at all
                if all_digits(region) {
                    lemma_digits_val_prefix(region, i - from + 1);
                    assert(digits_val(region) > limit);
                }
            }
            return None;
        }
        i = i + 1;
    }
    proof {
        assert(region.take(len - from) =~= region);
    }
    Some(acc as u64)
}

/// Parses a decimal text strictly: exactly an optional leading minus and
/// decimal digits, with the value in the signed 64-bit range; anything else
/// — empty text, a stray character, a value out of range — is refused
/// rather than truncated or wrapped.
pub fn parse_i64(s: &str) -> (r: Option<i64>)
    ensures
        r == spec_parse_i64(s@),
{
    let len = s.unicode_len();
    if len == 0 {
        return None;
    }
    let negative = s.get_char(0) == '-';
    if negative {
        if len == 1 {
            proof {
                assert(s@.len() < 1 || !all_digits(s@) || digit_val(s@[0]) >= 0);
                assert(!all_digits(s@) ==> spec_parse_i64(s@) is None);
            }
            return None;
        }
        match parse_digit_region(s, 1, 9223372036854775808u64) {
            Some(v) => {
                proof {
                    assert(!is_digit_char(s@[0]));
                    assert(!all_digits(s@));
                }
                if v == 9223372036854775808u64 {
                    Some(i64::MIN)
                } else {
                    Some(-(v as i64))
                }
            },
            None => {
                proof {
                    assert(!is_digit_char(s@[0]));
                    assert(!all_digits(s@));
                }
                None
            },
        }
    } else {
        match parse_digit_region(s, 0, i64::MAX as u64) {
            Some(v) => {
                proof {
                    assert(s@.subrange(0, s@.len() as int) =~= s@);
                }
                Some(v as i64)
            },
            None => {
                proof {
                    assert(s@.subrange(0, s@.len() as int) =~= s@);
                    assert(s@[0] != '-');
                }
                None
            },
        }
    }
}

} // verus!
