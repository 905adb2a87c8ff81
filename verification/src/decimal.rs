//! Decimal rendering and parsing of the integers that cross the wire: node
//! identifiers and the counter values stored in the key-value service.

use vstd::prelude::*;

verus! {

/// The numeric value of a decimal digit character, or 10 for any other char.
pub open spec fn digit_val(c: char) -> nat {
    if c == '0' {
        0
    } else if c == '1' {
        1
    } else if c == '2' {
        2
    } else if c == '3' {
        3
    } else if c == '4' {
        4
    } else if c == '5' {
        5
    } else if c == '6' {
        6
    } else if c == '7' {
        7
    } else if c == '8' {
        8
    } else if c == '9' {
        9
    } else {
        10
    }
}

pub open spec fn is_digit(c: char) -> bool {
    digit_val(c) < 10
}

/// The digit character for a value below ten.
pub open spec fn spec_digit(d: nat) -> char {
    if d == 0 {
        '0'
    } else if d == 1 {
        '1'
    } else if d == 2 {
        '2'
    } else if d == 3 {
        '3'
    } else if d == 4 {
        '4'
    } else if d == 5 {
        '5'
    } else if d == 6 {
        '6'
    } else if d == 7 {
        '7'
    } else if d == 8 {
        '8'
    } else {
        '9'
    }
}

/// The canonical decimal rendering of a natural number (no leading zeros).
pub open spec fn spec_udec(n: nat) -> Seq<char>
    decreases n,
{
    if n < 10 {
        seq![spec_digit(n)]
    } else {
        spec_udec(n / 10).push(spec_digit(n % 10))
    }
}

/// The canonical decimal rendering of a signed integer.
pub open spec fn spec_idec(v: int) -> Seq<char> {
    if v < 0 {
        seq!['-'] + spec_udec((-v) as nat)
    } else {
        spec_udec(v as nat)
    }
}

pub open spec fn all_digits(s: Seq<char>) -> bool {
    forall|i: int| 0 <= i < s.len() ==> is_digit(#[trigger] s[i])
}

/// The value of a digit string, most significant digit first.
pub open spec fn dec_value(s: Seq<char>) -> nat
    decreases s.len(),
{
    if s.len() == 0 {
        0
    } else {
        dec_value(s.drop_last()) * 10 + digit_val(s.last())
    }
}

pub proof fn lemma_udec_is_digits(n: nat)
    ensures
        spec_udec(n).len() >= 1,
        all_digits(spec_udec(n)),
    decreases n,
{
    if n >= 10 {
        lemma_udec_is_digits(n / 10);
    }
}

/// Rendering then evaluating a natural number gives the number back.
pub proof fn lemma_udec_value(n: nat)
    ensures
        dec_value(spec_udec(n)) == n,
    decreases n,
{
    if n < 10 {
        let s = spec_udec(n);
        assert(s.drop_last() =~= Seq::<char>::empty());
        assert(dec_value(s) == dec_value(s.drop_last()) * 10 + digit_val(s.last()));
    } else {
        lemma_udec_value(n / 10);
        let s = spec_udec(n);
        assert(s.drop_last() =~= spec_udec(n / 10));
        assert(dec_value(s) == dec_value(s.drop_last()) * 10 + digit_val(s.last()));
        assert((n / 10) * 10 + n % 10 == n) by (nonlinear_arith);
    }
}

/// A longer digit-string prefix never has a smaller value.
pub proof fn lemma_dec_value_take_monotonic(s: Seq<char>, i: int, j: int)
    requires
        0 <= i <= j <= s.len(),
    ensures
        dec_value(s.take(i)) <= dec_value(s.take(j)),
    decreases j - i,
{
    if i < j {
        lemma_dec_value_take_monotonic(s, i, j - 1);
        assert(s.take(j).drop_last() =~= s.take(j - 1));
        assert(dec_value(s.take(j)) == dec_value(s.take(j - 1)) * 10 + digit_val(s.take(j).last()));
    }
}

fn digit_of(c: char) -> (d: u32)
    ensures
        d == digit_val(c),
{
    if c == '0' {
        0
    } else if c == '1' {
        1
    } else if c == '2' {
        2
    } else if c == '3' {
        3
    } else if c == '4' {
        4
    } else if c == '5' {
        5
    } else if c == '6' {
        6
    } else if c == '7' {
        7
    } else if c == '8' {
        8
    } else if c == '9' {
        9
    } else {
        10
    }
}

fn digit_str(d: u64) -> (s: &'static str)
    requires
        d < 10,
    ensures
        s@ =~= seq![spec_digit(d as nat)],
{
    proof {
        reveal_strlit("0");
        reveal_strlit("1");
        reveal_strlit("2");
        reveal_strlit("3");
        reveal_strlit("4");
        reveal_strlit("5");
        reveal_strlit("6");
        reveal_strlit("7");
        reveal_strlit("8");
        reveal_strlit("9");
    }
    if d == 0 {
        "0"
    } else if d == 1 {
        "1"
    } else if d == 2 {
        "2"
    } else if d == 3 {
        "3"
    } else if d == 4 {
        "4"
    } else if d == 5 {
        "5"
    } else if d == 6 {
        "6"
    } else if d == 7 {
        "7"
    } else if d == 8 {
        "8"
    } else {
        "9"
    }
}

/// Renders an unsigned integer in decimal.
pub fn u64_to_dec(n: u64) -> (s: String)
    ensures
        s@ == spec_udec(n as nat),
    decreases n,
{
    if n < 10 {
        String::from_str(digit_str(n))
    } else {
        let prefix = u64_to_dec(n / 10);
        let s = prefix.concat(digit_str(n % 10));
        proof {
            assert(s@ =~= spec_udec((n / 10) as nat).push(spec_digit((n % 10) as nat)));
        }
        s
    }
}

/// Renders a signed integer in decimal, with a leading minus sign if negative.
pub fn i64_to_dec(v: i64) -> (s: String)
    ensures
        s@ == spec_idec(v as int),
{
    if v >= 0 {
        u64_to_dec(v as u64)
    } else {
        let mag: u64 = if v == i64::MIN {
            9223372036854775808u64
        } else {
            (-v) as u64
        };
        assert(mag as int == -(v as int));
        let s = String::from_str("-").concat(u64_to_dec(mag).as_str());
        proof {
            reveal_strlit("-");
            assert(s@ =~= seq!['-'] + spec_udec(mag as nat));
        }
        s
    }
}

/// Parses an unsigned decimal string. Returns the value exactly when the
/// string is non-empty, all digits, and the value fits in a `u64`.
pub fn parse_u64(s: &str) -> (r: Option<u64>)
    ensures
        r is Some <==> s@.len() > 0 && all_digits(s@) && dec_value(s@) <= u64::MAX,
        r is Some ==> r->0 == dec_value(s@),
{
    let len = s.unicode_len();
    if len == 0 {
        return None;
    }
    let mut acc: u64 = 0;
    let mut i: usize = 0;
    while i < len
        invariant
            0 < len == s@.len(),
            0 <= i <= len,
            all_digits(s@.take(i as int)),
            acc == dec_value(s@.take(i as int)),
        decreases len - i,
    {
        let c = s.get_char(i);
        let d = digit_of(c);
        if d >= 10 {
            assert(!is_digit(s@[i as int]));
            return None;
        }
        if acc > (u64::MAX - d as u64) / 10 {
            proof {
                assert(s@.take(i as int + 1).drop_last() =~= s@.take(i as int));
                assert(dec_value(s@.take(i as int + 1)) > u64::MAX);
                lemma_dec_value_take_monotonic(s@, i as int + 1, s@.len() as int);
                assert(s@.take(s@.len() as int) =~= s@);
            }
            return None;
        }
        acc = acc * 10 + d as u64;
        proof {
            assert(s@.take(i as int + 1).drop_last() =~= s@.take(i as int));
            assert(s@.take(i as int + 1).last() == s@[i as int]);
        }
        i = i + 1;
    }
    proof {
        assert(s@.take(len as int) =~= s@);
    }
    Some(acc)
}

/// Parses an unsigned decimal string into a `u32`.
pub fn parse_u32(s: &str) -> (r: Option<u32>)
    ensures
        r is Some <==> s@.len() > 0 && all_digits(s@) && dec_value(s@) <= u32::MAX,
        r is Some ==> r->0 == dec_value(s@),
{
    match parse_u64(s) {
        None => None,
        Some(v) => {
            if v <= u32::MAX as u64 {
                Some(v as u32)
            } else {
                None
            }
        },
    }
}

/// Whether a string is an optional minus sign followed by digits, with a
/// value that fits in an `i64`.
pub open spec fn parses_as_i64(s: Seq<char>) -> bool {
    if s.len() > 0 && s[0] == '-' {
        s.len() > 1 && all_digits(s.skip(1)) && dec_value(s.skip(1)) <= 0x8000_0000_0000_0000
    } else {
        s.len() > 0 && all_digits(s) && dec_value(s) <= i64::MAX
    }
}

/// The signed value of such a string.
pub open spec fn spec_i64_value(s: Seq<char>) -> int {
    if s.len() > 0 && s[0] == '-' {
        -(dec_value(s.skip(1)) as int)
    } else {
        dec_value(s) as int
    }
}

/// Parses a signed decimal string: an optional leading minus sign, then
/// digits. Returns the value exactly when it fits in an `i64`.
pub fn parse_i64(s: &str) -> (r: Option<i64>)
    ensures
        r is Some <==> parses_as_i64(s@),
        r is Some ==> r->0 as int == spec_i64_value(s@),
{
    let len = s.unicode_len();
    if len == 0 {
        return None;
    }
    if s.get_char(0) == '-' {
        let digits = s.substring_char(1, len);
        proof {
            assert(digits@ =~= s@.skip(1));
        }
        match parse_u64(digits) {
            None => None,
            Some(mag) => {
                if mag > 0x8000_0000_0000_0000u64 {
                    None
                } else if mag == 0x8000_0000_0000_0000u64 {
                    Some(i64::MIN)
                } else {
                    Some(-(mag as i64))
                }
            },
        }
    } else {
        match parse_u64(s) {
            None => None,
            Some(v) => {
                if v <= i64::MAX as u64 {
                    Some(v as i64)
                } else {
                    None
                }
            },
        }
    }
}

/// Rendering an `i64` and parsing the result gives the value back.
pub proof fn lemma_idec_round_trip(v: i64)
    ensures
        parses_as_i64(spec_idec(v as int)),
        spec_i64_value(spec_idec(v as int)) == v,
{
    if v >= 0 {
        let s = spec_idec(v as int);
        lemma_udec_is_digits(v as nat);
        lemma_udec_value(v as nat);
        assert(is_digit(s[0]));
    } else {
        let mag = (-(v as int)) as nat;
        let s = spec_idec(v as int);
        lemma_udec_is_digits(mag);
        lemma_udec_value(mag);
        assert(s.skip(1) =~= spec_udec(mag));
    }
}

} // verus!
