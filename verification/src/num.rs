//! Decimal numerals as the wire format writes and reads them: a canonical
//! printer and a greedy parser over character sequences, with the round-trip
//! laws the message codec relies on.
use vstd::prelude::*;

verus! {

pub open spec fn is_digit(c: char) -> bool {
    48 <= c as u32 <= 57
}

pub open spec fn digit_val(c: char) -> int {
    c as u32 - 48
}

/// The digit character for one value 0..=9.
pub open spec fn digit_char(d: int) -> char {
    if d == 0 {
        '0'
    } else if d == 1 {
        '1'
    } else if d == 2 {
        '2'
    } else if d == 3 {
        '3'
    } else if d == 4 {
        '4'
    } else if d == 5 {
        '5'
    } else if d == 6 {
        '6'
    } else if d == 7 {
        '7'
    } else if d == 8 {
        '8'
    } else {
        '9'
    }
}

/// Canonical decimal numeral of a natural number: no sign, no leading zero
/// except for zero itself.
pub open spec fn dec_nat(n: nat) -> Seq<char>
    decreases n,
{
    if n < 10 {
        seq![digit_char(n as int)]
    } else {
        dec_nat(n / 10).push(digit_char((n % 10) as int))
    }
}

/// Canonical decimal numeral of an integer.
pub open spec fn dec_int(i: int) -> Seq<char> {
    if i < 0 {
        seq!['-'] + dec_nat((-i) as nat)
    } else {
        dec_nat(i as nat)
    }
}

/// The value of a digit string, most significant digit first.
pub open spec fn digits_val(ds: Seq<char>) -> int
    decreases ds.len(),
{
    if ds.len() == 0 {
        0
    } else {
        digits_val(ds.drop_last()) * 10 + digit_val(ds.last())
    }
}

/// Index of the first non-digit at or after `i` (or the end of `s`).
pub open spec fn digits_end(s: Seq<char>, i: int) -> int
    decreases s.len() - i,
{
    if i < 0 || i >= s.len() || !is_digit(s[i]) {
        i
    } else {
        digits_end(s, i + 1)
    }
}

/// Greedy parse of an unsigned numeral at `i`: its value and the position
/// after it; nothing if no digit stands at `i`.
pub open spec fn parse_digits(s: Seq<char>, i: int) -> Option<(int, int)> {
    let j = digits_end(s, i);
    if j > i {
        Some((digits_val(s.subrange(i, j)), j))
    } else {
        None
    }
}

/// Greedy parse of an optionally negated numeral at `i`.
pub open spec fn parse_int(s: Seq<char>, i: int) -> Option<(int, int)> {
    if 0 <= i < s.len() && s[i] == '-' {
        match parse_digits(s, i + 1) {
            Some((v, j)) => Some((-v, j)),
            None => None,
        }
    } else {
        parse_digits(s, i)
    }
}

pub proof fn lemma_dec_nat_shape(n: nat)
    ensures
        dec_nat(n).len() >= 1,
        forall|k: int| 0 <= k < dec_nat(n).len() ==> is_digit(#[trigger] dec_nat(n)[k]),
    decreases n,
{
    if n < 10 {
        lemma_digit_char_val(n as int);
    } else {
        lemma_dec_nat_shape(n / 10);
        lemma_digit_char_val((n % 10) as int);
    }
}

/// Each digit character carries its own value.
pub proof fn lemma_digit_char_val(d: int)
    requires
        0 <= d <= 9,
    ensures
        digit_val(digit_char(d)) == d,
        is_digit(digit_char(d)),
{
    assert('0' as u32 == 48);
    assert('1' as u32 == 49);
    assert('2' as u32 == 50);
    assert('3' as u32 == 51);
    assert('4' as u32 == 52);
    assert('5' as u32 == 53);
    assert('6' as u32 == 54);
    assert('7' as u32 == 55);
    assert('8' as u32 == 56);
    assert('9' as u32 == 57);
}

pub proof fn lemma_dec_nat_val(n: nat)
    ensures
        digits_val(dec_nat(n)) == n,
    decreases n,
{
    if n < 10 {
        let ds = dec_nat(n);
        lemma_digit_char_val(n as int);
        assert(ds.drop_last() =~= Seq::<char>::empty());
        assert(digits_val(ds) == digits_val(ds.drop_last()) * 10 + digit_val(ds.last()));
    } else {
        lemma_dec_nat_val(n / 10);
        lemma_digit_char_val((n % 10) as int);
        let ds = dec_nat(n);
        assert(ds.drop_last() =~= dec_nat(n / 10));
        assert(digits_val(ds) == digits_val(ds.drop_last()) * 10 + digit_val(ds.last()));
        assert(n == (n / 10) * 10 + n % 10);
    }
}

/// If everything in `s[i..j)` is a digit and `j` sits on a non-digit (or the
/// end), the greedy scan from `i` stops exactly at `j`.
pub proof fn lemma_digits_end_at(s: Seq<char>, i: int, j: int)
    requires
        0 <= i <= j <= s.len(),
        forall|k: int| i <= k < j ==> is_digit(#[trigger] s[k]),
        j == s.len() || !is_digit(s[j]),
    ensures
        digits_end(s, i) == j,
    decreases j - i,
{
    if i < j {
        lemma_digits_end_at(s, i + 1, j);
    }
}

/// A numeral written at position `i` parses back to its value, when what
/// follows it is not a digit.
pub proof fn lemma_parse_digits_of_dec(s: Seq<char>, i: int, n: nat)
    requires
        0 <= i,
        i + dec_nat(n).len() <= s.len(),
        s.subrange(i, i + dec_nat(n).len() as int) == dec_nat(n),
        i + dec_nat(n).len() == s.len() || !is_digit(s[i + dec_nat(n).len()]),
    ensures
        parse_digits(s, i) == Some((n as int, i + dec_nat(n).len() as int)),
{
    let len = dec_nat(n).len() as int;
    lemma_dec_nat_shape(n);
    assert forall|k: int| i <= k < i + len implies is_digit(#[trigger] s[k]) by {
        assert(s[k] == s.subrange(i, i + len)[k - i]);
    }
    lemma_digits_end_at(s, i, i + len);
    lemma_dec_nat_val(n);
}

/// The signed form of the law above.
pub proof fn lemma_parse_int_of_dec(s: Seq<char>, i: int, v: int)
    requires
        0 <= i,
        i + dec_int(v).len() <= s.len(),
        s.subrange(i, i + dec_int(v).len() as int) == dec_int(v),
        i + dec_int(v).len() == s.len() || !is_digit(s[i + dec_int(v).len()]),
    ensures
        parse_int(s, i) == Some((v, i + dec_int(v).len() as int)),
{
    let len = dec_int(v).len() as int;
    if v < 0 {
        let mag = (-v) as nat;
        assert(s[i] == s.subrange(i, i + len)[0]);
        assert(s[i] == '-');
        assert(s.subrange(i + 1, i + len) =~= dec_nat(mag)) by {
            assert forall|k: int| 0 <= k < len - 1 implies s.subrange(i + 1, i + len)[k]
                == dec_nat(mag)[k] by {
                assert(s.subrange(i + 1, i + len)[k] == s.subrange(i, i + len)[k + 1]);
            }
        }
        lemma_parse_digits_of_dec(s, i + 1, mag);
        assert(!is_digit('-')) by {
            assert('-' as u32 == 45);
        }
    } else {
        lemma_dec_nat_shape(v as nat);
        assert(s[i] == s.subrange(i, i + len)[0]);
        assert(is_digit(s[i]));
        assert(s[i] != '-') by {
            assert('-' as u32 == 45);
        }
        lemma_parse_digits_of_dec(s, i, v as nat);
    }
}

/// The exec printer for an unsigned value, following `dec_nat` digit by digit.
pub fn format_u64(n: u64) -> (s: String)
    ensures
        s@ == dec_nat(n as nat),
    decreases n,
{
    if n < 10 {
        digit_str(n).to_owned()
    } else {
        let mut s = format_u64(n / 10);
        s.append(digit_str(n % 10));
        s
    }
}

/// The exec printer for a signed value. The one value whose magnitude does
/// not fit its own type is left out; no message field carries it.
pub fn format_i64(v: i64) -> (s: String)
    requires
        v != i64::MIN,
    ensures
        s@ == dec_int(v as int),
{
    if v < 0 {
        let mut s = "-".to_owned();
        let mag = format_u64((-v) as u64);
        s.append(mag.as_str());
        proof {
            reveal_strlit("-");
            assert(s@ =~= dec_int(v as int));
        }
        s
    } else {
        format_u64(v as u64)
    }
}

/// One digit as text.
fn digit_str(d: u64) -> (s: &'static str)
    requires
        d < 10,
    ensures
        s@ =~= seq![digit_char(d as int)],
{
    proof {
        reveal_strlit("0");
        reveal_strlit("1");
        reveal_strlit("2");
        reveal_strlit("3");
        reveal_strlit("4");
        reveal_strlit("5");
        reveal_strlit("6");
        reveal_strlit("7");
        reveal_strlit("8");
        reveal_strlit("9");
    }
    if d == 0 {
        "0"
    } else if d == 1 {
        "1"
    } else if d == 2 {
        "2"
    } else if d == 3 {
        "3"
    } else if d == 4 {
        "4"
    } else if d == 5 {
        "5"
    } else if d == 6 {
        "6"
    } else if d == 7 {
        "7"
    } else if d == 8 {
        "8"
    } else {
        "9"
    }
}

} // verus!
