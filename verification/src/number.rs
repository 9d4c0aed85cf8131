//! Decimal integers as text: reading them with a sign and a range, and
//! printing them.

use vstd::prelude::*;

verus! {

/// Whether `c` is one of `0` to `9`.
pub open spec fn is_digit(c: char) -> bool {
    '0' <= c <= '9'
}

/// Whether every character of `s` is a decimal digit.
pub open spec fn all_digits(s: Seq<char>) -> bool {
    forall|i: int| 0 <= i < s.len() ==> is_digit(#[trigger] s[i])
}

/// The number that the decimal digits `s` write; 0 for the empty text.
pub open spec fn decimal_value(s: Seq<char>) -> nat
    decreases s.len(),
{
    if s.len() == 0 {
        0
    } else {
        decimal_value(s.drop_last()) * 10 + ((s.last() as u32 - '0' as u32) as nat)
    }
}

/// The integer that `s` writes: an optional `+`, or `-` where `signed`,
/// and then one decimal digit or more. Anything else writes none.
pub open spec fn integer_of(s: Seq<char>, signed: bool) -> Option<int> {
    let negative = signed && s.len() > 0 && s[0] == '-';
    let digits = if s.len() > 0 && (s[0] == '+' || negative) {
        s.skip(1)
    } else {
        s
    };
    if digits.len() > 0 && all_digits(digits) {
        Some(
            if negative {
                -(decimal_value(digits) as int)
            } else {
                decimal_value(digits) as int
            },
        )
    } else {
        None
    }
}

/// The integer that `s` writes, where it lies between `lo` and `hi`.
pub open spec fn integer_within(s: Seq<char>, signed: bool, lo: int, hi: int) -> Option<int> {
    match integer_of(s, signed) {
        Some(v) => if lo <= v <= hi {
            Some(v)
        } else {
            None
        },
        None => None,
    }
}

/// The number that `chars[from..]` writes, where those characters are one
/// digit or more and the number fits in 64 bits.
pub fn read_digits(chars: &Vec<char>, from: usize) -> (r: Option<u64>)
    requires
        from <= chars@.len(),
    ensures
        match r {
            Some(v) => chars@.len() > from && all_digits(chars@.skip(from as int)) && v
                == decimal_value(chars@.skip(from as int)),
            None => chars@.len() == from || !all_digits(chars@.skip(from as int))
                || decimal_value(chars@.skip(from as int)) > u64::MAX,
        },
{
    let n = chars.len();
    if from == n {
        return None;
    }
    let ghost digits = chars@.skip(from as int);
    let mut value: u64 = 0;
    let mut overflow = false;
    let mut i: usize = from;
    proof {
        assert(digits.take(0) =~= Seq::<char>::empty());
    }
    while i < n
        invariant
            from <= i <= n,
            n == chars@.len(),
            digits == chars@.skip(from as int),
            all_digits(digits.take(i - from)),
            !overflow ==> value == decimal_value(digits.take(i - from)),
            overflow ==> decimal_value(digits.take(i - from)) > u64::MAX,
        decreases n - i,
    {
        let c = chars[i];
        let ghost before = digits.take(i - from);
        let ghost after = digits.take(i - from + 1);
        proof {
            assert(digits[i - from] == c);
            assert(after.drop_last() =~= before);
            assert(after.last() == c);
        }
        if !('0' <= c && c <= '9') {
            proof {
                if all_digits(digits) {
                    assert(is_digit(digits[i - from]));
                }
            }
            return None;
        }
        proof {
            assert forall|j: int| 0 <= j < after.len() implies is_digit(#[trigger] after[j]) by {
                if j < before.len() {
                    assert(after[j] == before[j]);
                }
            }
        }
        let d: u64 = (c as u32 - '0' as u32) as u64;
        if !overflow {
            match value.checked_mul(10) {
                Some(scaled) => match scaled.checked_add(d) {
                    Some(next) => {
                        value = next;
                    },
                    None => {
                        overflow = true;
                    },
                },
                None => {
                    overflow = true;
                },
            }
        }
        i += 1;
    }
    proof {
        assert(digits.take(n - from) == digits);
    }
    if overflow {
        None
    } else {
        Some(value)
    }
}

/// Reads the integer that `chars` writes, where it lies between `lo` and
/// `hi`: an unsigned one when `signed` is false. A success gives the sign
/// and the magnitude of the integer.
pub fn read_integer(chars: &Vec<char>, signed: bool, lo: i64, hi: u64) -> (r: Option<(bool, u64)>)
    ensures
        match r {
            Some((negative, magnitude)) => integer_within(chars@, signed, lo as int, hi as int)
                == Some(
                if negative {
                    -(magnitude as int)
                } else {
                    magnitude as int
                },
            ) && (negative ==> magnitude > 0),
            None => integer_within(chars@, signed, lo as int, hi as int) is None,
        },
{
    let n = chars.len();
    if n == 0 {
        return None;
    }
    let first = chars[0];
    let negative = signed && first == '-';
    let from: usize = if first == '+' || negative {
        1
    } else {
        0
    };
    proof {
        assert(chars@.skip(0) == chars@);
    }
    match read_digits(chars, from) {
        None => {
            proof {
                let digits = chars@.skip(from as int);
                if digits.len() > 0 && all_digits(digits) {
                    assert(decimal_value(digits) > u64::MAX);
                }
            }
            None
        },
        Some(m) => {
            if negative && m > 0 {
                if m > 0x8000_0000_0000_0000 {
                    None
                } else if m == 0x8000_0000_0000_0000 {
                    if lo == i64::MIN {
                        Some((true, m))
                    } else {
                        None
                    }
                } else if -(m as i64) >= lo {
                    Some((true, m))
                } else {
                    None
                }
            } else if m <= hi && (lo <= 0 || m >= lo as u64) {
                Some((false, m))
            } else {
                None
            }
        },
    }
}

/// The character that writes the digit `d`.
pub open spec fn digit_char(d: nat) -> char {
    (('0' as u32) + d as u32) as char
}

/// The decimal numeral of `n`, without leading zeros.
pub open spec fn decimal(n: nat) -> Seq<char>
    decreases n,
{
    if n < 10 {
        seq![digit_char(n)]
    } else {
        decimal(n / 10).push(digit_char(n % 10))
    }
}

/// Appends the decimal numeral of `n` to `out`.
pub fn push_decimal(out: &mut Vec<char>, n: u64)
    ensures
        final(out)@ == old(out)@ + decimal(n as nat),
    decreases n,
{
    if n >= 10 {
        push_decimal(out, n / 10);
    }
    let d: u8 = (n % 10) as u8;
    let c: char = (48u8 + d) as char;
    assert(c == digit_char((n % 10) as nat));
    out.push(c);
    proof {
        if n < 10 {
            assert(old(out)@.push(c) =~= old(out)@ + decimal(n as nat));
        } else {
            assert((old(out)@ + decimal((n / 10) as nat)).push(c) =~= old(out)@ + decimal(
                n as nat,
            ));
        }
    }
}

/// The decimal numeral of `n`.
pub fn decimal_chars(n: u64) -> (out: Vec<char>)
    ensures
        out@ == decimal(n as nat),
{
    let mut out: Vec<char> = Vec::new();
    push_decimal(&mut out, n);
    assert(Seq::<char>::empty() + decimal(n as nat) =~= decimal(n as nat));
    out
}

/// A numeral is made of digits and is worth the number it was made from.
pub proof fn lemma_decimal_round_trip(n: nat)
    ensures
        decimal(n).len() > 0,
        all_digits(decimal(n)),
        decimal_value(decimal(n)) == n,
    decreases n,
{
    if n < 10 {
        let s = decimal(n);
        assert(s.drop_last() =~= Seq::<char>::empty());
        assert(decimal_value(s.drop_last()) == 0);
    } else {
        lemma_decimal_round_trip(n / 10);
        let s = decimal(n);
        let t = decimal(n / 10);
        assert(s.drop_last() =~= t);
        assert forall|i: int| 0 <= i < s.len() implies is_digit(#[trigger] s[i]) by {
            if i < t.len() {
                assert(s[i] == t[i]);
            }
        }
    }
}

/// Reading a printed number gives the number back.
pub proof fn lemma_print_then_read(n: nat, signed: bool)
    ensures
        integer_of(decimal(n), signed) == Some(n as int),
{
    lemma_decimal_round_trip(n);
    let s = decimal(n);
    assert(is_digit(s[0]));
}

} // verus!
