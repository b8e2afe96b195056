//! The numeric half of the dynamic value model.
//!
//! Script numbers are modeled as signed 64-bit integers together with a
//! distinguished `NaN` value. A sum that would leave the 64-bit range clamps
//! to the nearest end of it, standing in for the engine's clamping of
//! overlarge results to its largest-magnitude values.
use vstd::prelude::*;
use vstd::string::StringExecFns;

verus! {

/// A script number: either a 64-bit integer or the not-a-number value that
/// every failed coercion produces.
#[derive(Clone, Copy, Debug, PartialEq, Eq, Structural)]
pub enum Num {
    NaN,
    Int(i64),
}

/// The sum of two numbers: `NaN` if either operand is `NaN`, otherwise the
/// integer sum clamped into the 64-bit range.
pub open spec fn spec_num_add(a: Num, b: Num) -> Num {
    match (a, b) {
        (Num::Int(x), Num::Int(y)) => Num::Int(spec_clamp_i64(x + y)),
        _ => Num::NaN,
    }
}

/// Clamps a mathematical integer into the `i64` range.
pub open spec fn spec_clamp_i64(v: int) -> i64 {
    if v > i64::MAX {
        i64::MAX
    } else if v < i64::MIN {
        i64::MIN
    } else {
        v as i64
    }
}

impl Num {
    /// Adds two numbers, clamping at the ends of the 64-bit range.
    pub fn add(self, rhs: Num) -> (r: Num)
        ensures
            r == spec_num_add(self, rhs),
    {
        match (self, rhs) {
            (Num::Int(x), Num::Int(y)) => {
                if y >= 0 {
                    if x > i64::MAX - y {
                        Num::Int(i64::MAX)
                    } else {
                        Num::Int(x + y)
                    }
                } else {
                    if x < i64::MIN - y {
                        Num::Int(i64::MIN)
                    } else {
                        Num::Int(x + y)
                    }
                }
            },
            _ => Num::NaN,
        }
    }

    /// True exactly on the not-a-number value.
    pub fn is_nan(self) -> (r: bool)
        ensures
            r == (self is NaN),
    {
        match self {
            Num::NaN => true,
            Num::Int(_) => false,
        }
    }
}

/// True of the ten decimal digit characters.
pub open spec fn spec_is_digit(c: char) -> bool {
    48 <= c as int <= 57
}

/// The value of one decimal digit character.
pub open spec fn spec_digit_val(c: char) -> int {
    c as int - 48
}

/// True when every character of `s` is a decimal digit.
pub open spec fn spec_all_digits(s: Seq<char>) -> bool {
    forall|i: int| 0 <= i < s.len() ==> spec_is_digit(#[trigger] s[i])
}

/// The value of a digit string read in base ten.
pub open spec fn spec_digits_val(s: Seq<char>) -> int
    decreases s,
{
    if s.len() == 0 {
        0
    } else {
        spec_digits_val(s.drop_last()) * 10 + spec_digit_val(s.last())
    }
}

/// The number a digit string names once an optional leading sign has been
/// taken off: the not-a-number value unless the rest is one or more digits
/// whose (possibly negated) value fits in 64 bits.
pub open spec fn spec_parse_digits(d: Seq<char>, negative: bool) -> Num {
    if d.len() > 0 && spec_all_digits(d) {
        let v = if negative {
            -spec_digits_val(d)
        } else {
            spec_digits_val(d)
        };
        if i64::MIN <= v <= i64::MAX {
            Num::Int(v as i64)
        } else {
            Num::NaN
        }
    } else {
        Num::NaN
    }
}

/// The number a piece of text names: an optional `+` or `-` sign followed by
/// one or more decimal digits, the not-a-number value on any other shape.
pub open spec fn spec_parse_num(s: Seq<char>) -> Num {
    if s.len() > 0 && (s[0] == '-' || s[0] == '+') {
        spec_parse_digits(s.subrange(1, s.len() as int), s[0] == '-')
    } else {
        spec_parse_digits(s, false)
    }
}

/// The character that writes one decimal digit.
pub open spec fn spec_digit_text(d: nat) -> Seq<char> {
    if d == 0 {
        "0"@
    } else if d == 1 {
        "1"@
    } else if d == 2 {
        "2"@
    } else if d == 3 {
        "3"@
    } else if d == 4 {
        "4"@
    } else if d == 5 {
        "5"@
    } else if d == 6 {
        "6"@
    } else if d == 7 {
        "7"@
    } else if d == 8 {
        "8"@
    } else {
        "9"@
    }
}

/// The decimal text of a nonnegative integer, without sign or padding.
pub open spec fn spec_udigits(n: nat) -> Seq<char>
    decreases n,
{
    if n < 10 {
        spec_digit_text(n)
    } else {
        spec_udigits(n / 10) + spec_digit_text(n % 10)
    }
}

/// The decimal text of a number: `NaN` for the not-a-number value, otherwise
/// the digits with a leading `-` on negative values.
pub open spec fn spec_num_text(n: Num) -> Seq<char> {
    match n {
        Num::NaN => "NaN"@,
        Num::Int(i) => if i < 0 {
            "-"@ + spec_udigits((-(i as int)) as nat)
        } else {
            spec_udigits(i as nat)
        },
    }
}

/// The value of a digit string is never negative.
proof fn lemma_digits_val_nonneg(s: Seq<char>)
    requires
        spec_all_digits(s),
    ensures
        spec_digits_val(s) >= 0,
    decreases s,
{
    if s.len() > 0 {
        assert(spec_all_digits(s.drop_last()));
        lemma_digits_val_nonneg(s.drop_last());
    }
}

/// Reading more digits never shrinks the value: the value of a prefix is a
/// lower bound for the value of the whole digit string.
proof fn lemma_digits_val_prefix_le(s: Seq<char>, i: int)
    requires
        spec_all_digits(s),
        0 <= i <= s.len(),
    ensures
        spec_digits_val(s.subrange(0, i)) <= spec_digits_val(s),
    decreases s.len() - i,
{
    if i < s.len() {
        let t = s.subrange(0, i + 1);
        assert(spec_all_digits(t));
        assert(t.drop_last() =~= s.subrange(0, i));
        lemma_digits_val_nonneg(s.subrange(0, i));
        assert(spec_digits_val(t) == spec_digits_val(s.subrange(0, i)) * 10 + spec_digit_val(
            t.last(),
        ));
        lemma_digits_val_prefix_le(s, i + 1);
    } else {
        assert(s.subrange(0, i) =~= s);
    }
}

/// The text of one digit, as a borrowed string.
fn digit_str(d: u64) -> (r: &'static str)
    requires
        d < 10,
    ensures
        r@ == spec_digit_text(d as nat),
{
    if d == 0 {
        "0"
    } else if d == 1 {
        "1"
    } else if d == 2 {
        "2"
    } else if d == 3 {
        "3"
    } else if d == 4 {
        "4"
    } else if d == 5 {
        "5"
    } else if d == 6 {
        "6"
    } else if d == 7 {
        "7"
    } else if d == 8 {
        "8"
    } else {
        "9"
    }
}

/// Appends the decimal digits of `n` to `out`.
fn push_udecimal(n: u64, out: &mut String)
    ensures
        final(out)@ == old(out)@ + spec_udigits(n as nat),
    decreases n,
{
    if n >= 10 {
        push_udecimal(n / 10, out);
    }
    out.append(digit_str(n % 10));
    assert(final(out)@ =~= old(out)@ + spec_udigits(n as nat));
}

/// Writes a number as decimal text.
pub fn num_to_string(n: Num) -> (r: String)
    ensures
        r@ == spec_num_text(n),
{
    match n {
        Num::NaN => "NaN".to_owned(),
        Num::Int(i) => {
            let mut out = String::new();
            if i < 0 {
                out.append("-");
                let mag: u64 = (-(i as i128)) as u64;
                push_udecimal(mag, &mut out);
                assert(out@ =~= spec_num_text(n));
            } else {
                push_udecimal(i as u64, &mut out);
                assert(out@ =~= spec_num_text(n));
            }
            out
        },
    }
}

/// Parsing splits into reading the optional sign and then the digits: the
/// number named by `s` is the number its digit part names under its sign.
proof fn lemma_parse_shape(s: Seq<char>, start: int, negative: bool)
    requires
        s.len() > 0,
        negative == (s[0] == '-'),
        (start == 1) == (s[0] == '-' || s[0] == '+'),
        start == 0 || start == 1,
    ensures
        spec_parse_num(s) == spec_parse_digits(s.subrange(start, s.len() as int), negative),
{
    if start == 0 {
        assert(s.subrange(0, s.len() as int) =~= s);
    }
}

/// Reads a number from text: an optional sign and one or more decimal
/// digits; any other shape, and any value outside the 64-bit range, is the
/// not-a-number value.
pub fn parse_number(s: &str) -> (r: Num)
    ensures
        r == spec_parse_num(s@),
{
    let len: usize = s.unicode_len();
    if len == 0 {
        return Num::NaN;
    }
    let first: char = s.get_char(0);
    let negative: bool = first == '-';
    let has_sign: bool = negative || first == '+';
    let start: usize = if has_sign {
        1
    } else {
        0
    };
    let ghost digits: Seq<char> = s@.subrange(start as int, len as int);
    proof {
        lemma_parse_shape(s@, start as int, negative);
    }
    if start == len {
        return Num::NaN;
    }
    // The largest magnitude that still fits: one more for a negative number.
    let limit: u64 = if negative {
        9223372036854775808
    } else {
        9223372036854775807
    };
    let mut mag: u64 = 0;
    let mut i: usize = start;
    while i < len
        invariant
            start <= i <= len,
            len == s@.len(),
            0 < len,
            start == 0 || start == 1,
            start < len,
            negative == (s@[0] == '-'),
            (start == 1) == (s@[0] == '-' || s@[0] == '+'),
            limit == if negative {
                9223372036854775808u64
            } else {
                9223372036854775807u64
            },
            digits == s@.subrange(start as int, len as int),
            spec_all_digits(digits.subrange(0, i - start)),
            mag == spec_digits_val(digits.subrange(0, i - start)),
            mag <= limit,
        decreases len - i,
    {
        let c: char = s.get_char(i);
        let u: u32 = c as u32;
        let ghost prefix = digits.subrange(0, i - start);
        let ghost longer = digits.subrange(0, i + 1 - start);
        proof {
            assert(longer.drop_last() =~= prefix);
            assert(digits[i - start] == s@[i as int]);
            lemma_parse_shape(s@, start as int, negative);
        }
        if u < 48 || u > 57 {
            assert(!spec_all_digits(digits));
            return Num::NaN;
        }
        let d: u64 = (u - 48) as u64;
        assert(spec_digits_val(longer) == mag * 10 + d);
        if mag > (limit - d) / 10 {
            proof {
                assert(mag * 10 + d > limit) by (nonlinear_arith)
                    requires
                        mag > (limit - d) / 10,
                        d <= 9,
                        limit >= d,
                ;
                if spec_all_digits(digits) {
                    lemma_digits_val_prefix_le(digits, i + 1 - start);
                }
            }
            return Num::NaN;
        }
        assert(mag * 10 + d <= limit) by (nonlinear_arith)
            requires
                mag <= (limit - d) / 10,
                d <= 9,
                limit >= d,
        ;
        mag = mag * 10 + d;
        i = i + 1;
    }
    assert(digits.subrange(0, i - start) =~= digits);
    if negative {
        if mag == 9223372036854775808 {
            Num::Int(i64::MIN)
        } else {
            Num::Int(-(mag as i64))
        }
    } else {
        Num::Int(mag as i64)
    }
}

} // verus!
