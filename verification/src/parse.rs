//! Signed base-10 integer parsing for the delay input field.
//!
//! The grammar is the one a standard signed decimal parser accepts: an
//! optional leading `+` or `-` sign followed by one or more ASCII digits,
//! nothing else. The value must fit in `i32`.

use vstd::prelude::*;
use vstd::string::*;

verus! {

/// Why a delay string failed to parse.
#[derive(Clone, Copy, Debug, PartialEq, Eq, Structural)]
pub enum ParseIntError {
    /// The input was empty.
    Empty,
    /// The input held a character outside the signed decimal grammar.
    InvalidDigit,
    /// The value was above `i32::MAX`.
    PosOverflow,
    /// The value was below `i32::MIN`.
    NegOverflow,
}

pub open spec fn is_digit(c: char) -> bool {
    '0' as u32 <= c as u32 && c as u32 <= '9' as u32
}

pub open spec fn digit_value(c: char) -> int {
    c as u32 - '0' as u32
}

pub open spec fn all_digits(s: Seq<char>) -> bool {
    forall|i: int| 0 <= i < s.len() ==> is_digit(#[trigger] s[i])
}

/// The number denoted by a sequence of decimal digits, most significant first.
pub open spec fn digits_value(s: Seq<char>) -> int
    decreases s.len(),
{
    if s.len() == 0 {
        0
    } else {
        digits_value(s.drop_last()) * 10 + digit_value(s.last())
    }
}

pub open spec fn has_sign(s: Seq<char>) -> bool {
    s.len() > 0 && (s[0] == '+' || s[0] == '-')
}

/// The digit portion: everything after the sign, if one is present.
pub open spec fn digits_part(s: Seq<char>) -> Seq<char> {
    if has_sign(s) {
        s.subrange(1, s.len() as int)
    } else {
        s
    }
}

/// Whether `s` matches the signed decimal grammar: an optional sign, then
/// one or more digits.
pub open spec fn is_int_literal(s: Seq<char>) -> bool {
    digits_part(s).len() > 0 && all_digits(digits_part(s))
}

/// The mathematical value of a string matching the grammar.
pub open spec fn int_value(s: Seq<char>) -> int {
    if s.len() > 0 && s[0] == '-' {
        -digits_value(digits_part(s))
    } else {
        digits_value(digits_part(s))
    }
}

/// What parsing `s` as an `i32` yields: the value when the grammar matches
/// and the value fits, otherwise the precise error.
pub open spec fn parse_result(s: Seq<char>) -> Result<int, ParseIntError> {
    if s.len() == 0 {
        Err(ParseIntError::Empty)
    } else if !is_int_literal(s) {
        Err(ParseIntError::InvalidDigit)
    } else if int_value(s) > i32::MAX {
        Err(ParseIntError::PosOverflow)
    } else if int_value(s) < i32::MIN {
        Err(ParseIntError::NegOverflow)
    } else {
        Ok(int_value(s))
    }
}

proof fn lemma_digits_value_nonneg(s: Seq<char>)
    requires
        all_digits(s),
    ensures
        digits_value(s) >= 0,
    decreases s.len(),
{
    if s.len() > 0 {
        assert(all_digits(s.drop_last()));
        lemma_digits_value_nonneg(s.drop_last());
    }
}

/// Extending a digit string to the right never decreases its value.
proof fn lemma_digits_value_prefix(s: Seq<char>, m: int)
    requires
        all_digits(s),
        0 <= m <= s.len(),
    ensures
        digits_value(s) >= digits_value(s.subrange(0, m)),
    decreases s.len(),
{
    if m < s.len() {
        let d = s.drop_last();
        assert(all_digits(d));
        assert(d.subrange(0, m) =~= s.subrange(0, m));
        lemma_digits_value_prefix(d, m);
        lemma_digits_value_nonneg(d);
    } else {
        assert(s.subrange(0, m) =~= s);
    }
}

/// The exact wording shown to the user for each parse error.
pub open spec fn error_text(e: ParseIntError) -> Seq<char> {
    match e {
        ParseIntError::Empty => "cannot parse integer from empty string"@,
        ParseIntError::InvalidDigit => "invalid digit found in string"@,
        ParseIntError::PosOverflow => "number too large to fit in target type"@,
        ParseIntError::NegOverflow => "number too small to fit in target type"@,
    }
}

impl ParseIntError {
    /// A human-readable description of the error, never empty.
    pub fn description(&self) -> (r: String)
        ensures
            r@ == error_text(*self),
            r@.len() > 0,
    {
        proof {
            reveal_strlit("cannot parse integer from empty string");
            reveal_strlit("invalid digit found in string");
            reveal_strlit("number too large to fit in target type");
            reveal_strlit("number too small to fit in target type");
        }
        match self {
            ParseIntError::Empty => String::from_str("cannot parse integer from empty string"),
            ParseIntError::InvalidDigit => String::from_str("invalid digit found in string"),
            ParseIntError::PosOverflow => String::from_str("number too large to fit in target type"),
            ParseIntError::NegOverflow => String::from_str("number too small to fit in target type"),
        }
    }
}

/// Parse `s` as a signed base-10 `i32`: an optional `+` or `-` sign followed
/// by one or more digits, with the value in range, and nothing else.
pub fn parse_i32(s: &str) -> (r: Result<i32, ParseIntError>)
    ensures
        (match r {
            Ok(v) => parse_result(s@) == Ok::<int, ParseIntError>(v as int),
            Err(e) => parse_result(s@) == Err::<int, ParseIntError>(e),
        }),
{
    let n = s.unicode_len();
    if n == 0 {
        return Err(ParseIntError::Empty);
    }
    let first = s.get_char(0);
    let neg = first == '-';
    let start: usize = if first == '-' || first == '+' {
        1
    } else {
        0
    };
    let ghost dp = digits_part(s@);
    proof {
        assert(dp =~= s@.subrange(start as int, n as int));
    }
    if start == n {
        // A sign with no digits after it.
        assert(!is_int_literal(s@));
        return Err(ParseIntError::InvalidDigit);
    }
    let mut i = start;
    while i < n
        invariant
            start <= i <= n,
            n == s@.len(),
            start < n,
            start as int == (if has_sign(s@) { 1int } else { 0int }),
            dp == s@.subrange(start as int, n as int),
            dp == digits_part(s@),
            all_digits(s@.subrange(start as int, i as int)),
        decreases n - i,
    {
        let c = s.get_char(i);
        let cu: u32 = c as u32;
        if cu < '0' as u32 || cu > '9' as u32 {
            proof {
                assert(dp[i - start] == s@[i as int]);
                assert(!is_digit(dp[i - start]));
            }
            return Err(ParseIntError::InvalidDigit);
        }
        proof {
            assert(s@.subrange(start as int, (i + 1) as int) =~= s@.subrange(
                start as int,
                i as int,
            ).push(s@[i as int]));
        }
        i += 1;
    }
    proof {
        assert(is_int_literal(s@));
        assert(all_digits(dp));
    }
    let limit: u32 = if neg {
        2147483648
    } else {
        2147483647
    };
    let mut mag: u32 = 0;
    let mut j = start;
    while j < n
        invariant
            start <= j <= n,
            n == s@.len(),
            start < n,
            start as int == (if has_sign(s@) { 1int } else { 0int }),
            dp == s@.subrange(start as int, n as int),
            dp == digits_part(s@),
            all_digits(dp),
            neg == (s@[0] == '-'),
            limit == (if neg { 0x8000_0000u32 } else { 0x7fff_ffffu32 }),
            mag as int == digits_value(s@.subrange(start as int, j as int)),
            mag <= limit,
        decreases n - j,
    {
        let c = s.get_char(j);
        proof {
            assert(dp[j - start] == s@[j as int]);
            assert(is_digit(s@[j as int]));
        }
        let d: u32 = c as u32 - '0' as u32;
        let ghost p = s@.subrange(start as int, (j + 1) as int);
        proof {
            assert(p.drop_last() =~= s@.subrange(start as int, j as int));
            assert(p.last() == s@[j as int]);
            assert(digits_value(p) == mag * 10 + d);
        }
        if mag > (limit - d) / 10 {
            proof {
                assert(mag * 10 + d > limit) by (nonlinear_arith)
                    requires
                        mag > (limit - d) / 10,
                        d <= 9,
                        d <= limit,
                ;
                assert(p =~= dp.subrange(0, j + 1 - start));
                lemma_digits_value_prefix(dp, j + 1 - start);
                assert(digits_value(dp) > limit);
            }
            return Err(
                if neg {
                    ParseIntError::NegOverflow
                } else {
                    ParseIntError::PosOverflow
                },
            );
        }
        proof {
            assert(mag * 10 + d <= limit) by (nonlinear_arith)
                requires
                    mag <= (limit - d) / 10,
                    d <= 9,
                    d <= limit,
            ;
        }
        mag = mag * 10 + d;
        j += 1;
    }
    proof {
        assert(mag as int == digits_value(dp));
        lemma_digits_value_nonneg(dp);
    }
    if neg {
        if mag == 2147483648 {
            return Ok(i32::MIN);
        }
        Ok(0 - (mag as i32))
    } else {
        Ok(mag as i32)
    }
}

/// The digit character for a value between 0 and 9.
pub open spec fn digit_char(d: int) -> char {
    if d == 0 {
        '0'
    } else if d == 1 {
        '1'
    } else if d == 2 {
        '2'
    } else if d == 3 {
        '3'
    } else if d == 4 {
        '4'
    } else if d == 5 {
        '5'
    } else if d == 6 {
        '6'
    } else if d == 7 {
        '7'
    } else if d == 8 {
        '8'
    } else {
        '9'
    }
}

/// The decimal rendering of a non-negative number, most significant digit
/// first, without a sign and without leading zeros (`0` renders as `"0"`).
pub open spec fn decimal_digits(n: int) -> Seq<char>
    decreases n,
{
    if n < 10 {
        seq![digit_char(n)]
    } else {
        decimal_digits(n / 10) + seq![digit_char(n % 10)]
    }
}

fn digit_str(d: u32) -> (r: &'static str)
    requires
        d <= 9,
    ensures
        r@ == seq![digit_char(d as int)],
{
    proof {
        reveal_strlit("0");
        reveal_strlit("1");
        reveal_strlit("2");
        reveal_strlit("3");
        reveal_strlit("4");
        reveal_strlit("5");
        reveal_strlit("6");
        reveal_strlit("7");
        reveal_strlit("8");
        reveal_strlit("9");
    }
    let r = if d == 0 {
        "0"
    } else if d == 1 {
        "1"
    } else if d == 2 {
        "2"
    } else if d == 3 {
        "3"
    } else if d == 4 {
        "4"
    } else if d == 5 {
        "5"
    } else if d == 6 {
        "6"
    } else if d == 7 {
        "7"
    } else if d == 8 {
        "8"
    } else {
        "9"
    };
    proof {
        assert(r@ =~= seq![digit_char(d as int)]);
    }
    r
}

/// Render `n` in decimal, most significant digit first.
pub fn u16_to_decimal(n: u16) -> (r: String)
    ensures
        r@ == decimal_digits(n as int),
    decreases n,
{
    if n < 10 {
        String::from_str(digit_str(n as u32))
    } else {
        proof {
            assert(n / 10 < n && n % 10 <= 9) by (nonlinear_arith)
                requires
                    n >= 10,
            ;
        }
        let mut s = u16_to_decimal(n / 10);
        s.append(digit_str((n % 10) as u32));
        proof {
            assert(s@ =~= decimal_digits(n as int));
        }
        s
    }
}

} // verus!
