//! Text helpers: decimal integers, and the case and whitespace operations
//! of std that the parser's rules and messages rely on.
use vstd::prelude::*;

verus! {

/// Why a text is not a 32-bit signed decimal integer.
#[derive(Debug, Clone, Copy, PartialEq, Eq, Structural)]
pub enum IntError {
    Empty,
    InvalidDigit,
    PosOverflow,
    NegOverflow,
}

pub open spec fn is_digit(c: char) -> bool {
    '0' <= c && c <= '9'
}

pub open spec fn digit_value(c: char) -> int {
    c as int - '0' as int
}

/// Reads the digits `d` left to right, adding (or, for a negative number,
/// subtracting) each one; stops at the first character that is not a digit
/// or that takes the value out of the range of `i32`.
pub open spec fn scan_digits(d: Seq<char>, negative: bool) -> Result<int, IntError>
    decreases d.len(),
{
    if d.len() == 0 {
        Ok(0)
    } else {
        match scan_digits(d.drop_last(), negative) {
            Err(e) => Err(e),
            Ok(v) => if !is_digit(d.last()) {
                Err(IntError::InvalidDigit)
            } else {
                let w = if negative {
                    10 * v - digit_value(d.last())
                } else {
                    10 * v + digit_value(d.last())
                };
                if w > i32::MAX {
                    Err(IntError::PosOverflow)
                } else if w < i32::MIN {
                    Err(IntError::NegOverflow)
                } else {
                    Ok(w)
                }
            },
        }
    }
}

/// A 32-bit signed decimal integer: an optional `+` or `-`, then one or more
/// digits.
pub open spec fn int_of(s: Seq<char>) -> Result<int, IntError> {
    if s.len() == 0 {
        Err(IntError::Empty)
    } else if s[0] == '+' || s[0] == '-' {
        if s.len() == 1 {
            Err(IntError::InvalidDigit)
        } else {
            scan_digits(s.skip(1), s[0] == '-')
        }
    } else {
        scan_digits(s, false)
    }
}

pub open spec fn int_error_text(e: IntError) -> Seq<char> {
    match e {
        IntError::Empty => "cannot parse integer from empty string"@,
        IntError::InvalidDigit => "invalid digit found in string"@,
        IntError::PosOverflow => "number too large to fit in target type"@,
        IntError::NegOverflow => "number too small to fit in target type"@,
    }
}

impl IntError {
    /// The message that describes the error.
    pub fn message(&self) -> (r: String)
        ensures
            r@ == int_error_text(*self),
    {
        match self {
            IntError::Empty => String::from_str("cannot parse integer from empty string"),
            IntError::InvalidDigit => String::from_str("invalid digit found in string"),
            IntError::PosOverflow => String::from_str("number too large to fit in target type"),
            IntError::NegOverflow => String::from_str("number too small to fit in target type"),
        }
    }
}

proof fn lemma_scan_step(s: Seq<char>, start: int, i: int, negative: bool)
    requires
        0 <= start <= i < s.len(),
    ensures
        s.subrange(start, i + 1).drop_last() == s.subrange(start, i),
        s.subrange(start, i + 1).last() == s[i],
{
    assert(s.subrange(start, i + 1).drop_last() =~= s.subrange(start, i));
}

/// Reads `s` as a 32-bit signed decimal integer.
pub fn parse_int(s: &str) -> (r: Result<i32, IntError>)
    ensures
        match int_of(s@) {
            Ok(v) => r == Ok::<i32, IntError>(v as i32),
            Err(e) => r == Err::<i32, IntError>(e),
        },
{
    let n = s.unicode_len();
    if n == 0 {
        return Err(IntError::Empty);
    }
    let first = s.get_char(0);
    let mut start: usize = 0;
    let mut negative = false;
    if first == '+' || first == '-' {
        if n == 1 {
            return Err(IntError::InvalidDigit);
        }
        start = 1;
        negative = first == '-';
    }
    proof {
        assert(s@.subrange(start as int, start as int) =~= Seq::<char>::empty());
        if start == 1 {
            assert(s@.skip(1) =~= s@.subrange(1, n as int));
        } else {
            assert(s@ =~= s@.subrange(0, n as int));
        }
    }
    let mut acc: i64 = 0;
    let mut i: usize = start;
    while i < n
        invariant
            start <= i <= n,
            n == s@.len(),
            start == 0 || start == 1,
            int_of(s@) == scan_digits(s@.subrange(start as int, n as int), negative),
            scan_digits(s@.subrange(start as int, i as int), negative) == Ok::<int, IntError>(
                acc as int,
            ),
            i32::MIN <= acc <= i32::MAX,
        decreases n - i,
    {
        let c = s.get_char(i);
        proof {
            lemma_scan_step(s@, start as int, i as int, negative);
        }
        if !('0' <= c && c <= '9') {
            proof {
                lemma_scan_rest_fails(s@, start as int, i as int + 1, negative);
            }
            return Err(IntError::InvalidDigit);
        }
        let d = (c as u32 - '0' as u32) as i64;
        let w = if negative {
            10 * acc - d
        } else {
            10 * acc + d
        };
        if w > i32::MAX as i64 {
            proof {
                lemma_scan_rest_fails(s@, start as int, i as int + 1, negative);
            }
            return Err(IntError::PosOverflow);
        }
        if w < i32::MIN as i64 {
            proof {
                lemma_scan_rest_fails(s@, start as int, i as int + 1, negative);
            }
            return Err(IntError::NegOverflow);
        }
        acc = w;
        i = i + 1;
    }
    Ok(acc as i32)
}

/// Once a prefix of the digits fails, the whole run fails the same way.
proof fn lemma_scan_rest_fails(s: Seq<char>, start: int, j: int, negative: bool)
    requires
        0 <= start <= j <= s.len(),
        scan_digits(s.subrange(start, j), negative) is Err,
    ensures
        scan_digits(s.subrange(start, s.len() as int), negative) == scan_digits(
            s.subrange(start, j),
            negative,
        ),
    decreases s.len() - j,
{
    if j < s.len() {
        lemma_scan_step(s, start, j, negative);
        lemma_scan_rest_fails(s, start, j + 1, negative);
    }
}

/// Whether two texts hold the same characters.
pub fn same_text(a: &str, b: &str) -> (r: bool)
    ensures
        r == (a@ == b@),
{
    let n = a.unicode_len();
    if n != b.unicode_len() {
        return false;
    }
    let mut i: usize = 0;
    while i < n
        invariant
            n == a@.len() == b@.len(),
            i <= n,
            a@.take(i as int) == b@.take(i as int),
        decreases n - i,
    {
        if a.get_char(i) != b.get_char(i) {
            return false;
        }
        proof {
            assert(a@.take(i + 1) =~= a@.take(i as int).push(a@[i as int]));
            assert(b@.take(i + 1) =~= b@.take(i as int).push(b@[i as int]));
        }
        i = i + 1;
    }
    proof {
        assert(a@ =~= a@.take(n as int));
        assert(b@ =~= b@.take(n as int));
    }
    true
}

/// What `str::to_uppercase` gives for a text.
pub uninterp spec fn upper_of(s: Seq<char>) -> Seq<char>;

/// What `str::to_lowercase` gives for a text.
pub uninterp spec fn lower_of(s: Seq<char>) -> Seq<char>;

/// A character of the Unicode property White_Space.
pub open spec fn is_white_space(c: char) -> bool {
    let u = c as u32;
    ||| 0x9 <= u <= 0xd
    ||| u == 0x20
    ||| u == 0x85
    ||| u == 0xa0
    ||| u == 0x1680
    ||| 0x2000 <= u <= 0x200a
    ||| u == 0x2028
    ||| u == 0x2029
    ||| u == 0x202f
    ||| u == 0x205f
    ||| u == 0x3000
}

pub open spec fn trim_start_of(s: Seq<char>) -> Seq<char>
    decreases s.len(),
{
    if s.len() > 0 && is_white_space(s[0]) {
        trim_start_of(s.skip(1))
    } else {
        s
    }
}

pub open spec fn trim_end_of(s: Seq<char>) -> Seq<char>
    decreases s.len(),
{
    if s.len() > 0 && is_white_space(s.last()) {
        trim_end_of(s.drop_last())
    } else {
        s
    }
}

/// `s` without the white space at its start and at its end.
pub open spec fn trim_of(s: Seq<char>) -> Seq<char> {
    trim_end_of(trim_start_of(s))
}

/// The text that `{:?}` writes for a string: quoted, with escapes.
pub uninterp spec fn debug_of(s: Seq<char>) -> Seq<char>;

/// Relies on str::to_uppercase: the result depends on the characters alone.
#[verifier::external_body]
pub(crate) fn uppercase(s: &str) -> (r: String)
    ensures
        r@ == upper_of(s@),
{
    s.to_uppercase()
}

/// Relies on str::to_lowercase: the result depends on the characters alone.
#[verifier::external_body]
pub(crate) fn lowercase(s: &str) -> (r: String)
    ensures
        r@ == lower_of(s@),
{
    s.to_lowercase()
}

/// Relies on str::trim: the text without its leading and trailing
/// characters of the Unicode property White_Space.
#[verifier::external_body]
pub(crate) fn trimmed(s: &str) -> (r: &str)
    ensures
        r@ == trim_of(s@),
{
    s.trim()
}

/// Relies on the `Debug` impl of `str`: the quoted, escaped form of a text,
/// which depends on the characters alone.
#[verifier::external_body]
pub(crate) fn debug_text(s: &str) -> (r: String)
    ensures
        r@ == debug_of(s@),
{
    format!("{:?}", s)
}

} // verus!
