//! Numbers and byte strings as they are written on a command line: decimal
//! and `0x` hexadecimal integers, and hexadecimal payloads with or without
//! separators. A text is read as its sequence of characters; where the
//! length of a token counts, it is the length in bytes of UTF-8.

use vstd::prelude::*;
use vstd::string::*;

verus! {

/// Why a text is refused.
#[derive(Clone, Copy, Debug, PartialEq, Eq, Structural)]
pub enum ParseError {
    /// There is nothing to read.
    Empty,
    /// A character is no digit of the base.
    InvalidDigit,
    /// The number does not fit in the integer type that was parsed.
    TooLarge,
    /// The number was read and does not fit in the type that was asked for.
    OutOfRange(u64),
    /// A payload without separators has an odd number of bytes.
    OddLength,
    /// A token of a payload with separators has an odd number of bytes.
    BadToken,
}

/// White space, as Unicode defines it.
pub open spec fn is_space(c: char) -> bool {
    let u = c as u32;
    (0x09 <= u <= 0x0D) || u == 0x20 || u == 0x85 || u == 0xA0 || u == 0x1680 || (0x2000 <= u
        <= 0x200A) || u == 0x2028 || u == 0x2029 || u == 0x202F || u == 0x205F || u == 0x3000
}

/// A character that parts two tokens of a payload.
pub open spec fn is_separator(c: char) -> bool {
    is_space(c) || c == ',' || c == ':' || c == '-'
}

/// The text without the white space at its start.
pub open spec fn trim_start(s: Seq<char>) -> Seq<char>
    decreases s.len(),
{
    if s.len() > 0 && is_space(s[0]) {
        trim_start(s.skip(1))
    } else {
        s
    }
}

/// The text without the white space at its end.
pub open spec fn trim_end(s: Seq<char>) -> Seq<char>
    decreases s.len(),
{
    if s.len() > 0 && is_space(s.last()) {
        trim_end(s.drop_last())
    } else {
        s
    }
}

/// The text without the white space at either end.
pub open spec fn trimmed(s: Seq<char>) -> Seq<char> {
    trim_end(trim_start(s))
}

/// Whether the text starts with `0x` or `0X`.
pub open spec fn has_hex_prefix(s: Seq<char>) -> bool {
    s.len() >= 2 && s[0] == '0' && (s[1] == 'x' || s[1] == 'X')
}

/// The text without a leading `0x` or `0X`.
pub open spec fn strip_hex_prefix(s: Seq<char>) -> Seq<char> {
    if has_hex_prefix(s) {
        s.skip(2)
    } else {
        s
    }
}

/// The value of a digit: decimal, or hexadecimal in either case.
pub open spec fn digit_of(c: char, hex: bool) -> Option<u64> {
    let u = c as u32;
    if 0x30 <= u <= 0x39 {
        Some((u - 0x30) as u64)
    } else if hex && 0x61 <= u <= 0x66 {
        Some((u - 0x61 + 10) as u64)
    } else if hex && 0x41 <= u <= 0x46 {
        Some((u - 0x41 + 10) as u64)
    } else {
        None
    }
}

/// The base of a number.
pub open spec fn base_of(hex: bool) -> int {
    if hex {
        16
    } else {
        10
    }
}

/// Reads the digits of `s` from left to right onto `acc`. The first
/// character that is no digit, or the first digit with which the number
/// leaves 64 bits, ends the reading with its error.
pub open spec fn digits_onto(acc: u64, s: Seq<char>, hex: bool) -> Result<u64, ParseError>
    decreases s.len(),
{
    if s.len() == 0 {
        Ok(acc)
    } else {
        match digit_of(s[0], hex) {
            None => Err(ParseError::InvalidDigit),
            Some(d) => if acc * base_of(hex) + d > u64::MAX {
                Err(ParseError::TooLarge)
            } else {
                digits_onto((acc * base_of(hex) + d) as u64, s.skip(1), hex)
            },
        }
    }
}

/// The unsigned number that `s` writes: digits, after an optional `+`.
pub open spec fn unsigned_of(s: Seq<char>, hex: bool) -> Result<u64, ParseError> {
    if s.len() == 0 {
        Err(ParseError::Empty)
    } else if s.len() == 1 && (s[0] == '+' || s[0] == '-') {
        Err(ParseError::InvalidDigit)
    } else if s[0] == '+' {
        digits_onto(0, s.skip(1), hex)
    } else {
        digits_onto(0, s, hex)
    }
}

/// The integer that a text writes: surrounding white space is dropped, and
/// after `0x` or `0X` the number is hexadecimal.
pub open spec fn int_of(s: Seq<char>) -> Result<u64, ParseError> {
    let t = trimmed(s);
    if has_hex_prefix(t) {
        unsigned_of(t.skip(2), true)
    } else {
        unsigned_of(t, false)
    }
}

/// The integer that a text writes, where it is at most `max`.
pub open spec fn bounded_int_of(s: Seq<char>, max: u64) -> Result<u64, ParseError> {
    match int_of(s) {
        Err(e) => Err(e),
        Ok(v) => if v > max {
            Err(ParseError::OutOfRange(v))
        } else {
            Ok(v)
        },
    }
}

/// The byte that two hexadecimal digits write.
pub open spec fn byte_of(pair: Seq<char>) -> Result<u8, ParseError> {
    match unsigned_of(pair, true) {
        Err(e) => Err(e),
        Ok(v) => if v > 0xFF {
            Err(ParseError::TooLarge)
        } else {
            Ok(v as u8)
        },
    }
}

/// The bytes that a run of digit pairs writes, read from left to right.
pub open spec fn pairs_of(t: Seq<char>) -> Result<Seq<u8>, ParseError>
    decreases t.len(),
{
    if t.len() < 2 {
        Ok(Seq::<u8>::empty())
    } else {
        match byte_of(t.subrange(0, 2)) {
            Err(e) => Err(e),
            Ok(b) => match pairs_of(t.skip(2)) {
                Err(e) => Err(e),
                Ok(rest) => Ok(seq![b] + rest),
            },
        }
    }
}

/// The number of bytes that a character takes in UTF-8.
pub open spec fn utf8_len(c: char) -> nat {
    let u = c as u32;
    if u < 0x80 {
        1
    } else if u < 0x800 {
        2
    } else if u < 0x1_0000 {
        3
    } else {
        4
    }
}

/// The number of bytes that a text takes in UTF-8.
pub open spec fn byte_len(s: Seq<char>) -> nat
    decreases s.len(),
{
    if s.len() == 0 {
        0
    } else {
        byte_len(s.drop_last()) + utf8_len(s.last())
    }
}

/// The bytes of a run of digits whose length in bytes is even: pairs of
/// digits. A character of more than one byte is no digit.
pub open spec fn run_of(t: Seq<char>) -> Result<Seq<u8>, ParseError> {
    if byte_len(t) != t.len() {
        Err(ParseError::InvalidDigit)
    } else {
        pairs_of(t)
    }
}

/// The bytes of one token: an optional `0x`, then pairs of digits.
pub open spec fn token_of(tok: Seq<char>) -> Result<Seq<u8>, ParseError> {
    let t = strip_hex_prefix(tok);
    if byte_len(t) % 2 != 0 {
        Err(ParseError::BadToken)
    } else {
        run_of(t)
    }
}

/// Where the first separator of `s` stands, or the length of `s`.
pub open spec fn first_separator(s: Seq<char>) -> nat
    decreases s.len(),
{
    if s.len() == 0 || is_separator(s[0]) {
        0
    } else {
        1 + first_separator(s.skip(1))
    }
}

/// The bytes of the tokens of `s`, in order; empty tokens write nothing.
pub open spec fn tokens_of(s: Seq<char>) -> Result<Seq<u8>, ParseError>
    decreases s.len(),
{
    if s.len() == 0 {
        Ok(Seq::<u8>::empty())
    } else {
        let k = first_separator(s);
        match token_of(s.subrange(0, k as int)) {
            Err(e) => Err(e),
            Ok(head) => if k >= s.len() {
                Ok(head)
            } else {
                match tokens_of(s.skip(k as int + 1)) {
                    Err(e) => Err(e),
                    Ok(rest) => Ok(head + rest),
                }
            },
        }
    }
}

/// The payload that a text writes.
pub open spec fn hex_bytes_of(s: Seq<char>) -> Result<Seq<u8>, ParseError> {
    let t = trimmed(s);
    if t.len() == 0 {
        Ok(Seq::<u8>::empty())
    } else if first_separator(t) < t.len() {
        tokens_of(t)
    } else if byte_len(strip_hex_prefix(t)) % 2 != 0 {
        Err(ParseError::OddLength)
    } else {
        run_of(strip_hex_prefix(t))
    }
}

/// Whether an executable result is the one that the model gives.
pub open spec fn bytes_agree(r: Result<Vec<u8>, ParseError>, m: Result<Seq<u8>, ParseError>) -> bool {
    match r {
        Ok(v) => m == Ok::<Seq<u8>, ParseError>(v@),
        Err(e) => m == Err::<Seq<u8>, ParseError>(e),
    }
}

/// The characters of a text.
pub fn chars_of(input: &str) -> (v: Vec<char>)
    ensures
        v@ == input@,
{
    let n = input.unicode_len();
    let mut v: Vec<char> = Vec::new();
    let mut i: usize = 0;
    while i < n
        invariant
            n == input@.len(),
            i <= n,
            v@ == input@.subrange(0, i as int),
        decreases n - i,
    {
        v.push(input.get_char(i));
        i = i + 1;
        assert(v@ =~= input@.subrange(0, i as int));
    }
    assert(v@ =~= input@);
    v
}

/// Tells white space.
pub fn char_is_space(c: char) -> (r: bool)
    ensures
        r == is_space(c),
{
    let u: u32 = c as u32;
    (0x09 <= u && u <= 0x0D) || u == 0x20 || u == 0x85 || u == 0xA0 || u == 0x1680 || (0x2000
        <= u && u <= 0x200A) || u == 0x2028 || u == 0x2029 || u == 0x202F || u == 0x205F || u
        == 0x3000
}

/// Tells a separator.
pub fn char_is_separator(c: char) -> (r: bool)
    ensures
        r == is_separator(c),
{
    char_is_space(c) || c == ',' || c == ':' || c == '-'
}

/// The value of a digit.
pub fn digit_value(c: char, hex: bool) -> (r: Option<u64>)
    ensures
        r == digit_of(c, hex),
{
    let u: u32 = c as u32;
    if 0x30 <= u && u <= 0x39 {
        Some((u - 0x30) as u64)
    } else if hex && 0x61 <= u && u <= 0x66 {
        Some((u - 0x61 + 10) as u64)
    } else if hex && 0x41 <= u && u <= 0x46 {
        Some((u - 0x41 + 10) as u64)
    } else {
        None
    }
}

/// Finds the part of `s` between the white space at its ends.
pub fn trim_bounds(s: &[char]) -> (b: (usize, usize))
    ensures
        b.0 <= b.1 <= s@.len(),
        s@.subrange(b.0 as int, b.1 as int) == trimmed(s@),
{
    let n = s.len();
    let mut lo: usize = 0;
    assert(s@.skip(0) =~= s@);
    while lo < n && char_is_space(s[lo])
        invariant
            n == s@.len(),
            lo <= n,
            trim_start(s@) == trim_start(s@.skip(lo as int)),
        decreases n - lo,
    {
        assert(s@.skip(lo as int).skip(1) =~= s@.skip(lo as int + 1));
        lo = lo + 1;
    }
    assert(trim_start(s@) == s@.skip(lo as int));
    assert(s@.skip(lo as int) =~= s@.subrange(lo as int, n as int));
    let mut hi: usize = n;
    while hi > lo && char_is_space(s[hi - 1])
        invariant
            n == s@.len(),
            lo <= hi <= n,
            trimmed(s@) == trim_end(s@.subrange(lo as int, hi as int)),
        decreases hi - lo,
    {
        assert(s@.subrange(lo as int, hi as int).drop_last() =~= s@.subrange(
            lo as int,
            hi as int - 1,
        ));
        hi = hi - 1;
    }
    (lo, hi)
}

/// Whether `s[lo..hi]` starts with `0x` or `0X`.
pub fn starts_with_hex_prefix(s: &[char], lo: usize, hi: usize) -> (r: bool)
    requires
        lo <= hi <= s@.len(),
    ensures
        r == has_hex_prefix(s@.subrange(lo as int, hi as int)),
{
    hi - lo >= 2 && s[lo] == '0' && (s[lo + 1] == 'x' || s[lo + 1] == 'X')
}

/// Reads `s[lo..hi]` as an unsigned number, hexadecimal or decimal.
pub fn parse_unsigned(s: &[char], lo: usize, hi: usize, hex: bool) -> (r: Result<u64, ParseError>)
    requires
        lo <= hi <= s@.len(),
    ensures
        r == unsigned_of(s@.subrange(lo as int, hi as int), hex),
{
    let ghost t = s@.subrange(lo as int, hi as int);
    if lo == hi {
        return Err(ParseError::Empty);
    }
    if hi - lo == 1 && (s[lo] == '+' || s[lo] == '-') {
        return Err(ParseError::InvalidDigit);
    }
    let mut i: usize = if s[lo] == '+' {
        lo + 1
    } else {
        lo
    };
    assert(t.skip(1) =~= s@.subrange(lo as int + 1, hi as int));
    let base: u64 = if hex {
        16
    } else {
        10
    };
    let mut acc: u64 = 0;
    while i < hi
        invariant
            lo <= i <= hi <= s@.len(),
            base == base_of(hex),
            t == s@.subrange(lo as int, hi as int),
            unsigned_of(t, hex) == digits_onto(acc, s@.subrange(i as int, hi as int), hex),
        decreases hi - i,
    {
        assert(s@.subrange(i as int, hi as int).skip(1) =~= s@.subrange(i as int + 1, hi as int));
        match digit_value(s[i], hex) {
            None => {
                return Err(ParseError::InvalidDigit);
            },
            Some(d) => {
                if acc > (u64::MAX - d) / base {
                    assert(acc * base + d > u64::MAX) by (nonlinear_arith)
                        requires
                            acc > (u64::MAX - d) / (base as int),
                            base > 0,
                            d <= u64::MAX,
                    ;
                    return Err(ParseError::TooLarge);
                }
                assert(acc * base + d <= u64::MAX) by (nonlinear_arith)
                    requires
                        acc <= (u64::MAX - d) / (base as int),
                        base > 0,
                        d <= u64::MAX,
                ;
                acc = acc * base + d;
            },
        }
        i = i + 1;
    }
    Ok(acc)
}

/// Reads an integer, decimal or after `0x` hexadecimal, between optional
/// white space.
pub fn parse_int_u64(input: &str) -> (r: Result<u64, ParseError>)
    ensures
        r == int_of(input@),
{
    let chars = chars_of(input);
    let s = chars.as_slice();
    let (lo, hi) = trim_bounds(s);
    if starts_with_hex_prefix(s, lo, hi) {
        assert(s@.subrange(lo as int, hi as int).skip(2) =~= s@.subrange(lo as int + 2, hi as int));
        parse_unsigned(s, lo + 2, hi, true)
    } else {
        parse_unsigned(s, lo, hi, false)
    }
}

/// Reads a 64-bit integer.
pub fn parse_u64(input: &str) -> (r: Result<u64, ParseError>)
    ensures
        r == int_of(input@),
{
    parse_int_u64(input)
}

/// Reads a 32-bit integer.
pub fn parse_u32(input: &str) -> (r: Result<u32, ParseError>)
    ensures
        match r {
            Ok(v) => bounded_int_of(input@, 0xFFFF_FFFF) == Ok::<u64, ParseError>(v as u64),
            Err(e) => bounded_int_of(input@, 0xFFFF_FFFF) == Err::<u64, ParseError>(e),
        },
{
    match parse_int_u64(input) {
        Err(e) => Err(e),
        Ok(v) => if v > 0xFFFF_FFFF {
            Err(ParseError::OutOfRange(v))
        } else {
            Ok(v as u32)
        },
    }
}

/// Reads an 8-bit integer.
pub fn parse_u8(input: &str) -> (r: Result<u8, ParseError>)
    ensures
        match r {
            Ok(v) => bounded_int_of(input@, 0xFF) == Ok::<u64, ParseError>(v as u64),
            Err(e) => bounded_int_of(input@, 0xFF) == Err::<u64, ParseError>(e),
        },
{
    match parse_int_u64(input) {
        Err(e) => Err(e),
        Ok(v) => if v > 0xFF {
            Err(ParseError::OutOfRange(v))
        } else {
            Ok(v as u8)
        },
    }
}

/// Reads the digit pairs of `s[lo..hi]` and appends their bytes to `out`.
fn push_pairs(s: &[char], lo: usize, hi: usize, out: &mut Vec<u8>) -> (r: Result<(), ParseError>)
    requires
        lo <= hi <= s@.len(),
    ensures
        match r {
            Ok(_) => pairs_of(s@.subrange(lo as int, hi as int)) == Ok::<Seq<u8>, ParseError>(
                final(out)@.skip(old(out)@.len() as int),
            ) && final(out)@.take(old(out)@.len() as int) == old(out)@ && final(out)@.len()
                >= old(out)@.len(),
            Err(e) => pairs_of(s@.subrange(lo as int, hi as int)) == Err::<Seq<u8>, ParseError>(e),
        },
{
    let ghost t = s@.subrange(lo as int, hi as int);
    let ghost before = out@;
    let mut i: usize = lo;
    assert(out@.skip(before.len() as int) =~= Seq::<u8>::empty());
    assert(out@.take(before.len() as int) =~= before);
    while hi - i >= 2
        invariant
            lo <= i <= hi <= s@.len(),
            out@.len() >= before.len(),
            out@.take(before.len() as int) == before,
            t == s@.subrange(lo as int, hi as int),
            match pairs_of(s@.subrange(i as int, hi as int)) {
                Ok(rest) => pairs_of(t) == Ok::<Seq<u8>, ParseError>(
                    out@.skip(before.len() as int) + rest,
                ),
                Err(e) => pairs_of(t) == Err::<Seq<u8>, ParseError>(e),
            },
        decreases hi - i,
    {
        let ghost cur = s@.subrange(i as int, hi as int);
        assert(cur.subrange(0, 2) =~= s@.subrange(i as int, i as int + 2));
        assert(cur.skip(2) =~= s@.subrange(i as int + 2, hi as int));
        let ghost prev = out@;
        match parse_unsigned(s, i, i + 2, true) {
            Err(e) => {
                return Err(e);
            },
            Ok(v) => {
                if v > 0xFF {
                    return Err(ParseError::TooLarge);
                }
                out.push(v as u8);
                proof {
                    let b = v as u8;
                    assert(out@.take(before.len() as int) =~= before);
                    match pairs_of(cur.skip(2)) {
                        Ok(rest) => {
                            assert(out@.skip(before.len() as int) + rest =~= prev.skip(
                                before.len() as int,
                            ) + (seq![b] + rest));
                        },
                        Err(e) => {},
                    }
                }
            },
        }
        i = i + 2;
    }
    proof {
        assert(out@.skip(before.len() as int) + Seq::<u8>::empty() =~= out@.skip(
            before.len() as int,
        ));
    }
    Ok(())
}

/// Measures `s[lo..hi]` in UTF-8: whether its length in bytes is odd, and
/// whether every character takes one byte.
pub fn measure(s: &[char], lo: usize, hi: usize) -> (m: (bool, bool))
    requires
        lo <= hi <= s@.len(),
    ensures
        m.0 == (byte_len(s@.subrange(lo as int, hi as int)) % 2 != 0),
        m.1 == (byte_len(s@.subrange(lo as int, hi as int)) == hi - lo),
{
    let mut odd: bool = false;
    let mut single: bool = true;
    let mut i: usize = lo;
    assert(s@.subrange(lo as int, lo as int) =~= Seq::<char>::empty());
    while i < hi
        invariant
            lo <= i <= hi <= s@.len(),
            odd == (byte_len(s@.subrange(lo as int, i as int)) % 2 != 0),
            single == (byte_len(s@.subrange(lo as int, i as int)) == i - lo),
            byte_len(s@.subrange(lo as int, i as int)) >= i - lo,
        decreases hi - i,
    {
        assert(s@.subrange(lo as int, i as int + 1).drop_last() =~= s@.subrange(
            lo as int,
            i as int,
        ));
        let u: u32 = s[i] as u32;
        if u >= 0x80 {
            single = false;
        }
        if u < 0x80 || (0x800 <= u && u < 0x1_0000) {
            odd = !odd;
        }
        i = i + 1;
    }
    (odd, single)
}

/// Reads the run of digits `s[lo..hi]`, whose length in bytes is even, and
/// appends its bytes to `out`.
fn push_run(s: &[char], lo: usize, hi: usize, out: &mut Vec<u8>, single: bool) -> (r: Result<
    (),
    ParseError,
>)
    requires
        lo <= hi <= s@.len(),
        single == (byte_len(s@.subrange(lo as int, hi as int)) == hi - lo),
    ensures
        match r {
            Ok(_) => run_of(s@.subrange(lo as int, hi as int)) == Ok::<Seq<u8>, ParseError>(
                final(out)@.skip(old(out)@.len() as int),
            ) && final(out)@.take(old(out)@.len() as int) == old(out)@ && final(out)@.len()
                >= old(out)@.len(),
            Err(e) => run_of(s@.subrange(lo as int, hi as int)) == Err::<Seq<u8>, ParseError>(e),
        },
{
    if !single {
        return Err(ParseError::InvalidDigit);
    }
    push_pairs(s, lo, hi, out)
}

/// Reads the token `s[lo..hi]` and appends its bytes to `out`.
fn push_token(s: &[char], lo: usize, hi: usize, out: &mut Vec<u8>) -> (r: Result<(), ParseError>)
    requires
        lo <= hi <= s@.len(),
    ensures
        match r {
            Ok(_) => token_of(s@.subrange(lo as int, hi as int)) == Ok::<Seq<u8>, ParseError>(
                final(out)@.skip(old(out)@.len() as int),
            ) && final(out)@.take(old(out)@.len() as int) == old(out)@ && final(out)@.len()
                >= old(out)@.len(),
            Err(e) => token_of(s@.subrange(lo as int, hi as int)) == Err::<Seq<u8>, ParseError>(e),
        },
{
    let start: usize = if starts_with_hex_prefix(s, lo, hi) {
        lo + 2
    } else {
        lo
    };
    assert(strip_hex_prefix(s@.subrange(lo as int, hi as int)) =~= s@.subrange(
        start as int,
        hi as int,
    ));
    let (odd, single) = measure(s, start, hi);
    if odd {
        return Err(ParseError::BadToken);
    }
    push_run(s, start, hi, out, single)
}

/// Finds the first separator of `s[lo..hi]`.
pub fn find_separator(s: &[char], lo: usize, hi: usize) -> (k: usize)
    requires
        lo <= hi <= s@.len(),
    ensures
        lo <= k <= hi,
        k - lo == first_separator(s@.subrange(lo as int, hi as int)),
{
    let mut k: usize = lo;
    while k < hi && !char_is_separator(s[k])
        invariant
            lo <= k <= hi <= s@.len(),
            first_separator(s@.subrange(lo as int, hi as int)) == (k - lo) + first_separator(
                s@.subrange(k as int, hi as int),
            ),
        decreases hi - k,
    {
        assert(s@.subrange(k as int, hi as int).skip(1) =~= s@.subrange(k as int + 1, hi as int));
        k = k + 1;
    }
    k
}

/// Reads a payload: pairs of hexadecimal digits, in one run or in tokens
/// parted by white space, `,`, `:` or `-`, each with an optional `0x`.
pub fn parse_hex_bytes(input: &str) -> (r: Result<Vec<u8>, ParseError>)
    ensures
        bytes_agree(r, hex_bytes_of(input@)),
{
    let chars = chars_of(input);
    let s = chars.as_slice();
    let (lo, hi) = trim_bounds(s);
    let mut bytes: Vec<u8> = Vec::new();
    if lo == hi {
        return Ok(bytes);
    }
    let ghost t = s@.subrange(lo as int, hi as int);
    let first = find_separator(s, lo, hi);
    if first == hi {
        let start: usize = if starts_with_hex_prefix(s, lo, hi) {
            lo + 2
        } else {
            lo
        };
        assert(strip_hex_prefix(t) =~= s@.subrange(start as int, hi as int));
        let (odd, single) = measure(s, start, hi);
        if odd {
            return Err(ParseError::OddLength);
        }
        match push_run(s, start, hi, &mut bytes, single) {
            Err(e) => {
                return Err(e);
            },
            Ok(_) => {
                assert(bytes@.skip(0) =~= bytes@);
                return Ok(bytes);
            },
        }
    }
    let mut pos: usize = lo;
    let mut done: bool = false;
    assert(s@.subrange(pos as int, hi as int) == t);
    while !done
        invariant
            lo <= pos <= hi <= s@.len(),
            lo < hi,
            t == s@.subrange(lo as int, hi as int),
            t == trimmed(input@),
            first_separator(t) < t.len(),
            !done ==> pos < hi,
            !done ==> match tokens_of(s@.subrange(pos as int, hi as int)) {
                Ok(rest) => tokens_of(t) == Ok::<Seq<u8>, ParseError>(bytes@ + rest),
                Err(e) => tokens_of(t) == Err::<Seq<u8>, ParseError>(e),
            },
            done ==> tokens_of(t) == Ok::<Seq<u8>, ParseError>(bytes@),
        decreases hi - pos + (if done { 0int } else { 1int }),
    {
        let ghost cur = s@.subrange(pos as int, hi as int);
        let ghost prev = bytes@;
        let k = find_separator(s, pos, hi);
        assert(cur.subrange(0, k - pos) =~= s@.subrange(pos as int, k as int));
        match push_token(s, pos, k, &mut bytes) {
            Err(e) => {
                return Err(e);
            },
            Ok(_) => {},
        }
        let ghost head = bytes@.skip(prev.len() as int);
        assert(bytes@ =~= prev + head) by {
            assert(bytes@.take(prev.len() as int) == prev);
            assert(bytes@ =~= bytes@.take(prev.len() as int) + bytes@.skip(prev.len() as int));
        }
        if k >= hi {
            done = true;
        } else {
            assert(cur.skip(k - pos + 1) =~= s@.subrange(k as int + 1, hi as int));
            proof {
                match tokens_of(s@.subrange(k as int + 1, hi as int)) {
                    Ok(rest) => {
                        assert(bytes@ + rest =~= prev + (head + rest));
                    },
                    Err(e) => {},
                }
            }
            pos = k + 1;
            if pos >= hi {
                assert(s@.subrange(pos as int, hi as int).len() == 0);
                assert(bytes@ + Seq::<u8>::empty() =~= bytes@);
                done = true;
            }
        }
    }
    Ok(bytes)
}

} // verus!
