//! Decimal rendering and hexadecimal parsing of unsigned quantities.

use vstd::prelude::*;

verus! {

/// The ASCII digit that stands for `d` (for `0 <= d < 10`).
pub open spec fn digit_char(d: int) -> char {
    if d == 0 {
        '0'
    } else if d == 1 {
        '1'
    } else if d == 2 {
        '2'
    } else if d == 3 {
        '3'
    } else if d == 4 {
        '4'
    } else if d == 5 {
        '5'
    } else if d == 6 {
        '6'
    } else if d == 7 {
        '7'
    } else if d == 8 {
        '8'
    } else {
        '9'
    }
}

/// The decimal text of a natural number, most significant digit first,
/// without leading zeros (zero itself is "0").
pub open spec fn decimal_digits(n: nat) -> Seq<char>
    decreases n,
{
    if n < 10 {
        seq![digit_char(n as int)]
    } else {
        decimal_digits(n / 10).push(digit_char((n % 10) as int))
    }
}

/// The decimal text of an integer: a leading '-' for negative values.
pub open spec fn signed_decimal(i: int) -> Seq<char> {
    if i < 0 {
        seq!['-'] + decimal_digits((-i) as nat)
    } else {
        decimal_digits(i as nat)
    }
}

fn digit_text(d: u64) -> (s: &'static str)
    requires
        d < 10,
    ensures
        s@ == seq![digit_char(d as int)],
{
    if d == 0 {
        proof { reveal_strlit("0"); assert("0"@ =~= seq!['0']); }
        "0"
    } else if d == 1 {
        proof { reveal_strlit("1"); assert("1"@ =~= seq!['1']); }
        "1"
    } else if d == 2 {
        proof { reveal_strlit("2"); assert("2"@ =~= seq!['2']); }
        "2"
    } else if d == 3 {
        proof { reveal_strlit("3"); assert("3"@ =~= seq!['3']); }
        "3"
    } else if d == 4 {
        proof { reveal_strlit("4"); assert("4"@ =~= seq!['4']); }
        "4"
    } else if d == 5 {
        proof { reveal_strlit("5"); assert("5"@ =~= seq!['5']); }
        "5"
    } else if d == 6 {
        proof { reveal_strlit("6"); assert("6"@ =~= seq!['6']); }
        "6"
    } else if d == 7 {
        proof { reveal_strlit("7"); assert("7"@ =~= seq!['7']); }
        "7"
    } else if d == 8 {
        proof { reveal_strlit("8"); assert("8"@ =~= seq!['8']); }
        "8"
    } else {
        proof { reveal_strlit("9"); assert("9"@ =~= seq!['9']); }
        "9"
    }
}

/// Appends the decimal text of `n` to `out`.
pub fn push_decimal(out: &mut String, n: u64)
    ensures
        final(out)@ == old(out)@ + decimal_digits(n as nat),
    decreases n,
{
    if n >= 10 {
        push_decimal(out, n / 10);
    }
    out.append(digit_text(n % 10));
}

/// The decimal text of an unsigned integer, as `to_string` renders it.
pub fn u64_to_decimal(n: u64) -> (s: String)
    ensures
        s@ == decimal_digits(n as nat),
{
    let mut s = String::new();
    push_decimal(&mut s, n);
    assert(s@ =~= decimal_digits(n as nat));
    s
}

/// Appends the decimal text of a signed integer to `out`.
pub fn push_signed_decimal(out: &mut String, i: i64)
    ensures
        final(out)@ == old(out)@ + signed_decimal(i as int),
{
    if i < 0 {
        let magnitude: u64 = ((-(i + 1)) as u64) + 1;
        proof { reveal_strlit("-"); assert("-"@ =~= seq!['-']); }
        let ghost before = out@;
        out.append("-");
        push_decimal(out, magnitude);
        assert(out@ =~= before + signed_decimal(i as int));
    } else {
        push_decimal(out, i as u64);
    }
}


/// The text of a string as a sequence of characters.
pub fn chars_of(s: &str) -> (v: Vec<char>)
    ensures
        v@ == s@,
{
    let mut v: Vec<char> = Vec::new();
    let n = s.unicode_len();
    let mut i: usize = 0;
    while i < n
        invariant
            n == s@.len(),
            i <= n,
            v@ == s@.subrange(0, i as int),
        decreases n - i,
    {
        let c = s.get_char(i);
        v.push(c);
        i += 1;
        assert(v@ =~= s@.subrange(0, i as int));
    }
    assert(v@ =~= s@);
    v
}

/// Why a text is not the number of a `u64`: the kinds of error that
/// `u64::from_str_radix` reports.
#[derive(Clone, Copy, Debug, PartialEq, Eq)]
pub enum IntParseError {
    Empty,
    InvalidDigit,
    PosOverflow,
}

/// The value of a hexadecimal digit, either case.
pub open spec fn hex_digit_value(c: char) -> Option<nat> {
    if '0' <= c && c <= '9' {
        Some((c as int - '0' as int) as nat)
    } else if 'a' <= c && c <= 'f' {
        Some((c as int - 'a' as int + 10) as nat)
    } else if 'A' <= c && c <= 'F' {
        Some((c as int - 'A' as int + 10) as nat)
    } else {
        None
    }
}

/// Reads hexadecimal digits left to right into a `u64`: the first character
/// that is no digit is an invalid digit, unless the value has grown past
/// `u64::MAX` before it.
pub open spec fn hex_digits_value(s: Seq<char>) -> Result<nat, IntParseError>
    decreases s.len(),
{
    if s.len() == 0 {
        Ok(0)
    } else {
        match hex_digits_value(s.drop_last()) {
            Ok(v) => match hex_digit_value(s.last()) {
                Some(d) => if v * 16 + d <= u64::MAX {
                    Ok(v * 16 + d)
                } else {
                    Err(IntParseError::PosOverflow)
                },
                None => Err(IntParseError::InvalidDigit),
            },
            Err(e) => Err(e),
        }
    }
}

/// What `u64::from_str_radix(s, 16)` gives: an empty text is refused, a lone
/// sign is an invalid digit, one leading '+' is allowed.
pub open spec fn hex_u64(s: Seq<char>) -> Result<u64, IntParseError> {
    if s.len() == 0 {
        Err(IntParseError::Empty)
    } else if s.len() == 1 && (s[0] == '+' || s[0] == '-') {
        Err(IntParseError::InvalidDigit)
    } else {
        let digits = if s[0] == '+' { s.drop_first() } else { s };
        match hex_digits_value(digits) {
            Ok(v) => Ok(v as u64),
            Err(e) => Err(e),
        }
    }
}

/// The text left when every leading "0x" is removed, as
/// `trim_start_matches("0x")` does.
pub open spec fn strip_hex_prefixes(s: Seq<char>) -> Seq<char>
    decreases s.len(),
{
    if s.len() >= 2 && s[0] == '0' && s[1] == 'x' {
        strip_hex_prefixes(s.subrange(2, s.len() as int))
    } else {
        s
    }
}

/// A hexadecimal quantity as node responses carry it: leading "0x"
/// prefixes are dropped, the rest is read as by `u64::from_str_radix(.., 16)`.
pub open spec fn hex_quantity(s: Seq<char>) -> Result<u64, IntParseError> {
    hex_u64(strip_hex_prefixes(s))
}

fn hex_digit(c: char) -> (d: Option<u64>)
    ensures
        match hex_digit_value(c) {
            Some(v) => d == Some(v as u64),
            None => d is None,
        },
{
    if '0' <= c && c <= '9' {
        Some((c as u64) - ('0' as u64))
    } else if 'a' <= c && c <= 'f' {
        Some((c as u64) - ('a' as u64) + 10)
    } else if 'A' <= c && c <= 'F' {
        Some((c as u64) - ('A' as u64) + 10)
    } else {
        None
    }
}

proof fn lemma_strip_step(s: Seq<char>, start: int)
    requires
        0 <= start,
        start + 2 <= s.len(),
        s[start] == '0',
        s[start + 1] == 'x',
    ensures
        strip_hex_prefixes(s.subrange(start, s.len() as int)) == strip_hex_prefixes(
            s.subrange(start + 2, s.len() as int),
        ),
{
    let t = s.subrange(start, s.len() as int);
    assert(t.subrange(2, t.len() as int) =~= s.subrange(start + 2, s.len() as int));
}

/// Parses a hexadecimal quantity: every leading "0x" is dropped, then the
/// rest is read as `u64::from_str_radix(.., 16)` reads it.
pub fn parse_hex_quantity(s: &str) -> (r: Result<u64, IntParseError>)
    ensures
        r == hex_quantity(s@),
{
    let v = chars_of(s);
    let n = v.len();
    let mut start: usize = 0;
    assert(v@.subrange(0, n as int) =~= v@);
    while n - start >= 2 && v[start] == '0' && v[start + 1] == 'x'
        invariant
            n == v@.len(),
            start <= n,
            strip_hex_prefixes(v@) == strip_hex_prefixes(v@.subrange(start as int, n as int)),
        decreases n - start,
    {
        proof { lemma_strip_step(v@, start as int); }
        start = start + 2;
    }
    let ghost rest = v@.subrange(start as int, n as int);
    assert(strip_hex_prefixes(rest) == rest);
    if start == n {
        return Err(IntParseError::Empty);
    }
    if start + 1 == n && (v[start] == '+' || v[start] == '-') {
        return Err(IntParseError::InvalidDigit);
    }
    let mut i: usize = if v[start] == '+' { start + 1 } else { start };
    let first = i;
    let ghost digits = v@.subrange(first as int, n as int);
    assert(digits =~= (if rest[0] == '+' { rest.drop_first() } else { rest }));
    let mut acc: u64 = 0;
    assert(digits.subrange(0, 0) =~= Seq::<char>::empty());
    let ghost expected = match hex_digits_value(digits) {
        Ok(x) => Ok::<u64, IntParseError>(x as u64),
        Err(e) => Err(e),
    };
    assert(hex_quantity(s@) == expected);
    while i < n
        invariant
            n == v@.len(),
            hex_quantity(s@) == expected,
            expected == (match hex_digits_value(digits) {
                Ok(x) => Ok::<u64, IntParseError>(x as u64),
                Err(e) => Err(e),
            }),
            first <= i <= n,
            digits == v@.subrange(first as int, n as int),
            hex_digits_value(digits.subrange(0, i - first)) == Ok::<nat, IntParseError>(acc as nat),
        decreases n - i,
    {
        let c = v[i];
        let ghost prefix = digits.subrange(0, i - first + 1);
        assert(prefix.drop_last() =~= digits.subrange(0, i - first));
        assert(prefix.last() == c);
        match hex_digit(c) {
            None => {
                assert(hex_digits_value(prefix) == Err::<nat, IntParseError>(IntParseError::InvalidDigit));
                proof { lemma_error_persists(digits, (i - first + 1) as int); }
                return Err(IntParseError::InvalidDigit);
            },
            Some(d) => {
                if acc > (u64::MAX - d) / 16 {
                    assert(acc * 16 + d > u64::MAX) by (nonlinear_arith)
                        requires acc > (u64::MAX - d) / 16, d < 16;
                    assert(hex_digits_value(prefix) == Err::<nat, IntParseError>(IntParseError::PosOverflow));
                    proof { lemma_error_persists(digits, (i - first + 1) as int); }
                    return Err(IntParseError::PosOverflow);
                }
                assert(acc * 16 + d <= u64::MAX) by (nonlinear_arith)
                    requires acc <= (u64::MAX - d) / 16, d < 16;
                acc = acc * 16 + d;
                i = i + 1;
            },
        }
    }
    assert(digits.subrange(0, n - first) =~= digits);
    Ok(acc)
}

/// Once reading a prefix has failed, reading any longer text fails the same way.
proof fn lemma_error_persists(s: Seq<char>, k: int)
    requires
        0 <= k <= s.len(),
        hex_digits_value(s.subrange(0, k)) is Err,
    ensures
        hex_digits_value(s) == hex_digits_value(s.subrange(0, k)),
    decreases s.len() - k,
{
    if k < s.len() {
        let next = s.subrange(0, k + 1);
        assert(next.drop_last() =~= s.subrange(0, k));
        lemma_error_persists(s, k + 1);
    } else {
        assert(s.subrange(0, k) =~= s);
    }
}

/// Every leading "0x" of a quantity is dropped: one more in front changes
/// nothing.
pub proof fn lemma_hex_prefix_dropped(s: Seq<char>)
    ensures
        hex_quantity(seq!['0', 'x'] + s) == hex_quantity(s),
{
    let t = seq!['0', 'x'] + s;
    assert(t.subrange(2, t.len() as int) =~= s);
}

/// A quantity that reads as `v` and has one more hexadecimal digit `c`
/// written after it reads as `16 * v` plus the digit's value (0-9 for
/// '0'-'9', 10-15 for 'a'-'f' or 'A'-'F'), as long as that fits in a `u64`.
pub proof fn lemma_hex_digit_appended(s: Seq<char>, c: char, v: u64)
    requires
        s.len() > 0,
        !(s.len() >= 2 && s[0] == '0' && s[1] == 'x'),
        s[0] != '+',
        hex_quantity(s) == Ok::<u64, IntParseError>(v),
        ('0' <= c <= '9') || ('a' <= c <= 'f') || ('A' <= c <= 'F'),
        v * 16 + 15 <= u64::MAX,
    ensures
        ('0' <= c <= '9') ==> hex_quantity(s.push(c)) == Ok::<u64, IntParseError>((v * 16 + (c as int - '0' as int)) as u64),
        ('a' <= c <= 'f') ==> hex_quantity(s.push(c)) == Ok::<u64, IntParseError>((v * 16 + (c as int - 'a' as int) + 10) as u64),
        ('A' <= c <= 'F') ==> hex_quantity(s.push(c)) == Ok::<u64, IntParseError>((v * 16 + (c as int - 'A' as int) + 10) as u64),
{
    let t = s.push(c);
    assert(strip_hex_prefixes(s) == s);
    assert(t[0] == s[0]);
    assert(s.len() == 1 ==> t[1] == c);
    assert(s.len() >= 2 ==> t[1] == s[1]);
    assert(strip_hex_prefixes(t) == t);
    assert(!(s.len() == 1 && (s[0] == '+' || s[0] == '-')) ==> hex_digits_value(s) is Ok);
    assert(t.drop_last() =~= s);
    assert(t.last() == c);
}

/// The message that `ParseIntError` displays for each kind of error.
pub open spec fn int_parse_error_message(e: IntParseError) -> Seq<char> {
    match e {
        IntParseError::Empty => "cannot parse integer from empty string"@,
        IntParseError::InvalidDigit => "invalid digit found in string"@,
        IntParseError::PosOverflow => "number too large to fit in target type"@,
    }
}

/// The message of a parse error, as `ParseIntError` displays it.
pub fn int_parse_error_text(e: IntParseError) -> (s: &'static str)
    ensures
        s@ == int_parse_error_message(e),
{
    match e {
        IntParseError::Empty => "cannot parse integer from empty string",
        IntParseError::InvalidDigit => "invalid digit found in string",
        IntParseError::PosOverflow => "number too large to fit in target type",
    }
}

} // verus!
