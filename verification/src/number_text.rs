//! Decimal and hexadecimal number texts: parsing unsigned integers the way
//! `str::parse` does, and formatting integers the way `{}` and `{:08X}` do.

use vstd::prelude::*;

verus! {

/// Why a text is not accepted as an unsigned integer (the kinds of
/// `std::num::ParseIntError` that an unsigned parse can produce).
#[derive(Clone, Copy, Debug, PartialEq, Eq, Structural)]
pub enum ParseIntFailure {
    Empty,
    InvalidDigit,
    PosOverflow,
}

pub open spec fn is_ascii_digit(c: char) -> bool {
    '0' <= c && c <= '9'
}

pub open spec fn digit_value(c: char) -> int {
    (c as int) - ('0' as int)
}

/// Reads `d` left to right as decimal digits into a value bounded by `max`:
/// the first character that is not a digit, or the first digit that takes the
/// value above `max`, decides the failure.
pub open spec fn scan_digits(d: Seq<char>, max: int) -> Result<int, ParseIntFailure>
    decreases d.len(),
{
    if d.len() == 0 {
        Ok(0)
    } else {
        match scan_digits(d.drop_last(), max) {
            Err(k) => Err(k),
            Ok(v) => if !is_ascii_digit(d.last()) {
                Err(ParseIntFailure::InvalidDigit)
            } else if v * 10 + digit_value(d.last()) > max {
                Err(ParseIntFailure::PosOverflow)
            } else {
                Ok(v * 10 + digit_value(d.last()))
            },
        }
    }
}

/// What parsing `s` as an unsigned integer type whose largest value is `max`
/// gives: an optional leading `+`, then decimal digits.
pub open spec fn parse_unsigned_spec(s: Seq<char>, max: int) -> Result<int, ParseIntFailure> {
    if s.len() == 0 {
        Err(ParseIntFailure::Empty)
    } else if s.len() == 1 && (s[0] == '+' || s[0] == '-') {
        Err(ParseIntFailure::InvalidDigit)
    } else if s[0] == '+' {
        scan_digits(s.drop_first(), max)
    } else {
        scan_digits(s, max)
    }
}

proof fn lemma_scan_digits_bound(d: Seq<char>, max: int)
    requires
        max >= 0,
    ensures
        scan_digits(d, max) matches Ok(v) ==> 0 <= v <= max,
    decreases d.len(),
{
    if d.len() > 0 {
        lemma_scan_digits_bound(d.drop_last(), max);
    }
}

/// Law: a parsed unsigned value lies between 0 and the type's largest value.
pub proof fn lemma_parse_unsigned_bound(s: Seq<char>, max: int)
    requires
        max >= 0,
    ensures
        parse_unsigned_spec(s, max) matches Ok(v) ==> 0 <= v <= max,
{
    lemma_scan_digits_bound(s, max);
    if s.len() > 0 {
        lemma_scan_digits_bound(s.drop_first(), max);
    }
}

/// The text of a `ParseIntError` of the given kind.
pub open spec fn parse_failure_text(k: ParseIntFailure) -> Seq<char> {
    match k {
        ParseIntFailure::Empty => "cannot parse integer from empty string"@,
        ParseIntFailure::InvalidDigit => "invalid digit found in string"@,
        ParseIntFailure::PosOverflow => "number too large to fit in target type"@,
    }
}

pub open spec fn digit_char(d: int) -> char {
    if d == 0 { '0' }
    else if d == 1 { '1' }
    else if d == 2 { '2' }
    else if d == 3 { '3' }
    else if d == 4 { '4' }
    else if d == 5 { '5' }
    else if d == 6 { '6' }
    else if d == 7 { '7' }
    else if d == 8 { '8' }
    else { '9' }
}

/// The decimal text of `n`, without sign or leading zeros.
pub open spec fn decimal_text(n: nat) -> Seq<char>
    decreases n,
{
    if n < 10 {
        seq![digit_char(n as int)]
    } else {
        decimal_text(n / 10).push(digit_char((n % 10) as int))
    }
}

/// The decimal text of a signed integer, with `-` before negative values.
pub open spec fn signed_decimal_text(v: int) -> Seq<char> {
    if v < 0 {
        seq!['-'] + decimal_text((-v) as nat)
    } else {
        decimal_text(v as nat)
    }
}

pub open spec fn hex_digit_char(d: int) -> char {
    if d < 10 {
        digit_char(d)
    } else if d == 10 { 'A' }
    else if d == 11 { 'B' }
    else if d == 12 { 'C' }
    else if d == 13 { 'D' }
    else if d == 14 { 'E' }
    else { 'F' }
}

/// The last `width` upper-case hexadecimal digits of `v`, most significant
/// first.
pub open spec fn hex_text_padded(v: nat, width: nat) -> Seq<char>
    decreases width,
{
    if width == 0 {
        Seq::empty()
    } else {
        hex_text_padded(v / 16, (width - 1) as nat).push(hex_digit_char((v % 16) as int))
    }
}

/// The characters of `s`, one by one.
pub fn chars_of(s: &str) -> (r: Vec<char>)
    ensures
        r@ == s@,
{
    let n = s.unicode_len();
    let mut r: Vec<char> = Vec::new();
    let mut i: usize = 0;
    while i < n
        invariant
            n == s@.len(),
            i <= n,
            r@ == s@.subrange(0, i as int),
        decreases n - i,
    {
        let c = s.get_char(i);
        r.push(c);
        i = i + 1;
        assert(r@ =~= s@.subrange(0, i as int));
    }
    assert(r@ =~= s@);
    r
}

/// The one-character text of a hexadecimal digit.
fn digit_str(d: u64) -> (r: &'static str)
    requires
        d < 16,
    ensures
        r@ == seq![hex_digit_char(d as int)],
{
    proof {
        reveal_strlit("0");
        reveal_strlit("1");
        reveal_strlit("2");
        reveal_strlit("3");
        reveal_strlit("4");
        reveal_strlit("5");
        reveal_strlit("6");
        reveal_strlit("7");
        reveal_strlit("8");
        reveal_strlit("9");
        reveal_strlit("A");
        reveal_strlit("B");
        reveal_strlit("C");
        reveal_strlit("D");
        reveal_strlit("E");
        reveal_strlit("F");
    }
    let r = if d == 0 { "0" }
    else if d == 1 { "1" }
    else if d == 2 { "2" }
    else if d == 3 { "3" }
    else if d == 4 { "4" }
    else if d == 5 { "5" }
    else if d == 6 { "6" }
    else if d == 7 { "7" }
    else if d == 8 { "8" }
    else if d == 9 { "9" }
    else if d == 10 { "A" }
    else if d == 11 { "B" }
    else if d == 12 { "C" }
    else if d == 13 { "D" }
    else if d == 14 { "E" }
    else { "F" };
    assert(r@ =~= seq![hex_digit_char(d as int)]);
    r
}

/// The decimal text of `n`, as `{}` formats an unsigned integer.
pub fn format_decimal(n: u128) -> (r: String)
    ensures
        r@ == decimal_text(n as nat),
    decreases n,
{
    if n < 10 {
        String::from_str(digit_str(n as u64))
    } else {
        let mut s = format_decimal(n / 10);
        s.append(digit_str((n % 10) as u64));
        assert(s@ =~= decimal_text(n as nat));
        s
    }
}

/// The decimal text of `v`, as `{}` formats a signed integer.
pub fn format_signed_decimal(v: i64) -> (r: String)
    ensures
        r@ == signed_decimal_text(v as int),
{
    if v < 0 {
        let magnitude: u64 = if v == i64::MIN {
            9223372036854775808u64
        } else {
            (-v) as u64
        };
        let digits = format_decimal(magnitude as u128);
        let mut s = String::from_str("-");
        proof {
            reveal_strlit("-");
        }
        s.append(digits.as_str());
        assert(s@ =~= signed_decimal_text(v as int));
        s
    } else {
        format_decimal(v as u128)
    }
}

/// The last `width` upper-case hexadecimal digits of `v`, as `{:0width$X}`
/// formats a value below `16^width`.
pub fn format_hex_padded(v: u64, width: u64) -> (r: String)
    ensures
        r@ == hex_text_padded(v as nat, width as nat),
    decreases width,
{
    if width == 0 {
        String::new()
    } else {
        let mut s = format_hex_padded(v / 16, width - 1);
        s.append(digit_str(v % 16));
        assert(s@ =~= hex_text_padded(v as nat, width as nat));
        s
    }
}

/// Every character of a decimal text is a digit, and the text reads back as
/// its value.
proof fn lemma_decimal_text_scans(n: nat, max: int)
    requires
        n <= max,
    ensures
        decimal_text(n).len() >= 1,
        is_ascii_digit(decimal_text(n)[0]),
        scan_digits(decimal_text(n), max) == Ok::<int, ParseIntFailure>(n as int),
    decreases n,
{
    let t = decimal_text(n);
    if n < 10 {
        assert(t.drop_last() =~= Seq::<char>::empty());
        assert(digit_value(digit_char(n as int)) == n);
        assert(t.last() == digit_char(n as int));
        assert(scan_digits(t.drop_last(), max) == Ok::<int, ParseIntFailure>(0));
        assert(is_ascii_digit(t.last()));
        assert(scan_digits(t, max) == Ok::<int, ParseIntFailure>(n as int));
    } else {
        lemma_decimal_text_scans(n / 10, max);
        assert(t.drop_last() =~= decimal_text(n / 10));
        assert(digit_value(digit_char((n % 10) as int)) == n % 10);
        assert(t[0] == decimal_text(n / 10)[0]);
        assert(t.last() == digit_char((n % 10) as int));
        assert((n / 10) * 10 + n % 10 == n) by {
            vstd::arithmetic::div_mod::lemma_fundamental_div_mod(n as int, 10);
        }
        assert(is_ascii_digit(t.last()));
        assert(scan_digits(t, max) == Ok::<int, ParseIntFailure>(n as int));
    }
}

/// Law: the decimal text of a value parses back to that value, for every
/// value that fits the parsed type.
pub proof fn lemma_decimal_round_trip(n: nat, max: int)
    requires
        n <= max,
    ensures
        parse_unsigned_spec(decimal_text(n), max) == Ok::<int, ParseIntFailure>(n as int),
{
    lemma_decimal_text_scans(n, max);
}

/// Parses `s` as an unsigned integer whose largest value is `max`, accepting
/// and rejecting exactly the texts that `str::parse` does.
pub fn parse_unsigned(s: &str, max: u64) -> (r: Result<u64, ParseIntFailure>)
    ensures
        match r {
            Ok(v) => parse_unsigned_spec(s@, max as int) == Ok::<int, ParseIntFailure>(v as int),
            Err(k) => parse_unsigned_spec(s@, max as int) == Err::<int, ParseIntFailure>(k),
        },
{
    let chars = chars_of(s);
    let n = chars.len();
    if n == 0 {
        return Err(ParseIntFailure::Empty);
    }
    if n == 1 && (chars[0] == '+' || chars[0] == '-') {
        return Err(ParseIntFailure::InvalidDigit);
    }
    let start: usize = if chars[0] == '+' { 1 } else { 0 };
    let ghost d = if chars@[0] == '+' { s@.drop_first() } else { s@ };
    assert(d =~= s@.subrange(start as int, n as int));
    assert(parse_unsigned_spec(s@, max as int) == scan_digits(d, max as int));
    let mut acc: u64 = 0;
    let mut i: usize = start;
    while i < n
        invariant
            chars@ == s@,
            n == s@.len(),
            start <= i <= n,
            d == s@.subrange(start as int, n as int),
            parse_unsigned_spec(s@, max as int) == scan_digits(d, max as int),
            scan_digits(d.subrange(0, i - start), max as int) == Ok::<int, ParseIntFailure>(
                acc as int,
            ),
            acc <= max,
        decreases n - i,
    {
        let c = chars[i];
        let ghost prefix = d.subrange(0, i - start + 1);
        assert(prefix.drop_last() =~= d.subrange(0, i - start));
        assert(prefix.last() == c);
        if !('0' <= c && c <= '9') {
            assert(scan_digits(prefix, max as int) == Err::<int, ParseIntFailure>(
                ParseIntFailure::InvalidDigit,
            ));
            proof {
                lemma_scan_prefix_error(d, (i - start + 1) as nat, max as int);
            }
            return Err(ParseIntFailure::InvalidDigit);
        }
        let dv = (c as u32 - '0' as u32) as u64;
        if dv > max || acc > (max - dv) / 10 {
            assert(acc * 10 + dv > max) by (nonlinear_arith)
                requires
                    dv > max || acc > (max - dv) / 10,
                    acc >= 0,
                    dv >= 0,
                    max >= 0,
            {
                if dv <= max {
                    assert(acc >= (max - dv) / 10 + 1);
                    assert(((max - dv) / 10 + 1) * 10 > max - dv);
                }
            }
            assert(digit_value(c) == dv);
            assert(scan_digits(prefix, max as int) == Err::<int, ParseIntFailure>(
                ParseIntFailure::PosOverflow,
            ));
            proof {
                lemma_scan_prefix_error(d, (i - start + 1) as nat, max as int);
            }
            return Err(ParseIntFailure::PosOverflow);
        }
        assert(acc * 10 + dv <= max) by (nonlinear_arith)
            requires
                dv <= max,
                acc <= (max - dv) / 10,
                acc >= 0,
        {
            assert(((max - dv) / 10) * 10 <= max - dv);
        }
        acc = acc * 10 + dv;
        i = i + 1;
    }
    assert(d.subrange(0, n - start) =~= d);
    Ok(acc)
}

/// Once a prefix of the digits fails, the whole scan fails the same way.
proof fn lemma_scan_prefix_error(d: Seq<char>, len: nat, max: int)
    requires
        len <= d.len(),
        scan_digits(d.subrange(0, len as int), max) is Err,
    ensures
        scan_digits(d, max) == scan_digits(d.subrange(0, len as int), max),
    decreases d.len() - len,
{
    if len < d.len() {
        let p = d.subrange(0, len as int + 1);
        assert(p.drop_last() =~= d.subrange(0, len as int));
        lemma_scan_prefix_error(d, len + 1, max);
    } else {
        assert(d.subrange(0, len as int) =~= d);
    }
}

} // verus!
