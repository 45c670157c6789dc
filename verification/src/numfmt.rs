//! Decimal rendering and parsing of the integer values that configuration
//! lines carry. Refresh rates are held in millihertz, so a rate renders as
//! an integer when whole and with up to three decimals otherwise.

use vstd::prelude::*;

use vstd::string::StringExecFns;

verus! {

/// The decimal digit character for `d`.
pub open spec fn spec_digit_char(d: int) -> char
    recommends
        0 <= d < 10,
{
    if d == 0 {
        '0'
    } else if d == 1 {
        '1'
    } else if d == 2 {
        '2'
    } else if d == 3 {
        '3'
    } else if d == 4 {
        '4'
    } else if d == 5 {
        '5'
    } else if d == 6 {
        '6'
    } else if d == 7 {
        '7'
    } else if d == 8 {
        '8'
    } else {
        '9'
    }
}

/// The decimal rendering of `n`, most significant digit first, without
/// leading zeros (`0` renders as "0").
pub open spec fn spec_udec(n: nat) -> Seq<char>
    decreases n,
{
    if n < 10 {
        seq![spec_digit_char(n as int)]
    } else {
        spec_udec(n / 10).push(spec_digit_char((n % 10) as int))
    }
}

/// The decimal rendering of `v`, with a leading minus sign when negative.
pub open spec fn spec_idec(v: int) -> Seq<char> {
    if v < 0 {
        seq!['-'] + spec_udec((-v) as nat)
    } else {
        spec_udec(v as nat)
    }
}

/// The one-character string for digit `d`.
fn digit_str(d: u64) -> (r: &'static str)
    requires
        d < 10,
    ensures
        r@ =~= seq![spec_digit_char(d as int)],
{
    if d == 0 {
        let r = "0";
        proof {
            reveal_strlit("0");
        }
        r
    } else if d == 1 {
        let r = "1";
        proof {
            reveal_strlit("1");
        }
        r
    } else if d == 2 {
        let r = "2";
        proof {
            reveal_strlit("2");
        }
        r
    } else if d == 3 {
        let r = "3";
        proof {
            reveal_strlit("3");
        }
        r
    } else if d == 4 {
        let r = "4";
        proof {
            reveal_strlit("4");
        }
        r
    } else if d == 5 {
        let r = "5";
        proof {
            reveal_strlit("5");
        }
        r
    } else if d == 6 {
        let r = "6";
        proof {
            reveal_strlit("6");
        }
        r
    } else if d == 7 {
        let r = "7";
        proof {
            reveal_strlit("7");
        }
        r
    } else if d == 8 {
        let r = "8";
        proof {
            reveal_strlit("8");
        }
        r
    } else {
        let r = "9";
        proof {
            reveal_strlit("9");
        }
        r
    }
}

/// Renders `n` in decimal.
pub fn u64_to_dec(n: u64) -> (s: String)
    ensures
        s@ == spec_udec(n as nat),
    decreases n,
{
    if n < 10 {
        let s = digit_str(n).to_owned();
        proof {
            assert(s@ =~= spec_udec(n as nat));
        }
        s
    } else {
        let mut s = u64_to_dec(n / 10);
        s.append(digit_str(n % 10));
        proof {
            assert(s@ =~= spec_udec(n as nat));
        }
        s
    }
}

/// Renders `v` in decimal with its sign.
pub fn i64_to_dec(v: i64) -> (s: String)
    requires
        v > i64::MIN,
    ensures
        s@ == spec_idec(v as int),
{
    if v < 0 {
        let mut s = "-".to_owned();
        proof {
            reveal_strlit("-");
        }
        let m = (-v) as u64;
        let digits = u64_to_dec(m);
        s.append(digits.as_str());
        proof {
            assert(s@ =~= spec_idec(v as int));
        }
        s
    } else {
        u64_to_dec(v as u64)
    }
}

/// The rendering of a refresh rate held in millihertz: the whole hertz
/// part, then — only when the rate is not whole — a point and the fraction
/// with trailing zeros dropped.
pub open spec fn spec_refresh(mhz: nat) -> Seq<char> {
    let whole = mhz / 1000;
    let frac = mhz % 1000;
    if frac == 0 {
        spec_udec(whole)
    } else if frac % 100 == 0 {
        spec_udec(whole) + seq!['.'] + spec_udec(frac / 100)
    } else if frac % 10 == 0 {
        spec_udec(whole) + seq!['.'] + spec_pad2(frac / 10)
    } else {
        spec_udec(whole) + seq!['.'] + spec_pad3(frac)
    }
}

/// Two decimal digits, zero-padded on the left.
pub open spec fn spec_pad2(n: nat) -> Seq<char>
    recommends
        n < 100,
{
    if n < 10 {
        seq!['0', spec_digit_char(n as int)]
    } else {
        spec_udec(n)
    }
}

/// Three decimal digits, zero-padded on the left.
pub open spec fn spec_pad3(n: nat) -> Seq<char>
    recommends
        n < 1000,
{
    if n < 10 {
        seq!['0', '0', spec_digit_char(n as int)]
    } else if n < 100 {
        seq!['0'] + spec_udec(n)
    } else {
        spec_udec(n)
    }
}

/// Appends the two-digit zero-padded rendering of `n` to `s`.
fn append_pad2(s: &mut String, n: u64)
    requires
        n < 100,
    ensures
        final(s)@ == old(s)@ + spec_pad2(n as nat),
{
    if n < 10 {
        s.append("0");
        proof {
            reveal_strlit("0");
        }
        s.append(digit_str(n));
        proof {
            assert(old(s)@ + "0"@ + seq![spec_digit_char(n as int)] =~= old(s)@ + spec_pad2(
                n as nat,
            ));
        }
    } else {
        let digits = u64_to_dec(n);
        s.append(digits.as_str());
    }
}

/// Appends the three-digit zero-padded rendering of `n` to `s`.
fn append_pad3(s: &mut String, n: u64)
    requires
        n < 1000,
    ensures
        final(s)@ == old(s)@ + spec_pad3(n as nat),
{
    if n < 10 {
        s.append("0");
        s.append("0");
        proof {
            reveal_strlit("0");
        }
        s.append(digit_str(n));
        proof {
            assert(old(s)@ + "0"@ + "0"@ + seq![spec_digit_char(n as int)] =~= old(s)@ + spec_pad3(
                n as nat,
            ));
        }
    } else if n < 100 {
        s.append("0");
        proof {
            reveal_strlit("0");
        }
        let digits = u64_to_dec(n);
        s.append(digits.as_str());
        proof {
            assert(old(s)@ + "0"@ + spec_udec(n as nat) =~= old(s)@ + spec_pad3(n as nat));
        }
    } else {
        let digits = u64_to_dec(n);
        s.append(digits.as_str());
    }
}

/// The dropdown label of a refresh rate: two decimals and a `Hz` suffix,
/// the fraction rounded to the nearest hundredth of a hertz, halves up.
pub open spec fn spec_refresh_label(mhz: nat) -> Seq<char> {
    let cents = (mhz + 5) / 10;
    spec_udec(cents / 100) + seq!['.'] + spec_pad2(cents % 100) + seq!['H', 'z']
}

/// Renders the dropdown label of a refresh rate held in millihertz.
pub fn refresh_label(mhz: u32) -> (s: String)
    ensures
        s@ == spec_refresh_label(mhz as nat),
{
    let cents = ((mhz as u64) + 5) / 10;
    let mut s = u64_to_dec(cents / 100);
    s.append(".");
    proof {
        reveal_strlit(".");
        assert("."@ =~= seq!['.']);
    }
    append_pad2(&mut s, cents % 100);
    s.append("Hz");
    proof {
        reveal_strlit("Hz");
        assert("Hz"@ =~= seq!['H', 'z']);
        assert(s@ =~= spec_refresh_label(mhz as nat));
    }
    s
}

/// `c` is a decimal digit.
pub open spec fn is_digit_char(c: char) -> bool {
    c == '0' || c == '1' || c == '2' || c == '3' || c == '4' || c == '5' || c == '6' || c == '7'
        || c == '8' || c == '9'
}

/// The value of digit character `c`.
pub open spec fn spec_char_digit(c: char) -> int
    recommends
        is_digit_char(c),
{
    if c == '0' {
        0
    } else if c == '1' {
        1
    } else if c == '2' {
        2
    } else if c == '3' {
        3
    } else if c == '4' {
        4
    } else if c == '5' {
        5
    } else if c == '6' {
        6
    } else if c == '7' {
        7
    } else if c == '8' {
        8
    } else {
        9
    }
}

/// The value of a digit string, most significant digit first.
pub open spec fn spec_digits_val(s: Seq<char>) -> nat
    decreases s.len(),
{
    if s.len() == 0 {
        0
    } else {
        (spec_digits_val(s.drop_last()) * 10 + spec_char_digit(s.last())) as nat
    }
}

/// The digit part of a signed decimal string, after an optional single sign
/// character.
pub open spec fn spec_sign_split(s: Seq<char>) -> (bool, Seq<char>) {
    if s.len() > 0 && s[0] == '-' {
        (true, s.drop_first())
    } else if s.len() > 0 && s[0] == '+' {
        (false, s.drop_first())
    } else {
        (false, s)
    }
}

/// The value a signed decimal string denotes: an optional sign, then at
/// least one digit, all digits, within the 32-bit signed range.
pub open spec fn spec_parse_i32(s: Seq<char>) -> Option<int> {
    let (neg, digits) = spec_sign_split(s);
    if digits.len() == 0 || exists|j: int| 0 <= j < digits.len() && !is_digit_char(digits[j]) {
        None
    } else {
        let v: int = if neg {
            -spec_digits_val(digits)
        } else {
            spec_digits_val(digits) as int
        };
        if i32::MIN <= v <= i32::MAX {
            Some(v)
        } else {
            None
        }
    }
}

/// The value of digit character `c`, or nothing.
fn char_digit(c: char) -> (r: Option<u64>)
    ensures
        match r {
            Some(d) => is_digit_char(c) && d == spec_char_digit(c) && d < 10,
            None => !is_digit_char(c),
        },
{
    if c == '0' {
        Some(0)
    } else if c == '1' {
        Some(1)
    } else if c == '2' {
        Some(2)
    } else if c == '3' {
        Some(3)
    } else if c == '4' {
        Some(4)
    } else if c == '5' {
        Some(5)
    } else if c == '6' {
        Some(6)
    } else if c == '7' {
        Some(7)
    } else if c == '8' {
        Some(8)
    } else if c == '9' {
        Some(9)
    } else {
        None
    }
}

/// Parses a signed decimal string: an optional `+` or `-` sign, then one or
/// more digits, rejecting anything else and values outside the 32-bit
/// signed range.
pub fn parse_i32(s: &str) -> (r: Option<i32>)
    ensures
        match r {
            Some(v) => spec_parse_i32(s@) == Some(v as int),
            None => spec_parse_i32(s@) is None,
        },
{
    let len = s.unicode_len();
    let mut start: usize = 0;
    let mut neg = false;
    if len > 0 {
        let c0 = s.get_char(0);
        if c0 == '-' {
            neg = true;
            start = 1;
        } else if c0 == '+' {
            start = 1;
        }
    }
    let ghost digits = s@.skip(start as int);
    proof {
        assert((neg, digits) == spec_sign_split(s@));
    }
    if start >= len {
        proof {
            assert(digits.len() == 0);
        }
        return None;
    }
    let mut acc: u64 = 0;
    let mut i: usize = start;
    while i < len
        invariant
            len == s@.len(),
            start <= i <= len,
            digits == s@.skip(start as int),
            (neg, digits) == spec_sign_split(s@),
            digits.len() > 0,
            forall|j: int| 0 <= j < i - start ==> is_digit_char(digits[j]),
            spec_digits_val(digits.take(i - start)) <= 0xFFFF_FFFF ==> acc == spec_digits_val(
                digits.take(i - start),
            ),
            spec_digits_val(digits.take(i - start)) > 0xFFFF_FFFF ==> acc > 0xFFFF_FFFF,
        decreases len - i,
    {
        let c = s.get_char(i);
        match char_digit(c) {
            Some(d) => {
                proof {
                    assert(digits.take(i + 1 - start).drop_last() =~= digits.take(i - start));
                    assert(digits.take(i + 1 - start).last() == digits[i - start]);
                }
                if acc <= 0xFFFF_FFFF {
                    acc = acc * 10 + d;
                } else {
                    proof {
                        let v = spec_digits_val(digits.take(i - start)) as int;
                        assert(v * 10 + spec_char_digit(digits[i - start]) > 0xFFFF_FFFF);
                    }
                }
            },
            None => {
                proof {
                    assert(!is_digit_char(digits[i - start]));
                }
                return None;
            },
        }
        i = i + 1;
    }
    proof {
        assert(digits.take(len - start as int) =~= digits);
    }
    if neg {
        if acc <= 2147483648 {
            Some((-(acc as i64)) as i32)
        } else {
            None
        }
    } else {
        if acc <= 2147483647 {
            Some(acc as i32)
        } else {
            None
        }
    }
}

/// Renders a refresh rate held in millihertz.
pub fn refresh_to_dec(mhz: u32) -> (s: String)
    ensures
        s@ == spec_refresh(mhz as nat),
{
    let whole = (mhz / 1000) as u64;
    let frac = (mhz % 1000) as u64;
    let mut s = u64_to_dec(whole);
    if frac == 0 {
        return s;
    }
    s.append(".");
    proof {
        reveal_strlit(".");
        assert("."@ =~= seq!['.']);
    }
    if frac % 100 == 0 {
        s.append(digit_str(frac / 100));
        proof {
            assert(s@ =~= spec_refresh(mhz as nat));
        }
    } else if frac % 10 == 0 {
        append_pad2(&mut s, frac / 10);
        proof {
            assert(s@ =~= spec_refresh(mhz as nat));
        }
    } else {
        append_pad3(&mut s, frac);
        proof {
            assert(s@ =~= spec_refresh(mhz as nat));
        }
    }
    s
}

} // verus!
