//! Decimal literals for generated shader source.
//!
//! A shading language may refuse a number without a fractional separator, so
//! every literal written here has one: `0.` and `1.`, never `0` and `1`.
//! Trailing zeros of the fraction are dropped; the separator never is.

use vstd::prelude::*;
use vstd::string::*;
use vstd::arithmetic::div_mod::lemma_fundamental_div_mod;
use crate::blocks::plain;
use crate::number::Fixed;

verus! {

/// The character of the decimal digit `d`.
pub open spec fn digit_char(d: int) -> char {
    if d == 0 {
        '0'
    } else if d == 1 {
        '1'
    } else if d == 2 {
        '2'
    } else if d == 3 {
        '3'
    } else if d == 4 {
        '4'
    } else if d == 5 {
        '5'
    } else if d == 6 {
        '6'
    } else if d == 7 {
        '7'
    } else if d == 8 {
        '8'
    } else {
        '9'
    }
}

/// Ten to the power `e`.
pub open spec fn pow10(e: nat) -> nat
    decreases e,
{
    if e == 0 {
        1
    } else {
        10 * pow10((e - 1) as nat)
    }
}

/// The digits of `n`, most significant first, without leading zeros; `0` for zero.
pub open spec fn whole_digits(n: nat) -> Seq<char>
    decreases n,
{
    if n < 10 {
        seq![digit_char(n as int)]
    } else {
        whole_digits(n / 10).push(digit_char((n % 10) as int))
    }
}

/// The last `width` digits of `n`, most significant first, zeros included.
pub open spec fn padded_digits(n: nat, width: nat) -> Seq<char>
    decreases width,
{
    if width == 0 {
        Seq::empty()
    } else {
        padded_digits(n / 10, (width - 1) as nat).push(digit_char((n % 10) as int))
    }
}

/// `s` without the zeros at its end.
pub open spec fn trim_trailing_zeros(s: Seq<char>) -> Seq<char>
    decreases s.len(),
{
    if s.len() > 0 && s.last() == '0' {
        trim_trailing_zeros(s.drop_last())
    } else {
        s
    }
}

/// The absolute value of `x`.
pub open spec fn magnitude(x: int) -> nat {
    if x < 0 {
        (-x) as nat
    } else {
        x as nat
    }
}

/// The literal of the number `units / 10^digits`: a minus sign if it is
/// negative, its whole part, the separator, and the fraction without its
/// trailing zeros.
pub open spec fn decimal_text(units: int, digits: nat) -> Seq<char> {
    let sign = if units < 0 {
        seq!['-']
    } else {
        Seq::<char>::empty()
    };
    let whole = whole_digits(magnitude(units) / pow10(digits));
    let fraction = padded_digits(magnitude(units) % pow10(digits), digits);
    sign + whole + seq!['.'] + trim_trailing_zeros(fraction)
}

/// Powers of ten are positive and grow with the exponent.
pub proof fn lemma_pow10_grows(a: nat, b: nat)
    requires
        a <= b,
    ensures
        0 < pow10(a) <= pow10(b),
    decreases b,
{
    if b == 0 {
    } else if a == b {
        lemma_pow10_grows((a - 1) as nat, (b - 1) as nat);
    } else {
        lemma_pow10_grows(a, (b - 1) as nat);
    }
}

/// The last power of ten that 128 bits hold, and the first above every
/// 128-bit magnitude.
proof fn lemma_pow10_38()
    ensures
        pow10(38) == 100_000_000_000_000_000_000_000_000_000_000_000_000,
        pow10(39) == 1_000_000_000_000_000_000_000_000_000_000_000_000_000,
{
    reveal_with_fuel(pow10, 40);
}

/// Every literal holds the separator, whatever the number and however many
/// digits its fraction may have.
pub proof fn lemma_decimal_text_has_separator(units: int, digits: nat)
    ensures
        decimal_text(units, digits).contains('.'),
{
    let sign = if units < 0 {
        seq!['-']
    } else {
        Seq::<char>::empty()
    };
    let whole = whole_digits(magnitude(units) / pow10(digits));
    let text = decimal_text(units, digits);
    let at = (sign.len() + whole.len()) as int;
    assert(text[at] == '.');
}

/// The one-character text of the digit `d`.
fn digit_str(d: u8) -> (s: &'static str)
    requires
        d < 10,
    ensures
        s@ == seq![digit_char(d as int)],
{
    proof {
        reveal_strlit("0");
        reveal_strlit("1");
        reveal_strlit("2");
        reveal_strlit("3");
        reveal_strlit("4");
        reveal_strlit("5");
        reveal_strlit("6");
        reveal_strlit("7");
        reveal_strlit("8");
        reveal_strlit("9");
    }
    let s = if d == 0 {
        "0"
    } else if d == 1 {
        "1"
    } else if d == 2 {
        "2"
    } else if d == 3 {
        "3"
    } else if d == 4 {
        "4"
    } else if d == 5 {
        "5"
    } else if d == 6 {
        "6"
    } else if d == 7 {
        "7"
    } else if d == 8 {
        "8"
    } else {
        "9"
    };
    assert(s@ =~= seq![digit_char(d as int)]);
    s
}

/// Appends the digits of `n` to `out`.
pub fn push_whole(out: &mut String, n: u128)
    ensures
        final(out)@ == old(out)@ + whole_digits(n as nat),
    decreases n,
{
    if n >= 10 {
        push_whole(out, n / 10);
    }
    out.append(digit_str((n % 10) as u8));
    assert(out@ =~= old(out)@ + whole_digits(n as nat));
}

/// Appends the last `width` digits of `n` to `out`.
fn push_padded(out: &mut String, n: u128, width: u8)
    ensures
        final(out)@ == old(out)@ + padded_digits(n as nat, width as nat),
    decreases width,
{
    if width > 0 {
        push_padded(out, n / 10, width - 1);
        out.append(digit_str((n % 10) as u8));
    }
    assert(out@ =~= old(out)@ + padded_digits(n as nat, width as nat));
}

/// Ten to the power `e`, for an exponent whose power fits.
fn pow10_exec(e: u8) -> (p: u128)
    requires
        e <= 38,
    ensures
        p == pow10(e as nat),
{
    let mut p: u128 = 1;
    let mut i: u8 = 0;
    while i < e
        invariant
            i <= e <= 38,
            p == pow10(i as nat),
        decreases e - i,
    {
        proof {
            lemma_pow10_grows((i + 1) as nat, 38);
            lemma_pow10_38();
        }
        p = p * 10;
        i = i + 1;
    }
    p
}

/// The whole part and the fraction of `mag / 10^digits`.
fn split_scaled(mag: u128, digits: u8) -> (parts: (u128, u128))
    requires
        mag <= 0x8000_0000_0000_0000_0000_0000_0000_0000,
    ensures
        parts.0 == (mag as nat) / pow10(digits as nat),
        parts.1 == (mag as nat) % pow10(digits as nat),
{
    if digits <= 38 {
        let scale = pow10_exec(digits);
        proof {
            lemma_pow10_grows(0, digits as nat);
        }
        (mag / scale, mag % scale)
    } else {
        proof {
            lemma_pow10_grows(39, digits as nat);
            lemma_pow10_38();
            let p = pow10(digits as nat) as int;
            let m = mag as int;
            assert(m / p == 0 && m % p == m) by (nonlinear_arith)
                requires
                    0 <= m < p,
            ;
        }
        (0, mag)
    }
}

/// Appends the last `width` digits of `n` to `out`, but for the zeros at their end.
fn push_trimmed(out: &mut String, n: u128, width: u8)
    ensures
        final(out)@ == old(out)@ + trim_trailing_zeros(padded_digits(n as nat, width as nat)),
{
    let ghost full = padded_digits(n as nat, width as nat);
    let mut f = n;
    let mut w = width;
    while w > 0 && f % 10 == 0
        invariant
            trim_trailing_zeros(padded_digits(f as nat, w as nat)) == trim_trailing_zeros(full),
        decreases w,
    {
        proof {
            let s = padded_digits(f as nat, w as nat);
            assert(s.drop_last() =~= padded_digits((f / 10) as nat, (w - 1) as nat));
        }
        f = f / 10;
        w = w - 1;
    }
    push_padded(out, f, w);
}

/// The literal of the number `units / 10^digits`.
///
/// The text always holds the separator: a whole number ends with it.
pub fn format_decimal(units: i128, digits: u8) -> (text: String)
    ensures
        text@ == decimal_text(units as int, digits as nat),
{
    let mag: u128 = if units >= 0 {
        units as u128
    } else if units == -0x8000_0000_0000_0000_0000_0000_0000_0000 {
        0x8000_0000_0000_0000_0000_0000_0000_0000
    } else {
        (-units) as u128
    };
    let (whole, fraction) = split_scaled(mag, digits);
    let mut out = String::new();
    if units < 0 {
        proof {
            reveal_strlit("-");
        }
        out.append("-");
    }
    push_whole(&mut out, whole);
    proof {
        reveal_strlit(".");
    }
    out.append(".");
    push_trimmed(&mut out, fraction, digits);
    assert(out@ =~= decimal_text(units as int, digits as nat));
    out
}

/// Appends the literal of `x` to `out`.
pub fn push_decimal(out: &mut String, x: Fixed)
    ensures
        final(out)@ == old(out)@ + decimal_text(x@, 6),
{
    let text = format_decimal(x.micros as i128, 6);
    out.append(text.as_str());
}

/// Appends the digits of the index `n` to `out`.
pub fn push_index(out: &mut String, n: usize)
    ensures
        final(out)@ == old(out)@ + whole_digits(n as nat),
{
    push_whole(out, n as u128);
}

/// A decimal digit.
pub open spec fn is_digit(c: char) -> bool {
    c == '0' || c == '1' || c == '2' || c == '3' || c == '4' || c == '5' || c == '6' || c == '7'
        || c == '8' || c == '9'
}

/// Every character of `s` is a digit.
pub open spec fn all_digits(s: Seq<char>) -> bool {
    forall|i: int| 0 <= i < s.len() ==> is_digit(#[trigger] s[i])
}

/// The digits of a number are digits, and one at least.
proof fn lemma_whole_digits_chars(n: nat)
    ensures
        all_digits(whole_digits(n)),
        whole_digits(n).len() > 0,
    decreases n,
{
    if n >= 10 {
        lemma_whole_digits_chars(n / 10);
    }
}

/// The last `width` digits of a number are `width` digits.
proof fn lemma_padded_digits_chars(n: nat, width: nat)
    ensures
        all_digits(padded_digits(n, width)),
        padded_digits(n, width).len() == width,
    decreases width,
{
    if width > 0 {
        lemma_padded_digits_chars(n / 10, (width - 1) as nat);
    }
}

/// What is left of a text without the zeros at its end is its beginning,
/// and does not end in a zero.
proof fn lemma_trim_is_prefix(s: Seq<char>)
    ensures
        trim_trailing_zeros(s).len() <= s.len(),
        trim_trailing_zeros(s) == s.take(trim_trailing_zeros(s).len() as int),
        trim_trailing_zeros(s).len() > 0 ==> trim_trailing_zeros(s).last() != '0',
    decreases s.len(),
{
    if s.len() > 0 && s.last() == '0' {
        lemma_trim_is_prefix(s.drop_last());
        let t = trim_trailing_zeros(s);
        assert(s.drop_last().take(t.len() as int) =~= s.take(t.len() as int));
    } else {
        assert(s.take(s.len() as int) =~= s);
    }
}

/// The shape of a literal: a minus sign in front where the number is
/// negative and nowhere else, digits, one separator with a digit before it,
/// and digits again, `digits` at most, of which the last is no zero.
pub proof fn lemma_decimal_text_shape(units: int, digits: nat)
    ensures
        ({
            let text = decimal_text(units, digits);
            let start: int = if units < 0 {
                1
            } else {
                0
            };
            let at = first_separator(text.skip(start)) + start;
            &&& start < at < text.len() <= at + 1 + digits
            &&& units < 0 ==> text[0] == '-'
            &&& text[at] == '.'
            &&& forall|i: int| start <= i < text.len() && i != at ==> is_digit(#[trigger] text[i])
            &&& text.last() != '0'
        }),
{
    let whole = whole_digits(magnitude(units) / pow10(digits));
    let padded = padded_digits(magnitude(units) % pow10(digits), digits);
    let fraction = trim_trailing_zeros(padded);
    let text = decimal_text(units, digits);
    let start: int = if units < 0 {
        1
    } else {
        0
    };
    let body = whole + (seq!['.'] + fraction);
    lemma_whole_digits_chars(magnitude(units) / pow10(digits));
    lemma_whole_digits_value(magnitude(units) / pow10(digits));
    lemma_padded_digits_chars(magnitude(units) % pow10(digits), digits);
    lemma_trim_is_prefix(padded);
    assert(text.skip(start) =~= body);
    lemma_first_separator_concat(whole, seq!['.'] + fraction);
    assert((seq!['.'] + fraction)[0] == '.');
    let at = whole.len() + start;
    assert forall|i: int| start <= i < text.len() && i != at implies is_digit(
        #[trigger] text[i],
    ) by {
        if i < at {
            assert(text[i] == whole[i - start]);
        } else {
            assert(text[i] == fraction[i - at - 1]);
            assert(fraction[i - at - 1] == padded[i - at - 1]);
        }
    }
    if fraction.len() > 0 {
        assert(text.last() == fraction.last());
    } else {
        assert(text.last() == '.');
    }
}

/// A literal and an index open and close no block.
pub proof fn lemma_numbers_are_plain(units: int, digits: nat, index: nat)
    ensures
        plain(decimal_text(units, digits)),
        plain(whole_digits(index)),
{
    lemma_decimal_text_shape(units, digits);
    lemma_whole_digits_chars(index);
    let text = decimal_text(units, digits);
    let start: int = if units < 0 {
        1
    } else {
        0
    };
    let at = first_separator(text.skip(start)) + start;
    assert forall|i: int| 0 <= i < text.len() implies crate::blocks::step(#[trigger] text[i])
        == 0 by {
        if start <= i && i != at {
            assert(is_digit(text[i]));
        }
    }
    let number = whole_digits(index);
    assert forall|i: int| 0 <= i < number.len() implies crate::blocks::step(
        #[trigger] number[i],
    ) == 0 by {
        assert(is_digit(number[i]));
    }
}

/// The digit that a character spells; 9 for a character that is no digit.
pub open spec fn digit_of(c: char) -> nat {
    if c == '0' {
        0
    } else if c == '1' {
        1
    } else if c == '2' {
        2
    } else if c == '3' {
        3
    } else if c == '4' {
        4
    } else if c == '5' {
        5
    } else if c == '6' {
        6
    } else if c == '7' {
        7
    } else if c == '8' {
        8
    } else {
        9
    }
}

/// The number that the digits `s` spell.
pub open spec fn digits_value(s: Seq<char>) -> nat
    decreases s.len(),
{
    if s.len() == 0 {
        0
    } else {
        10 * digits_value(s.drop_last()) + digit_of(s.last())
    }
}

/// The place of the first separator in `s`, or the length of `s` where it
/// has none.
pub open spec fn first_separator(s: Seq<char>) -> nat
    decreases s.len(),
{
    if s.len() == 0 || s[0] == '.' {
        0
    } else {
        1 + first_separator(s.drop_first())
    }
}

/// The number that `text` spells, counted in units of `1 / 10^digits`: the
/// digits before the separator are its whole part, the digits after it its
/// fraction, and a minus sign in front makes it negative.
pub open spec fn literal_units(text: Seq<char>, digits: nat) -> int {
    let negative = text.len() > 0 && text[0] == '-';
    let body = if negative {
        text.drop_first()
    } else {
        text
    };
    let at = first_separator(body) as int;
    let whole = body.take(at);
    let fraction = body.skip(at + 1);
    let magnitude = digits_value(whole) * pow10(digits) + digits_value(fraction) * pow10(
        (digits - fraction.len()) as nat,
    );
    if negative {
        -magnitude
    } else {
        magnitude as int
    }
}

/// The digits of a number spell that number; none of them is a separator
/// or a sign.
proof fn lemma_whole_digits_value(n: nat)
    ensures
        digits_value(whole_digits(n)) == n,
        first_separator(whole_digits(n)) == whole_digits(n).len(),
        whole_digits(n)[0] != '-',
    decreases n,
{
    let s = whole_digits(n);
    if n < 10 {
        assert(s.drop_last() =~= Seq::<char>::empty());
        assert(s.drop_first() =~= Seq::<char>::empty());
        assert(digits_value(Seq::<char>::empty()) == 0);
        assert(first_separator(Seq::<char>::empty()) == 0);
        assert(s.last() == digit_char(n as int));
        assert(s[0] == digit_char(n as int));
        assert(digits_value(s) == 10 * digits_value(s.drop_last()) + digit_of(s.last()));
        assert(first_separator(s) == 1 + first_separator(s.drop_first()));
    } else {
        let head = whole_digits(n / 10);
        let d = digit_char((n % 10) as int);
        lemma_whole_digits_value(n / 10);
        lemma_whole_digits_chars(n / 10);
        assert(s == head.push(d));
        assert(s.drop_last() =~= head);
        assert(s.last() == d);
        assert(s[0] == head[0]);
        assert(digits_value(s) == 10 * digits_value(s.drop_last()) + digit_of(s.last()));
        lemma_no_separator_push(head, d);
    }
}

/// A digit behind a text without separator leaves it without separator.
proof fn lemma_no_separator_push(s: Seq<char>, c: char)
    requires
        first_separator(s) == s.len(),
        c != '.',
    ensures
        first_separator(s.push(c)) == s.len() + 1,
    decreases s.len(),
{
    let t = s.push(c);
    assert(t[0] == (if s.len() == 0 {
        c
    } else {
        s[0]
    }));
    if s.len() == 0 {
        assert(t.drop_first() =~= Seq::<char>::empty());
        assert(first_separator(Seq::<char>::empty()) == 0);
        assert(first_separator(t) == 1 + first_separator(t.drop_first()));
    } else {
        assert(first_separator(s) == (if s[0] == '.' {
            0
        } else {
            1 + first_separator(s.drop_first())
        }));
        assert(t.drop_first() =~= s.drop_first().push(c));
        lemma_no_separator_push(s.drop_first(), c);
        assert(first_separator(t) == 1 + first_separator(t.drop_first()));
    }
}

/// The first separator of a text that has none before `b` is the first of `b`.
proof fn lemma_first_separator_concat(a: Seq<char>, b: Seq<char>)
    requires
        first_separator(a) == a.len(),
    ensures
        first_separator(a + b) == a.len() + first_separator(b),
    decreases a.len(),
{
    if a.len() == 0 {
        assert(a + b =~= b);
    } else {
        assert((a + b).drop_first() =~= a.drop_first() + b);
        lemma_first_separator_concat(a.drop_first(), b);
    }
}

/// The last `width` digits of a number below `10^width` spell that number.
proof fn lemma_padded_digits_value(n: nat, width: nat)
    requires
        n < pow10(width),
    ensures
        digits_value(padded_digits(n, width)) == n,
    decreases width,
{
    if width > 0 {
        let s = padded_digits(n, width);
        assert(s.drop_last() =~= padded_digits(n / 10, (width - 1) as nat));
        lemma_padded_digits_value(n / 10, (width - 1) as nat);
    }
}

/// The zeros at the end of a text of digits are a power of ten in its value.
proof fn lemma_trimmed_value(s: Seq<char>)
    ensures
        digits_value(s) == digits_value(trim_trailing_zeros(s)) * pow10(
            (s.len() - trim_trailing_zeros(s).len()) as nat,
        ),
        trim_trailing_zeros(s).len() <= s.len(),
    decreases s.len(),
{
    let t = trim_trailing_zeros(s);
    if s.len() > 0 && s.last() == '0' {
        lemma_trimmed_value(s.drop_last());
        let k = (s.len() - 1 - t.len()) as nat;
        let v = digits_value(t);
        let p = pow10(k);
        assert(10 * (v * p) == v * (10 * p)) by (nonlinear_arith);
    } else {
        assert(digits_value(s) * 1 == digits_value(s)) by (nonlinear_arith);
    }
}

/// A literal reads back as the number it was written for: nothing is lost
/// between a number and its text.
pub proof fn lemma_literal_reads_back(units: int, digits: nat)
    ensures
        literal_units(decimal_text(units, digits), digits) == units,
{
    let scale = pow10(digits);
    lemma_pow10_grows(0, digits);
    let mag = magnitude(units);
    let whole = whole_digits(mag / scale);
    let padded = padded_digits(mag % scale, digits);
    let fraction = trim_trailing_zeros(padded);
    let text = decimal_text(units, digits);
    let body = whole + seq!['.'] + fraction;
    lemma_whole_digits_value(mag / scale);
    lemma_whole_digits_chars(mag / scale);
    lemma_padded_digits_chars(mag % scale, digits);
    lemma_padded_digits_value(mag % scale, digits);
    lemma_trimmed_value(padded);
    lemma_fundamental_div_mod(mag as int, scale as int);
    assert(scale * (mag / scale) == (mag / scale) * scale) by (nonlinear_arith);
    if units < 0 {
        assert(text =~= seq!['-'] + body);
        assert(text.drop_first() =~= body);
    } else {
        assert(text =~= body);
        assert(body[0] == whole[0]);
    }
    assert(body =~= whole + (seq!['.'] + fraction));
    lemma_first_separator_concat(whole, seq!['.'] + fraction);
    assert((seq!['.'] + fraction)[0] == '.');
    let at = whole.len() as int;
    assert(body.take(at) =~= whole);
    assert(body.skip(at + 1) =~= fraction);
}

impl Fixed {
    /// The literal of this number, as generated shader source spells it.
    pub fn to_float_string(&self) -> (text: String)
        ensures
            text@ == decimal_text(self@, 6),
    {
        format_decimal(self.micros as i128, 6)
    }
}

} // verus!
