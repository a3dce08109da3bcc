//! Numbers as text: decimal and hexadecimal digits, padded to a width.
//!
//! The functions here write what the standard formatter writes for the
//! width and fill flags that the logger uses, as sequences of characters.

use vstd::prelude::*;
use vstd::string::*;

verus! {

/// The sixteen digits in the order of their values: `0` to `9`, then
/// lower-case `a` to `f`.
pub open spec fn digit_chars() -> Seq<char> {
    seq!['0', '1', '2', '3', '4', '5', '6', '7', '8', '9', 'a', 'b', 'c', 'd', 'e', 'f']
}

/// The character that stands for the digit value `d`.
pub open spec fn digit_char(d: int) -> char
    recommends
        0 <= d < 16,
{
    digit_chars()[d]
}

/// Whether `c` is one of the ten decimal digits.
pub open spec fn is_decimal_digit(c: char) -> bool {
    '0' <= c <= '9'
}

/// The digits of `n` in base `radix`, most significant first, without
/// leading zeros; zero is the single digit `0`.
pub open spec fn number_text(n: nat, radix: nat) -> Seq<char>
    recommends
        2 <= radix <= 16,
    decreases n,
    via number_text_terminates
{
    if n < radix || radix < 2 {
        seq![digit_char(n as int)]
    } else {
        number_text(n / radix, radix).push(digit_char((n % radix) as int))
    }
}

#[via_fn]
proof fn number_text_terminates(n: nat, radix: nat) {
    if n >= radix && radix >= 2 {
        vstd::arithmetic::div_mod::lemma_div_decreases(n as int, radix as int);
        vstd::arithmetic::div_mod::lemma_div_pos_is_pos(n as int, radix as int);
    }
}

/// The decimal digits of `n`.
pub open spec fn decimal_text(n: nat) -> Seq<char> {
    number_text(n, 10)
}

/// The lower-case hexadecimal digits of `n`.
pub open spec fn hex_text(n: nat) -> Seq<char> {
    number_text(n, 16)
}

/// The characters of an optional text.
pub open spec fn option_view(value: Option<String>) -> Option<Seq<char>> {
    match value {
        Some(text) => Some(text@),
        None => None,
    }
}

/// `count` times the character `fill`.
pub open spec fn repeated(fill: char, count: nat) -> Seq<char> {
    Seq::new(count, |i: int| fill)
}

/// `s` with as many `fill` characters in front as it takes to reach `width`
/// characters; `s` itself when it is that long already.
pub open spec fn padded_left(s: Seq<char>, width: nat, fill: char) -> Seq<char> {
    if s.len() < width {
        repeated(fill, (width - s.len()) as nat) + s
    } else {
        s
    }
}

/// `s` with as many `fill` characters behind it as it takes to reach `width`
/// characters; `s` itself when it is that long already.
pub open spec fn padded_right(s: Seq<char>, width: nat, fill: char) -> Seq<char> {
    if s.len() < width {
        s + repeated(fill, (width - s.len()) as nat)
    } else {
        s
    }
}

/// The decimal digits of `n`, with zeros in front up to `width` characters.
pub open spec fn zero_padded_decimal(n: nat, width: nat) -> Seq<char> {
    padded_left(decimal_text(n), width, '0')
}

/// The hexadecimal digits of `n`, with zeros in front up to `width`
/// characters.
pub open spec fn zero_padded_hex(n: nat, width: nat) -> Seq<char> {
    padded_left(hex_text(n), width, '0')
}

/// A signed number in decimal, zero-padded to `width` characters. The sign
/// of a negative number comes first and counts towards the width; the zeros
/// stand between the sign and the digits.
pub open spec fn zero_padded_signed(v: int, width: nat) -> Seq<char> {
    if v < 0 {
        seq!['-'] + zero_padded_decimal((-v) as nat, if width >= 1 {
            (width - 1) as nat
        } else {
            0
        })
    } else {
        zero_padded_decimal(v as nat, width)
    }
}

/// The decimal text of a number holds decimal digits only, and it is as
/// long as the number is large: one character below ten, two below a
/// hundred, three below a thousand, four below ten thousand, more from
/// there on.
pub proof fn lemma_decimal_text_shape(n: nat)
    ensures
        decimal_text(n).len() >= 1,
        forall|i: int| 0 <= i < decimal_text(n).len() ==> is_decimal_digit(#[trigger] decimal_text(n)[i]),
        n < 10 <==> decimal_text(n).len() == 1,
        n < 100 <==> decimal_text(n).len() <= 2,
        n < 1000 <==> decimal_text(n).len() <= 3,
        n < 10000 <==> decimal_text(n).len() <= 4,
    decreases n,
{
    if n >= 10 {
        lemma_decimal_text_shape(n / 10);
        let higher = decimal_text(n / 10);
        assert(decimal_text(n) == higher.push(digit_char((n % 10) as int)));
        assert forall|i: int| 0 <= i < decimal_text(n).len() implies is_decimal_digit(
            #[trigger] decimal_text(n)[i],
        ) by {
            if i < higher.len() {
                assert(decimal_text(n)[i] == higher[i]);
            }
        }
    }
}

/// Zero-padded decimal text holds decimal digits only and is never shorter
/// than the width asked for. It has exactly that width when the digits of
/// the number fit in it.
pub proof fn lemma_zero_padded_decimal_shape(n: nat, width: nat)
    ensures
        zero_padded_decimal(n, width).len() >= width,
        zero_padded_decimal(n, width).len() >= decimal_text(n).len(),
        zero_padded_decimal(n, width).len() == width <==> decimal_text(n).len() <= width,
        forall|i: int|
            0 <= i < zero_padded_decimal(n, width).len() ==> is_decimal_digit(
                #[trigger] zero_padded_decimal(n, width)[i],
            ),
{
    lemma_decimal_text_shape(n);
    let digits = decimal_text(n);
    let padded = zero_padded_decimal(n, width);
    assert forall|i: int| 0 <= i < padded.len() implies is_decimal_digit(#[trigger] padded[i]) by {
        if digits.len() < width {
            let fill = width - digits.len();
            if i < fill {
                assert(padded[i] == '0');
            } else {
                assert(padded[i] == digits[i - fill]);
            }
        }
    }
}

/// The one-character string for a digit value.
fn digit_str(d: usize) -> (s: &'static str)
    requires
        d < 16,
    ensures
        s@ == seq![digit_char(d as int)],
{
    let digits: &'static str = "0123456789abcdef";
    proof {
        reveal_strlit("0123456789abcdef");
        assert(digits@ =~= digit_chars());
    }
    let s = digits.substring_char(d, d + 1);
    assert(s@ =~= seq![digit_char(d as int)]);
    s
}

/// Appends the one-character string `fill` to `out`, `count` times.
fn push_repeated(out: &mut String, fill: &str, count: usize)
    requires
        fill@.len() == 1,
    ensures
        final(out)@ == old(out)@ + repeated(fill@[0], count as nat),
{
    let ghost start = out@;
    let mut k: usize = 0;
    assert(out@ =~= start + repeated(fill@[0], 0));
    while k < count
        invariant
            k <= count,
            fill@.len() == 1,
            out@ == start + repeated(fill@[0], k as nat),
        decreases count - k,
    {
        out.append(fill);
        k += 1;
        assert(out@ =~= start + repeated(fill@[0], k as nat));
    }
}

/// Appends `n` in base `radix`, with zeros in front up to `width`
/// characters.
fn push_number(out: &mut String, n: u64, radix: u64, width: usize)
    requires
        2 <= radix <= 16,
    ensures
        final(out)@ == old(out)@ + padded_left(
            number_text(n as nat, radix as nat),
            width as nat,
            '0',
        ),
{
    let ghost start = out@;
    let ghost text = number_text(n as nat, radix as nat);
    // The digit values, least significant first; `low` is their text, most
    // significant first.
    let mut digits: Vec<usize> = Vec::new();
    let mut rest = n;
    let ghost mut low: Seq<char> = Seq::empty();
    assert(text =~= number_text(rest as nat, radix as nat) + low);
    while rest >= radix
        invariant
            2 <= radix <= 16,
            text == number_text(rest as nat, radix as nat) + low,
            digits@.len() == low.len(),
            forall|k: int|
                0 <= k < digits@.len() ==> digits@[k] < 16 && low[low.len() - 1 - k] == digit_char(
                    #[trigger] digits@[k] as int,
                ),
        decreases rest,
    {
        let d: u64 = rest % radix;
        proof {
            let higher = number_text((rest / radix) as nat, radix as nat);
            assert(number_text(rest as nat, radix as nat) == higher.push(digit_char(d as int)));
            assert(higher.push(digit_char(d as int)) + low =~= higher + (seq![digit_char(d as int)]
                + low));
            low = seq![digit_char(d as int)] + low;
        }
        digits.push(d as usize);
        rest = rest / radix;
    }
    proof {
        assert(number_text(rest as nat, radix as nat) =~= seq![digit_char(rest as int)]);
        low = seq![digit_char(rest as int)] + low;
    }
    digits.push(rest as usize);
    assert(text =~= low);
    let count: usize = digits.len();
    if count < width {
        proof {
            reveal_strlit("0");
        }
        push_repeated(out, "0", width - count);
    }
    let ghost padded = out@;
    let mut k: usize = count;
    assert(out@ =~= padded + low.take(0));
    while k > 0
        invariant
            k <= count,
            count == digits@.len(),
            count == low.len(),
            out@ == padded + low.take(count - k),
            forall|j: int|
                0 <= j < digits@.len() ==> digits@[j] < 16 && low[low.len() - 1 - j] == digit_char(
                    #[trigger] digits@[j] as int,
                ),
        decreases k,
    {
        k -= 1;
        let d: usize = digits[k];
        out.append(digit_str(d));
        assert(out@ =~= padded + low.take(count - k)) by {
            assert(low.take(count - k) =~= low.take(count - k - 1).push(low[count - 1 - k]));
        }
    }
    assert(low.take(count as int) =~= low);
    assert(out@ =~= start + padded_left(text, width as nat, '0'));
}

/// Appends the decimal digits of `n` to `out`.
pub fn push_decimal(out: &mut String, n: u64)
    ensures
        final(out)@ == old(out)@ + decimal_text(n as nat),
{
    push_number(out, n, 10, 0);
}

/// Appends the decimal digits of `n` to `out`, with zeros in front up to
/// `width` characters.
pub fn push_zero_padded_decimal(out: &mut String, n: u64, width: usize)
    ensures
        final(out)@ == old(out)@ + zero_padded_decimal(n as nat, width as nat),
{
    push_number(out, n, 10, width);
}

/// Appends the lower-case hexadecimal digits of `n` to `out`, with zeros in
/// front up to `width` characters.
pub fn push_zero_padded_hex(out: &mut String, n: u64, width: usize)
    ensures
        final(out)@ == old(out)@ + zero_padded_hex(n as nat, width as nat),
{
    push_number(out, n, 16, width);
}

/// Appends `v` in decimal to `out`, zero-padded to `width` characters, the
/// sign of a negative number first.
pub fn push_zero_padded_signed(out: &mut String, v: i32, width: usize)
    ensures
        final(out)@ == old(out)@ + zero_padded_signed(v as int, width as nat),
{
    if v < 0 {
        let ghost start = out@;
        proof {
            reveal_strlit("-");
        }
        out.append("-");
        assert(out@ =~= start + seq!['-']);
        let magnitude: u64 = (-(v as i64)) as u64;
        let rest_width: usize = if width >= 1 {
            width - 1
        } else {
            0
        };
        push_number(out, magnitude, 10, rest_width);
        assert(out@ =~= start + zero_padded_signed(v as int, width as nat));
    } else {
        push_number(out, v as u64, 10, width);
    }
}

/// Appends `s` to `out`, with spaces behind it up to `width` characters.
pub fn push_padded_right(out: &mut String, s: &str, width: usize)
    ensures
        final(out)@ == old(out)@ + padded_right(s@, width as nat, ' '),
{
    let ghost start = out@;
    out.append(s);
    let count: usize = s.unicode_len();
    if count < width {
        proof {
            reveal_strlit(" ");
        }
        push_repeated(out, " ", width - count);
    }
    assert(out@ =~= start + padded_right(s@, width as nat, ' '));
}

} // verus!
