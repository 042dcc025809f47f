//! The text of a plain PPM image.
//!
//! An image is a header, `P3`, the width and the height, and the largest
//! channel value 255, followed by one line of three channel values for each
//! pixel, row by row from the top. Numbers are written in decimal.

use vstd::prelude::*;

verus! {

/// The byte `-`.
pub const MINUS: u8 = 45;

/// The byte of a space.
pub const SPACE: u8 = 32;

/// The byte that ends a line.
pub const NEWLINE: u8 = 10;

/// The character of the digit `d`.
pub open spec fn digit(d: nat) -> u8 {
    (48 + d) as u8
}

/// The decimal notation of `n`, without sign or leading zeros.
pub open spec fn digits(n: nat) -> Seq<u8>
    decreases n,
{
    if n < 10 {
        seq![digit(n)]
    } else {
        digits(n / 10).push(digit(n % 10))
    }
}

/// The decimal notation of `n`, with a minus sign where `n` is negative.
pub open spec fn decimal(n: int) -> Seq<u8> {
    if n < 0 {
        seq![MINUS] + digits((-n) as nat)
    } else {
        digits(n as nat)
    }
}

/// The number that a sequence of digit characters denotes.
pub open spec fn value(text: Seq<u8>) -> nat
    decreases text.len(),
{
    if text.len() == 0 {
        0
    } else {
        (10 * value(text.drop_last()) + (text.last() - 48)) as nat
    }
}

/// The header of an image of the given size: `P3`, a line with the width
/// and the height, and a line with 255.
pub open spec fn header_text(width: int, height: int) -> Seq<u8> {
    seq![80u8, 51u8, NEWLINE] + decimal(width) + seq![SPACE] + decimal(height) + seq![
        NEWLINE,
        50u8,
        53u8,
        53u8,
        NEWLINE,
    ]
}

/// The line of one pixel: red, green and blue, separated by one space.
pub open spec fn pixel_text(r: nat, g: nat, b: nat) -> Seq<u8> {
    digits(r) + seq![SPACE] + digits(g) + seq![SPACE] + digits(b) + seq![NEWLINE]
}

/// The decimal notation of a number consists of digit characters, starts
/// with a zero only for zero itself, and denotes the number.
pub proof fn lemma_digits(n: nat)
    ensures
        digits(n).len() >= 1,
        forall|i: int| 0 <= i < digits(n).len() ==> 48 <= #[trigger] digits(n)[i] <= 57,
        digits(n)[0] == 48 <==> n == 0,
        value(digits(n)) == n,
    decreases n,
{
    if n < 10 {
        assert(digits(n).drop_last() =~= Seq::<u8>::empty());
        assert(value(Seq::<u8>::empty()) == 0);
    } else {
        lemma_digits(n / 10);
        assert(digits(n).drop_last() =~= digits(n / 10));
    }
}

/// Two numbers with the same decimal notation are the same number.
pub proof fn lemma_digits_injective(m: nat, n: nat)
    requires
        digits(m) == digits(n),
    ensures
        m == n,
{
    lemma_digits(m);
    lemma_digits(n);
}

/// Appends the decimal notation of `n` to `out`.
fn push_digits(out: &mut Vec<u8>, n: u64)
    ensures
        final(out)@ == old(out)@ + digits(n as nat),
    decreases n,
{
    if n >= 10 {
        push_digits(out, n / 10);
    }
    let d: u8 = (n % 10) as u8;
    out.push(48u8 + d);
    proof {
        if n >= 10 {
            assert(old(out)@ + digits((n / 10) as nat).push(digit((n % 10) as nat)) =~= (old(out)@
                + digits((n / 10) as nat)).push(digit((n % 10) as nat)));
        } else {
            assert(old(out)@ + seq![digit(n as nat)] =~= old(out)@.push(digit(n as nat)));
        }
    }
}

/// Appends the decimal notation of `n`, with its sign, to `out`.
fn push_decimal(out: &mut Vec<u8>, n: i32)
    ensures
        final(out)@ == old(out)@ + decimal(n as int),
{
    if n < 0 {
        out.push(MINUS);
        let magnitude: u64 = (-(n as i64)) as u64;
        push_digits(out, magnitude);
        proof {
            assert(old(out)@.push(MINUS) + digits((-n) as nat) =~= old(out)@ + (seq![MINUS]
                + digits((-n) as nat)));
        }
    } else {
        push_digits(out, n as u64);
    }
}

/// The header of an image `width` pixels wide and `height` pixels high.
pub fn header(width: i32, height: i32) -> (text: Vec<u8>)
    ensures
        text@ == header_text(width as int, height as int),
{
    let mut text: Vec<u8> = Vec::new();
    text.push(80u8);
    text.push(51u8);
    text.push(NEWLINE);
    push_decimal(&mut text, width);
    text.push(SPACE);
    push_decimal(&mut text, height);
    text.push(NEWLINE);
    text.push(50u8);
    text.push(53u8);
    text.push(53u8);
    text.push(NEWLINE);
    text
}

/// The line of a pixel with the given channel values.
pub fn pixel(r: u32, g: u32, b: u32) -> (text: Vec<u8>)
    ensures
        text@ == pixel_text(r as nat, g as nat, b as nat),
{
    let mut text: Vec<u8> = Vec::new();
    push_digits(&mut text, r as u64);
    text.push(SPACE);
    push_digits(&mut text, g as u64);
    text.push(SPACE);
    push_digits(&mut text, b as u64);
    text.push(NEWLINE);
    text
}

} // verus!
