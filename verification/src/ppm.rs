//! The text of a plain pixmap: a header, then one line for each pixel.
use vstd::prelude::*;

verus! {

/// The character `0`; the other digits follow it.
pub const ZERO: u8 = 48;

/// The character `-`.
pub const MINUS: u8 = 45;

/// The character that parts two numbers of a line.
pub const SPACE: u8 = 32;

/// The character that ends a line.
pub const NEWLINE: u8 = 10;

/// The character `P`.
pub const LETTER_P: u8 = 80;

/// The character that stands for the digit `d`.
pub open spec fn digit(d: int) -> u8
    recommends
        0 <= d < 10,
{
    (ZERO + d) as u8
}

/// The decimal digits of `n`, the most significant first, without leading zeros.
pub open spec fn decimal_nat(n: nat) -> Seq<u8>
    decreases n,
{
    if n < 10 {
        seq![digit(n as int)]
    } else {
        decimal_nat(n / 10).push(digit((n % 10) as int))
    }
}

/// The decimal text of `n`, with a minus sign in front of a negative number.
pub open spec fn decimal(n: int) -> Seq<u8> {
    if n < 0 {
        seq![MINUS] + decimal_nat((-n) as nat)
    } else {
        decimal_nat(n as nat)
    }
}

/// The number that the digits `text` stand for.
pub open spec fn value_of(text: Seq<u8>) -> nat
    decreases text.len(),
{
    if text.len() == 0 {
        0
    } else {
        (10 * value_of(text.drop_last()) + (text.last() - ZERO)) as nat
    }
}

/// The header of an image of the given size: the line `P3`, the line of the
/// width and the height, and the line `255` for the largest channel value.
pub open spec fn preamble_spec(image_width: int, image_height: int) -> Seq<u8> {
    seq![LETTER_P, digit(3), NEWLINE] + decimal(image_width) + seq![SPACE] + decimal(image_height)
        + seq![NEWLINE, digit(2), digit(5), digit(5), NEWLINE]
}

/// The line of one pixel: its three channels, a space between them.
pub open spec fn pixel_line_spec(r: int, g: int, b: int) -> Seq<u8> {
    decimal(r) + seq![SPACE] + decimal(g) + seq![SPACE] + decimal(b) + seq![NEWLINE]
}

/// Appends the decimal digits of `n` to `out`.
fn push_decimal_nat(out: &mut Vec<u8>, n: u32)
    ensures
        final(out)@ == old(out)@ + decimal_nat(n as nat),
    decreases n,
{
    if n >= 10 {
        push_decimal_nat(out, n / 10);
    }
    out.push(ZERO + (n % 10) as u8);
    proof {
        if n >= 10 {
            assert(final(out)@ =~= old(out)@ + decimal_nat((n / 10) as nat).push(
                digit((n % 10) as int),
            ));
        }
    }
}

/// Appends the decimal text of `n` to `out`.
pub fn push_decimal(out: &mut Vec<u8>, n: i32)
    ensures
        final(out)@ == old(out)@ + decimal(n as int),
{
    if n < 0 {
        out.push(MINUS);
        let magnitude: u32 = (-(n as i64)) as u32;
        push_decimal_nat(out, magnitude);
    } else {
        push_decimal_nat(out, n as u32);
    }
}

/// Writes the header of an image of the given size.
pub fn preamble(image_width: i32, image_height: i32) -> (out: Vec<u8>)
    ensures
        out@ == preamble_spec(image_width as int, image_height as int),
{
    let mut out: Vec<u8> = Vec::new();
    out.push(LETTER_P);
    out.push(ZERO + 3);
    out.push(NEWLINE);
    push_decimal(&mut out, image_width);
    out.push(SPACE);
    push_decimal(&mut out, image_height);
    out.push(NEWLINE);
    out.push(ZERO + 2);
    out.push(ZERO + 5);
    out.push(ZERO + 5);
    out.push(NEWLINE);
    out
}

/// Writes the line of one pixel from its three channels.
pub fn pixel_line(r: i32, g: i32, b: i32) -> (out: Vec<u8>)
    ensures
        out@ == pixel_line_spec(r as int, g as int, b as int),
{
    let mut out: Vec<u8> = Vec::new();
    push_decimal(&mut out, r);
    out.push(SPACE);
    push_decimal(&mut out, g);
    out.push(SPACE);
    push_decimal(&mut out, b);
    out.push(NEWLINE);
    out
}

/// The decimal digits of a number are digits, begin with a zero only where
/// the number is zero, and stand for that number.
pub proof fn lemma_decimal_reads_back(n: nat)
    ensures
        decimal_nat(n).len() >= 1,
        forall|i: int|
            0 <= i < decimal_nat(n).len() ==> ZERO <= #[trigger] decimal_nat(n)[i] <= ZERO + 9,
        decimal_nat(n)[0] == ZERO <==> n == 0,
        value_of(decimal_nat(n)) == n,
    decreases n,
{
    if n >= 10 {
        let front = decimal_nat(n / 10);
        lemma_decimal_reads_back(n / 10);
        assert(decimal_nat(n).drop_last() =~= front);
    } else {
        assert(decimal_nat(n).drop_last() =~= Seq::<u8>::empty());
        assert(value_of(Seq::<u8>::empty()) == 0);
    }
}

} // verus!
