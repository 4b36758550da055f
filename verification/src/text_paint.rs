//! Text color as written into rendering commands.
use vstd::prelude::*;
use crate::text::{push_char, push_str};

verus! {

/// Canonical RGBA paint of text across preview, video rendering and PDF.
#[derive(Clone, Copy, Debug, PartialEq, Eq, Structural)]
pub struct TextPaint {
    pub r: u8,
    pub g: u8,
    pub b: u8,
    pub a: u8,
}

/// Upper-case hexadecimal digit of a value below 16.
pub open spec fn hex_digit(d: int) -> char {
    if d < 10 { crate::text::digit_char(d) }
    else if d == 10 { 'A' }
    else if d == 11 { 'B' }
    else if d == 12 { 'C' }
    else if d == 13 { 'D' }
    else if d == 14 { 'E' }
    else { 'F' }
}

/// A byte as two upper-case hexadecimal digits.
pub open spec fn hex_byte(x: u8) -> Seq<char> {
    seq![hex_digit(x as int / 16), hex_digit(x as int % 16)]
}

/// Alpha `a / 255` rounded to hundredths (the quotient never falls exactly halfway).
pub open spec fn alpha_hundredths(a: u8) -> int {
    (a as int * 200 + 255) / 510
}

/// The value `v / 100` written with two decimals, for `0 <= v < 1000`.
pub open spec fn two_decimals(v: int) -> Seq<char> {
    crate::text::nat_digits((v / 100) as nat) + seq!['.', crate::text::digit_char((v % 100) / 10), crate::text::digit_char(v % 10)]
}

/// `0xRRGGBB` for an opaque paint (alpha 254 or 255), else `0xRRGGBB@` and the alpha
/// fraction with two decimals.
pub open spec fn fontcolor_text(p: TextPaint) -> Seq<char> {
    let base = seq!['0', 'x'] + hex_byte(p.r) + hex_byte(p.g) + hex_byte(p.b);
    if p.a >= 254 { base } else { base + seq!['@'] + two_decimals(alpha_hundredths(p.a)) }
}

fn hex_char(d: u8) -> (c: char)
    requires
        d < 16,
    ensures
        c == hex_digit(d as int),
{
    match d {
        0 => '0',
        1 => '1',
        2 => '2',
        3 => '3',
        4 => '4',
        5 => '5',
        6 => '6',
        7 => '7',
        8 => '8',
        9 => '9',
        10 => 'A',
        11 => 'B',
        12 => 'C',
        13 => 'D',
        14 => 'E',
        _ => 'F',
    }
}

fn push_hex_byte(s: &mut String, x: u8)
    ensures
        final(s)@ == old(s)@ + hex_byte(x),
{
    push_char(s, hex_char(x / 16));
    push_char(s, hex_char(x % 16));
    assert(final(s)@ =~= old(s)@ + hex_byte(x));
}

impl TextPaint {
    /// Font color for the video renderer's text filter: `0xRRGGBB`, or `0xRRGGBB@0.dd`
    /// with the alpha fraction when the paint is not opaque.
    pub fn to_ffmpeg_fontcolor(&self) -> (s: String)
        ensures
            s@ == fontcolor_text(*self),
    {
        let mut s = String::new();
        push_str(&mut s, "0x");
        push_hex_byte(&mut s, self.r);
        push_hex_byte(&mut s, self.g);
        push_hex_byte(&mut s, self.b);
        proof {
            reveal_strlit("0x");
        }
        if self.a >= 254 {
            assert(s@ =~= fontcolor_text(*self));
            s
        } else {
            let v: u32 = (self.a as u32 * 200 + 255) / 510;
            push_char(&mut s, '@');
            push_char(&mut s, '0');
            push_char(&mut s, '.');
            push_char(&mut s, crate::text::digit_to_char((v / 10) as u64));
            push_char(&mut s, crate::text::digit_to_char((v % 10) as u64));
            assert(v < 100);
            assert(v / 100 == 0);
            assert(s@ =~= fontcolor_text(*self));
            s
        }
    }
}

} // verus!
