//! Plain-text PPM ("P3") encoding: a header followed by one `R G B` line per pixel.
use vstd::prelude::*;

verus! {

/// The ASCII character of the decimal digit `d`.
pub open spec fn digit_byte(d: nat) -> u8 {
    (48 + d) as u8
}

/// The decimal digits of `n`, most significant first, without leading zeros.
pub open spec fn digits(n: nat) -> Seq<u8>
    decreases n,
{
    if n < 10 {
        seq![digit_byte(n)]
    } else {
        digits(n / 10).push(digit_byte(n % 10))
    }
}

/// The decimal text of `v`, with a leading `-` when it is negative.
pub open spec fn decimal(v: int) -> Seq<u8> {
    if v < 0 {
        seq![45u8] + digits((-v) as nat)
    } else {
        digits(v as nat)
    }
}

/// Appends the decimal digits of `n` to `out`.
fn push_digits(out: &mut Vec<u8>, n: u64)
    ensures
        final(out)@ == old(out)@ + digits(n as nat),
    decreases n,
{
    if n >= 10 {
        push_digits(out, n / 10);
    }
    let d: u64 = n % 10;
    out.push((48 + d) as u8);
    proof {
        assert(digit_byte((n % 10) as nat) == (48 + d) as u8);
        if n >= 10 {
            assert(digits(n as nat) == digits((n / 10) as nat).push(digit_byte((n % 10) as nat)));
        }
    }
    assert(out@ =~= old(out)@ + digits(n as nat));
}

/// Appends the decimal text of `v` to `out`.
fn push_decimal(out: &mut Vec<u8>, v: i32)
    ensures
        final(out)@ == old(out)@ + decimal(v as int),
{
    if v < 0 {
        out.push(45u8);
        let m: i64 = -(v as i64);
        push_digits(out, m as u64);
    } else {
        push_digits(out, v as u64);
    }
    assert(out@ =~= old(out)@ + decimal(v as int));
}

/// A quantized color: one integer per channel, nominally in `0..=255`.
#[derive(Clone, Copy, Debug, PartialEq, Eq, Structural)]
pub struct Pixel {
    pub r: i32,
    pub g: i32,
    pub b: i32,
}

/// The text line of one pixel: its three channels in decimal, separated by
/// single spaces and ended by a newline.
pub open spec fn pixel_text(p: Pixel) -> Seq<u8> {
    decimal(p.r as int) + seq![32u8] + decimal(p.g as int) + seq![32u8] + decimal(p.b as int)
        + seq![10u8]
}

/// The header of an image of `width` by `height` pixels: `P3`, the two
/// dimensions, and the largest channel value `255`, each on a line of its own.
pub open spec fn header_text(width: nat, height: nat) -> Seq<u8> {
    seq![80u8, 51u8, 10u8] + decimal(width as int) + seq![32u8] + decimal(height as int) + seq![
        10u8,
        50u8,
        53u8,
        53u8,
        10u8,
    ]
}

/// The pixel lines of `ps`, in order.
pub open spec fn pixels_text(ps: Seq<Pixel>) -> Seq<u8>
    decreases ps.len(),
{
    if ps.len() == 0 {
        Seq::empty()
    } else {
        pixels_text(ps.drop_last()) + pixel_text(ps.last())
    }
}

/// The text line of one pixel, as in `pixel_text`.
pub fn pixel_line(p: Pixel) -> (line: Vec<u8>)
    ensures
        line@ == pixel_text(p),
{
    let mut line: Vec<u8> = Vec::new();
    push_decimal(&mut line, p.r);
    line.push(32u8);
    push_decimal(&mut line, p.g);
    line.push(32u8);
    push_decimal(&mut line, p.b);
    line.push(10u8);
    assert(line@ =~= pixel_text(p));
    line
}

/// The image header, as in `header_text`.
pub fn header(width: u32, height: u32) -> (h: Vec<u8>)
    ensures
        h@ == header_text(width as nat, height as nat),
{
    let mut h: Vec<u8> = Vec::new();
    h.push(80u8);
    h.push(51u8);
    h.push(10u8);
    push_digits(&mut h, width as u64);
    h.push(32u8);
    push_digits(&mut h, height as u64);
    h.push(10u8);
    h.push(50u8);
    h.push(53u8);
    h.push(53u8);
    h.push(10u8);
    assert(h@ =~= header_text(width as nat, height as nat));
    h
}

/// The whole image: the header, then one line per pixel in the order given.
/// `None` when the number of pixels is not `width * height`.
pub fn encode_image(width: u32, height: u32, pixels: &Vec<Pixel>) -> (out: Option<Vec<u8>>)
    ensures
        out is Some <==> pixels.len() == width * height,
        out matches Some(bytes) ==> bytes@ == header_text(width as nat, height as nat)
            + pixels_text(pixels@),
{
    assert((width as u64) * (height as u64) <= 0xffff_ffffu64 * 0xffff_ffffu64) by (nonlinear_arith);
    if (pixels.len() as u64) != (width as u64) * (height as u64) {
        return None;
    }
    let mut out: Vec<u8> = header(width, height);
    let ghost head = out@;
    let mut k: usize = 0;
    while k < pixels.len()
        invariant
            k <= pixels.len(),
            head == header_text(width as nat, height as nat),
            out@ == head + pixels_text(pixels@.take(k as int)),
        decreases pixels.len() - k,
    {
        let line = pixel_line(pixels[k]);
        let mut t: usize = 0;
        let ghost before = out@;
        while t < line.len()
            invariant
                t <= line.len(),
                out@ == before + line@.take(t as int),
            decreases line.len() - t,
        {
            out.push(line[t]);
            t = t + 1;
            assert(out@ =~= before + line@.take(t as int));
        }
        proof {
            let next = pixels@.take(k + 1);
            assert(next.drop_last() =~= pixels@.take(k as int));
            assert(next.last() == pixels@[k as int]);
            assert(line@.take(line@.len() as int) =~= line@);
            assert(out@ =~= head + pixels_text(next));
        }
        k = k + 1;
    }
    assert(pixels@.take(pixels@.len() as int) =~= pixels@);
    Some(out)
}

} // verus!
