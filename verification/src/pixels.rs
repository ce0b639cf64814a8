//! Pixel buffers: half-float to single-float conversion, planar output for the
//! AVIF encoder, byte order and channel order of captured frames.

use vstd::prelude::*;
use crate::error::{result_view, Error, ErrorView};

verus! {

/// Doublings that bring a subnormal half-float mantissa `m >= 1` to at least 1024.
pub open spec fn subnormal_shift(m: nat) -> nat
    decreases 2048 - m,
{
    if m == 0 || m >= 1024 {
        0
    } else {
        1 + subnormal_shift(2 * m)
    }
}

/// A subnormal half-float mantissa `m >= 1` doubled until it is at least 1024.
pub open spec fn normalized_mantissa(m: nat) -> nat
    decreases 2048 - m,
{
    if m == 0 || m >= 1024 {
        m
    } else {
        normalized_mantissa(2 * m)
    }
}

/// The bits of the single-precision float equal to the half-precision float
/// with bits `h`: sign, exponent (rebiased from 15 to 127, subnormals
/// normalised) and mantissa (widened from 10 to 23 bits); infinities and NaNs
/// keep their mantissa.
#[verifier::opaque]
pub open spec fn spec_half_to_f32_bits(h: u16) -> u32 {
    let sign: int = (h / 0x8000) * 0x8000_0000;
    let e: int = ((h / 1024) % 32) as int;
    let m: int = (h % 1024) as int;
    if e == 0 {
        if m == 0 {
            sign as u32
        } else {
            (sign + (113 - subnormal_shift(m as nat)) * 0x80_0000 + (normalized_mantissa(m as nat)
                - 1024) * 0x2000) as u32
        }
    } else if e == 31 {
        (sign + 0x7F80_0000 + m * 0x2000) as u32
    } else {
        (sign + (e + 112) * 0x80_0000 + m * 0x2000) as u32
    }
}

proof fn lemma_normalize_step(m: nat)
    requires
        1 <= m < 1024,
    ensures
        subnormal_shift(m) == 1 + subnormal_shift(2 * m),
        normalized_mantissa(m) == normalized_mantissa(2 * m),
{
}

proof fn lemma_normalize_bounds(m: nat)
    requires
        1 <= m < 2048,
    ensures
        1024 <= normalized_mantissa(m) < 2048,
        subnormal_shift(m) <= 10,
        m >= 1024 ==> subnormal_shift(m) == 0 && normalized_mantissa(m) == m,
    decreases 2048 - m,
{
    if m < 1024 {
        lemma_normalize_bounds(2 * m);
    }
    vstd::arithmetic::power2::lemma2_to64();
    lemma_shift_bound(m, 0);
}

/// With `m >= 2^k`, at most `10 - k` doublings are needed.
proof fn lemma_shift_bound(m: nat, k: nat)
    requires
        k <= 10,
        vstd::arithmetic::power2::pow2(k) <= m < 2048,
    ensures
        subnormal_shift(m) + k <= 10,
    decreases 2048 - m,
{
    vstd::arithmetic::power2::lemma_pow2_pos(k);
    if m < 1024 {
        if k == 10 {
            vstd::arithmetic::power2::lemma2_to64();
            assert(false);
        } else {
            vstd::arithmetic::power2::lemma_pow2_unfold(k + 1);
            lemma_shift_bound(2 * m, k + 1);
        }
    }
}

/// Bounds on the normalisation of a subnormal mantissa.
pub proof fn lemma_normalize_facts(m: nat)
    requires
        1 <= m < 1024,
    ensures
        1024 <= normalized_mantissa(m) < 2048,
        subnormal_shift(m) <= 10,
{
    lemma_normalize_bounds(m);
}

/// Converts the bits of a half-precision float into the bits of the equal
/// single-precision float.
pub fn half_to_f32_bits(bits: u16) -> (r: u32)
    ensures
        r == spec_half_to_f32_bits(bits),
{
    reveal(spec_half_to_f32_bits);
    let sign: u32 = ((bits & 0x8000) as u32) << 16;
    let exponent: u32 = ((bits >> 10) & 0x1F) as u32;
    let mantissa: u32 = (bits & 0x03FF) as u32;
    assert(sign == (bits / 0x8000) * 0x8000_0000 && (sign == 0 || sign == 0x8000_0000)) by (bit_vector)
        requires
            sign == ((bits & 0x8000) as u32) << 16,
    ;
    assert(exponent == (bits / 1024) % 32 && exponent < 32) by (bit_vector)
        requires
            exponent == ((bits >> 10) & 0x1F) as u32,
    ;
    assert(mantissa == bits % 1024 && mantissa < 1024) by (bit_vector)
        requires
            mantissa == (bits & 0x03FF) as u32,
    ;
    if exponent == 0 {
        if mantissa == 0 {
            sign
        } else {
            let mut e: i32 = -14;
            let mut m: u32 = mantissa;
            let ghost k: nat = 0;
            while (m & 0x0400) == 0
                invariant
                    1 <= m < 2048,
                    1 <= mantissa < 1024,
                    e == -14 - k,
                    k <= 10,
                    subnormal_shift(mantissa as nat) == k + subnormal_shift(m as nat),
                    normalized_mantissa(mantissa as nat) == normalized_mantissa(m as nat),
                decreases 2048 - m,
            {
                assert(m < 1024) by (bit_vector)
                    requires
                        (m & 0x0400) == 0,
                        m < 2048,
                ;
                proof {
                    lemma_normalize_step(m as nat);
                    lemma_normalize_bounds(mantissa as nat);
                    lemma_normalize_bounds(2 * m as nat);
                }
                let prev = m;
                m = m << 1;
                assert(m == 2 * prev) by (bit_vector)
                    requires
                        m == prev << 1,
                        prev < 1024,
                ;
                e = e - 1;
                proof {
                    k = k + 1;
                }
            }
            assert(m >= 1024) by (bit_vector)
                requires
                    (m & 0x0400) != 0,
                    m < 2048,
            ;
            proof {
                lemma_normalize_bounds(m as nat);
                lemma_normalize_bounds(mantissa as nat);
            }
            let frac: u32 = m & 0x03FF;
            assert(frac == m - 1024) by (bit_vector)
                requires
                    frac == m & 0x03FF,
                    1024 <= m < 2048,
            ;
            let biased: u32 = (e + 127) as u32;
            assert(biased == 113 - k);
            let r: u32 = sign | (biased << 23) | (frac << 13);
            assert(r == sign + biased * 0x80_0000 + frac * 0x2000) by (bit_vector)
                requires
                    r == sign | (biased << 23) | (frac << 13),
                    sign == 0 || sign == 0x8000_0000,
                    biased < 256,
                    frac < 1024,
            ;
            r
        }
    } else if exponent == 0x1F {
        let r: u32 = sign | 0x7F80_0000 | (mantissa << 13);
        assert(r == sign + 0x7F80_0000 + mantissa * 0x2000) by (bit_vector)
            requires
                r == sign | 0x7F80_0000 | (mantissa << 13),
                sign == 0 || sign == 0x8000_0000,
                mantissa < 1024,
        ;
        r
    } else {
        let biased: u32 = exponent + 112;
        let r: u32 = sign | (biased << 23) | (mantissa << 13);
        assert(r == sign + biased * 0x80_0000 + mantissa * 0x2000) by (bit_vector)
            requires
                r == sign | (biased << 23) | (mantissa << 13),
                sign == 0 || sign == 0x8000_0000,
                biased < 256,
                mantissa < 1024,
        ;
        r
    }
}

/// The four bytes of a 32-bit value, least significant first.
pub open spec fn le_bytes_u32(v: u32) -> Seq<u8> {
    seq![(v % 256) as u8, ((v / 256) % 256) as u8, ((v / 65536) % 256) as u8, (v / 16777216) as u8]
}

/// One plane of the planar float output: for each of the first `n` pixels,
/// the little-endian bytes of the single-float value of its `channel`.
pub open spec fn float_plane(pixels: Seq<u16>, channel: int, n: nat) -> Seq<u8>
    decreases n,
{
    if n == 0 {
        Seq::<u8>::empty()
    } else {
        float_plane(pixels, channel, (n - 1) as nat) + le_bytes_u32(
            spec_half_to_f32_bits(pixels[4 * (n - 1) + channel]),
        )
    }
}

/// The encoder's `gbrpf32le` input for RGBA half-float pixels: the green,
/// blue and red planes one after the other (alpha is dropped); an error when
/// the buffer does not hold whole pixels.
pub open spec fn spec_rgba16f_to_gbrpf32le(pixels: Seq<u16>) -> Result<Seq<u8>, ErrorView> {
    if pixels.len() % 4 != 0 {
        Err(ErrorView::InvalidHdrBuffer)
    } else {
        let n = (pixels.len() / 4) as nat;
        Ok(float_plane(pixels, 1, n) + float_plane(pixels, 2, n) + float_plane(pixels, 0, n))
    }
}

fn push_le_bytes(out: &mut Vec<u8>, v: u32)
    ensures
        final(out)@ == old(out)@ + le_bytes_u32(v),
{
    out.push((v % 256) as u8);
    out.push(((v / 256) % 256) as u8);
    out.push(((v / 65536) % 256) as u8);
    out.push((v / 16777216) as u8);
    assert(final(out)@ =~= old(out)@ + le_bytes_u32(v));
}

/// Converts RGBA half-float pixels into the planar single-float layout the
/// AVIF encoder reads.
pub fn rgba16f_sc_rgb_to_gbrpf32le(pixels: &[u16]) -> (r: Result<Vec<u8>, Error>)
    ensures
        match r {
            Ok(out) => spec_rgba16f_to_gbrpf32le(pixels@) == Ok::<Seq<u8>, ErrorView>(out@),
            Err(e) => spec_rgba16f_to_gbrpf32le(pixels@) == Err::<Seq<u8>, ErrorView>(e@),
        },
{
    if pixels.len() % 4 != 0 {
        return Err(Error::InvalidHdrBuffer);
    }
    let pixel_count = pixels.len() / 4;
    let mut green: Vec<u8> = Vec::new();
    let mut blue: Vec<u8> = Vec::new();
    let mut red: Vec<u8> = Vec::new();
    let mut index: usize = 0;
    while index < pixel_count
        invariant
            pixel_count == pixels@.len() / 4,
            pixel_count == pixels.len() / 4,
            pixels@.len() % 4 == 0,
            index <= pixel_count,
            green@ == float_plane(pixels@, 1, index as nat),
            blue@ == float_plane(pixels@, 2, index as nat),
            red@ == float_plane(pixels@, 0, index as nat),
        decreases pixel_count - index,
    {
        assert(index * 4 + 3 < pixels.len()) by (nonlinear_arith)
            requires
                index < pixel_count,
                pixel_count == pixels.len() / 4,
        ;
        let base = index * 4;
        let r = half_to_f32_bits(pixels[base]);
        let g = half_to_f32_bits(pixels[base + 1]);
        let b = half_to_f32_bits(pixels[base + 2]);
        let ghost n = (index + 1) as nat;
        assert(float_plane(pixels@, 1, n) == float_plane(pixels@, 1, index as nat) + le_bytes_u32(g));
        assert(float_plane(pixels@, 2, n) == float_plane(pixels@, 2, index as nat) + le_bytes_u32(b));
        assert(float_plane(pixels@, 0, n) == float_plane(pixels@, 0, index as nat) + le_bytes_u32(r));
        push_le_bytes(&mut green, g);
        push_le_bytes(&mut blue, b);
        push_le_bytes(&mut red, r);
        index = index + 1;
    }
    let mut output = green;
    output.append(&mut blue);
    output.append(&mut red);
    Ok(output)
}

/// Little-endian 16-bit values of a byte buffer, two bytes each; an error for
/// an odd length.
pub open spec fn spec_bytes_to_u16_le(bytes: Seq<u8>) -> Result<Seq<u16>, ErrorView> {
    if bytes.len() % 2 != 0 {
        Err(ErrorView::InvalidWgcHdrBuffer)
    } else {
        Ok(Seq::new((bytes.len() / 2) as nat, |i: int| (bytes[2 * i] + 256 * bytes[2 * i + 1]) as u16))
    }
}

/// Reads a byte buffer as little-endian 16-bit values.
pub fn bytes_to_u16_le(bytes: &[u8]) -> (r: Result<Vec<u16>, Error>)
    ensures
        match r {
            Ok(v) => spec_bytes_to_u16_le(bytes@) == Ok::<Seq<u16>, ErrorView>(v@),
            Err(e) => spec_bytes_to_u16_le(bytes@) == Err::<Seq<u16>, ErrorView>(e@),
        },
{
    if bytes.len() % 2 != 0 {
        return Err(Error::InvalidWgcHdrBuffer);
    }
    let n = bytes.len() / 2;
    let mut out: Vec<u16> = Vec::new();
    let mut i: usize = 0;
    while i < n
        invariant
            n == bytes@.len() / 2,
            2 * n == bytes.len(),
            i <= n,
            out@.len() == i,
            forall|j: int| 0 <= j < i ==> out@[j] == (bytes@[2 * j] + 256 * bytes@[2 * j + 1]) as u16,
        decreases n - i,
    {
        let lo = bytes[2 * i] as u16;
        let hi = bytes[2 * i + 1] as u16;
        out.push(lo + 256 * hi);
        i = i + 1;
    }
    assert(out@ =~= Seq::new(n as nat, |j: int| (bytes@[2 * j] + 256 * bytes@[2 * j + 1]) as u16));
    Ok(out)
}

/// The byte at `i` after swapping the first and third byte of every whole
/// 4-byte pixel (BGRA to RGBA); a trailing partial pixel stays as it is.
pub open spec fn swapped_byte(bytes: Seq<u8>, i: int) -> u8 {
    if i < 4 * (bytes.len() / 4) && i % 4 == 0 {
        bytes[i + 2]
    } else if i < 4 * (bytes.len() / 4) && i % 4 == 2 {
        bytes[i - 2]
    } else {
        bytes[i]
    }
}

/// BGRA bytes with red and blue swapped.
pub open spec fn spec_bgra_to_rgba(bytes: Seq<u8>) -> Seq<u8> {
    Seq::new(bytes.len(), |i: int| swapped_byte(bytes, i))
}

/// Swaps red and blue in every whole 4-byte pixel.
pub fn bgra_to_rgba(bytes: Vec<u8>) -> (r: Vec<u8>)
    ensures
        r@ == spec_bgra_to_rgba(bytes@),
{
    let mut rgba = bytes;
    let ghost orig = rgba@;
    let count = rgba.len() / 4;
    let mut p: usize = 0;
    while p < count
        invariant
            count == orig.len() / 4,
            4 * count <= rgba.len(),
            p <= count,
            rgba@.len() == orig.len(),
            forall|i: int| 0 <= i < 4 * p ==> rgba@[i] == swapped_byte(orig, i),
            forall|i: int| 4 * p <= i < orig.len() ==> rgba@[i] == orig[i],
        decreases count - p,
    {
        let base = 4 * p;
        let first = rgba[base];
        let third = rgba[base + 2];
        rgba.set(base, third);
        rgba.set(base + 2, first);
        p = p + 1;
        assert forall|i: int| 0 <= i < 4 * p implies rgba@[i] == swapped_byte(orig, i) by {
            if i >= base {
                assert(i - base < 4);
            }
        }
    }
    assert(rgba@ =~= spec_bgra_to_rgba(orig));
    rgba
}

} // verus!
