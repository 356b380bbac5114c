//! Raster images: RGBA pixels to an ESC/POS `GS v 0` command, with
//! Floyd-Steinberg dithering.

use vstd::prelude::*;
use crate::errors::PrinterError;
use crate::text::{decimal, push_decimal};

verus! {

/// Largest accepted width or height of a raster image, in pixels.
pub const MAX_RASTER_DIM: usize = 8192;

/// A colour channel `c` with alpha `a`, composited over white (rounded).
pub open spec fn over_white(c: int, a: int) -> int {
    (c * a + 255 * (255 - a) + 127) / 255
}

/// Gray level (0..=255) of pixel `i` of an RGBA buffer: the pixel over white,
/// weighted 77/150/29 out of 256 (BT.601).
pub open spec fn luminance(rgba: Seq<u8>, i: int) -> int {
    let b = 4 * i;
    let a = rgba[b + 3] as int;
    (77 * over_white(rgba[b] as int, a) + 150 * over_white(rgba[b + 1] as int, a) + 29
        * over_white(rgba[b + 2] as int, a)) / 256
}

/// The level a gray value is printed at: black (0) below 128, else white (255).
pub open spec fn threshold(v: int) -> int {
    if v < 128 {
        0
    } else {
        255
    }
}

/// `v` clamped to the range of `i16`.
pub open spec fn sat_i16(v: int) -> int {
    if v > 32767 {
        32767
    } else if v < -32768 {
        -32768
    } else {
        v
    }
}

/// Division rounded toward zero, as integer division in Rust.
pub open spec fn tdiv(a: int, d: int) -> int {
    if a >= 0 {
        a / d
    } else {
        -((-a) / d)
    }
}

/// Adds `delta` to cell `i`, saturating at the bounds of `i16`.
pub open spec fn add_error(g: Seq<int>, i: int, delta: int) -> Seq<int> {
    g.update(i, sat_i16(g[i] + delta))
}

/// The share of the error that goes to the right neighbour (7/16).
pub open spec fn spread_right(g: Seq<int>, idx: int, x: int, w: int, err: int) -> Seq<int> {
    if x + 1 < w {
        add_error(g, idx + 1, tdiv(err * 7, 16))
    } else {
        g
    }
}

/// The shares of the error that go to the next row: 3/16 below left, 5/16
/// below and 1/16 below right.
pub open spec fn spread_below(g: Seq<int>, idx: int, x: int, y: int, w: int, h: int, err: int) -> Seq<int> {
    if y + 1 < h {
        let g3 = if x > 0 {
            add_error(g, idx + w - 1, tdiv(err * 3, 16))
        } else {
            g
        };
        let g4 = add_error(g3, idx + w, tdiv(err * 5, 16));
        if x + 1 < w {
            add_error(g4, idx + w + 1, tdiv(err, 16))
        } else {
            g4
        }
    } else {
        g
    }
}

/// One Floyd-Steinberg step at pixel `idx` of a `w`-wide, `h`-high image: the
/// pixel takes its threshold level and the error goes 7/16 right, 3/16 below
/// left, 5/16 below and 1/16 below right (each share rounded toward zero).
pub open spec fn diffuse(g: Seq<int>, idx: int, w: int, h: int) -> Seq<int> {
    let old = g[idx];
    let err = old - threshold(old);
    let g1 = g.update(idx, threshold(old));
    if err == 0 {
        g1
    } else {
        spread_below(spread_right(g1, idx, idx % w, w, err), idx, idx % w, idx / w, w, h, err)
    }
}

/// The gray levels after the first `k` pixels (row-major) have been dithered.
pub open spec fn dither_state(rgba: Seq<u8>, w: nat, h: nat, k: nat) -> Seq<int>
    decreases k,
{
    if k == 0 {
        Seq::new(w * h, |i: int| luminance(rgba, i))
    } else {
        diffuse(dither_state(rgba, w, h, (k - 1) as nat), k - 1, w as int, h as int)
    }
}

/// Whether pixel `idx` is printed black.
pub open spec fn is_black(rgba: Seq<u8>, w: nat, h: nat, idx: nat) -> bool {
    dither_state(rgba, w, h, idx)[idx as int] < 128
}

/// The weight of bit `b` in a byte filled most significant bit first.
pub open spec fn bit_weight(b: int) -> int {
    if b == 0 {
        128
    } else if b == 1 {
        64
    } else if b == 2 {
        32
    } else if b == 3 {
        16
    } else if b == 4 {
        8
    } else if b == 5 {
        4
    } else if b == 6 {
        2
    } else {
        1
    }
}

/// The value of up to eight bits packed most significant bit first.
pub open spec fn pack_bits(bits: Seq<bool>) -> int
    decreases bits.len(),
{
    if bits.len() == 0 {
        0
    } else {
        pack_bits(bits.drop_last()) + if bits.last() {
            bit_weight(bits.len() - 1)
        } else {
            0
        }
    }
}

/// Bytes of one raster line of `w` pixels.
pub open spec fn bytes_per_line(w: nat) -> nat {
    (w + 7) / 8
}

/// A row of pixels packed eight to a byte, the last byte padded with white.
pub open spec fn pack_row(bits: Seq<bool>) -> Seq<u8> {
    Seq::new(
        bytes_per_line(bits.len()),
        |j: int|
            pack_bits(
                bits.subrange(8 * j, if 8 * j + 8 < bits.len() {
                    8 * j + 8
                } else {
                    bits.len() as int
                }),
            ) as u8,
    )
}

/// Which pixels of row `y` print black.
pub open spec fn row_bits(rgba: Seq<u8>, w: nat, h: nat, y: nat) -> Seq<bool> {
    Seq::new(w, |x: int| is_black(rgba, w, h, (y * w + x) as nat))
}

/// The packed raster lines of the first `k` rows.
pub open spec fn raster_rows(rgba: Seq<u8>, w: nat, h: nat, k: nat) -> Seq<u8>
    decreases k,
{
    if k == 0 {
        seq![]
    } else {
        raster_rows(rgba, w, h, (k - 1) as nat) + pack_row(row_bits(rgba, w, h, (k - 1) as nat))
    }
}

/// `GS v 0` in normal mode, then the bytes per line and the number of lines,
/// each as two little-endian bytes.
pub open spec fn raster_header(w: nat, h: nat) -> Seq<u8> {
    let bpl = bytes_per_line(w);
    seq![
        0x1Du8,
        0x76u8,
        0x30u8,
        0x00u8,
        (bpl % 256) as u8,
        ((bpl / 256) % 256) as u8,
        (h % 256) as u8,
        ((h / 256) % 256) as u8,
    ]
}

/// The complete raster command for a valid image.
pub open spec fn raster_command(rgba: Seq<u8>, w: nat, h: nat) -> Seq<u8> {
    raster_header(w, h) + raster_rows(rgba, w, h, h)
}

/// What `_dither_and_encode` gives back for an image: the error message of the
/// first check that fails, or the raster command.
pub open spec fn raster_result(rgba: Seq<u8>, w: nat, h: nat) -> std::result::Result<Seq<u8>, Seq<char>> {
    if w == 0 || h == 0 {
        Err("Raster image width and height must be > 0"@)
    } else if w * h * 4 > usize::MAX {
        Err("Raster image dimensions overflow"@)
    } else if rgba.len() < w * h * 4 {
        Err(
            "RGBA buffer too small: need "@ + decimal(w * h * 4) + " bytes, got "@ + decimal(
                rgba.len(),
            ),
        )
    } else if w > MAX_RASTER_DIM || h > MAX_RASTER_DIM {
        Err("Raster image dimensions exceed 8192×8192"@)
    } else {
        Ok(raster_command(rgba, w, h))
    }
}

/// A `Vec<i16>` read as integers.
pub open spec fn ints(s: Seq<i16>) -> Seq<int> {
    s.map_values(|v: i16| v as int)
}

proof fn lemma_row_major(x: int, y: int, w: int)
    requires
        0 <= x < w,
        0 <= y,
    ensures
        (y * w + x) % w == x,
        (y * w + x) / w == y,
{
    vstd::arithmetic::div_mod::lemma_fundamental_div_mod_converse_mod(y * w + x, w, y, x);
    vstd::arithmetic::div_mod::lemma_fundamental_div_mod_converse_div(y * w + x, w, y, x);
}

/// `a + b`, saturating at the bounds of `i16`.
fn sat_add_i16(a: i16, b: i16) -> (r: i16)
    ensures
        r == sat_i16(a + b),
{
    let s: i32 = a as i32 + b as i32;
    if s > 32767 {
        32767
    } else if s < -32768 {
        -32768
    } else {
        s as i16
    }
}

/// Adds `delta` to `gray[i]`, saturating.
fn add_error_at(gray: &mut Vec<i16>, i: usize, delta: i32)
    requires
        i < old(gray).len(),
        -32768 <= delta <= 32767,
    ensures
        final(gray).len() == old(gray).len(),
        ints(final(gray)@) == add_error(ints(old(gray)@), i as int, delta as int),
{
    let v = sat_add_i16(gray[i], delta as i16);
    gray.set(i, v);
    assert(ints(gray@) =~= add_error(ints(old(gray)@), i as int, delta as int));
}

proof fn lemma_neighbours(x: int, y: int, w: int, h: int)
    requires
        0 <= x < w,
        0 <= y < h,
    ensures
        y * w + x < w * h,
        (y * w + x) % w == x,
        (y * w + x) / w == y,
        x + 1 < w ==> y * w + x + 1 < w * h,
        y + 1 < h ==> y * w + x + w < w * h,
        y + 1 < h && x + 1 < w ==> y * w + x + w + 1 < w * h,
{
    lemma_row_major(x, y, w);
    assert(y * w + w <= w * h) by (nonlinear_arith)
        requires 0 <= x < w, 0 <= y < h;
    if y + 1 < h {
        assert(y * w + w + w <= w * h) by (nonlinear_arith)
            requires 0 <= x < w, 0 <= y, y + 1 < h;
    }
}

/// Spreads the error `err` of pixel `(x, y)` to its neighbours not yet dithered.
#[verifier::spinoff_prover]
fn spread_error(gray: &mut Vec<i16>, x: usize, y: usize, width: usize, height: usize, err: i16)
    requires
        x < width,
        y < height,
        old(gray).len() == width * height,
    ensures
        final(gray).len() == old(gray).len(),
        ints(final(gray)@) == spread_below(
            spread_right(ints(old(gray)@), (y * width + x) as int, x as int, width as int, err as int),
            (y * width + x) as int,
            x as int,
            y as int,
            width as int,
            height as int,
            err as int,
        ),
{
    proof {
        lemma_neighbours(x as int, y as int, width as int, height as int);
    }
    let idx = y * width + x;
    let e: i32 = err as i32;
    if x + 1 < width {
        add_error_at(gray, idx + 1, e * 7 / 16);
    }
    if y + 1 < height {
        if x > 0 {
            add_error_at(gray, idx + width - 1, e * 3 / 16);
        }
        add_error_at(gray, idx + width, e * 5 / 16);
        if x + 1 < width {
            add_error_at(gray, idx + width + 1, e / 16);
        }
    }
}

/// Thresholds pixel `(x, y)` and spreads its error to the pixels not yet
/// dithered; returns whether the pixel prints black.
#[verifier::spinoff_prover]
fn dither_pixel(gray: &mut Vec<i16>, x: usize, y: usize, width: usize, height: usize) -> (black: bool)
    requires
        x < width,
        y < height,
        old(gray).len() == width * height,
    ensures
        final(gray).len() == old(gray).len(),
        ints(final(gray)@) == diffuse(ints(old(gray)@), (y * width + x) as int, width as int, height as int),
        black == (old(gray)@[(y * width + x) as int] < 128),
{
    proof {
        lemma_neighbours(x as int, y as int, width as int, height as int);
    }
    let ghost g0 = ints(gray@);
    let idx = y * width + x;
    let old_v = gray[idx];
    assert(g0[idx as int] == old_v as int);
    let neo: i16 = if old_v < 128 {
        0
    } else {
        255
    };
    gray.set(idx, neo);
    let ghost g1 = g0.update(idx as int, threshold(old_v as int));
    assert(ints(gray@) =~= g1);
    let err: i16 = old_v - neo;
    if err != 0 {
        spread_error(gray, x, y, width, height, err);
    }
    neo == 0
}

proof fn lemma_over_white_bound(c: int, a: int)
    requires
        0 <= c <= 255,
        0 <= a <= 255,
    ensures
        0 <= c * a <= 65025,
        0 <= over_white(c, a) <= 255,
{
    assert(0 <= c * a <= 65025) by (nonlinear_arith)
        requires 0 <= c <= 255, 0 <= a <= 255;
    assert(c * a + 255 * (255 - a) + 127 <= 65152) by (nonlinear_arith)
        requires 0 <= c <= 255, 0 <= a <= 255;
}

/// Gray level of pixel `i`.
fn pixel_luminance(rgba: &[u8], i: usize) -> (v: i16)
    requires
        4 * i + 3 < rgba.len(),
    ensures
        v as int == luminance(rgba@, i as int),
        0 <= v <= 255,
{
    let b = i * 4;
    let r = rgba[b] as u32;
    let g = rgba[b + 1] as u32;
    let bl = rgba[b + 2] as u32;
    let a = rgba[b + 3] as u32;
    proof {
        lemma_over_white_bound(r as int, a as int);
        lemma_over_white_bound(g as int, a as int);
        lemma_over_white_bound(bl as int, a as int);
    }
    let ia = 255 - a;
    let br = (r * a + 255 * ia + 127) / 255;
    let bg = (g * a + 255 * ia + 127) / 255;
    let bb = (bl * a + 255 * ia + 127) / 255;
    let lum = (77 * br + 150 * bg + 29 * bb) / 256;
    lum as i16
}

proof fn lemma_pack_push(bits: Seq<bool>, start: int, x: int)
    requires
        0 <= start <= x < bits.len(),
    ensures
        pack_bits(bits.subrange(start, x + 1)) == pack_bits(bits.subrange(start, x)) + if bits[x] {
            bit_weight(x - start)
        } else {
            0
        },
{
    let s = bits.subrange(start, x + 1);
    assert(s.drop_last() =~= bits.subrange(start, x));
    assert(s.last() == bits[x]);
}

#[verifier::rlimit(60)]
/// Encodes an RGBA image of `width` x `height` pixels as an ESC/POS `GS v 0`
/// raster command: each pixel is composited over white, turned to gray and
/// dithered to black and white with Floyd-Steinberg error diffusion.
pub fn _dither_and_encode(rgba: &[u8], width: usize, height: usize) -> (r: Result<Vec<u8>, PrinterError>)
    ensures
        match raster_result(rgba@, width as nat, height as nat) {
            Ok(cmd) => r matches Ok(v) && v@ == cmd,
            Err(m) => r matches Err(PrinterError::InvalidConfig(s)) && s@ == m,
        },
{
    if width == 0 || height == 0 {
        return Err(PrinterError::InvalidConfig(String::from_str("Raster image width and height must be > 0")));
    }
    let required = match width.checked_mul(height) {
        Some(p) => p.checked_mul(4),
        None => None,
    };
    let required = match required {
        Some(q) => q,
        None => {
            proof {
                if width * height <= usize::MAX {
                    assert(width * height * 4 > usize::MAX);
                } else {
                    assert(width * height * 4 > usize::MAX) by (nonlinear_arith)
                        requires width * height > usize::MAX;
                }
            }
            return Err(PrinterError::InvalidConfig(String::from_str("Raster image dimensions overflow")));
        },
    };
    assert(required == width * height * 4);
    if rgba.len() < required {
        let mut m = String::from_str("RGBA buffer too small: need ");
        push_decimal(&mut m, required);
        m.append(" bytes, got ");
        push_decimal(&mut m, rgba.len());
        return Err(PrinterError::InvalidConfig(m));
    }
    if width > MAX_RASTER_DIM || height > MAX_RASTER_DIM {
        return Err(PrinterError::InvalidConfig(String::from_str("Raster image dimensions exceed 8192×8192")));
    }
    let n = width * height;
    let bpl = (width + 7) / 8;
    let ghost w = width as nat;
    let ghost h = height as nat;

    // Gray levels of the image composited over white.
    let mut gray: Vec<i16> = Vec::new();
    for i in 0..n
        invariant
            n == width * height,
            rgba@.len() >= 4 * n,
            gray@.len() == i,
            forall|j: int| 0 <= j < i ==> #[trigger] gray@[j] as int == luminance(rgba@, j),
    {
        let v = pixel_luminance(rgba, i);
        gray.push(v);
    }
    assert(ints(gray@) =~= dither_state(rgba@, w, h, 0));
    assert(0 * width == 0);

    let mut cmd: Vec<u8> = Vec::new();
    cmd.push(0x1D);
    cmd.push(0x76);
    cmd.push(0x30);
    cmd.push(0x00);
    cmd.push((bpl % 256) as u8);
    cmd.push(((bpl / 256) % 256) as u8);
    cmd.push((height % 256) as u8);
    cmd.push(((height / 256) % 256) as u8);
    assert(cmd@ =~= raster_header(w, h) + raster_rows(rgba@, w, h, 0));

    for y in 0..height
        invariant
            n == width * height,
            width > 0,
            gray@.len() == n,
            ints(gray@) == dither_state(rgba@, w, h, (y * width) as nat),
            cmd@ == raster_header(w, h) + raster_rows(rgba@, w, h, y as nat),
            w == width,
            h == height,
    {
        let ghost rb = row_bits(rgba@, w, h, y as nat);
        let ghost before = cmd@;
        let mut cur: u8 = 0;
        let mut bit: u8 = 0;
        let mut weight: u8 = 128;
        assert(pack_row(rb).take(0) =~= Seq::<u8>::empty());
        assert(rb.subrange(0, 0) =~= Seq::<bool>::empty());
        for x in 0..width
            invariant
                n == width * height,
                y < height,
                gray@.len() == n,
                w == width,
                h == height,
                rb == row_bits(rgba@, w, h, y as nat),
                ints(gray@) == dither_state(rgba@, w, h, (y * width + x) as nat),
                bit as int == x % 8,
                weight as int == bit_weight(bit as int),
                cur + 2 * weight <= 256,
                cur as int == pack_bits(rb.subrange(x - x % 8, x as int)),
                cmd@ == before + pack_row(rb).take((x / 8) as int),
        {
            proof {
                lemma_neighbours(x as int, y as int, width as int, height as int);
            }
            let ghost idx = (y * width + x) as nat;
            let black = dither_pixel(&mut gray, x, y, width, height);
            proof {
                assert(dither_state(rgba@, w, h, idx + 1) == diffuse(
                    dither_state(rgba@, w, h, idx), idx as int, w as int, h as int));
                assert(rb[x as int] == black);
                lemma_pack_push(rb, x - x % 8, x as int);
            }
            if black {
                cur = cur + weight;
            }
            bit = bit + 1;
            weight = weight / 2;
            if bit == 8 {
                proof {
                    let j = x / 8;
                    assert(x + 1 == 8 * j + 8);
                    assert(pack_row(rb)[j as int] == cur);
                    assert(pack_row(rb).take(j + 1) =~= pack_row(rb).take(j as int).push(cur));
                }
                cmd.push(cur);
                cur = 0;
                bit = 0;
                weight = 128;
                proof {
                    assert(rb.subrange(x + 1, x + 1) =~= Seq::<bool>::empty());
                }
            }
        }
        if bit > 0 {
            proof {
                let j = width / 8;
                assert(pack_row(rb)[j as int] == cur);
                assert(pack_row(rb) =~= pack_row(rb).take(j as int).push(cur));
            }
            cmd.push(cur);
        } else {
            assert(pack_row(rb) =~= pack_row(rb).take((width / 8) as int));
        }
        proof {
            assert(y * width + width == (y + 1) * width) by (nonlinear_arith);
            assert(cmd@ =~= raster_header(w, h) + raster_rows(rgba@, w, h, (y + 1) as nat));
        }
    }
    Ok(cmd)
}

/// Encodes RGBA pixels given with signed dimensions as a raster command; an
/// image that fails a check gives an empty command. Negative dimensions are
/// converted as `as usize` converts them and then fail the size checks.
pub fn encode_raster_image(rgba: Vec<u8>, width: i64, height: i64) -> (r: Vec<u8>)
    ensures
        match raster_result(rgba@, (width as usize) as nat, (height as usize) as nat) {
            Ok(cmd) => r@ == cmd,
            Err(_) => r@ == Seq::<u8>::empty(),
        },
{
    let w = width as usize;
    let h = height as usize;
    match _dither_and_encode(rgba.as_slice(), w, h) {
        Ok(bytes) => bytes,
        Err(_) => Vec::new(),
    }
}

proof fn lemma_rows_len(rgba: Seq<u8>, w: nat, h: nat, k: nat)
    ensures
        raster_rows(rgba, w, h, k).len() == k * bytes_per_line(w),
    decreases k,
{
    if k > 0 {
        lemma_rows_len(rgba, w, h, (k - 1) as nat);
        assert(row_bits(rgba, w, h, (k - 1) as nat).len() == w);
        assert(pack_row(row_bits(rgba, w, h, (k - 1) as nat)).len() == bytes_per_line(w));
        assert((k - 1) * bytes_per_line(w) + bytes_per_line(w) == k * bytes_per_line(w)) by (nonlinear_arith);
    } else {
        assert(0 * bytes_per_line(w) == 0);
    }
}

/// A raster command is its 8-byte header followed by `ceil(w / 8)` bytes for
/// each of the `h` rows.
pub proof fn law_raster_length(rgba: Seq<u8>, w: nat, h: nat)
    ensures
        raster_command(rgba, w, h).len() == 8 + bytes_per_line(w) * h,
{
    lemma_rows_len(rgba, w, h, h);
    assert(h * bytes_per_line(w) == bytes_per_line(w) * h) by (nonlinear_arith);
}

/// Whether every pixel of a `n`-pixel image is opaque and has the same
/// colour channels `c`.
pub open spec fn opaque_uniform(rgba: Seq<u8>, n: nat, c: u8) -> bool {
    forall|i: int|
        0 <= i < n ==> #[trigger] rgba[4 * i] == c && rgba[4 * i + 1] == c && rgba[4 * i + 2] == c
            && rgba[4 * i + 3] == 255
}

proof fn lemma_uniform_state(rgba: Seq<u8>, w: nat, h: nat, c: u8, level: int, k: nat)
    requires
        c == 0 || c == 255,
        level == c as int,
        opaque_uniform(rgba, w * h, c),
        k <= w * h,
    ensures
        dither_state(rgba, w, h, k) =~= Seq::new(w * h, |i: int| level),
    decreases k,
{
    if k == 0 {
        assert forall|i: int| 0 <= i < w * h implies luminance(rgba, i) == level by {
            assert(rgba[4 * i] == c);
        }
    } else {
        lemma_uniform_state(rgba, w, h, c, level, (k - 1) as nat);
    }
}

/// An image whose pixels are all opaque black prints every pixel black, and
/// one whose pixels are all opaque white prints none: uniform black or white
/// carries no error to diffuse.
pub proof fn law_uniform_image_prints_as_is(rgba: Seq<u8>, w: nat, h: nat, c: u8)
    requires
        c == 0 || c == 255,
        opaque_uniform(rgba, w * h, c),
    ensures
        forall|y: nat| y < h ==> #[trigger] row_bits(rgba, w, h, y) == uniform_bits(w, c == 0),
{
    assert forall|y: nat| y < h implies #[trigger] row_bits(rgba, w, h, y) == uniform_bits(w, c == 0) by {
        assert forall|x: int| 0 <= x < w implies #[trigger] row_bits(rgba, w, h, y)[x] == (c == 0) by {
            assert(y * w + x < w * h) by (nonlinear_arith)
                requires 0 <= x < w, y < h;
            lemma_uniform_state(rgba, w, h, c, c as int, (y * w + x) as nat);
        }
        assert(row_bits(rgba, w, h, y) =~= uniform_bits(w, c == 0));
    }
}

/// A row of `w` pixels all black (`v`) or all white.
pub open spec fn uniform_bits(w: nat, v: bool) -> Seq<bool> {
    Seq::new(w, |x: int| v)
}

proof fn lemma_pack_all(m: nat, v: bool)
    requires
        m <= 8,
    ensures
        pack_bits(uniform_bits(m, v)) == if v && m > 0 {
            256 - bit_weight(m - 1)
        } else {
            0
        },
        m == 8 ==> pack_bits(uniform_bits(m, v)) == if v { 255int } else { 0int },
    decreases m,
{
    if m > 0 {
        lemma_pack_all((m - 1) as nat, v);
        assert(uniform_bits(m, v).drop_last() =~= uniform_bits((m - 1) as nat, v));
    }
}

/// A row of black pixels packs to `0xFF` bytes, and when the width is not a
/// multiple of 8 the last byte only has its `w % 8` leading bits set; a row of
/// white pixels packs to zero bytes.
pub proof fn law_uniform_rows_pack(w: nat, v: bool)
    ensures
        forall|j: int|
            0 <= j < w / 8 ==> #[trigger] pack_row(uniform_bits(w, v))[j] == if v { 255u8 } else { 0u8 },
        v && w % 8 != 0 ==> pack_row(uniform_bits(w, v))[(w / 8) as int] == (256 - bit_weight(w % 8 - 1)) as u8,
        !v ==> forall|j: int|
            0 <= j < bytes_per_line(w) ==> #[trigger] pack_row(uniform_bits(w, v))[j] == 0u8,
{
    let bits = uniform_bits(w, v);
    assert forall|j: int| 0 <= j < w / 8 implies #[trigger] pack_row(bits)[j] == if v { 255u8 } else { 0u8 } by {
        assert(8 * j + 8 <= w);
        let end = if 8 * j + 8 < w { 8 * j + 8 } else { w as int };
        assert(bits.subrange(8 * j, end) =~= uniform_bits(8, v));
        lemma_pack_all(8, v);
    }
    if v && w % 8 != 0 {
        let j = (w / 8) as int;
        assert(j < bytes_per_line(w));
        assert(8 * j + 8 > w);
        assert(bits.subrange(8 * j, w as int) =~= uniform_bits((w % 8) as nat, v));
        lemma_pack_all((w % 8) as nat, v);
    }
    assert forall|j: int| 0 <= j < bytes_per_line(w) && !v implies #[trigger] pack_row(bits)[j] == 0u8 by {
        let end = if 8 * j + 8 < w { 8 * j + 8 } else { w as int };
        assert(bits.subrange(8 * j, end) =~= uniform_bits((end - 8 * j) as nat, v));
        lemma_pack_all((end - 8 * j) as nat, v);
    }
}


/// Whether `a` and `b` agree below index `p`.
pub open spec fn agree_below(a: Seq<int>, b: Seq<int>, p: int) -> bool {
    forall|i: int| 0 <= i < p ==> #[trigger] a[i] == #[trigger] b[i]
}

proof fn lemma_pixel_coords(idx: int, w: int, h: int)
    requires
        w > 0,
        0 <= idx < w * h,
    ensures
        0 <= idx % w < w,
        0 <= idx / w < h,
        idx == (idx / w) * w + idx % w,
        idx % w + 1 < w ==> idx + 1 < w * h,
        idx / w + 1 < h ==> idx + w < w * h,
        idx / w + 1 < h && idx % w + 1 < w ==> idx + w + 1 < w * h,
{
    vstd::arithmetic::div_mod::lemma_fundamental_div_mod(idx, w);
    assert(w * (idx / w) == (idx / w) * w) by (nonlinear_arith);
    assert(0 <= idx % w < w) by (nonlinear_arith)
        requires w > 0;
    assert(0 <= idx / w) by (nonlinear_arith)
        requires w > 0, idx >= 0;
    assert(idx / w < h) by (nonlinear_arith)
        requires w > 0, idx == (idx / w) * w + idx % w, 0 <= idx % w, idx < w * h;
    lemma_neighbours(idx % w, idx / w, w, h);
}

proof fn lemma_add_error_agree(g1: Seq<int>, g2: Seq<int>, j: int, d: int, p: int)
    requires
        g1.len() == g2.len(),
        0 <= j < g1.len(),
        0 <= p <= g1.len(),
        agree_below(g1, g2, p),
    ensures
        add_error(g1, j, d).len() == g1.len(),
        add_error(g2, j, d).len() == g1.len(),
        agree_below(add_error(g1, j, d), add_error(g2, j, d), p),
{
    assert forall|i: int| 0 <= i < p implies #[trigger] add_error(g1, j, d)[i] == #[trigger] add_error(
        g2,
        j,
        d,
    )[i] by {
        if i != j {
            assert(g1[i] == g2[i]);
        } else {
            assert(g1[j] == g2[j]);
        }
    }
}

proof fn lemma_add_error_keeps_below(g: Seq<int>, j: int, d: int, q: int)
    requires
        0 <= j < g.len(),
        q <= j,
    ensures
        add_error(g, j, d).len() == g.len(),
        forall|i: int| 0 <= i < q ==> #[trigger] add_error(g, j, d)[i] == g[i],
{
}

/// Dithering pixel `idx` changes no pixel before it and keeps the length.
proof fn lemma_diffuse_keeps_before(g: Seq<int>, idx: int, w: int, h: int)
    requires
        w > 0,
        g.len() == w * h,
        0 <= idx < w * h,
    ensures
        diffuse(g, idx, w, h).len() == w * h,
        forall|i: int| 0 <= i < idx ==> #[trigger] diffuse(g, idx, w, h)[i] == g[i],
{
    lemma_pixel_coords(idx, w, h);
    let x = idx % w;
    let y = idx / w;
    let old = g[idx];
    let err = old - threshold(old);
    let g1 = g.update(idx, threshold(old));
    if err != 0 {
        let g2 = spread_right(g1, idx, x, w, err);
        if x + 1 < w {
            lemma_add_error_keeps_below(g1, idx + 1, tdiv(err * 7, 16), idx);
        }
        if y + 1 < h {
            let g3 = if x > 0 {
                add_error(g2, idx + w - 1, tdiv(err * 3, 16))
            } else {
                g2
            };
            if x > 0 {
                lemma_add_error_keeps_below(g2, idx + w - 1, tdiv(err * 3, 16), idx);
            }
            let g4 = add_error(g3, idx + w, tdiv(err * 5, 16));
            lemma_add_error_keeps_below(g3, idx + w, tdiv(err * 5, 16), idx);
            if x + 1 < w {
                lemma_add_error_keeps_below(g4, idx + w + 1, tdiv(err, 16), idx);
            }
        }
    }
}

/// Two gray states that agree below `p` still agree below `p` once a pixel
/// before `p` is dithered in both.
proof fn lemma_diffuse_agree(g1: Seq<int>, g2: Seq<int>, idx: int, w: int, h: int, p: int)
    requires
        w > 0,
        g1.len() == w * h,
        g2.len() == w * h,
        0 <= idx < p <= w * h,
        agree_below(g1, g2, p),
    ensures
        agree_below(diffuse(g1, idx, w, h), diffuse(g2, idx, w, h), p),
{
    lemma_pixel_coords(idx, w, h);
    let x = idx % w;
    let y = idx / w;
    assert(g1[idx] == g2[idx]);
    let old = g1[idx];
    let err = old - threshold(old);
    let a1 = g1.update(idx, threshold(old));
    let b1 = g2.update(idx, threshold(old));
    assert(agree_below(a1, b1, p)) by {
        assert forall|i: int| 0 <= i < p implies #[trigger] a1[i] == #[trigger] b1[i] by {
            if i != idx {
                assert(g1[i] == g2[i]);
            }
        }
    }
    if err != 0 {
        let a2 = spread_right(a1, idx, x, w, err);
        let b2 = spread_right(b1, idx, x, w, err);
        if x + 1 < w {
            lemma_add_error_agree(a1, b1, idx + 1, tdiv(err * 7, 16), p);
        }
        assert(agree_below(a2, b2, p));
        if y + 1 < h {
            let a3 = if x > 0 {
                add_error(a2, idx + w - 1, tdiv(err * 3, 16))
            } else {
                a2
            };
            let b3 = if x > 0 {
                add_error(b2, idx + w - 1, tdiv(err * 3, 16))
            } else {
                b2
            };
            if x > 0 {
                lemma_add_error_agree(a2, b2, idx + w - 1, tdiv(err * 3, 16), p);
            }
            let a4 = add_error(a3, idx + w, tdiv(err * 5, 16));
            let b4 = add_error(b3, idx + w, tdiv(err * 5, 16));
            lemma_add_error_agree(a3, b3, idx + w, tdiv(err * 5, 16), p);
            if x + 1 < w {
                lemma_add_error_agree(a4, b4, idx + w + 1, tdiv(err, 16), p);
            }
        }
    }
}

/// Images whose first `p` pixels have the same gray levels keep the same
/// levels there at every step of the dithering.
proof fn lemma_state_agree(r1: Seq<u8>, r2: Seq<u8>, w: nat, h: nat, p: int, k: nat)
    requires
        w > 0,
        0 <= p <= w * h,
        k <= w * h,
        forall|i: int| 0 <= i < p ==> #[trigger] luminance(r1, i) == luminance(r2, i),
    ensures
        dither_state(r1, w, h, k).len() == w * h,
        dither_state(r2, w, h, k).len() == w * h,
        agree_below(dither_state(r1, w, h, k), dither_state(r2, w, h, k), p),
    decreases k,
{
    if k == 0 {
        assert forall|i: int| 0 <= i < p implies #[trigger] dither_state(r1, w, h, k)[i]
            == #[trigger] dither_state(r2, w, h, k)[i] by {
            assert(luminance(r1, i) == luminance(r2, i));
        }
    } else {
        lemma_state_agree(r1, r2, w, h, p, (k - 1) as nat);
        let g1 = dither_state(r1, w, h, (k - 1) as nat);
        let g2 = dither_state(r2, w, h, (k - 1) as nat);
        let idx = k - 1;
        lemma_diffuse_keeps_before(g1, idx, w as int, h as int);
        lemma_diffuse_keeps_before(g2, idx, w as int, h as int);
        if idx < p {
            lemma_diffuse_agree(g1, g2, idx, w as int, h as int, p);
        } else {
            assert forall|i: int| 0 <= i < p implies #[trigger] dither_state(r1, w, h, k)[i]
                == #[trigger] dither_state(r2, w, h, k)[i] by {
                assert(g1[i] == g2[i]);
            }
        }
    }
}

proof fn lemma_rows_prefix(rgba: Seq<u8>, w: nat, h: nat, j: nat, k: nat)
    requires
        j <= k,
    ensures
        raster_rows(rgba, w, h, k).subrange(0, (j * bytes_per_line(w)) as int) == raster_rows(rgba, w, h, j),
    decreases k,
{
    lemma_rows_len(rgba, w, h, k);
    lemma_rows_len(rgba, w, h, j);
    if j < k {
        lemma_rows_prefix(rgba, w, h, j, (k - 1) as nat);
        lemma_rows_len(rgba, w, h, (k - 1) as nat);
        assert(j * bytes_per_line(w) <= (k - 1) * bytes_per_line(w)) by (nonlinear_arith)
            requires j <= k - 1;
        let a = raster_rows(rgba, w, h, (k - 1) as nat);
        let b = pack_row(row_bits(rgba, w, h, (k - 1) as nat));
        assert((a + b).subrange(0, (j * bytes_per_line(w)) as int) =~= a.subrange(
            0,
            (j * bytes_per_line(w)) as int,
        ));
    } else {
        assert(raster_rows(rgba, w, h, k).subrange(0, (j * bytes_per_line(w)) as int) =~= raster_rows(
            rgba,
            w,
            h,
            j,
        ));
    }
}

/// Raster rows of two images whose first `p` pixels dither alike agree on
/// every row that lies within those pixels.
proof fn lemma_rows_agree(r1: Seq<u8>, r2: Seq<u8>, w: nat, h: nat, p: int, k: nat)
    requires
        w > 0,
        k * w <= p <= w * h,
        forall|i: int| 0 <= i < p ==> #[trigger] luminance(r1, i) == luminance(r2, i),
    ensures
        raster_rows(r1, w, h, k) == raster_rows(r2, w, h, k),
    decreases k,
{
    if k > 0 {
        assert((k - 1) * w <= k * w) by (nonlinear_arith);
        lemma_rows_agree(r1, r2, w, h, p, (k - 1) as nat);
        let y = (k - 1) as nat;
        assert forall|x: int| 0 <= x < w implies #[trigger] row_bits(r1, w, h, y)[x] == row_bits(
            r2,
            w,
            h,
            y,
        )[x] by {
            let idx = (y * w + x) as nat;
            assert(y * w + x < k * w) by (nonlinear_arith)
                requires y == k - 1, 0 <= x < w;
            lemma_state_agree(r1, r2, w, h, p, idx);
            assert(dither_state(r1, w, h, idx)[idx as int] == dither_state(r2, w, h, idx)[idx as int]);
        }
        assert(row_bits(r1, w, h, y) =~= row_bits(r2, w, h, y));
    }
}

/// A raster row is decided by the pixels of its own row and of the rows above
/// it: error is only carried right and down. Two images that agree on their
/// first `y + 1` rows of pixels give commands that agree on the header and
/// the first `y + 1` raster lines; bytes past the last pixel are never read.
pub proof fn law_rows_depend_on_rows_above(r1: Seq<u8>, r2: Seq<u8>, w: nat, h: nat, y: nat)
    requires
        raster_result(r1, w, h) is Ok,
        raster_result(r2, w, h) is Ok,
        y < h,
        forall|i: int| 0 <= i < (y + 1) * w * 4 ==> #[trigger] r1[i] == r2[i],
    ensures
        raster_result(r1, w, h)->Ok_0.subrange(0, 8 + (y + 1) * bytes_per_line(w) as int)
            == raster_result(r2, w, h)->Ok_0.subrange(0, 8 + (y + 1) * bytes_per_line(w) as int),
{
    let p = ((y + 1) * w) as int;
    assert(p <= w * h) by (nonlinear_arith)
        requires y < h, p == (y + 1) * w;
    assert forall|i: int| 0 <= i < p implies #[trigger] luminance(r1, i) == luminance(r2, i) by {
        assert(4 * i + 3 < (y + 1) * w * 4) by (nonlinear_arith)
            requires 0 <= i < p, p == (y + 1) * w;
        assert(r1[4 * i] == r2[4 * i]);
        assert(r1[4 * i + 1] == r2[4 * i + 1]);
        assert(r1[4 * i + 2] == r2[4 * i + 2]);
        assert(r1[4 * i + 3] == r2[4 * i + 3]);
    }
    lemma_rows_agree(r1, r2, w, h, p, y + 1);
    lemma_rows_prefix(r1, w, h, y + 1, h);
    lemma_rows_prefix(r2, w, h, y + 1, h);
    lemma_rows_len(r1, w, h, h);
    lemma_rows_len(r2, w, h, h);
    let n = ((y + 1) * bytes_per_line(w)) as int;
    assert(n <= h * bytes_per_line(w)) by (nonlinear_arith)
        requires y < h, n == (y + 1) * bytes_per_line(w);
    let c1 = raster_command(r1, w, h);
    let c2 = raster_command(r2, w, h);
    assert(c1.subrange(0, 8 + n) =~= raster_header(w, h) + raster_rows(r1, w, h, h).subrange(0, n));
    assert(c2.subrange(0, 8 + n) =~= raster_header(w, h) + raster_rows(r2, w, h, h).subrange(0, n));
}


/// One Floyd-Steinberg step at pixel `idx` of a `w`-wide, `h`-high image, in
/// plain terms: the pixel takes level 0 (below 128) or 255, and its error
/// `err` (old level minus new) goes to the pixels not yet dithered: 7/16 to
/// the right, and on the next row 3/16 below left, 5/16 below and 1/16 below
/// right, each share rounded toward zero and each sum held to the `i16`
/// range; a neighbour outside the image gets nothing, and no other pixel
/// changes (none at all when the error is zero).
pub proof fn law_error_diffusion(g: Seq<int>, idx: int, w: int, h: int)
    requires
        w > 0,
        g.len() == w * h,
        0 <= idx < w * h,
    ensures
        ({
            let old = g[idx];
            let level = if old < 128 { 0int } else { 255int };
            let err = old - level;
            let x = idx % w;
            let y = idx / w;
            let share = |n: int| if err * n >= 0 { (err * n) / 16 } else { -((-(err * n)) / 16) };
            let held = |v: int| if v > 32767 { 32767 } else if v < -32768 { -32768 } else { v };
            let d = diffuse(g, idx, w, h);
            &&& d.len() == g.len()
            &&& d[idx] == level
            &&& err != 0 && x + 1 < w ==> d[idx + 1] == held(g[idx + 1] + share(7))
            &&& err != 0 && y + 1 < h && x > 0 ==> d[idx + w - 1] == held(g[idx + w - 1] + share(3))
            &&& err != 0 && y + 1 < h ==> d[idx + w] == held(g[idx + w] + share(5))
            &&& err != 0 && y + 1 < h && x + 1 < w ==> d[idx + w + 1] == held(g[idx + w + 1] + share(1))
            &&& forall|i: int|
                0 <= i < g.len() && i != idx && (err == 0 || (!(x + 1 < w && i == idx + 1) && !(y + 1 < h
                    && x > 0 && i == idx + w - 1) && !(y + 1 < h && i == idx + w) && !(y + 1 < h && x + 1
                    < w && i == idx + w + 1))) ==> #[trigger] d[i] == g[i]
        }),
{
    lemma_pixel_coords(idx, w, h);
    let old = g[idx];
    let err = old - threshold(old);
    let x = idx % w;
    let y = idx / w;
    let g1 = g.update(idx, threshold(old));
    if err != 0 {
        let g2 = spread_right(g1, idx, x, w, err);
        if y + 1 < h {
            let g3 = if x > 0 {
                add_error(g2, idx + w - 1, tdiv(err * 3, 16))
            } else {
                g2
            };
            let g4 = add_error(g3, idx + w, tdiv(err * 5, 16));
            let g5 = if x + 1 < w {
                add_error(g4, idx + w + 1, tdiv(err, 16))
            } else {
                g4
            };
            assert(diffuse(g, idx, w, h) == g5);
        } else {
            assert(diffuse(g, idx, w, h) == g2);
        }
    } else {
        assert(diffuse(g, idx, w, h) == g1);
    }
}

/// Each step of the dithering is the Floyd-Steinberg step at the next pixel
/// in row-major order, applied to the levels left by the steps before.
pub proof fn law_dither_steps(rgba: Seq<u8>, w: nat, h: nat, k: nat)
    requires
        k < w * h,
    ensures
        dither_state(rgba, w, h, k + 1) == diffuse(dither_state(rgba, w, h, k), k as int, w as int, h as int),
        dither_state(rgba, w, h, 0).len() == w * h,
        forall|i: int| 0 <= i < w * h ==> #[trigger] dither_state(rgba, w, h, 0)[i] == luminance(rgba, i),
        is_black(rgba, w, h, k) <==> dither_state(rgba, w, h, k)[k as int] < 128,
        is_black(rgba, w, h, k) <==> dither_state(rgba, w, h, k + 1)[k as int] == 0,
{
    assert(w > 0) by (nonlinear_arith)
        requires k < w * h;
    lemma_state_agree(rgba, rgba, w, h, 0, k);
    law_error_diffusion(dither_state(rgba, w, h, k), k as int, w as int, h as int);
}

/// An image is refused exactly when a dimension is zero, the pixel count
/// times four does not fit in a `usize`, the buffer is shorter than that, or
/// a dimension is over 8192.
pub proof fn law_raster_refusals(rgba: Seq<u8>, w: nat, h: nat)
    ensures
        raster_result(rgba, w, h) is Ok <==> (w > 0 && h > 0 && w * h * 4 <= usize::MAX && rgba.len() >= w * h
            * 4 && w <= 8192 && h <= 8192),
{
}


/// The gray level of a pixel: an opaque pixel weighs its red, green and blue
/// 77:150:29 out of 256 (so an opaque gray `c` stays `c`), and a fully
/// transparent pixel is white.
pub proof fn law_pixel_gray(rgba: Seq<u8>, i: int)
    requires
        0 <= i,
        4 * i + 3 < rgba.len(),
    ensures
        rgba[4 * i + 3] == 255 ==> luminance(rgba, i) == (77 * rgba[4 * i] + 150 * rgba[4 * i + 1] + 29 * rgba[4
            * i + 2]) / 256,
        rgba[4 * i + 3] == 255 && rgba[4 * i] == rgba[4 * i + 1] && rgba[4 * i + 1] == rgba[4 * i + 2]
            ==> luminance(rgba, i) == rgba[4 * i],
        rgba[4 * i + 3] == 0 ==> luminance(rgba, i) == 255,
{
    let r = rgba[4 * i] as int;
    let g = rgba[4 * i + 1] as int;
    let b = rgba[4 * i + 2] as int;
    let a = rgba[4 * i + 3] as int;
    if a == 255 {
        assert(over_white(r, 255) == r) by (nonlinear_arith)
            requires 0 <= r <= 255;
        assert(over_white(g, 255) == g) by (nonlinear_arith)
            requires 0 <= g <= 255;
        assert(over_white(b, 255) == b) by (nonlinear_arith)
            requires 0 <= b <= 255;
        if r == g && g == b {
            assert((77 * r + 150 * r + 29 * r) / 256 == r) by (nonlinear_arith);
        }
    }
    if a == 0 {
        assert(over_white(r, 0) == 255) by (nonlinear_arith);
        assert(over_white(g, 0) == 255) by (nonlinear_arith);
        assert(over_white(b, 0) == 255) by (nonlinear_arith);
    }
}

/// The command header: `GS v 0` in normal mode, then the bytes per line and
/// the number of lines, each as two little-endian bytes.
pub proof fn law_raster_header(rgba: Seq<u8>, w: nat, h: nat)
    requires
        (w + 7) / 8 < 65536,
        h < 65536,
    ensures
        raster_command(rgba, w, h).len() >= 8,
        raster_command(rgba, w, h).subrange(0, 4) == seq![0x1Du8, 0x76u8, 0x30u8, 0x00u8],
        raster_command(rgba, w, h)[4] + 256 * raster_command(rgba, w, h)[5] == (w + 7) / 8,
        raster_command(rgba, w, h)[6] + 256 * raster_command(rgba, w, h)[7] == h,
{
    let c = raster_command(rgba, w, h);
    assert(c.subrange(0, 4) =~= seq![0x1Du8, 0x76u8, 0x30u8, 0x00u8]);
}


proof fn lemma_pack_single(s: Seq<bool>, p: int)
    requires
        s.len() <= 8,
        forall|i: int| 0 <= i < s.len() ==> (#[trigger] s[i] <==> i == p),
    ensures
        pack_bits(s) == if 0 <= p < s.len() { bit_weight(p) } else { 0 },
    decreases s.len(),
{
    if s.len() > 0 {
        let t = s.drop_last();
        assert forall|i: int| 0 <= i < t.len() implies (#[trigger] t[i] <==> i == p) by {
            assert(t[i] == s[i]);
        }
        lemma_pack_single(t, p);
    }
}

/// Pixels are packed most significant bit first: a row whose only black
/// pixel is `x` packs to `0x80 >> (x % 8)` in byte `x / 8`, and every other
/// byte is zero.
pub proof fn law_pack_msb_first(w: nat, x: int)
    requires
        0 <= x < w,
    ensures
        ({
            let row = pack_row(Seq::new(w, |i: int| i == x));
            &&& row.len() == bytes_per_line(w)
            &&& row[x / 8] == seq![128u8, 64u8, 32u8, 16u8, 8u8, 4u8, 2u8, 1u8][x % 8]
            &&& forall|j: int| 0 <= j < row.len() && j != x / 8 ==> #[trigger] row[j] == 0u8
        }),
{
    let bits = Seq::new(w, |i: int| i == x);
    let row = pack_row(bits);
    assert forall|j: int| 0 <= j < row.len() implies #[trigger] row[j] == if j == x / 8 {
        seq![128u8, 64u8, 32u8, 16u8, 8u8, 4u8, 2u8, 1u8][x % 8]
    } else {
        0u8
    } by {
        let end = if 8 * j + 8 < w { 8 * j + 8 } else { w as int };
        let sub = bits.subrange(8 * j, end);
        assert(8 * j < w);
        assert forall|i: int| 0 <= i < sub.len() implies (#[trigger] sub[i] <==> i == x - 8 * j) by {
            assert(sub[i] == bits[8 * j + i]);
        }
        lemma_pack_single(sub, x - 8 * j);
        if j == x / 8 {
            assert(0 <= x - 8 * j < 8);
            assert(x - 8 * j == x % 8);
            assert(x < end);
        } else {
            assert(!(0 <= x - 8 * j < 8));
        }
    }
}

} // verus!
