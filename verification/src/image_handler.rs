//! Image capture pipeline: content fingerprinting for deduplication,
//! thumbnail sizing, dominant-color extraction, artifact naming and PNG
//! encoding of decoded clipboard images.
//!
//! Decoding, resampling and PNG encoding go through the `image` crate behind
//! trusted wrappers; everything around those calls is verified, and the
//! wrappers' results carry names so that the callers' contracts stay exact.

use vstd::prelude::*;
use vstd::string::StringExecFns;

use crate::text::chars_of;
use crate::text::chars_to_string;
use crate::text::dec_str;
use crate::text::hex_byte_upper;
use crate::text::hex_str;
use crate::text::match_at;
use crate::text::match_at_exec;
use crate::text::push_dec_u64;
use crate::text::push_hex_byte_upper;
use crate::text::push_hex_u64;
use crate::text::push_str_chars;

verus! {

/// Metadata describing a saved clipboard image.
#[derive(Debug, Clone)]
pub struct ImageMetadata {
    pub image_path: String,
    pub thumbnail_path: String,
    pub width: u32,
    pub height: u32,
    pub file_size: u64,
    pub dominant_color: Option<String>,
}

// ---------------------------------------------------------------------------
// Content fingerprint (FNV-1a, 64 bit) for image deduplication
// ---------------------------------------------------------------------------

/// One FNV-1a step: xor the byte in, multiply by the FNV prime, wrapping.
pub open spec fn fnv1a_step(h: u64, b: u8) -> u64 {
    vstd::wrapping::u64_specs::wrapping_mul(h ^ (b as u64), 0x100000001b3)
}

/// The FNV-1a hash of a byte sequence, from the standard offset basis.
pub open spec fn fnv1a(s: Seq<u8>) -> u64
    decreases s.len(),
{
    if s.len() == 0 {
        0xcbf29ce484222325u64
    } else {
        fnv1a_step(fnv1a(s.drop_last()), s.last())
    }
}

/// The fingerprint string: the hash in lowercase hexadecimal.
pub open spec fn fingerprint_spec(s: Seq<u8>) -> Seq<char> {
    hex_str(fnv1a(s) as nat)
}

/// Computes the FNV-1a hash of the bytes.
pub fn fnv1a_hash(data: &Vec<u8>) -> (h: u64)
    ensures
        h == fnv1a(data@),
{
    let mut h: u64 = 0xcbf29ce484222325;
    let mut i: usize = 0;
    while i < data.len()
        invariant
            i <= data@.len(),
            h == fnv1a(data@.subrange(0, i as int)),
        decreases data@.len() - i,
    {
        h = (h ^ (data[i] as u64)).wrapping_mul(0x100000001b3);
        i = i + 1;
        proof {
            let pre = data@.subrange(0, i as int);
            assert(pre.drop_last() =~= data@.subrange(0, i - 1));
            assert(pre.last() == data@[i - 1]);
        }
    }
    proof {
        assert(data@.subrange(0, data@.len() as int) =~= data@);
    }
    h
}

/// The deduplication fingerprint of raw image bytes, used purely for
/// equality checks.
pub fn image_fingerprint(data: &Vec<u8>) -> (r: String)
    ensures
        r@ == fingerprint_spec(data@),
{
    let h = fnv1a_hash(data);
    let mut out: Vec<char> = Vec::new();
    push_hex_u64(&mut out, h);
    chars_to_string(&out)
}

// ---------------------------------------------------------------------------
// Thumbnail sizing
// ---------------------------------------------------------------------------

/// Thumbnail dimensions: the identity below 400 in both directions, otherwise
/// scaled so the longer side becomes exactly 400, rounding the shorter side
/// down.
pub open spec fn thumb_dims_spec(w: u32, h: u32) -> (u32, u32) {
    if w <= 400 && h <= 400 {
        (w, h)
    } else if w > h {
        (400u32, (((h as int) * 400) / (w as int)) as u32)
    } else {
        ((((w as int) * 400) / (h as int)) as u32, 400u32)
    }
}

/// Computes the thumbnail dimensions for a `w` by `h` image.
pub fn thumbnail_dims(w: u32, h: u32) -> (r: (u32, u32))
    requires
        1 <= w,
        1 <= h,
    ensures
        r == thumb_dims_spec(w, h),
{
    if w <= 400 && h <= 400 {
        (w, h)
    } else if w > h {
        let th64: u64 = (h as u64) * 400 / (w as u64);
        proof {
            assert((h as int) * 400 / (w as int) < 400) by (nonlinear_arith)
                requires
                    1 <= w,
                    1 <= h,
                    h < w,
            ;
        }
        (400, th64 as u32)
    } else {
        let tw64: u64 = (w as u64) * 400 / (h as u64);
        proof {
            assert((w as int) * 400 / (h as int) <= 400) by (nonlinear_arith)
                requires
                    1 <= w,
                    1 <= h,
                    w <= h,
            ;
        }
        (tw64 as u32, 400)
    }
}

/// The thumbnail law. Small images keep their exact dimensions. A larger
/// image is scaled so its longer side is exactly 400, and the shorter side
/// preserves the aspect ratio up to rounding down: for a wide image,
/// `th * w <= h * 400 < (th + 1) * w`, and symmetrically for a tall one.
pub proof fn lemma_thumbnail_law(w: u32, h: u32)
    requires
        1 <= w,
        1 <= h,
    ensures
        w <= 400 && h <= 400 ==> thumb_dims_spec(w, h) == (w, h),
        (w > 400 || h > 400) ==> {
            let (tw, th) = thumb_dims_spec(w, h);
            (if tw >= th {
                tw
            } else {
                th
            }) == 400
        },
        (w > 400 || h > 400) && w > h ==> {
            let (tw, th) = thumb_dims_spec(w, h);
            (th as int) * w <= (h as int) * 400 < (th as int + 1) * w
        },
        (w > 400 || h > 400) && w <= h ==> {
            let (tw, th) = thumb_dims_spec(w, h);
            (tw as int) * h <= (w as int) * 400 < (tw as int + 1) * h
        },
{
    if w > 400 || h > 400 {
        if w > h {
            let x = (h as int) * 400;
            let d = w as int;
            let q = x / d;
            vstd::arithmetic::div_mod::lemma_fundamental_div_mod(x, d);
            vstd::arithmetic::div_mod::lemma_mod_pos_bound(x, d);
            assert(x == d * q + (x % d));
            assert(q * d <= x < (q + 1) * d) by (nonlinear_arith)
                requires
                    x == d * q + (x % d),
                    0 <= (x % d) < d,
            ;
            assert(0 <= q < 400) by (nonlinear_arith)
                requires
                    q * d <= x < (q + 1) * d,
                    x == (h as int) * 400,
                    1 <= h,
                    (h as int) < d,
            ;
        } else {
            let x = (w as int) * 400;
            let d = h as int;
            let q = x / d;
            vstd::arithmetic::div_mod::lemma_fundamental_div_mod(x, d);
            vstd::arithmetic::div_mod::lemma_mod_pos_bound(x, d);
            assert(x == d * q + (x % d));
            assert(q * d <= x < (q + 1) * d) by (nonlinear_arith)
                requires
                    x == d * q + (x % d),
                    0 <= (x % d) < d,
            ;
            assert(0 <= q <= 400) by (nonlinear_arith)
                requires
                    q * d <= x < (q + 1) * d,
                    x == (w as int) * 400,
                    1 <= w,
                    (w as int) <= d,
                    1 <= d,
            ;
        }
    }
}

// ---------------------------------------------------------------------------
// Dominant color: a grid average over every 10th pixel in both directions
// ---------------------------------------------------------------------------

/// A channel value of the RGBA pixel at `(x, y)`.
pub open spec fn px(p: Seq<u8>, w: u32, x: int, y: int, c: int) -> int {
    p[(y * w + x) * 4 + c] as int
}

/// How many samples the grid takes along an axis of length `n`: one for each
/// multiple of 10 below `n`.
pub open spec fn axis_samples(n: u32) -> int {
    if n == 0 {
        0
    } else {
        (n - 1) as int / 10 + 1
    }
}

/// Sum of channel `c` over the first `cnt` grid columns of row `y`.
pub open spec fn row_sum(p: Seq<u8>, w: u32, y: int, cnt: int, c: int) -> int
    decreases cnt,
{
    if cnt <= 0 {
        0
    } else {
        row_sum(p, w, y, cnt - 1, c) + px(p, w, (cnt - 1) * 10, y, c)
    }
}

/// Sum of channel `c` over the first `rows` grid rows.
pub open spec fn grid_sum(p: Seq<u8>, w: u32, rows: int, cols: int, c: int) -> int
    decreases rows,
{
    if rows <= 0 {
        0
    } else {
        grid_sum(p, w, rows - 1, cols, c) + row_sum(p, w, (rows - 1) * 10, cols, c)
    }
}

/// The number of sampled pixels.
pub open spec fn sample_count(w: u32, h: u32) -> int {
    axis_samples(h) * axis_samples(w)
}

/// The dominant color string: `#` followed by the channel averages in
/// uppercase hexadecimal.
pub open spec fn dominant_color_spec(p: Seq<u8>, w: u32, h: u32) -> Seq<char> {
    let cnt = sample_count(w, h);
    let cols = axis_samples(w);
    let rows = axis_samples(h);
    let r = grid_sum(p, w, rows, cols, 0) / cnt;
    let g = grid_sum(p, w, rows, cols, 1) / cnt;
    let b = grid_sum(p, w, rows, cols, 2) / cnt;
    seq!['#'] + hex_byte_upper(r as u8) + hex_byte_upper(g as u8) + hex_byte_upper(b as u8)
}

/// Extracts the dominant color of an RGBA pixel buffer by averaging a
/// regular sample grid. Returns `None` exactly for a degenerate empty image.
pub fn extract_dominant_color(pixels: &Vec<u8>, w: u32, h: u32) -> (r: Option<String>)
    requires
        pixels@.len() == (w as int) * (h as int) * 4,
    ensures
        (w == 0 || h == 0) <==> r is None,
        r matches Some(s) ==> s@ == dominant_color_spec(pixels@, w, h),
{
    if w == 0 || h == 0 {
        return None;
    }
    let plen: usize = pixels.len();
    let cols32: u32 = (w - 1) / 10 + 1;
    let rows32: u32 = (h - 1) / 10 + 1;
    let cols64: u64 = cols32 as u64;
    let rows64: u64 = rows32 as u64;
    let cols = cols64 as usize;
    let rows = rows64 as usize;
    proof {
        assert(cols == axis_samples(w));
        assert(rows == axis_samples(h));
        assert((cols - 1) * 10 < w) by (nonlinear_arith)
            requires
                w >= 1,
                cols == (w - 1) as int / 10 + 1,
        ;
        assert((rows - 1) * 10 < h) by (nonlinear_arith)
            requires
                h >= 1,
                rows == (h - 1) as int / 10 + 1,
        ;
    }
    let mut rs: u128 = 0;
    let mut gs: u128 = 0;
    let mut bs: u128 = 0;
    let mut yi: usize = 0;
    while yi < rows
        invariant
            w >= 1,
            h >= 1,
            pixels@.len() == (w as int) * (h as int) * 4,
            cols == axis_samples(w),
            rows == axis_samples(h),
            (cols - 1) * 10 < w,
            (rows - 1) * 10 < h,
            yi <= rows,
            cols < 0x100000000,
            rows < 0x100000000,
            plen == pixels@.len(),
            rs == grid_sum(pixels@, w, yi as int, cols as int, 0),
            gs == grid_sum(pixels@, w, yi as int, cols as int, 1),
            bs == grid_sum(pixels@, w, yi as int, cols as int, 2),
            rs <= 255 * (yi as int) * (cols as int),
            gs <= 255 * (yi as int) * (cols as int),
            bs <= 255 * (yi as int) * (cols as int),
        decreases rows - yi,
    {
        let y: usize = yi * 10;
        proof {
            assert(yi * 10 < h) by (nonlinear_arith)
                requires
                    yi < rows,
                    (rows - 1) * 10 < h,
                    rows >= 1,
            ;
        }
        let mut rrow: u128 = 0;
        let mut grow: u128 = 0;
        let mut brow: u128 = 0;
        let mut xi: usize = 0;
        while xi < cols
            invariant
                w >= 1,
                h >= 1,
                pixels@.len() == (w as int) * (h as int) * 4,
                cols == axis_samples(w),
                (cols - 1) * 10 < w,
                y == yi * 10,
                y < h,
                xi <= cols,
                cols < 0x100000000,
                plen == pixels@.len(),
                rrow == row_sum(pixels@, w, y as int, xi as int, 0),
                grow == row_sum(pixels@, w, y as int, xi as int, 1),
                brow == row_sum(pixels@, w, y as int, xi as int, 2),
                rrow <= 255 * (xi as int),
                grow <= 255 * (xi as int),
                brow <= 255 * (xi as int),
            decreases cols - xi,
        {
            let x: usize = xi * 10;
            proof {
                assert(xi * 10 < w) by (nonlinear_arith)
                    requires
                        xi < cols,
                        (cols - 1) * 10 < w,
                        cols >= 1,
                ;
                assert(((y as int) * w + x) * 4 + 3 < pixels@.len()) by (nonlinear_arith)
                    requires
                        0 <= x < w,
                        0 <= y < h,
                        pixels@.len() == (w as int) * (h as int) * 4,
                ;
                assert((y as int) * w + x >= 0) by (nonlinear_arith)
                    requires
                        0 <= x,
                        0 <= y,
                        w >= 1,
                ;
            }
            proof {
                assert(255 * (xi as int) + 255 == 255 * (xi as int + 1)) by (nonlinear_arith);
            }
            let base: usize = (y * (w as usize) + x) * 4;
            rrow = rrow + (pixels[base] as u128);
            grow = grow + (pixels[base + 1] as u128);
            brow = brow + (pixels[base + 2] as u128);
            xi = xi + 1;
        }
        proof {
            assert(255 * (yi as int) * (cols as int) + 255 * (cols as int) == 255 * (yi as int + 1)
                * (cols as int)) by (nonlinear_arith);
            assert(255 * (yi as int + 1) * (cols as int) < 0x10000000000000000000000)
                by (nonlinear_arith)
                requires
                    0 <= yi as int + 1 <= rows as int,
                    0 <= cols,
                    cols < 0x100000000,
                    rows < 0x100000000,
            ;
        }
        rs = rs + rrow;
        gs = gs + grow;
        bs = bs + brow;
        yi = yi + 1;
    }
    proof {
        assert((rows64 as int) * (cols64 as int) < 0x10000000000000000) by (nonlinear_arith)
            requires
                0 <= rows64 < 0x100000000,
                0 <= cols64 < 0x100000000,
        ;
    }
    let count: u128 = (rows64 as u128) * (cols64 as u128);
    proof {
        assert(count == sample_count(w, h));
        assert(count >= 1) by (nonlinear_arith)
            requires
                rows64 >= 1,
                cols64 >= 1,
                count == (rows64 as int) * (cols64 as int),
        ;
        assert(rs <= 255 * count && gs <= 255 * count && bs <= 255 * count) by (nonlinear_arith)
            requires
                rs <= 255 * (rows as int) * (cols as int),
                gs <= 255 * (rows as int) * (cols as int),
                bs <= 255 * (rows as int) * (cols as int),
                count == (rows as int) * (cols as int),
        ;
    }
    let ra: u128 = rs / count;
    let ga: u128 = gs / count;
    let ba: u128 = bs / count;
    proof {
        assert(ra <= 255 && ga <= 255 && ba <= 255) by (nonlinear_arith)
            requires
                count >= 1,
                rs <= 255 * count,
                gs <= 255 * count,
                bs <= 255 * count,
                ra == rs as int / count as int,
                ga == gs as int / count as int,
                ba == bs as int / count as int,
        ;
    }
    let mut out: Vec<char> = Vec::new();
    out.push('#');
    push_hex_byte_upper(&mut out, ra as u8);
    push_hex_byte_upper(&mut out, ga as u8);
    push_hex_byte_upper(&mut out, ba as u8);
    proof {
        assert(out@ =~= dominant_color_spec(pixels@, w, h));
    }
    Some(chars_to_string(&out))
}

/// A uniformly colored image averages to exactly its own color: every
/// sampled pixel contributes the same channel value, so the grid average is
/// that value.
pub proof fn lemma_uniform_color_average(p: Seq<u8>, w: u32, h: u32, rgb: (u8, u8, u8))
    requires
        w >= 1,
        h >= 1,
        p.len() == (w as int) * (h as int) * 4,
        forall|i: int| 0 <= i < p.len() && i % 4 == 0 ==> p[i] == rgb.0,
        forall|i: int| 0 <= i < p.len() && i % 4 == 1 ==> p[i] == rgb.1,
        forall|i: int| 0 <= i < p.len() && i % 4 == 2 ==> p[i] == rgb.2,
    ensures
        dominant_color_spec(p, w, h) == seq!['#'] + hex_byte_upper(rgb.0) + hex_byte_upper(rgb.1)
            + hex_byte_upper(rgb.2),
{
    let cols = axis_samples(w);
    let rows = axis_samples(h);
    assert((cols - 1) * 10 < w) by (nonlinear_arith)
        requires
            w >= 1,
            cols == (w - 1) as int / 10 + 1,
    ;
    assert((rows - 1) * 10 < h) by (nonlinear_arith)
        requires
            h >= 1,
            rows == (h - 1) as int / 10 + 1,
    ;
    lemma_uniform_grid_sum(p, w, h, rows, cols, 0, rgb.0);
    lemma_uniform_grid_sum(p, w, h, rows, cols, 1, rgb.1);
    lemma_uniform_grid_sum(p, w, h, rows, cols, 2, rgb.2);
    let cnt = sample_count(w, h);
    assert(cnt == rows * cols);
    assert(cnt >= 1) by (nonlinear_arith)
        requires
            rows >= 1,
            cols >= 1,
            cnt == rows * cols,
    ;
    assert((rgb.0 as int) * rows * cols == (rgb.0 as int) * cnt && (rgb.1 as int) * rows * cols
        == (rgb.1 as int) * cnt && (rgb.2 as int) * rows * cols == (rgb.2 as int) * cnt)
        by (nonlinear_arith)
        requires
            cnt == rows * cols,
    ;
    assert(grid_sum(p, w, rows, cols, 0) == (rgb.0 as int) * cnt);
    assert(((rgb.0 as int) * cnt) / cnt == rgb.0 as int) by (nonlinear_arith)
        requires
            cnt >= 1,
    ;
    assert(((rgb.1 as int) * cnt) / cnt == rgb.1 as int) by (nonlinear_arith)
        requires
            cnt >= 1,
    ;
    assert(((rgb.2 as int) * cnt) / cnt == rgb.2 as int) by (nonlinear_arith)
        requires
            cnt >= 1,
    ;
}

/// In a uniform image every sampled row sums to `v * cnt`.
proof fn lemma_uniform_row_sum(p: Seq<u8>, w: u32, h: u32, y: int, cnt: int, c: int, v: u8)
    requires
        w >= 1,
        h >= 1,
        p.len() == (w as int) * (h as int) * 4,
        0 <= c < 4,
        forall|i: int| 0 <= i < p.len() && i % 4 == c ==> p[i] == v,
        0 <= y < h,
        cnt >= 0,
        (cnt - 1) * 10 < w || cnt == 0,
    ensures
        row_sum(p, w, y, cnt, c) == (v as int) * cnt,
    decreases cnt,
{
    if cnt <= 0 {
    } else {
        assert((cnt - 2) * 10 < w || cnt - 1 == 0) by (nonlinear_arith)
            requires
                (cnt - 1) * 10 < w,
                cnt >= 1,
        ;
        lemma_uniform_row_sum(p, w, h, y, cnt - 1, c, v);
        let x = (cnt - 1) * 10;
        assert(0 <= x < w) by (nonlinear_arith)
            requires
                (cnt - 1) * 10 < w,
                cnt >= 1,
                x == (cnt - 1) * 10,
        ;
        let idx = (y * w + x) * 4 + c;
        assert(0 <= idx < p.len() && idx % 4 == c) by (nonlinear_arith)
            requires
                0 <= x < w,
                0 <= y < h,
                0 <= c < 4,
                p.len() == (w as int) * (h as int) * 4,
                idx == (y * w + x) * 4 + c,
        ;
        assert(p[idx] == v);
        assert((v as int) * (cnt - 1) + v == (v as int) * cnt) by (nonlinear_arith);
    }
}

/// In a uniform image the grid sum is `v * rows * cols`.
proof fn lemma_uniform_grid_sum(p: Seq<u8>, w: u32, h: u32, rows: int, cols: int, c: int, v: u8)
    requires
        w >= 1,
        h >= 1,
        p.len() == (w as int) * (h as int) * 4,
        0 <= c < 4,
        forall|i: int| 0 <= i < p.len() && i % 4 == c ==> p[i] == v,
        rows >= 0,
        cols >= 0,
        (cols - 1) * 10 < w || cols == 0,
        (rows - 1) * 10 < h || rows == 0,
    ensures
        grid_sum(p, w, rows, cols, c) == (v as int) * rows * cols,
    decreases rows,
{
    if rows <= 0 {
        assert((v as int) * 0 * cols == 0) by (nonlinear_arith);
    } else {
        assert((rows - 2) * 10 < h || rows - 1 == 0) by (nonlinear_arith)
            requires
                (rows - 1) * 10 < h,
                rows >= 1,
        ;
        lemma_uniform_grid_sum(p, w, h, rows - 1, cols, c, v);
        let y = (rows - 1) * 10;
        assert(0 <= y < h) by (nonlinear_arith)
            requires
                (rows - 1) * 10 < h,
                rows >= 1,
                y == (rows - 1) * 10,
        ;
        lemma_uniform_row_sum(p, w, h, y, cols, c, v);
        assert((v as int) * (rows - 1) * cols + (v as int) * cols == (v as int) * rows * cols)
            by (nonlinear_arith);
    }
}

// ---------------------------------------------------------------------------
// Artifact names
// ---------------------------------------------------------------------------

/// `{timestamp}_{suffix}.png`
pub open spec fn image_filename_spec(ts: u64, suffix: u32) -> Seq<char> {
    dec_str(ts as nat) + "_"@ + dec_str(suffix as nat) + ".png"@
}

/// `{timestamp}_{suffix}_thumb.png`
pub open spec fn thumb_filename_spec(ts: u64, suffix: u32) -> Seq<char> {
    dec_str(ts as nat) + "_"@ + dec_str(suffix as nat) + "_thumb.png"@
}

/// The name under which a full-size image is saved.
pub fn image_filename(ts: u64, suffix: u32) -> (r: String)
    ensures
        r@ == image_filename_spec(ts, suffix),
{
    let mut out: Vec<char> = Vec::new();
    push_dec_u64(&mut out, ts);
    push_str_chars(&mut out, "_");
    push_dec_u64(&mut out, suffix as u64);
    push_str_chars(&mut out, ".png");
    chars_to_string(&out)
}

/// The name under which a thumbnail is saved.
pub fn thumb_filename(ts: u64, suffix: u32) -> (r: String)
    ensures
        r@ == thumb_filename_spec(ts, suffix),
{
    let mut out: Vec<char> = Vec::new();
    push_dec_u64(&mut out, ts);
    push_str_chars(&mut out, "_");
    push_dec_u64(&mut out, suffix as u64);
    push_str_chars(&mut out, "_thumb.png");
    chars_to_string(&out)
}

/// `dir/name`, with a forward slash.
pub fn join_path(dir: &str, name: &str) -> (r: String)
    ensures
        r@ == dir@ + "/"@ + name@,
{
    let mut out: Vec<char> = Vec::new();
    push_str_chars(&mut out, dir);
    push_str_chars(&mut out, "/");
    push_str_chars(&mut out, name);
    chars_to_string(&out)
}

// ---------------------------------------------------------------------------
// Trusted wrappers around the image codec
// ---------------------------------------------------------------------------

/// What decoding a byte buffer yields: dimensions and the raw RGBA pixels,
/// or nothing if the bytes are not a decodable image. Decoding depends on
/// the bytes alone.
pub uninterp spec fn decoded_rgba(data: Seq<u8>) -> Option<(u32, u32, Seq<u8>)>;

/// Relies on `image::load_from_memory` and `DynamicImage::to_rgba8`: the
/// decode is a function of the bytes alone, and the raw buffer of a
/// `width` by `height` RGBA image holds exactly `width * height * 4` samples.
#[verifier::external_body]
fn decode_rgba(data: &Vec<u8>) -> (r: Option<(u32, u32, Vec<u8>)>)
    ensures
        r is Some <==> decoded_rgba(data@) is Some,
        r matches Some(t) ==> decoded_rgba(data@) matches Some(d) && t.0 == d.0 && t.1 == d.1
            && t.2@ == d.2 && t.2@.len() == (t.0 as int) * (t.1 as int) * 4,
{
    match image::load_from_memory(data) {
        Ok(img) => {
            let rgba = img.to_rgba8();
            let (w, h) = rgba.dimensions();
            Some((w, h, rgba.into_raw()))
        },
        Err(_) => None,
    }
}

/// What Lanczos3 resampling yields for the given source pixels and target
/// dimensions.
pub uninterp spec fn resized_rgba(p: Seq<u8>, w: u32, h: u32, tw: u32, th: u32) -> Seq<u8>;

/// Relies on `DynamicImage::resize_exact` with the Lanczos3 filter: the
/// result has exactly the requested dimensions and depends only on the
/// source pixels and the dimensions.
#[verifier::external_body]
fn resize_rgba(p: &Vec<u8>, w: u32, h: u32, tw: u32, th: u32) -> (r: Vec<u8>)
    requires
        p@.len() == (w as int) * (h as int) * 4,
        1 <= w,
        1 <= h,
        1 <= tw,
        1 <= th,
    ensures
        r@ == resized_rgba(p@, w, h, tw, th),
        r@.len() == (tw as int) * (th as int) * 4,
{
    let img = image::RgbaImage::from_raw(w, h, p.clone()).unwrap();
    let out = image::DynamicImage::ImageRgba8(img).resize_exact(
        tw,
        th,
        image::imageops::FilterType::Lanczos3,
    );
    out.to_rgba8().into_raw()
}

/// What PNG encoding yields for the given pixels and dimensions.
pub uninterp spec fn png_encoding(p: Seq<u8>, w: u32, h: u32) -> Seq<u8>;

/// Relies on `DynamicImage::write_to` with the PNG format: the encoding is
/// a function of the pixels and dimensions alone, and writing an RGBA8
/// buffer of exactly `w * h * 4` bytes with nonzero dimensions into a
/// memory buffer cannot fail (the png writer rejects only zero dimensions
/// and invalid color combinations, and a `Vec` write never errors).
#[verifier::external_body]
fn encode_png(p: &Vec<u8>, w: u32, h: u32) -> (r: Vec<u8>)
    requires
        p@.len() == (w as int) * (h as int) * 4,
        1 <= w,
        1 <= h,
    ensures
        r@ == png_encoding(p@, w, h),
{
    let img = image::RgbaImage::from_raw(w, h, p.clone()).unwrap();
    let mut out: Vec<u8> = Vec::new();
    image::DynamicImage::ImageRgba8(img).write_to(
        &mut std::io::Cursor::new(&mut out),
        image::ImageFormat::Png,
    ).unwrap();
    out
}

/// Relies on `std::time::SystemTime::now`: the wall clock in milliseconds
/// since the Unix epoch; nothing is promised of the value.
#[verifier::external_body]
fn now_millis() -> (r: u64) {
    match std::time::SystemTime::now().duration_since(std::time::UNIX_EPOCH) {
        Ok(d) => d.as_millis() as u64,
        Err(_) => 0,
    }
}

/// Relies on `fastrand::u32` over a half-open range: the result lies in
/// `[1000, 9999)`.
#[verifier::external_body]
fn random_suffix() -> (r: u32)
    ensures
        1000 <= r < 9999,
{
    fastrand::u32(1000..9999)
}

// ---------------------------------------------------------------------------
// The capture pipeline
// ---------------------------------------------------------------------------

/// Everything computed from one accepted clipboard image, ready to be
/// written to disk.
#[derive(Debug, Clone)]
pub struct PreparedImage {
    pub filename: String,
    pub thumb_filename: String,
    pub width: u32,
    pub height: u32,
    pub thumb_width: u32,
    pub thumb_height: u32,
    pub png_bytes: Vec<u8>,
    pub thumb_png: Vec<u8>,
    pub dominant_color: Option<String>,
}

/// The prepared image is fully determined by the raw bytes and the chosen
/// artifact name parts.
pub open spec fn prepared_ok(p: PreparedImage, data: Seq<u8>, ts: u64, suffix: u32) -> bool {
    decoded_rgba(data) matches Some(t) && {
        let (tw0, th0) = thumb_dims_spec(t.0, t.1);
        let tw = if tw0 == 0 {
            1u32
        } else {
            tw0
        };
        let th = if th0 == 0 {
            1u32
        } else {
            th0
        };
        &&& p.width == t.0 && p.height == t.1 && 1 <= t.0 && 1 <= t.1
        &&& p.filename@ == image_filename_spec(ts, suffix)
        &&& p.thumb_filename@ == thumb_filename_spec(ts, suffix)
        &&& p.thumb_width == tw && p.thumb_height == th
        &&& p.png_bytes@ == png_encoding(t.2, t.0, t.1)
        &&& (if t.0 <= 400 && t.1 <= 400 {
            p.thumb_png@ == png_encoding(t.2, t.0, t.1)
        } else {
            p.thumb_png@ == png_encoding(resized_rgba(t.2, t.0, t.1, tw, th), tw, th)
        })
        &&& p.dominant_color matches Some(c) && c@ == dominant_color_spec(t.2, t.0, t.1)
    }
}

/// Decodes an image, computes its thumbnail and dominant color, and encodes
/// both artifacts as PNG, under the given artifact names. Succeeds exactly
/// when the bytes decode to an image with nonzero dimensions.
pub fn prepare_clipboard_image(data: &Vec<u8>, ts: u64, suffix: u32) -> (r: Option<PreparedImage>)
    ensures
        r is Some <==> (decoded_rgba(data@) matches Some(t) && 1 <= t.0 && 1 <= t.1),
        r matches Some(p) ==> prepared_ok(p, data@, ts, suffix),
{
    let decoded = decode_rgba(data);
    match decoded {
        None => None,
        Some((w, h, pixels)) => {
            if w == 0 || h == 0 {
                return None;
            }
            let dominant = extract_dominant_color(&pixels, w, h);
            let (tw0, th0) = thumbnail_dims(w, h);
            let tw = if tw0 == 0 {
                1
            } else {
                tw0
            };
            let th = if th0 == 0 {
                1
            } else {
                th0
            };
            let png_bytes = encode_png(&pixels, w, h);
            let thumb_png = if w <= 400 && h <= 400 {
                encode_png(&pixels, w, h)
            } else {
                let small = resize_rgba(&pixels, w, h, tw, th);
                encode_png(&small, tw, th)
            };
            Some(
                PreparedImage {
                    filename: image_filename(ts, suffix),
                    thumb_filename: thumb_filename(ts, suffix),
                    width: w,
                    height: h,
                    thumb_width: tw,
                    thumb_height: th,
                    png_bytes,
                    thumb_png,
                    dominant_color: dominant,
                },
            )
        },
    }
}

/// Captures one clipboard image: stamps it with the current time and a
/// random four-digit suffix, then prepares the artifacts. The time and the
/// suffix are drawn here, so only their ranges are known.
pub fn capture_image(data: &Vec<u8>) -> (r: Option<PreparedImage>)
    ensures
        r is Some <==> (decoded_rgba(data@) matches Some(t) && 1 <= t.0 && 1 <= t.1),
        r matches Some(p) ==> exists|ts: u64, suffix: u32|
            1000 <= suffix < 9999 && prepared_ok(p, data@, ts, suffix),
{
    let ts = now_millis();
    let suffix = random_suffix();
    let r = prepare_clipboard_image(data, ts, suffix);
    proof {
        if r is Some {
            assert(1000 <= suffix < 9999 && prepared_ok(r->0, data@, ts, suffix));
        }
    }
    r
}

// ---------------------------------------------------------------------------
// Base64 data URLs for serving image files to the UI
// ---------------------------------------------------------------------------

/// What the standard padded base64 alphabet encodes the bytes to.
pub uninterp spec fn base64_standard(data: Seq<u8>) -> Seq<char>;

/// Relies on base64's `STANDARD` engine: the padded encoding is a function
/// of the bytes alone, four output characters for every three input bytes.
#[verifier::external_body]
fn base64_encode(data: &Vec<u8>) -> (r: String)
    ensures
        r@ == base64_standard(data@),
        r@.len() == 4 * ((data@.len() + 2) / 3),
{
    base64::Engine::encode(&base64::engine::general_purpose::STANDARD, data)
}

/// `s` ends with `suffix`.
pub open spec fn ends_with(s: Seq<char>, suffix: Seq<char>) -> bool {
    match_at(s, suffix, s.len() - suffix.len())
}

fn ends_with_exec(v: &Vec<char>, suffix: &Vec<char>) -> (r: bool)
    ensures
        r == ends_with(v@, suffix@),
{
    if suffix.len() > v.len() {
        return false;
    }
    match_at_exec(v, suffix, v.len() - suffix.len())
}

/// The MIME type used for a stored image artifact, judged by the path's
/// extension; PNG is the default.
pub open spec fn mime_for_path(path: Seq<char>) -> Seq<char> {
    if ends_with(path, ".png"@) {
        "image/png"@
    } else if ends_with(path, ".jpg"@) || ends_with(path, ".jpeg"@) {
        "image/jpeg"@
    } else if ends_with(path, ".gif"@) {
        "image/gif"@
    } else if ends_with(path, ".webp"@) {
        "image/webp"@
    } else {
        "image/png"@
    }
}

/// Builds the `data:` URL that serves a stored image to the UI.
pub fn make_data_url(path: &str, data: &Vec<u8>) -> (r: String)
    ensures
        r@ == "data:"@ + mime_for_path(path@) + ";base64,"@ + base64_standard(data@),
{
    let pv = chars_of(path);
    let mut out: Vec<char> = Vec::new();
    push_str_chars(&mut out, "data:");
    if ends_with_exec(&pv, &chars_of(".png")) {
        push_str_chars(&mut out, "image/png");
    } else if ends_with_exec(&pv, &chars_of(".jpg")) || ends_with_exec(&pv, &chars_of(".jpeg")) {
        push_str_chars(&mut out, "image/jpeg");
    } else if ends_with_exec(&pv, &chars_of(".gif")) {
        push_str_chars(&mut out, "image/gif");
    } else if ends_with_exec(&pv, &chars_of(".webp")) {
        push_str_chars(&mut out, "image/webp");
    } else {
        push_str_chars(&mut out, "image/png");
    }
    push_str_chars(&mut out, ";base64,");
    let prefix = chars_to_string(&out);
    let b64 = base64_encode(data);
    let r = prefix.concat(b64.as_str());
    proof {
        assert(r@ =~= "data:"@ + mime_for_path(path@) + ";base64,"@ + base64_standard(data@));
    }
    r
}

} // verus!
