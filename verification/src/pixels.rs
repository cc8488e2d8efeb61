//! Icon images for a bitmap-drawing backend: decoded from PNG, scaled to the
//! icon size, and laid out as premultiplied BGRA rows, bottom row first.

use crate::icons::ICON_COUNT;
use vstd::prelude::*;

verus! {

/// The largest icon edge, in pixels, whose `size * size * 4` bytes count
/// fits in an `i32`.
pub const MAX_ICON_SIZE: i32 = 23170;

/// A scaled icon: `width` by `height` pixels, 4 bytes each (blue, green,
/// red, alpha, colour premultiplied by alpha), rows from the bottom up.
pub struct DecodedIcon {
    pub width: i32,
    pub height: i32,
    pub pixels: Vec<u8>,
    /// The PNG data that the icon was decoded from; empty for an icon laid
    /// out from RGBA bytes directly.
    pub decoded_from: Ghost<Seq<u8>>,
}

/// Whether `png` decodes as a PNG image.
pub uninterp spec fn png_decodes(png: Seq<u8>) -> bool;

/// Calls `image::load_from_memory_with_format(png, ImageFormat::Png)`, then
/// `DynamicImage::resize_exact(size, size, FilterType::Lanczos3)`, then
/// `to_rgba8().into_raw()`: the RGBA bytes of the scaled image, rows from
/// the top. Claimed: `None` exactly when decoding fails, as
/// [`png_decodes`] says, and otherwise `size * size * 4` bytes, since
/// `resize_exact` makes an image of exactly the given dimensions and RGBA
/// has 4 bytes a pixel. The bytes themselves are not claimed: the Lanczos3
/// filter computes with `f32::sin`, whose precision is not fixed across
/// platforms, so the scaled bytes need not be the same on every machine.
#[verifier::external_body]
fn decode_png_rgba(png: &[u8], size: u32) -> (r: Option<Vec<u8>>)
    requires
        size <= MAX_ICON_SIZE,
    ensures
        r is Some <==> png_decodes(png@),
        r matches Some(v) ==> v@.len() == size * size * 4,
{
    match image::load_from_memory_with_format(png, image::ImageFormat::Png) {
        Ok(img) => Some(
            img.resize_exact(size, size, image::imageops::FilterType::Lanczos3).to_rgba8().into_raw(),
        ),
        Err(_) => None,
    }
}

/// One RGBA pixel as premultiplied BGRA: each colour times alpha / 255.
pub open spec fn premultiplied_pixel(r: u8, g: u8, b: u8, a: u8) -> Seq<u8> {
    seq![(b * a / 255) as u8, (g * a / 255) as u8, (r * a / 255) as u8, a]
}

/// A row of RGBA pixels converted pixel by pixel.
pub open spec fn convert_row(row: Seq<u8>) -> Seq<u8>
    decreases row.len(),
{
    if row.len() < 4 {
        Seq::<u8>::empty()
    } else {
        premultiplied_pixel(row[0], row[1], row[2], row[3]) + convert_row(row.skip(4))
    }
}

/// The last `k` of the `height` rows of `src` (each `stride` bytes),
/// converted, the last row first.
pub open spec fn flipped_rows(src: Seq<u8>, stride: int, height: int, k: nat) -> Seq<u8>
    decreases k,
{
    if k == 0 {
        Seq::<u8>::empty()
    } else {
        flipped_rows(src, stride, height, (k - 1) as nat) + convert_row(
            src.subrange((height - k) * stride, (height - k + 1) * stride),
        )
    }
}

/// Top-down RGBA rows of a `width` by `height` image as bottom-up
/// premultiplied BGRA rows.
pub open spec fn bottom_up_bgra(rgba: Seq<u8>, width: int, height: int) -> Seq<u8> {
    flipped_rows(rgba, width * 4, height, height as nat)
}

/// An icon `size` pixels square, laid out as [`icon_from_rgba`] lays out
/// some RGBA image of that size.
pub open spec fn scaled_icon(d: DecodedIcon, size: int) -> bool {
    &&& d.width == size
    &&& d.height == size
    &&& exists|rgba: Seq<u8>|
        rgba.len() == size * size * 4 && d.pixels@ == #[trigger] bottom_up_bgra(rgba, size, size)
}

proof fn lemma_mul_byte(x: u8, a: u8)
    ensures
        x * a <= 255 * 255,
        x * a / 255 <= 255,
{
    assert(x * a <= 255 * 255) by (nonlinear_arith)
        requires
            x <= 255,
            a <= 255,
    ;
}

fn push_converted_row(src: &[u8], start: usize, width: usize, out: &mut Vec<u8>)
    requires
        start + width * 4 <= src@.len(),
    ensures
        final(out)@ == old(out)@ + convert_row(src@.subrange(start as int, start + width * 4)),
{
    let ghost row = src@.subrange(start as int, start + width * 4);
    let ghost base = old(out)@;
    let n = src.len();
    let mut x: usize = 0;
    assert(row.skip(0) == row);
    assert(base + Seq::<u8>::empty() == base);
    while x < width
        invariant
            x <= width,
            start + width * 4 <= src@.len(),
            n == src@.len(),
            row == src@.subrange(start as int, start + width * 4),
            base + convert_row(row) == out@ + convert_row(row.skip(4 * x)),
        decreases width - x,
    {
        let p = start + 4 * x;
        let r = src[p];
        let g = src[p + 1];
        let b = src[p + 2];
        let a = src[p + 3];
        let ghost rest = row.skip(4 * x);
        proof {
            lemma_mul_byte(r, a);
            lemma_mul_byte(g, a);
            lemma_mul_byte(b, a);
            assert(rest[0] == r && rest[1] == g && rest[2] == b && rest[3] == a);
            assert(rest.skip(4) == row.skip(4 * (x + 1)));
        }
        let ghost before = out@;
        out.push(((b as u32 * a as u32) / 255) as u8);
        out.push(((g as u32 * a as u32) / 255) as u8);
        out.push(((r as u32 * a as u32) / 255) as u8);
        out.push(a);
        assert(out@ == before + premultiplied_pixel(r, g, b, a));
        x = x + 1;
    }
    assert(row.skip(4 * width as int).len() == 0);
    assert(out@ + Seq::<u8>::empty() == out@);
}

/// Lays out top-down RGBA bytes of a `size` by `size` image as an icon:
/// rows from the bottom up, each pixel premultiplied BGRA.
pub fn icon_from_rgba(rgba: &[u8], size: i32) -> (d: DecodedIcon)
    requires
        0 <= size <= MAX_ICON_SIZE,
        rgba@.len() == size * size * 4,
    ensures
        d.width == size,
        d.height == size,
        d.pixels@ == bottom_up_bgra(rgba@, size as int, size as int),
        d.decoded_from@ == Seq::<u8>::empty(),
{
    let w = size as usize;
    let n = rgba.len();
    if w == 0 {
        let pixels: Vec<u8> = Vec::new();
        return DecodedIcon { width: size, height: size, pixels, decoded_from: Ghost(Seq::empty()) };
    }
    proof {
        assert(w * w * 4 >= w * 4) by (nonlinear_arith)
            requires
                w >= 1,
        ;
    }
    let stride = w * 4;
    let mut pixels: Vec<u8> = Vec::new();
    let mut dy: usize = 0;
    while dy < w
        invariant
            dy <= w,
            w == size,
            stride == w * 4,
            rgba@.len() == w * w * 4,
            n == rgba@.len(),
            pixels@ == flipped_rows(rgba@, stride as int, w as int, dy as nat),
        decreases w - dy,
    {
        let sy = w - 1 - dy;
        proof {
            assert((sy + 1) * stride <= w * stride) by (nonlinear_arith)
                requires
                    sy + 1 <= w,
                    stride >= 0,
            ;
            assert((sy + 1) * stride == sy * stride + stride) by (nonlinear_arith);
            assert(w * stride == w * w * 4) by (nonlinear_arith)
                requires
                    stride == w * 4,
            ;
        }
        let start = sy * stride;
        push_converted_row(rgba, start, w, &mut pixels);
        proof {
            assert(w - (dy + 1) == sy);
            assert(start + stride == (sy + 1) * stride);
        }
        dy = dy + 1;
    }
    DecodedIcon { width: size, height: size, pixels, decoded_from: Ghost(Seq::empty()) }
}

/// Decodes the PNG icon `png` scaled to `target_size` pixels square; `None`
/// when it does not decode. The scaled pixels come from the outside decoder
/// and are laid out by [`icon_from_rgba`].
pub fn decode_icon(png: &[u8], target_size: i32) -> (r: Option<DecodedIcon>)
    requires
        0 <= target_size <= MAX_ICON_SIZE,
    ensures
        r is Some <==> png_decodes(png@),
        r matches Some(d) ==> scaled_icon(d, target_size as int) && d.decoded_from@ == png@,
{
    match decode_png_rgba(png, target_size as u32) {
        Some(rgba) => {
            let mut d = icon_from_rgba(rgba.as_slice(), target_size);
            assert(d.pixels@ == bottom_up_bgra(rgba@, target_size as int, target_size as int));
            d.decoded_from = Ghost(png@);
            Some(d)
        },
        None => None,
    }
}

/// Every icon decoded at `icon_size` pixels square, in icon order, from the
/// PNG data of each icon: entry `i` is decoded from `icons[i]`. `None` when
/// some icon does not decode.
pub fn build_icon_cache(icon_size: i32, icons: &[Vec<u8>]) -> (r: Option<Vec<DecodedIcon>>)
    requires
        0 <= icon_size <= MAX_ICON_SIZE,
        icons@.len() == ICON_COUNT,
    ensures
        r is None <==> exists|i: int| 0 <= i < ICON_COUNT && !png_decodes(#[trigger] icons@[i]@),
        r matches Some(cache) ==> cache@.len() == ICON_COUNT && forall|i: int|
            0 <= i < ICON_COUNT ==> scaled_icon(#[trigger] cache@[i], icon_size as int)
                && cache@[i].decoded_from@ == icons@[i]@,
{
    let mut cache: Vec<DecodedIcon> = Vec::new();
    let mut i: usize = 0;
    while i < ICON_COUNT
        invariant
            i <= ICON_COUNT,
            0 <= icon_size <= MAX_ICON_SIZE,
            icons@.len() == ICON_COUNT,
            forall|k: int| 0 <= k < i ==> png_decodes(#[trigger] icons@[k]@),
            cache@.len() == i,
            forall|k: int|
                0 <= k < i ==> scaled_icon(#[trigger] cache@[k], icon_size as int)
                    && cache@[k].decoded_from@ == icons@[k]@,
        decreases ICON_COUNT - i,
    {
        match decode_icon(icons[i].as_slice(), icon_size) {
            Some(icon) => cache.push(icon),
            None => return None,
        }
        i = i + 1;
    }
    Some(cache)
}

proof fn lemma_convert_row_len(row: Seq<u8>)
    requires
        row.len() % 4 == 0,
    ensures
        convert_row(row).len() == row.len(),
    decreases row.len(),
{
    if row.len() >= 4 {
        lemma_convert_row_len(row.skip(4));
    }
}

proof fn lemma_flipped_rows_len(src: Seq<u8>, stride: int, height: int, k: nat)
    requires
        stride >= 0,
        stride % 4 == 0,
        k <= height,
        src.len() == height * stride,
    ensures
        flipped_rows(src, stride, height, k).len() == k * stride,
    decreases k,
{
    if k > 0 {
        lemma_flipped_rows_len(src, stride, height, (k - 1) as nat);
        assert(0 <= (height - k) * stride) by (nonlinear_arith)
            requires
                height - k >= 0,
                stride >= 0,
        ;
        assert((height - k + 1) * stride <= height * stride) by (nonlinear_arith)
            requires
                height - k + 1 <= height,
                stride >= 0,
        ;
        assert((height - k + 1) * stride - (height - k) * stride == stride) by (nonlinear_arith);
        let km1: nat = (k - 1) as nat;
        assert(k * stride == km1 * stride + stride) by (nonlinear_arith)
            requires
                km1 == k - 1,
        ;
        let row = src.subrange((height - k) * stride, (height - k + 1) * stride);
        lemma_convert_row_len(row);
        assert(row.len() == stride);
        assert(flipped_rows(src, stride, height, k) == flipped_rows(
            src,
            stride,
            height,
            (k - 1) as nat,
        ) + convert_row(row));
    } else {
        assert(k * stride == 0) by (nonlinear_arith)
            requires
                k == 0,
        ;
    }
}

/// An icon laid out from a `size` by `size` RGBA image has exactly 4 bytes
/// for each of its pixels.
pub proof fn law_icon_bytes_per_pixel(rgba: Seq<u8>, size: int)
    requires
        size >= 0,
        rgba.len() == size * size * 4,
    ensures
        bottom_up_bgra(rgba, size, size).len() == size * size * 4,
{
    assert(size * size * 4 == size * (size * 4)) by (nonlinear_arith);
    lemma_flipped_rows_len(rgba, size * 4, size, size as nat);
}

/// Each pixel of a converted row is the premultiplied BGRA of the RGBA
/// pixel at the same place: bytes `4 * x` to `4 * x + 4` of the result come
/// from bytes `4 * x` to `4 * x + 4` of the row.
pub proof fn law_converted_pixels(row: Seq<u8>, x: int)
    requires
        row.len() % 4 == 0,
        0 <= x < row.len() / 4,
    ensures
        convert_row(row).len() == row.len(),
        convert_row(row).subrange(4 * x, 4 * x + 4) == premultiplied_pixel(
            row[4 * x],
            row[4 * x + 1],
            row[4 * x + 2],
            row[4 * x + 3],
        ),
    decreases row.len(),
{
    lemma_convert_row_len(row);
    let rest = row.skip(4);
    let first = premultiplied_pixel(row[0], row[1], row[2], row[3]);
    assert(convert_row(row) == first + convert_row(rest));
    if x == 0 {
        assert(convert_row(row).subrange(0, 4) =~= first);
    } else {
        law_converted_pixels(rest, x - 1);
        assert(rest[4 * (x - 1)] == row[4 * x]);
        assert(rest[4 * (x - 1) + 1] == row[4 * x + 1]);
        assert(rest[4 * (x - 1) + 2] == row[4 * x + 2]);
        assert(rest[4 * (x - 1) + 3] == row[4 * x + 3]);
        assert(convert_row(row).subrange(4 * x, 4 * x + 4) =~= convert_row(rest).subrange(
            4 * (x - 1),
            4 * (x - 1) + 4,
        ));
    }
}

proof fn lemma_flipped_row(src: Seq<u8>, stride: int, height: int, k: nat, y: int)
    requires
        stride >= 0,
        stride % 4 == 0,
        k <= height,
        src.len() == height * stride,
        0 <= y < k,
    ensures
        flipped_rows(src, stride, height, k).subrange(y * stride, (y + 1) * stride) == convert_row(
            src.subrange((height - 1 - y) * stride, (height - y) * stride),
        ),
    decreases k,
{
    let km1 = (k - 1) as nat;
    let prev = flipped_rows(src, stride, height, km1);
    let row = src.subrange((height - k) * stride, (height - k + 1) * stride);
    lemma_flipped_rows_len(src, stride, height, km1);
    assert(flipped_rows(src, stride, height, k) == prev + convert_row(row));
    assert(km1 * stride == k * stride - stride) by (nonlinear_arith)
        requires
            km1 == k - 1,
    ;
    assert(y * stride + stride == (y + 1) * stride) by (nonlinear_arith);
    if y < km1 {
        lemma_flipped_row(src, stride, height, km1, y);
        assert((y + 1) * stride <= km1 * stride) by (nonlinear_arith)
            requires
                y + 1 <= km1,
                stride >= 0,
        ;
        assert(0 <= y * stride) by (nonlinear_arith)
            requires
                y >= 0,
                stride >= 0,
        ;
        assert(flipped_rows(src, stride, height, k).subrange(y * stride, (y + 1) * stride)
            =~= prev.subrange(y * stride, (y + 1) * stride));
    } else {
        assert(y == km1);
        assert((height - k) * stride + stride == (height - k + 1) * stride) by (nonlinear_arith);
        assert(0 <= (height - k) * stride) by (nonlinear_arith)
            requires
                height - k >= 0,
                stride >= 0,
        ;
        assert((height - k + 1) * stride <= height * stride) by (nonlinear_arith)
            requires
                height - k + 1 <= height,
                stride >= 0,
        ;
        assert(row.len() == stride);
        assert(row.len() % 4 == 0);
        lemma_convert_row_len(row);
        assert(flipped_rows(src, stride, height, k).subrange(y * stride, (y + 1) * stride)
            =~= convert_row(row));
        assert(height - 1 - y == height - k);
    }
}

/// Row `y` of an icon laid out from a `size` by `size` RGBA image, counted
/// from the start of its bytes, is source row `size - 1 - y`, converted:
/// the image is flipped top to bottom.
pub proof fn law_icon_rows_flipped(rgba: Seq<u8>, size: int, y: int)
    requires
        size >= 0,
        rgba.len() == size * size * 4,
        0 <= y < size,
    ensures
        bottom_up_bgra(rgba, size, size).subrange(y * (size * 4), (y + 1) * (size * 4)) == convert_row(
            rgba.subrange((size - 1 - y) * (size * 4), (size - y) * (size * 4)),
        ),
{
    assert(size * size * 4 == size * (size * 4)) by (nonlinear_arith);
    lemma_flipped_row(rgba, size * 4, size, size as nat, y);
}

} // verus!
