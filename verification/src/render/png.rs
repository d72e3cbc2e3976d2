//! PNG encoding.
//!
//! The compression level is a first-class knob and defaults to `Fast` rather
//! than the `png` crate's default: CPU time is the binding constraint on a
//! serverless render, not bytes on the wire.

use vstd::prelude::*;

use crate::error::{Error, Result};

verus! {

#[verifier::external_type_specification]
#[verifier::external_body]
pub struct ExPixmap(tiny_skia::Pixmap);

#[derive(Debug, Clone, Copy, PartialEq, Eq, Structural)]
pub enum Compression {
    /// Lowest CPU cost. The default, because CPU time is the binding constraint
    /// on Workers, not bytes on the wire.
    Fast,
    /// The `png` crate's balanced setting.
    Balanced,
    /// Smallest output, highest CPU cost.
    Best,
}

impl Default for Compression {
    fn default() -> (c: Self)
        ensures
            c == Compression::Fast,
    {
        Compression::Fast
    }
}

/// Maps a small integer onto a compression level, so callers across a wasm
/// boundary do not need a second enum: 0 is fast, 1 balanced, anything else best.
pub fn compression_from(level: u8) -> (c: Compression)
    ensures
        c == (if level == 0 {
            Compression::Fast
        } else if level == 1 {
            Compression::Balanced
        } else {
            Compression::Best
        }),
{
    match level {
        0 => Compression::Fast,
        1 => Compression::Balanced,
        _ => Compression::Best,
    }
}

/// The pixels of a pixmap, row-major, as premultiplied `(r, g, b, a)`.
pub uninterp spec fn pixmap_pixels(p: tiny_skia::Pixmap) -> Seq<(u8, u8, u8, u8)>;

/// The width and height a pixmap was made with.
pub uninterp spec fn pixmap_size(p: tiny_skia::Pixmap) -> (u32, u32);

/// What tiny-skia's `PremultipliedColorU8::demultiply` makes of a pixel.
pub uninterp spec fn demultiplied(px: (u8, u8, u8, u8)) -> (u8, u8, u8, u8);

/// What the `png` crate's encoder produces for an 8-bit RGBA image of the given
/// size, level and pixel bytes: the file, or the text of its error.
pub uninterp spec fn png_rgba8(width: u32, height: u32, level: Compression, data: Seq<u8>) -> core::result::Result<
    Seq<u8>,
    Seq<char>,
>;

/// The eight bytes every PNG file starts with.
pub open spec fn png_signature() -> Seq<u8> {
    seq![137u8, 80, 78, 71, 13, 10, 26, 10]
}

/// `Pixmap::width`: the width the pixmap was made with. Every pixmap has a
/// non-zero width whose row of four-byte pixels fits in an `i32`.
#[verifier::external_body]
fn pixmap_width(p: &tiny_skia::Pixmap) -> (w: u32)
    ensures
        w == pixmap_size(*p).0,
        0 < w,
        w * 4 <= i32::MAX,
{
    p.width()
}

/// `Pixmap::height`: the height the pixmap was made with, never zero.
#[verifier::external_body]
fn pixmap_height(p: &tiny_skia::Pixmap) -> (h: u32)
    ensures
        h == pixmap_size(*p).1,
        0 < h,
{
    p.height()
}

/// `Pixmap::pixels().len()`: one pixel per column of every row.
#[verifier::external_body]
fn pixel_count(p: &tiny_skia::Pixmap) -> (n: usize)
    ensures
        n == pixmap_pixels(*p).len(),
        n == pixmap_size(*p).0 * pixmap_size(*p).1,
{
    p.pixels().len()
}

/// `PremultipliedColorU8::demultiply` of the `i`-th pixel. An opaque pixel
/// comes back unchanged, and alpha is always kept.
#[verifier::external_body]
fn demultiplied_pixel(p: &tiny_skia::Pixmap, i: usize) -> (c: (u8, u8, u8, u8))
    requires
        i < pixmap_pixels(*p).len(),
    ensures
        c == demultiplied(pixmap_pixels(*p)[i as int]),
        c.3 == pixmap_pixels(*p)[i as int].3,
        pixmap_pixels(*p)[i as int].3 == 255 ==> c == pixmap_pixels(*p)[i as int],
{
    let c = p.pixels()[i].demultiply();
    (c.red(), c.green(), c.blue(), c.alpha())
}

/// The four bytes of `n`, most significant first.
pub open spec fn be32(n: u32) -> Seq<u8> {
    seq![(n / 0x100_0000) as u8, (n / 0x1_0000 % 256) as u8, (n / 256 % 256) as u8, (n % 256) as u8]
}

/// The start of an 8-bit RGBA PNG file of the given size: the signature, then
/// the `IHDR` chunk's length (13) and type, the width and height, bit depth 8
/// and colour type 6.
pub open spec fn rgba8_header(width: u32, height: u32) -> Seq<u8> {
    png_signature() + seq![0u8, 0, 0, 13, 73, 72, 68, 82] + be32(width) + be32(height) + seq![8u8, 6]
}

/// Encodes straight-alpha RGBA8 bytes with the `png` crate's `Encoder` at the
/// given level: header, image data, finish. For a non-zero size whose row fits
/// in an `i32` and a buffer of exactly four bytes per pixel, it succeeds:
/// `write_header` refuses only a zero size, `write_image_data` only a buffer of
/// the wrong length, and writing into a `Vec` cannot fail. The file starts with
/// the signature and the `IHDR` chunk, which `write_header` writes first.
#[verifier::external_body]
fn encode_rgba8(width: u32, height: u32, level: Compression, data: &[u8]) -> (r:
    core::result::Result<Vec<u8>, String>)
    requires
        0 < width,
        0 < height,
        width * 4 <= i32::MAX,
        data@.len() == width * height * 4,
    ensures
        r is Ok,
        match r {
            Ok(bytes) => png_rgba8(width, height, level, data@) == Ok::<Seq<u8>, Seq<char>>(bytes@)
                && bytes@.len() >= 26 && bytes@.take(26) == rgba8_header(width, height),
            Err(text) => png_rgba8(width, height, level, data@) == Err::<Seq<u8>, Seq<char>>(text@),
        },
{
    let mut out = Vec::new();
    {
        let mut encoder = png::Encoder::new(&mut out, width, height);
        encoder.set_color(png::ColorType::Rgba);
        encoder.set_depth(png::BitDepth::Eight);
        encoder.set_compression(match level {
            Compression::Fast => png::Compression::Fast,
            Compression::Balanced => png::Compression::Default,
            Compression::Best => png::Compression::Best,
        });
        let mut writer = encoder.write_header().map_err(|e| e.to_string())?;
        writer.write_image_data(data).map_err(|e| e.to_string())?;
        writer.finish().map_err(|e| e.to_string())?;
    }
    Ok(out)
}

/// The straight-alpha bytes of a pixmap: each pixel demultiplied, four bytes
/// per pixel, in pixel order.
pub open spec fn straight_rgba(pixels: Seq<(u8, u8, u8, u8)>) -> Seq<u8>
    decreases pixels.len(),
{
    if pixels.len() == 0 {
        Seq::empty()
    } else {
        let c = demultiplied(pixels.last());
        straight_rgba(pixels.drop_last()) + seq![c.0, c.1, c.2, c.3]
    }
}

/// Four bytes for every pixel.
proof fn lemma_straight_rgba_len(pixels: Seq<(u8, u8, u8, u8)>)
    ensures
        straight_rgba(pixels).len() == 4 * pixels.len(),
    decreases pixels.len(),
{
    if pixels.len() > 0 {
        lemma_straight_rgba_len(pixels.drop_last());
    }
}

/// The bytes handed to the encoder hold the pixels in pixmap order: the
/// `i`-th pixel, demultiplied, is at offsets `4 * i` to `4 * i + 3`, as red,
/// green, blue, alpha.
pub proof fn lemma_straight_rgba_pixel(pixels: Seq<(u8, u8, u8, u8)>, i: int)
    requires
        0 <= i < pixels.len(),
    ensures
        straight_rgba(pixels).len() == 4 * pixels.len(),
        straight_rgba(pixels).subrange(4 * i, 4 * i + 4) == seq![
            demultiplied(pixels[i]).0,
            demultiplied(pixels[i]).1,
            demultiplied(pixels[i]).2,
            demultiplied(pixels[i]).3,
        ],
    decreases pixels.len(),
{
    lemma_straight_rgba_len(pixels);
    let front = pixels.drop_last();
    lemma_straight_rgba_len(front);
    let c = demultiplied(pixels.last());
    let all = straight_rgba(pixels);
    assert(all == straight_rgba(front) + seq![c.0, c.1, c.2, c.3]);
    if i == pixels.len() - 1 {
        assert(all.subrange(4 * i, 4 * i + 4) =~= seq![c.0, c.1, c.2, c.3]);
    } else {
        lemma_straight_rgba_pixel(front, i);
        assert(front[i] == pixels[i]);
        assert(all.subrange(4 * i, 4 * i + 4) =~= straight_rgba(front).subrange(4 * i, 4 * i + 4));
    }
}

/// Encodes a pixmap as an 8-bit RGBA PNG.
///
/// tiny-skia stores **premultiplied** pixels; PNG wants straight alpha, so every
/// pixel is demultiplied on the way out. Skipping that step would darken
/// semi-transparent marks.
///
/// It always succeeds: the file is the `png` crate's encoding of the pixmap's
/// size, the level and the demultiplied pixels, and starts with the signature
/// and an `IHDR` chunk naming the pixmap's width and height.
pub fn encode(pixmap: &tiny_skia::Pixmap, compression: Compression) -> (r: Result<Vec<u8>>)
    ensures
        r matches Ok(out) && png_rgba8(
            pixmap_size(*pixmap).0,
            pixmap_size(*pixmap).1,
            compression,
            straight_rgba(pixmap_pixels(*pixmap)),
        ) == Ok::<Seq<u8>, Seq<char>>(out@),
        r matches Ok(out) && out@.len() >= 26 && out@.take(26) == rgba8_header(
            pixmap_size(*pixmap).0,
            pixmap_size(*pixmap).1,
        ),
{
    let width = pixmap_width(pixmap);
    let height = pixmap_height(pixmap);
    let n = pixel_count(pixmap);
    let ghost pixels = pixmap_pixels(*pixmap);
    let mut rgba: Vec<u8> = Vec::new();
    let mut i: usize = 0;
    while i < n
        invariant
            0 <= i <= n,
            n == pixels.len(),
            pixels == pixmap_pixels(*pixmap),
            rgba@ == straight_rgba(pixels.take(i as int)),
        decreases n - i,
    {
        let (r, g, b, a) = demultiplied_pixel(pixmap, i);
        rgba.push(r);
        rgba.push(g);
        rgba.push(b);
        rgba.push(a);
        assert(pixels.take(i + 1).drop_last() =~= pixels.take(i as int));
        assert(rgba@ =~= straight_rgba(pixels.take(i + 1)));
        i += 1;
    }
    assert(pixels.take(n as int) =~= pixels);
    proof {
        lemma_straight_rgba_len(pixels);
    }
    match encode_rgba8(width, height, compression, rgba.as_slice()) {
        Ok(bytes) => Ok(bytes),
        Err(text) => Err(Error::Encode(text)),
    }
}

} // verus!
