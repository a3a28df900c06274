//! Image synthesis: a solid-color raster, encoded as PNG.
//!
//! The raster is built and verified here; the PNG encoding is the one
//! outside computation the library calls, behind a trusted wrapper.

use vstd::prelude::*;

use crate::color::Color;

verus! {

/// The RGB raster of `pixels` pixels, every one equal to `c`.
pub open spec fn solid_raster(pixels: nat, c: Color) -> Seq<u8>
    decreases pixels,
{
    if pixels == 0 {
        Seq::empty()
    } else {
        solid_raster((pixels - 1) as nat, c) + seq![c.r, c.g, c.b]
    }
}

/// The three channel bytes of pixel `p` in an RGB raster.
pub open spec fn pixel_at(raster: Seq<u8>, p: int) -> (u8, u8, u8) {
    (raster[3 * p], raster[3 * p + 1], raster[3 * p + 2])
}

pub proof fn lemma_solid_raster(pixels: nat, c: Color)
    ensures
        solid_raster(pixels, c).len() == 3 * pixels,
        forall|p: int| 0 <= p < pixels ==> #[trigger] pixel_at(solid_raster(pixels, c), p)
            == (c.r, c.g, c.b),
    decreases pixels,
{
    if pixels > 0 {
        lemma_solid_raster((pixels - 1) as nat, c);
        assert forall|p: int| 0 <= p < pixels implies #[trigger] pixel_at(solid_raster(pixels, c), p)
            == (c.r, c.g, c.b) by {
            if p < pixels - 1 {
                assert(pixel_at(solid_raster((pixels - 1) as nat, c), p) == (c.r, c.g, c.b));
                assert(3 * p + 2 < 3 * (pixels - 1));
            } else {
                assert(3 * p == solid_raster((pixels - 1) as nat, c).len());
            }
        }
    }
}

/// The PNG encoding of an RGB raster: a function of the dimensions and
/// the pixel bytes alone.
pub uninterp spec fn png_of(width: nat, height: nat, raster: Seq<u8>) -> Seq<u8>;

/// What decoding a PNG yields: the dimensions and the RGB raster, where
/// the bytes are a valid PNG at all.
pub uninterp spec fn png_decode(data: Seq<u8>) -> Option<(nat, nat, Seq<u8>)>;

/// Relies on image's `PngEncoder::write_image` for the encoding: given a
/// full RGB buffer and non-degenerate dimensions it writes one PNG, a
/// deterministic function of its input, and PNG is lossless, so decoding
/// that output yields the dimensions and raster back. Every PNG opens
/// with the format's eight signature bytes, so the output is never
/// shorter than that.
#[verifier::external_body]
fn png_encode(width: u32, height: u32, raster: &Vec<u8>) -> (r: Vec<u8>)
    requires
        1 <= width,
        1 <= height,
        raster@.len() == 3 * width * height,
    ensures
        r@ == png_of(width as nat, height as nat, raster@),
        png_decode(r@) == Some((width as nat, height as nat, raster@)),
        r@.len() >= 8,
{
    let mut buf: Vec<u8> = Vec::new();
    let encoder = image::codecs::png::PngEncoder::new(&mut buf);
    image::ImageEncoder::write_image(
        encoder,
        raster.as_slice(),
        width,
        height,
        image::ExtendedColorType::Rgb8,
    ).unwrap();
    buf
}

pub struct Image;

impl Image {
    /// One PNG of `width` x `height` pixels, every pixel equal to
    /// `color`: decoding the returned bytes yields the dimensions and a
    /// raster whose every pixel is `(color.r, color.g, color.b)`.
    pub fn create_image(width: u32, height: u32, color: &Color) -> (r: Vec<u8>)
        requires
            1 <= width,
            1 <= height,
            3 * (width as nat) * (height as nat) <= usize::MAX,
        ensures
            r@ == png_of(
                width as nat,
                height as nat,
                solid_raster((width as nat) * (height as nat), *color),
            ),
            png_decode(r@) == Some(
                (
                    width as nat,
                    height as nat,
                    solid_raster((width as nat) * (height as nat), *color),
                ),
            ),
            r@.len() >= 8,
            forall|p: int| 0 <= p < (width as nat) * (height as nat)
                ==> #[trigger] pixel_at(
                    solid_raster((width as nat) * (height as nat), *color),
                    p,
                ) == (color.r, color.g, color.b),
    {
        proof {
            assert((width as nat) * (height as nat) <= 3 * (width as nat) * (height as nat))
                by (nonlinear_arith)
                requires
                    1 <= width,
                    1 <= height,
            ;
            assert(3 * ((width as nat) * (height as nat)) == 3 * (width as nat) * (height as nat))
                by (nonlinear_arith);
        }
        let total: usize = (width as usize) * (height as usize);
        let mut buf: Vec<u8> = Vec::new();
        let mut p: usize = 0;
        proof {
            lemma_solid_raster(total as nat, *color);
        }
        while p < total
            invariant
                0 <= p <= total,
                buf@ == solid_raster(p as nat, *color),
                buf@.len() == 3 * p,
                total == (width as nat) * (height as nat),
                3 * total <= usize::MAX,
            decreases total - p,
        {
            buf.push(color.r);
            buf.push(color.g);
            buf.push(color.b);
            p += 1;
            proof {
                assert(solid_raster(p as nat, *color)
                    == solid_raster((p - 1) as nat, *color) + seq![color.r, color.g, color.b]);
                assert(buf@ =~= solid_raster(p as nat, *color));
            }
        }
        proof {
            lemma_solid_raster(total as nat, *color);
            assert(3 * ((width as nat) * (height as nat)) == 3 * (width as nat) * (height as nat))
                by (nonlinear_arith);
        }
        png_encode(width, height, &buf)
    }
}

} // verus!
