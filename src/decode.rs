use image::imageops::FilterType;
use image::{DynamicImage, RgbaImage};
use vstd::prelude::*;

use crate::image_cache::ImageLookup;
use crate::image_file;
use crate::pixels::{average_color, mean_color, rgba_pixels, ImageData, ImageView, Rgba};

verus! {

/// The box, in pixels, that decoded images are scaled to fit.
#[derive(Clone, Copy, Debug, PartialEq, Eq, Structural)]
pub struct TargetSize {
    pub width: u32,
    pub height: u32,
}

/// A bound as the scaler reads it: a bound of zero still leaves one pixel.
pub open spec fn bound(n: u32) -> nat {
    if n == 0 {
        1
    } else {
        n as nat
    }
}

/// Whether the RGBA buffer of the largest image that fits `size` can be addressed.
pub open spec fn fits_in_memory(size: TargetSize) -> bool {
    4 * bound(size.width) * bound(size.height) <= usize::MAX
}

/// Why a request did not produce an image.
#[derive(Debug)]
pub enum ImageParseError {
    /// The codec could not read the file; its message.
    ImageError(String),
    /// The path was not taken for an image.
    ImageFileError(image_file::Error),
    /// The target size is too large for a pixel buffer.
    TooLarge,
}

/// What a cached image holds: the size it was scaled for, its pixels and their average colour.
pub struct CachedView {
    pub size: TargetSize,
    pub image: ImageView,
    pub average: Rgba,
}

/// Whether an image fits the box it was scaled for and carries its own average colour.
pub open spec fn well_formed(v: CachedView) -> bool {
    &&& v.image.width <= bound(v.size.width)
    &&& v.image.height <= bound(v.size.height)
    &&& v.average == mean_color(v.image.pixels)
}

/// A decoded image, scaled to fit a target size, with its average colour.
pub struct CachedImage {
    size: TargetSize,
    image: ImageData,
    average: Rgba,
}

impl View for CachedImage {
    type V = CachedView;

    closed spec fn view(&self) -> CachedView {
        CachedView { size: self.size, image: self.image@, average: self.average }
    }
}

impl CachedImage {
    #[verifier::type_invariant]
    pub(crate) open spec fn fits_its_size(self) -> bool {
        well_formed(self@)
    }

    /// The pixels.
    pub fn image(&self) -> (r: &ImageData)
        ensures
            r@ == self@.image,
            well_formed(self@),
    {
        proof {
            use_type_invariant(self);
        }
        &self.image
    }

    /// The average colour of the pixels.
    pub fn average(&self) -> (r: Rgba)
        ensures
            r == self@.average,
            r == mean_color(self@.image.pixels),
    {
        proof {
            use_type_invariant(self);
        }
        self.average
    }

    /// The size that the image was scaled to fit.
    pub fn size(&self) -> (r: TargetSize)
        ensures
            r == self@.size,
    {
        self.size
    }
}

/// What a worker sends back for one request.
pub enum DecodeResult {
    Decoded(ImageLookup, CachedImage),
    Failed(ImageLookup, ImageParseError),
}

impl DecodeResult {
    pub open spec fn spec_lookup(&self) -> ImageLookup {
        match self {
            DecodeResult::Decoded(l, _) => *l,
            DecodeResult::Failed(l, _) => *l,
        }
    }

    /// The request that this result answers.
    pub fn lookup(&self) -> (r: ImageLookup)
        ensures
            r == self.spec_lookup(),
    {
        match self {
            DecodeResult::Decoded(l, _) => *l,
            DecodeResult::Failed(l, _) => *l,
        }
    }
}

/// What image's nearest-neighbour resize makes of an RGBA image of
/// `src_w` by `src_h` pixels, scaled to fit `w` by `h`: its width, its
/// height and its RGBA bytes.
pub uninterp spec fn resized_rgba(src_w: u32, src_h: u32, src: Seq<u8>, w: u32, h: u32) -> (
    u32,
    u32,
    Seq<u8>,
);

/// Relies on image's DynamicImage::resize with the nearest-neighbour filter,
/// which keeps the aspect ratio and scales to the largest size that fits the
/// bounds (a zero bound still gives one pixel), on RgbaImage::from_raw,
/// which takes a buffer of exactly four bytes per pixel as it is, and on
/// DynamicImage::to_rgba8, which lays the result out as four bytes per
/// pixel. Allocation panics only for a buffer whose length overflows
/// `usize`, which `requires` leaves out.
#[verifier::external_body]
fn resize_to_rgba(src_w: u32, src_h: u32, src: Vec<u8>, width: u32, height: u32) -> (r: (
    u32,
    u32,
    Vec<u8>,
))
    requires
        src@.len() == 4 * src_w * src_h,
        4 * bound(width) * bound(height) <= usize::MAX,
    ensures
        r.0 == resized_rgba(src_w, src_h, src@, width, height).0,
        r.1 == resized_rgba(src_w, src_h, src@, width, height).1,
        r.2@ == resized_rgba(src_w, src_h, src@, width, height).2,
        r.0 <= bound(width),
        r.1 <= bound(height),
        r.2@.len() == 4 * r.0 * r.1,
{
    let source = RgbaImage::from_raw(src_w, src_h, src).unwrap_or_default();
    let rgba = DynamicImage::ImageRgba8(source).resize(width, height, FilterType::Nearest).to_rgba8();
    let (w, h) = rgba.dimensions();
    (w, h, rgba.into_raw())
}

/// Scales an RGBA image of `src_w` by `src_h` pixels to fit `size`, takes
/// its pixels and their average colour, and tags the outcome with the
/// request's lookup.
pub fn decode_image(lookup: ImageLookup, src_w: u32, src_h: u32, src: Vec<u8>, size: TargetSize) -> (r:
    DecodeResult)
    requires
        src@.len() == 4 * src_w * src_h,
    ensures
        fits_in_memory(size) ==> (r matches DecodeResult::Decoded(l, c) && l == lookup && c@.size
            == size && well_formed(c@) && c@.image.width == resized_rgba(
            src_w,
            src_h,
            src@,
            size.width,
            size.height,
        ).0 && c@.image.height == resized_rgba(src_w, src_h, src@, size.width, size.height).1
            && c@.image.pixels == rgba_pixels(
            resized_rgba(src_w, src_h, src@, size.width, size.height).2,
        )),
        !fits_in_memory(size) ==> (r matches DecodeResult::Failed(l, ImageParseError::TooLarge)
            && l == lookup),
{
    let w: u128 = if size.width == 0 {
        1
    } else {
        size.width as u128
    };
    let h: u128 = if size.height == 0 {
        1
    } else {
        size.height as u128
    };
    assert(w * h <= 0xffff_ffff_ffff_ffff) by (nonlinear_arith)
        requires
            w <= 0xffff_ffff,
            h <= 0xffff_ffff,
    ;
    assert(4 * bound(size.width) * bound(size.height) == 4 * (w * h)) by (nonlinear_arith)
        requires
            w == bound(size.width),
            h == bound(size.height),
    ;
    if 4 * (w * h) > usize::MAX as u128 {
        return DecodeResult::Failed(lookup, ImageParseError::TooLarge);
    }
    let (rw, rh, bytes) = resize_to_rgba(src_w, src_h, src, size.width, size.height);
    let image = ImageData::from_rgba(rw as usize, rh as usize, &bytes);
    let average = average_color(image.pixels());
    let cached = CachedImage { size, image, average };
    DecodeResult::Decoded(lookup, cached)
}

} // verus!
