use image::{DynamicImage, GenericImageView};
use vstd::prelude::*;

use crate::average::{average_rgb, spec_average, AverageError};
use crate::color::{hls_of, rgb2hls, Hls, Sample};

verus! {

#[verifier::external_type_specification]
#[verifier::external_body]
pub struct ExDynamicImage(DynamicImage);

/// The pixels of a decoded image, row by row from the top left, each read as
/// 8-bit RGBA.
pub uninterp spec fn pixels_of(img: DynamicImage) -> Seq<[u8; 4]>;

/// The width and height of a decoded image.
pub uninterp spec fn dimensions_of(img: DynamicImage) -> (u32, u32);

/// Relies on `GenericImageView::dimensions` of `DynamicImage`: the width and
/// height of the raster, which holds one pixel for each of their product.
#[verifier::external_body]
fn image_dimensions(img: &DynamicImage) -> (r: (u32, u32))
    ensures
        r == dimensions_of(*img),
        pixels_of(*img).len() == r.0 * r.1,
{
    img.dimensions()
}

/// Relies on `GenericImageView::pixels` of `DynamicImage`, which visits every
/// pixel once, row by row, each converted to `Rgba<u8>`; only the channel
/// array of each is kept. On an image with no columns but several rows the
/// walk reads out of bounds and panics, so both sides must be non-zero.
#[verifier::external_body]
fn rgba_pixels(img: &DynamicImage) -> (r: Vec<[u8; 4]>)
    requires
        dimensions_of(*img).0 > 0,
        dimensions_of(*img).1 > 0,
    ensures
        r@ == pixels_of(*img),
{
    img.pixels().map(|(_, _, p)| p.0).collect()
}

/// Relies on `imageops::resize` with `FilterType::Nearest` to shrink the image
/// to a single pixel, whose channels are returned. Nearest sampling weighs one
/// source pixel by one, so a non-empty image gives back one of its own pixels
/// unchanged; which one is not claimed.
#[verifier::external_body]
fn shrink_to_one_pixel(img: &DynamicImage) -> (r: [u8; 4])
    ensures
        pixels_of(*img).len() > 0 ==> pixels_of(*img).contains(r),
{
    let small = image::imageops::resize(img, 1, 1, image::imageops::FilterType::Nearest);
    small.get_pixel(0, 0).0
}

/// The mean colour of the image, as hue, lightness and saturation. An image
/// without pixels is refused.
pub fn average_hls_color(image: &DynamicImage) -> (r: Result<Hls, AverageError>)
    ensures
        pixels_of(*image).len() == 0 ==> r == Err::<Hls, AverageError>(AverageError::EmptyImage),
        pixels_of(*image).len() > 0 ==> r == Ok::<Hls, AverageError>(
            hls_of(spec_average(pixels_of(*image))),
        ),
{
    let (width, height) = image_dimensions(image);
    if width == 0 || height == 0 {
        proof {
            assert(pixels_of(*image).len() == 0) by (nonlinear_arith)
                requires
                    pixels_of(*image).len() == width * height,
                    width == 0 || height == 0,
            ;
        }
        return Err(AverageError::EmptyImage);
    }
    proof {
        assert(pixels_of(*image).len() > 0) by (nonlinear_arith)
            requires
                pixels_of(*image).len() == width * height,
                width > 0,
                height > 0,
        ;
    }
    let pixels = rgba_pixels(image);
    match average_rgb(&pixels) {
        Ok(mean) => Ok(rgb2hls(mean)),
        Err(e) => Err(e),
    }
}

/// The colour of one pixel of a non-empty image, with alpha dropped.
pub open spec fn sample_at(img: DynamicImage, i: int) -> Sample {
    Sample { r: pixels_of(img)[i]@[0], g: pixels_of(img)[i]@[1], b: pixels_of(img)[i]@[2] }
}

/// The colour that the image library's nearest-neighbour resampling reduces
/// the image to, as hue, lightness and saturation: a second estimate of the
/// mean colour, which is the colour of one of the image's own pixels.
pub fn resized_hls(image: &DynamicImage) -> (r: Hls)
    ensures
        r.wf(),
        pixels_of(*image).len() > 0 ==> exists|i: int|
            0 <= i < pixels_of(*image).len() && r == hls_of(#[trigger] sample_at(*image, i)),
{
    let px = shrink_to_one_pixel(image);
    let s = Sample::from_rgba(px);
    let r = rgb2hls(s);
    proof {
        if pixels_of(*image).len() > 0 {
            let i = pixels_of(*image).index_of(px);
            assert(r == hls_of(sample_at(*image, i)));
        }
    }
    r
}

} // verus!
