use vstd::prelude::*;

verus! {

/// The pixel data of a trait image or of a composited canvas.
///
/// The type is opaque to the verifier: the library arranges which images
/// are composited and in what order, while the pixel work itself is the
/// image crate's.
#[verifier::external_type_specification]
#[verifier::external_body]
pub struct ExDynamicImage(image::DynamicImage);

/// Names the composite of two images: what overlaying `top` onto
/// `bottom` at the origin yields, a function of the two images alone.
pub uninterp spec fn overlaid(
    bottom: image::DynamicImage,
    top: image::DynamicImage,
) -> image::DynamicImage;

/// Names the blank canvas of the given dimensions, a function of the
/// dimensions alone.
pub uninterp spec fn canvas_of(width: u32, height: u32) -> image::DynamicImage;

/// Names an image's width and height, a function of the image alone.
pub uninterp spec fn dims_of(img: image::DynamicImage) -> (u32, u32);

/// Overlays `top` onto `bottom` at the fixed origin.
///
/// Relies on image::imageops::overlay: it composites the second image
/// over the first in place, at the given coordinates, a function of the
/// two images alone.
#[verifier::external_body]
pub fn merge(bottom: &mut image::DynamicImage, top: &image::DynamicImage)
    ensures
        *final(bottom) == overlaid(*old(bottom), *top),
{
    image::imageops::overlay(bottom, top, 0, 0);
}

/// A blank canvas of the given dimensions.
///
/// Relies on image::DynamicImage::new_rgba8: a transparent RGBA buffer
/// of the requested width and height, a function of the dimensions
/// alone.
#[verifier::external_body]
pub(crate) fn new_canvas(width: u32, height: u32) -> (r: image::DynamicImage)
    ensures
        r == canvas_of(width, height),
{
    image::DynamicImage::new_rgba8(width, height)
}

/// The width and height of an image.
///
/// Relies on image::GenericImageView::dimensions.
#[verifier::external_body]
pub(crate) fn image_dims(img: &image::DynamicImage) -> (r: (u32, u32))
    ensures
        r == dims_of(*img),
{
    image::GenericImageView::dimensions(img)
}

} // verus!
