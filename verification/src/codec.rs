//! Decoding, resizing and encoding pictures.
//!
//! The pixels are the business of the `image` crate. This module is the door
//! to it: one function for each function of the crate that the library calls,
//! with what is known of its result, and the guard that keeps the resizing
//! within what the machine can allocate. The contracts of these functions are
//! taken from the source of the crate; they are believed, not proved.

use vstd::prelude::*;
use crate::paths::ImageKind;

verus! {

/// A decoded picture of the `image` crate. Nothing of its pixels is visible
/// here.
#[verifier::external_type_specification]
#[verifier::external_body]
pub struct ExDynamicImage(image::DynamicImage);

/// The error type of the `image` crate.
#[verifier::external_type_specification]
#[verifier::external_body]
pub struct ExImageError(image::ImageError);

/// The filter that a picture is resampled with.
#[derive(Clone, Copy, PartialEq, Eq, Debug, Structural)]
pub enum Filter {
    Nearest,
    Triangle,
    CatmullRom,
    Gaussian,
    Lanczos3,
}

/// The width and the height of a decoded picture, in pixels.
pub uninterp spec fn image_size(picture: image::DynamicImage) -> (u32, u32);

/// The size of the picture that `bytes` decode to in the format `kind`, or
/// `None` where they do not decode.
pub uninterp spec fn decoded_size(bytes: Seq<u8>, kind: ImageKind) -> Option<(u32, u32)>;

/// Whether `resized` is what the `image` crate made of `picture` when it
/// resampled it to `nwidth` by `nheight` pixels with `filter`. The pixels
/// that come out rest on the sine of the platform, so this is a relation
/// between a call and what it gave, and no function of the picture.
pub uninterp spec fn resampled(
    picture: image::DynamicImage,
    nwidth: u32,
    nheight: u32,
    filter: Filter,
    resized: image::DynamicImage,
) -> bool;

/// The bytes that `picture` is encoded to in the format `kind`, or `None`
/// where the encoder refuses it.
pub uninterp spec fn encoded_bytes(picture: image::DynamicImage, kind: ImageKind) -> Option<
    Seq<u8>,
>;

/// Whether the container of `picture` holds exactly the samples that its
/// size asks for. The encoders of the `image` crate panic on any other.
pub uninterp spec fn tightly_held(picture: image::DynamicImage) -> bool;

/// Whether `text` is what `error` says of itself. The text of an error that
/// comes from the system can differ from one machine to the next, so this is
/// a relation between an error and a text it gave, and no function of the
/// error.
pub uninterp spec fn says(error: image::ImageError, text: Seq<char>) -> bool;

/// Whether a picture `width` pixels wide can be resized to `nwidth` by
/// `nheight`: neither the intermediate picture, as wide as the source and as
/// high as the result, nor the result, at sixteen bytes a pixel, is larger
/// than an allocation can be.
pub open spec fn resize_fits(width: u32, nwidth: u32, nheight: u32) -> bool {
    &&& 16 * width * nheight <= isize::MAX
    &&& 16 * nwidth * nheight <= isize::MAX
}

/// Decodes `bytes` as a picture of the format `kind`.
///
/// Calls `image::load_from_memory_with_format`, with the variant of
/// `image::ImageFormat` that bears the name of `kind`. Whether the bytes
/// decode, and to what size, depends on the bytes and the format alone:
/// `decoded_size` names it.
#[verifier::external_body]
pub(crate) fn decode_image(bytes: &[u8], kind: ImageKind) -> (decoded: Result<
    image::DynamicImage,
    image::ImageError,
>)
    ensures
        match decoded {
            Ok(picture) => decoded_size(bytes@, kind) == Some(image_size(picture)),
            Err(_) => decoded_size(bytes@, kind) is None,
        },
{
    let format = match kind {
        ImageKind::Jpeg => image::ImageFormat::Jpeg,
        ImageKind::Png => image::ImageFormat::Png,
        ImageKind::Gif => image::ImageFormat::Gif,
        ImageKind::WebP => image::ImageFormat::WebP,
        ImageKind::Bmp => image::ImageFormat::Bmp,
        ImageKind::Ico => image::ImageFormat::Ico,
    };
    image::load_from_memory_with_format(bytes, format)
}

/// The width and the height of `picture`.
///
/// Calls `GenericImageView::dimensions` of `image::DynamicImage`, which reads
/// the two numbers off the pixel buffer: they are what `image_size` names.
#[verifier::external_body]
pub(crate) fn dimensions(picture: &image::DynamicImage) -> (size: (u32, u32))
    ensures
        size == image_size(*picture),
{
    image::GenericImageView::dimensions(picture)
}

/// Resamples `picture` to `nwidth` by `nheight` pixels with `filter`.
///
/// Calls `image::DynamicImage::resize_exact`, with the variant of
/// `image::imageops::FilterType` that bears the name of `filter`. The result
/// has the size asked for, in a container that the crate allocates for that
/// size. The call allocates a picture as wide as `picture` and as high as the
/// result, and the result itself, and panics where either is larger than an
/// allocation can be: `requires` leaves those sizes out.
#[verifier::external_body]
pub(crate) fn resize_image(
    picture: &image::DynamicImage,
    nwidth: u32,
    nheight: u32,
    filter: Filter,
) -> (resized: image::DynamicImage)
    requires
        resize_fits(image_size(*picture).0, nwidth, nheight),
    ensures
        image_size(resized) == (nwidth, nheight),
        resampled(*picture, nwidth, nheight, filter, resized),
        tightly_held(resized),
{
    let filter = match filter {
        Filter::Nearest => image::imageops::FilterType::Nearest,
        Filter::Triangle => image::imageops::FilterType::Triangle,
        Filter::CatmullRom => image::imageops::FilterType::CatmullRom,
        Filter::Gaussian => image::imageops::FilterType::Gaussian,
        Filter::Lanczos3 => image::imageops::FilterType::Lanczos3,
    };
    picture.resize_exact(nwidth, nheight, filter)
}

/// Encodes `picture` in the format `kind`.
///
/// Calls `image::DynamicImage::write_to` on a buffer in memory, with the
/// variant of `image::ImageFormat` that bears the name of `kind`. Whether the
/// encoder takes the picture, and what it writes, depends on the picture and
/// the format alone: `encoded_bytes` names it. Every encoder panics on a
/// picture whose container is longer than its size asks for: `requires`
/// leaves those pictures out.
#[verifier::external_body]
pub(crate) fn encode_image(picture: &image::DynamicImage, kind: ImageKind) -> (encoded: Result<
    Vec<u8>,
    image::ImageError,
>)
    requires
        tightly_held(*picture),
    ensures
        match encoded {
            Ok(bytes) => encoded_bytes(*picture, kind) == Some(bytes@),
            Err(_) => encoded_bytes(*picture, kind) is None,
        },
{
    let format = match kind {
        ImageKind::Jpeg => image::ImageFormat::Jpeg,
        ImageKind::Png => image::ImageFormat::Png,
        ImageKind::Gif => image::ImageFormat::Gif,
        ImageKind::WebP => image::ImageFormat::WebP,
        ImageKind::Bmp => image::ImageFormat::Bmp,
        ImageKind::Ico => image::ImageFormat::Ico,
    };
    let mut out = std::io::Cursor::new(Vec::new());
    match picture.write_to(&mut out, format) {
        Ok(()) => Ok(out.into_inner()),
        Err(error) => Err(error),
    }
}

/// What `error` says of itself.
///
/// Calls `to_string` on an `image::ImageError`: the text is what the error
/// says of itself.
#[verifier::external_body]
pub(crate) fn error_text(error: &image::ImageError) -> (text: String)
    ensures
        says(*error, text@),
{
    error.to_string()
}

/// Whether a picture `width` pixels wide can be resized to `nwidth` by
/// `nheight`.
pub fn can_resize(width: u32, nwidth: u32, nheight: u32) -> (fits: bool)
    ensures
        fits == resize_fits(width, nwidth, nheight),
{
    let wide: u128 = width as u128;
    let new_wide: u128 = nwidth as u128;
    let new_high: u128 = nheight as u128;
    let limit: u128 = isize::MAX as u128;
    assert(16 * wide * new_high <= 0x10 * 0x1_0000_0000 * 0x1_0000_0000) by (nonlinear_arith)
        requires
            wide <= 0x1_0000_0000,
            new_high <= 0x1_0000_0000,
    ;
    assert(16 * new_wide * new_high <= 0x10 * 0x1_0000_0000 * 0x1_0000_0000) by (nonlinear_arith)
        requires
            new_wide <= 0x1_0000_0000,
            new_high <= 0x1_0000_0000,
    ;
    16 * wide * new_high <= limit && 16 * new_wide * new_high <= limit
}

} // verus!
