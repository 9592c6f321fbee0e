//! The crosshair image: decoded from the bytes of an image file that the user
//! names, or from the built-in one, into 8-bit RGBA pixels.
use vstd::prelude::*;

verus! {

/// A decoded image: its size and its RGBA8 pixels, row by row from the top.
pub struct RgbaImage {
    pub width: u32,
    pub height: u32,
    pub pixels: Vec<u8>,
}

/// The width, height and RGBA8 pixels (row by row from the top) that the
/// `image` crate decodes from the file contents `bytes` in the format that
/// the file name extension `extension` names, or `None` when the extension
/// names no format or the data does not decode in it.
pub uninterp spec fn decoded_rgba8(bytes: Seq<u8>, extension: Seq<char>) -> Option<(u32, u32, Seq<u8>)>;

/// `image::ImageFormat::from_extension` (case-insensitive, `None` for an
/// unknown extension), then `image::load_from_memory_with_format`, which
/// decodes in that built-in format, then `DynamicImage::to_rgba8`. The
/// contract names the result (`decoded_rgba8`) and states only that the
/// pixel buffer holds 4 bytes for each of the `w * h` pixels: every decoded
/// buffer is made for exactly `w * h` pixels, and `to_rgba8` copies or
/// converts pixel by pixel.
#[verifier::external_body]
fn decode_rgba8(bytes: &[u8], extension: &str) -> (img: Option<(u32, u32, Vec<u8>)>)
    ensures
        match img {
            Some((w, h, px)) => decoded_rgba8(bytes@, extension@) == Some((w, h, px@))
                && px@.len() == 4 * w * h,
            None => decoded_rgba8(bytes@, extension@) is None,
        },
{
    let format = image::ImageFormat::from_extension(extension)?;
    match image::load_from_memory_with_format(bytes, format) {
        Ok(img) => {
            let rgba = img.to_rgba8();
            Some((rgba.width(), rgba.height(), rgba.into_raw()))
        },
        Err(_) => None,
    }
}

/// The PNG file of the built-in crosshair: a white cross, two pixels thick,
/// with an open centre, on a transparent 64 by 64 square.
pub open spec fn builtin_crosshair_png() -> Seq<u8> {
    seq![
        0x89u8, 0x50u8, 0x4eu8, 0x47u8, 0x0du8, 0x0au8, 0x1au8, 0x0au8, 0x00u8, 0x00u8, 0x00u8, 0x0du8,
        0x49u8, 0x48u8, 0x44u8, 0x52u8, 0x00u8, 0x00u8, 0x00u8, 0x40u8, 0x00u8, 0x00u8, 0x00u8, 0x40u8,
        0x08u8, 0x06u8, 0x00u8, 0x00u8, 0x00u8, 0xaau8, 0x69u8, 0x71u8, 0xdeu8, 0x00u8, 0x00u8, 0x00u8,
        0x6bu8, 0x49u8, 0x44u8, 0x41u8, 0x54u8, 0x78u8, 0xdau8, 0xedu8, 0xd6u8, 0xc1u8, 0x09u8, 0x00u8,
        0x30u8, 0x08u8, 0x04u8, 0xc1u8, 0xebu8, 0xbfu8, 0xe9u8, 0xe4u8, 0x63u8, 0x0du8, 0x26u8, 0xe8u8,
        0x6cu8, 0x05u8, 0x32u8, 0x70u8, 0x60u8, 0xf2u8, 0xb0u8, 0x53u8, 0x65u8, 0x6bu8, 0x00u8, 0x00u8,
        0x00u8, 0x00u8, 0x00u8, 0x00u8, 0x00u8, 0x00u8, 0x00u8, 0x00u8, 0x00u8, 0x00u8, 0x00u8, 0x00u8,
        0x00u8, 0x00u8, 0x00u8, 0x00u8, 0x00u8, 0x00u8, 0x00u8, 0x00u8, 0x00u8, 0x00u8, 0x00u8, 0x00u8,
        0x00u8, 0x00u8, 0x00u8, 0x48u8, 0xeau8, 0xdeu8, 0x61u8, 0x57u8, 0xdfu8, 0xddu8, 0xb3u8, 0x1eu8,
        0x40u8, 0x92u8, 0x47u8, 0x08u8, 0x00u8, 0x00u8, 0x00u8, 0x00u8, 0x00u8, 0x00u8, 0x00u8, 0x00u8,
        0x00u8, 0x00u8, 0x00u8, 0x00u8, 0x00u8, 0x00u8, 0x00u8, 0x00u8, 0x00u8, 0x00u8, 0x00u8, 0x00u8,
        0x00u8, 0x00u8, 0x00u8, 0x00u8, 0x00u8, 0x00u8, 0x00u8, 0x00u8, 0x80u8, 0xf9u8, 0x00u8, 0x17u8,
        0x60u8, 0x9au8, 0x7cu8, 0xaeu8, 0x52u8, 0xecu8, 0x23u8, 0xd2u8, 0x00u8, 0x00u8, 0x00u8, 0x00u8,
        0x49u8, 0x45u8, 0x4eu8, 0x44u8, 0xaeu8, 0x42u8, 0x60u8, 0x82u8,
    ]
}

/// The bytes of the built-in crosshair's PNG file.
pub fn builtin_crosshair_bytes() -> (png: Vec<u8>)
    ensures
        png@ == builtin_crosshair_png(),
{
    let png: Vec<u8> = vec![
        0x89, 0x50, 0x4e, 0x47, 0x0d, 0x0a, 0x1a, 0x0a, 0x00, 0x00, 0x00, 0x0d,
        0x49, 0x48, 0x44, 0x52, 0x00, 0x00, 0x00, 0x40, 0x00, 0x00, 0x00, 0x40,
        0x08, 0x06, 0x00, 0x00, 0x00, 0xaa, 0x69, 0x71, 0xde, 0x00, 0x00, 0x00,
        0x6b, 0x49, 0x44, 0x41, 0x54, 0x78, 0xda, 0xed, 0xd6, 0xc1, 0x09, 0x00,
        0x30, 0x08, 0x04, 0xc1, 0xeb, 0xbf, 0xe9, 0xe4, 0x63, 0x0d, 0x26, 0xe8,
        0x6c, 0x05, 0x32, 0x70, 0x60, 0xf2, 0xb0, 0x53, 0x65, 0x6b, 0x00, 0x00,
        0x00, 0x00, 0x00, 0x00, 0x00, 0x00, 0x00, 0x00, 0x00, 0x00, 0x00, 0x00,
        0x00, 0x00, 0x00, 0x00, 0x00, 0x00, 0x00, 0x00, 0x00, 0x00, 0x00, 0x00,
        0x00, 0x00, 0x00, 0x48, 0xea, 0xde, 0x61, 0x57, 0xdf, 0xdd, 0xb3, 0x1e,
        0x40, 0x92, 0x47, 0x08, 0x00, 0x00, 0x00, 0x00, 0x00, 0x00, 0x00, 0x00,
        0x00, 0x00, 0x00, 0x00, 0x00, 0x00, 0x00, 0x00, 0x00, 0x00, 0x00, 0x00,
        0x00, 0x00, 0x00, 0x00, 0x00, 0x00, 0x00, 0x00, 0x80, 0xf9, 0x00, 0x17,
        0x60, 0x9a, 0x7c, 0xae, 0x52, 0xec, 0x23, 0xd2, 0x00, 0x00, 0x00, 0x00,
        0x49, 0x45, 0x4e, 0x44, 0xae, 0x42, 0x60, 0x82,
    ];
    assert(png@ =~= builtin_crosshair_png());
    png
}

/// The image that decoding gave, as an `RgbaImage`.
pub fn crosshair_from_decoded(decoded: Option<(u32, u32, Vec<u8>)>) -> (img: Option<RgbaImage>)
    ensures
        match decoded {
            Some((w, h, px)) => img matches Some(i) && i.width == w && i.height == h && i.pixels@
                == px@,
            None => img is None,
        },
{
    match decoded {
        Some((width, height, pixels)) => Some(RgbaImage { width, height, pixels }),
        None => None,
    }
}

/// The file contents and file name extension that the crosshair is decoded
/// from: the user's file if one was given, else the built-in PNG file.
pub open spec fn crosshair_source(custom: Option<(Seq<u8>, Seq<char>)>) -> (Seq<u8>, Seq<char>) {
    match custom {
        Some(file) => file,
        None => (builtin_crosshair_png(), "png"@),
    }
}

/// Decodes the crosshair: the contents of the user's image file, in the
/// format that its extension names, if one was given; else the built-in PNG
/// crosshair. `None` when those bytes do not decode.
pub fn load_crosshair_image(custom: Option<(&[u8], &str)>) -> (img: Option<RgbaImage>)
    ensures
        ({
            let (bytes, extension) = crosshair_source(
                match custom {
                    Some((bytes, extension)) => Some((bytes@, extension@)),
                    None => None,
                },
            );
            match img {
                Some(i) => decoded_rgba8(bytes, extension) == Some((i.width, i.height, i.pixels@))
                    && i.pixels@.len() == 4 * i.width * i.height,
                None => decoded_rgba8(bytes, extension) is None,
            }
        }),
{
    let decoded = match custom {
        Some((bytes, extension)) => decode_rgba8(bytes, extension),
        None => {
            let builtin = builtin_crosshair_bytes();
            decode_rgba8(builtin.as_slice(), "png")
        },
    };
    crosshair_from_decoded(decoded)
}

} // verus!
