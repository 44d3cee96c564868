//! Frames as text that a browser can show.

use crate::guiding::frame::is_frame;
use vstd::prelude::*;

verus! {

/// The character of the base 64 alphabet with this value.
pub open spec fn base64_char(v: int) -> char {
    if v < 26 {
        (65 + v) as char
    } else if v < 52 {
        (97 + (v - 26)) as char
    } else if v < 62 {
        (48 + (v - 52)) as char
    } else if v == 62 {
        '+'
    } else {
        '/'
    }
}

/// The bytes in base 64: each three bytes become four characters, and the last
/// group is filled up with equals signs.
pub open spec fn base64(bytes: Seq<u8>) -> Seq<char>
    decreases bytes.len(),
{
    if bytes.len() == 0 {
        Seq::empty()
    } else if bytes.len() == 1 {
        let n = bytes[0] as int;
        seq![base64_char(n / 4), base64_char(n % 4 * 16), '=', '=']
    } else if bytes.len() == 2 {
        let n = bytes[0] as int * 256 + bytes[1] as int;
        seq![
            base64_char(n / 1024),
            base64_char(n / 16 % 64),
            base64_char(n % 16 * 4),
            '=',
        ]
    } else {
        let n = bytes[0] as int * 65536 + bytes[1] as int * 256 + bytes[2] as int;
        seq![
            base64_char(n / 262144),
            base64_char(n / 4096 % 64),
            base64_char(n / 64 % 64),
            base64_char(n % 64),
        ] + base64(bytes.skip(3))
    }
}

/// The bytes in base 64 can be held in memory: no value takes more than
/// `isize::MAX` bytes.
pub open spec fn fits_in_memory(bytes: Seq<u8>) -> bool {
    base64(bytes).len() <= isize::MAX
}

/// `base64::Engine::encode` of the engine `STANDARD`: the bytes in the standard
/// base 64 alphabet, with padding. The text has to fit in memory.
#[verifier::external_body]
fn encode_base64(bytes: &[u8]) -> (r: String)
    requires
        fits_in_memory(bytes@),
    ensures
        r@ == base64(bytes@),
{
    base64::Engine::encode(&base64::engine::general_purpose::STANDARD, bytes)
}

/// The grey pixels of a picture of this size as a JPEG file: what
/// `image::codecs::jpeg::JpegEncoder` writes at its default quality.
pub uninterp spec fn jpeg_of(pixels: Seq<u8>, width: u32, height: u32) -> Seq<u8>;

/// `image::codecs::jpeg::JpegEncoder::encode` of grey pixels into memory: the
/// bytes of a JPEG file, or nothing where a side is longer than the format
/// allows. What the bytes are is a function of the picture and is left to the
/// encoder.
#[verifier::external_body]
fn encode_jpeg(pixels: &[u8], width: u32, height: u32) -> (r: Option<Vec<u8>>)
    requires
        is_frame(width, height, pixels@),
    ensures
        match r {
            Some(bytes) => width <= 0xffff && height <= 0xffff && bytes@ == jpeg_of(
                pixels@,
                width,
                height,
            ),
            None => width > 0xffff || height > 0xffff,
        },
{
    let mut bytes = Vec::new();
    let mut encoder = image::codecs::jpeg::JpegEncoder::new(&mut bytes);
    encoder.encode(pixels, width, height, image::ColorType::L8).ok()?;
    Some(bytes)
}

/// A JPEG file in base 64; nothing where the text does not fit in memory.
pub fn picture_of_jpeg(jpeg: &[u8]) -> (r: Option<String>)
    ensures
        match r {
            Some(s) => fits_in_memory(jpeg@) && s@ == base64(jpeg@),
            None => !fits_in_memory(jpeg@),
        },
{
    proof {
        law_base64_length(jpeg@);
    }
    let limit: usize = isize::MAX as usize / 4 * 3;
    if jpeg.len() > limit {
        None
    } else {
        Some(encode_base64(jpeg))
    }
}

/// A frame as a JPEG file in base 64; nothing where a side is longer than the
/// format allows or the text does not fit in memory.
pub fn frame_picture(pixels: &[u8], width: u32, height: u32) -> (r: Option<String>)
    requires
        is_frame(width, height, pixels@),
    ensures
        match r {
            Some(s) => {
                &&& width <= 0xffff && height <= 0xffff
                &&& fits_in_memory(jpeg_of(pixels@, width, height))
                &&& s@ == base64(jpeg_of(pixels@, width, height))
            },
            None => width > 0xffff || height > 0xffff || !fits_in_memory(
                jpeg_of(pixels@, width, height),
            ),
        },
{
    match encode_jpeg(pixels, width, height) {
        Some(jpeg) => picture_of_jpeg(jpeg.as_slice()),
        None => None,
    }
}

/// The text has four characters for each three bytes that have begun.
pub proof fn law_base64_length(bytes: Seq<u8>)
    ensures
        base64(bytes).len() == (bytes.len() + 2) / 3 * 4,
    decreases bytes.len(),
{
    if bytes.len() > 2 {
        law_base64_length(bytes.skip(3));
    }
}

} // verus!
