//! Reading and writing PNG files in memory, through the `png` crate.

use vstd::prelude::*;

verus! {

/// The error type of `png`'s decoder.
#[verifier::external_type_specification]
#[verifier::external_body]
pub struct ExDecodingError(png::DecodingError);

/// The error type of `png`'s encoder.
#[verifier::external_type_specification]
#[verifier::external_body]
pub struct ExEncodingError(png::EncodingError);

/// The color types that are supported, by the numbers that the format gives them.
pub const GRAYSCALE: u8 = 0;

pub const RGB: u8 = 2;

pub const GRAYSCALE_ALPHA: u8 = 4;

pub const RGBA: u8 = 6;

/// A frame as the decoder hands it out.
pub struct RawFrame {
    pub width: u32,
    pub height: u32,
    /// The color type's number.
    pub color: u8,
    /// Bits per sample.
    pub depth: u8,
    /// How many bytes of `data` belong to the frame.
    pub size: usize,
    pub data: Vec<u8>,
}

/// What a [`RawFrame`] holds.
pub struct Raw {
    pub width: u32,
    pub height: u32,
    pub color: u8,
    pub depth: u8,
    pub size: usize,
    pub data: Seq<u8>,
}

impl View for RawFrame {
    type V = Raw;

    open spec fn view(&self) -> Raw {
        Raw {
            width: self.width,
            height: self.height,
            color: self.color,
            depth: self.depth,
            size: self.size,
            data: self.data@,
        }
    }
}

/// How far reading a PNG got before it failed.
#[derive(Debug, Clone, Copy, PartialEq, Eq, Structural)]
pub enum PngFault {
    /// The header could not be read.
    Header,
    /// The pixels do not fit into memory.
    TooLarge,
    /// The pixels could not be decoded.
    Frame,
}

/// What `png` makes of the first frame of a file, on a machine whose largest
/// `usize` is `word`.
pub uninterp spec fn first_frame_of(bytes: Seq<u8>, word: nat) -> Result<Raw, PngFault>;

/// Decodes the first frame of a PNG file: `png::Decoder::new` on the bytes,
/// `Decoder::read_info`, a buffer of `Reader::output_buffer_size` bytes, and
/// `Reader::next_frame` into it. The result is named, not described; it rests
/// on nothing but the bytes and, through the size check, the width of `usize`.
/// The outer error comes from `read_info` (`Some`) or from a missing buffer
/// size (`None`), the inner one from `next_frame`. A machine that has no room
/// for the buffer ends the program, as with any allocation.
#[verifier::external_body]
pub(crate) fn first_frame(bytes: &[u8]) -> (r: Result<
    Result<RawFrame, png::DecodingError>,
    Option<png::DecodingError>,
>)
    ensures
        match r {
            Err(Some(_)) => first_frame_of(bytes@, usize::MAX as nat) == Err::<Raw, PngFault>(
                PngFault::Header,
            ),
            Err(None) => first_frame_of(bytes@, usize::MAX as nat) == Err::<Raw, PngFault>(
                PngFault::TooLarge,
            ),
            Ok(Err(_)) => first_frame_of(bytes@, usize::MAX as nat) == Err::<Raw, PngFault>(
                PngFault::Frame,
            ),
            Ok(Ok(f)) => first_frame_of(bytes@, usize::MAX as nat) == Ok::<Raw, PngFault>(f@),
        },
{
    let decoder = png::Decoder::new(std::io::Cursor::new(bytes));
    let mut reader = decoder.read_info().map_err(Some)?;
    let mut data = vec![0u8; reader.output_buffer_size().ok_or(None)?];
    Ok(reader.next_frame(&mut data).map(|i| RawFrame {
        width: i.width,
        height: i.height,
        color: i.color_type as u8,
        depth: i.bit_depth as u8,
        size: i.buffer_size(),
        data,
    }))
}

/// The frame that eight-bit RGBA pixels make.
pub open spec fn pixels_of(pixels: Seq<u8>, width: u32, height: u32) -> Result<Raw, PngFault> {
    Ok(Raw { width, height, color: RGBA, depth: 8, size: pixels.len() as usize, data: pixels })
}

/// Encodes pixels as a PNG file: `png::Encoder::new` for a file of this size,
/// `set_color` and `set_depth` for eight-bit RGBA, `Encoder::write_header`,
/// `Writer::write_image_data`, and the end of the file, which the writer adds
/// when it is dropped. The encoder refuses a size of zero and data of another
/// length than the size asks for, and writing to memory does not fail. PNG
/// loses nothing: the file decodes to the pixels that went in.
#[verifier::external_body]
pub(crate) fn encode_rgba(pixels: &[u8], width: u32, height: u32) -> (r: Result<
    Vec<u8>,
    png::EncodingError,
>)
    requires
        width <= 0x1000,
        height <= 0x1000,
    ensures
        (r is Ok) == (width != 0 && height != 0 && pixels.len() == width * height * 4),
        r matches Ok(file) ==> first_frame_of(file@, usize::MAX as nat) == pixels_of(
            pixels@,
            width,
            height,
        ),
{
    let mut file = Vec::new();
    let mut encoder = png::Encoder::new(&mut file, width, height);
    encoder.set_color(png::ColorType::Rgba);
    encoder.set_depth(png::BitDepth::Eight);
    let mut writer = encoder.write_header()?;
    writer.write_image_data(pixels)?;
    drop(writer);
    Ok(file)
}

} // verus!
