//! Reading an icon from the bytes of a PNG file.

use vstd::prelude::*;

use crate::error::WindowsTrayError;
use crate::icon::fits;
use crate::model::TrayIcon;
use crate::pixels::{
    to_bgra_image, BgraImage, BgraView, ColorType, DecodedImage, DecodedView,
};

verus! {

/// An error of the PNG decoder.
#[verifier::external_type_specification]
#[verifier::external_body]
pub struct ExDecodingError(png::DecodingError);

/// What a PNG file says of its image before the image itself comes.
#[derive(Debug)]
pub struct FileInfo {
    pub width: u32,
    pub height: u32,
    /// How many samples a pixel of the decoded image will have.
    pub samples: usize,
    /// Whether the lines of the image come in several passes.
    pub interlaced: bool,
    /// The number of the colour type in the file.
    pub color: u8,
    pub palette: Option<Vec<u8>>,
    /// How many frames an animation announces, where the file is one.
    pub frames: Option<u32>,
    /// The width and the height of the image, where it is a frame of the animation.
    pub frame: Option<(u32, u32)>,
}

/// What a PNG file says of its image, with the palette as a sequence.
pub struct FileView {
    pub width: u32,
    pub height: u32,
    pub samples: usize,
    pub interlaced: bool,
    pub color: u8,
    pub palette: Option<Seq<u8>>,
    pub frames: Option<u32>,
    pub frame: Option<(u32, u32)>,
}

impl View for FileInfo {
    type V = FileView;

    open spec fn view(&self) -> FileView {
        FileView {
            width: self.width,
            height: self.height,
            samples: self.samples,
            interlaced: self.interlaced,
            color: self.color,
            palette: match self.palette {
                Some(entries) => Some(entries@),
                None => None,
            },
            frames: self.frames,
            frame: self.frame,
        }
    }
}

/// What the PNG decoder reads in the bytes of a file up to the image data, or
/// nothing where it reports an error. It does not count beyond a limit.
pub uninterp spec fn png_info(bytes: Seq<u8>, limit: int) -> Option<FileView>;

/// Whether the PNG decoder comes to the end of the bytes of a file before it comes
/// to image data, and has nothing else to report. It does not count beyond a
/// limit.
pub uninterp spec fn png_runs_out(bytes: Seq<u8>, limit: int) -> bool;

/// Whether the PNG decoder reads the first line of the image data of a file. It
/// does not count beyond a limit.
pub uninterp spec fn png_row_reads(bytes: Seq<u8>, limit: int) -> bool;

/// What the PNG decoder makes of the bytes of a file, with every sample brought
/// to eight bits and palettes resolved: the first image in the file, or nothing
/// where it reports an error. It does not count beyond a limit.
pub uninterp spec fn png_image(bytes: Seq<u8>, limit: int) -> Option<DecodedView>;

/// The tag of the chunk that gives the size of an image.
pub const IHDR: u32 = 0x49484452;

/// The tag of the chunk that gives the transparency of an image.
pub const TRNS: u32 = 0x74524E53;

/// The tag of the chunk that announces the frames of an animation.
pub const ACTL: u32 = 0x6163544C;

/// The tag of the chunk that gives the size of one frame of an animation.
pub const FCTL: u32 = 0x6663544C;

/// The tag of image data.
pub const IDAT: u32 = 0x49444154;

/// The tag of image data in an animation.
pub const FDAT: u32 = 0x66644154;

/// The number of the colour type of grey samples.
pub const GREY: u8 = 0;

/// The number of the colour type whose samples point into a palette.
pub const INDEXED: u8 = 3;

/// The length of the longest palette, in bytes.
pub const PALETTE_BYTES: usize = 768;

/// The 32-bit number that stands at a place, most significant byte first.
pub open spec fn number_at(bytes: Seq<u8>, at: int) -> int {
    bytes[at] * 0x1000000 + bytes[at + 1] * 0x10000 + bytes[at + 2] * 0x100 + bytes[at + 3]
}

/// The tag of the chunk at a place.
pub open spec fn tag_at(bytes: Seq<u8>, at: int) -> int {
    number_at(bytes, at + 4)
}

/// Whether a whole chunk stands at a place, and is no image data.
pub open spec fn whole_chunk(bytes: Seq<u8>, at: int) -> bool {
    &&& 0 <= at
    &&& at + 12 <= bytes.len()
    &&& tag_at(bytes, at) != IDAT
    &&& tag_at(bytes, at) != FDAT
    &&& at + 12 + number_at(bytes, at) <= bytes.len()
}

/// Where the chunk after one starts.
pub open spec fn next_chunk(bytes: Seq<u8>, at: int) -> int {
    at + 12 + number_at(bytes, at)
}

/// Where the first image data starts, from a place on.
pub open spec fn image_data(bytes: Seq<u8>, at: int) -> Option<int>
    decreases bytes.len() - at,
{
    if whole_chunk(bytes, at) {
        image_data(bytes, next_chunk(bytes, at))
    } else if 0 <= at && at + 8 <= bytes.len() && (tag_at(bytes, at) == IDAT || tag_at(bytes, at)
        == FDAT) {
        Some(at)
    } else {
        None
    }
}

/// Where the last chunk with a tag starts, of those from a place on that hold
/// something and come before any image data.
pub open spec fn last_chunk(bytes: Seq<u8>, at: int, tag: u32) -> Option<int>
    decreases bytes.len() - at,
{
    if whole_chunk(bytes, at) {
        match last_chunk(bytes, next_chunk(bytes, at), tag) {
            Some(later) => Some(later),
            None => if tag_at(bytes, at) == tag && number_at(bytes, at) > 0 {
                Some(at)
            } else {
                None
            },
        }
    } else {
        None
    }
}

/// Where the chunks of a file start.
pub const FIRST_CHUNK: usize = 8;

/// The length of a chunk that gives the size of an image.
pub const IHDR_BYTES: u32 = 13;

/// The length of a chunk that gives the size of one frame.
pub const FCTL_BYTES: u32 = 26;

/// The width of the first image of a file: that of the frame, where the image is
/// one.
pub open spec fn line_width(bytes: Seq<u8>, header: int) -> int {
    match last_chunk(bytes, FIRST_CHUNK as int, FCTL) {
        Some(frame) => number_at(bytes, frame + 12),
        None => number_at(bytes, header + 8),
    }
}

/// Whether the decoder loses count of the bytes of a line. It finds out how long a
/// line is when it comes to the image data. Where transparency was added, that is
/// more than it made sure of at the header.
pub open spec fn loses_line(bytes: Seq<u8>) -> bool {
    let frame = last_chunk(bytes, FIRST_CHUNK as int, FCTL);
    &&& image_data(bytes, FIRST_CHUNK as int) matches Some(data) && {
        &&& last_chunk(bytes, FIRST_CHUNK as int, IHDR) matches Some(header) && {
            &&& number_at(bytes, header) >= IHDR_BYTES
            &&& frame matches Some(at) ==> number_at(bytes, at) >= FCTL_BYTES
            &&& frame is Some || tag_at(bytes, data) == IDAT
            &&& last_chunk(bytes, FIRST_CHUNK as int, TRNS) is Some
            &&& line_width(bytes, header) * (if bytes[header + 17] == GREY {
                2int
            } else {
                4
            }) > usize::MAX
            &&& png_runs_out(bytes.take(data), usize::MAX as int)
        }
    }
}

/// A chunk that announces one frame.
pub open spec fn one_frame() -> Seq<u8> {
    seq![0, 0, 0, 8, 0x61, 0x63, 0x54, 0x4C, 0, 0, 0, 1, 0, 0, 0, 0, 0xB4, 0x2D, 0xE9, 0xA0]
}

/// A file that announces one frame, and is otherwise the same up to its image data.
pub open spec fn with_one_frame(bytes: Seq<u8>, data: int) -> Seq<u8> {
    bytes.take(data) + one_frame() + bytes.skip(data)
}

/// Whether the decoder loses count of the frames. Where the image is not one of the
/// frames that are announced, it counts one more when it has come to the image data,
/// and the highest number that a file can announce may be the highest there is.
pub open spec fn loses_frames(bytes: Seq<u8>) -> bool {
    &&& usize::MAX == u32::MAX
    &&& image_data(bytes, FIRST_CHUNK as int) matches Some(data) && {
        &&& last_chunk(bytes, FIRST_CHUNK as int, FCTL) is None
        &&& last_chunk(bytes, FIRST_CHUNK as int, ACTL) matches Some(control) && number_at(
            bytes,
            control + 8,
        ) == u32::MAX
        &&& loses_line(with_one_frame(bytes, data)) || png_info(
            with_one_frame(bytes, data),
            usize::MAX as int,
        ) is Some
    }
}

/// Whether the machine can count what the decoder counts up to the image data. One
/// that counts to 64 bits always can.
pub open spec fn countable(bytes: Seq<u8>) -> bool {
    &&& !loses_line(bytes)
    &&& !loses_frames(bytes)
}

impl FileView {
    /// Whether there can be room for the decoded image.
    pub open spec fn has_room(self) -> bool {
        self.width * self.height * self.samples <= isize::MAX
    }

    /// Whether there is a frame to be decoded.
    pub open spec fn has_frame(self) -> bool {
        !(self.frame is Some && self.frames == Some(0u32))
    }

    /// Whether the palette of an image whose samples point into one is made of
    /// whole entries and has no more than a sample can point to.
    pub open spec fn has_sound_palette(self) -> bool {
        self.color == INDEXED ==> (self.palette matches Some(entries) ==> entries.len()
            % 3 == 0 && entries.len() <= PALETTE_BYTES)
    }

    /// The width of the first image.
    pub open spec fn frame_width(self) -> u32 {
        match self.frame {
            Some(size) => size.0,
            None => self.width,
        }
    }

    /// The height of the first image.
    pub open spec fn frame_height(self) -> u32 {
        match self.frame {
            Some(size) => size.1,
            None => self.height,
        }
    }

    /// Whether the machine can count the bits of the decoded image up to its last
    /// pixel, as the decoder does where lines come in several passes.
    pub open spec fn has_countable_bits(self) -> bool {
        self.interlaced ==> ((self.frame_height() - 1) * self.width + self.frame_width() - 1)
            * self.samples * 8 <= usize::MAX
    }
}

/// Whether the decoder takes the bytes, be it to report an error. On others it
/// can panic: where the machine cannot count what the decoder counts, where there
/// is no room for the image, and, once the first line was read, where samples
/// point into a palette that is not made of whole entries or has too many of them.
pub open spec fn decodable(bytes: Seq<u8>) -> bool {
    bytes.len() > 0 ==> {
        &&& countable(bytes)
        &&& png_info(bytes, usize::MAX as int) matches Some(info) ==> {
            &&& info.has_room()
            &&& info.has_frame() && png_row_reads(bytes, usize::MAX as int)
                ==> info.has_sound_palette() && info.has_countable_bits()
        }
    }
}

/// What an icon looks like to the system.
pub open spec fn icon_image(bytes: Seq<u8>) -> Result<BgraView, WindowsTrayError> {
    if bytes.len() == 0 {
        Err(WindowsTrayError::BadIcon)
    } else {
        match png_image(bytes, usize::MAX as int) {
            Some(decoded) => crate::pixels::bgra_image(decoded),
            None => Err(WindowsTrayError::BadIcon),
        }
    }
}

/// Whether an icon can be made of the bytes of a file, or found to be bad: the
/// decoder takes the bytes, and the image, if there is one, makes a bitmap.
pub open spec fn icon_fits(bytes: Seq<u8>) -> bool {
    &&& decodable(bytes)
    &&& icon_image(bytes) matches Ok(image) ==> crate::icon::image_fits(image)
}

/// Whether the image in a file has pixels, but more than a bitmap can hold.
pub open spec fn makes_no_bitmap(bytes: Seq<u8>) -> bool {
    png_image(bytes, usize::MAX as int) matches Some(decoded) && decoded.width > 0
        && decoded.height > 0 && !crate::icon::bitmap_fits(decoded.width, decoded.height)
}

/// Whether the decoder gets to no line of an image: there are no bytes, it reports
/// an error before the image data, there is no frame, or it reports an error at
/// the first line.
pub open spec fn unreadable(bytes: Seq<u8>) -> bool {
    bytes.len() > 0 ==> {
        &&& countable(bytes)
        &&& png_info(bytes, usize::MAX as int) matches Some(info) ==> {
            &&& info.has_room()
            &&& !(info.has_frame() && png_row_reads(bytes, usize::MAX as int))
        }
    }
}

/// Reads what comes before the image data of a PNG file with
/// `png::Decoder::read_info`, the output normalised to eight bits, and gives what
/// `Reader::info` and `Reader::output_color_type` then hold, the colour type by its
/// number.
///
/// Claimed of it: what comes out depends on the bytes and on how far the machine
/// counts, and on nothing else; a pixel has one to four samples; and no call
/// panics on the bytes that `countable` admits.
#[verifier::external_body]
fn read_png_info(bytes: &[u8]) -> (out: Result<FileInfo, png::DecodingError>)
    requires
        countable(bytes@),
    ensures
        match out {
            Ok(info) => png_info(bytes@, usize::MAX as int) == Some(info@),
            Err(_) => png_info(bytes@, usize::MAX as int) is None,
        },
        out matches Ok(info) ==> 1 <= info.samples <= 4,
{
    let mut decoder = png::Decoder::new(std::io::Cursor::new(bytes));
    decoder.set_transformations(png::Transformations::normalize_to_color8());
    let reader = decoder.read_info()?;
    let info = reader.info();
    let (width, height, interlaced) = (info.width, info.height, info.interlaced);
    let color: u8 = info.color_type as u8;
    let samples = reader.output_color_type().0.samples();
    let palette = info.palette.clone().map(std::borrow::Cow::into_owned);
    let frames = info.animation_control.map(|control| control.num_frames);
    let frame = info.frame_control.map(|control| (control.width, control.height));
    Ok(FileInfo { width, height, samples, interlaced, color, palette, frames, frame })
}

/// Reads a PNG file without image data with `png::Decoder::read_info`, and tells
/// whether the error that it must report is that there are no more bytes.
///
/// Claimed of it: the answer depends on the bytes and on how far the machine counts,
/// and on nothing else; and no call panics where there is no image data.
#[verifier::external_body]
fn runs_out(bytes: &[u8]) -> (answer: bool)
    requires
        image_data(bytes@, FIRST_CHUNK as int) is None,
    ensures
        answer == png_runs_out(bytes@, usize::MAX as int),
{
    let mut decoder = png::Decoder::new(std::io::Cursor::new(bytes));
    decoder.set_transformations(png::Transformations::normalize_to_color8());
    match decoder.read_info() {
        Ok(_) => false,
        Err(png::DecodingError::IoError(_)) => true,
        Err(png::DecodingError::Format(_)) => false,
        Err(png::DecodingError::Parameter(_)) => false,
        Err(png::DecodingError::LimitsExceeded) => false,
    }
}

/// Reads the first line of the image data of a PNG file with
/// `png::Reader::next_row`. Samples of sixteen bits lose their lower byte, so that
/// the line is no longer than that of the decoded image; palettes are left alone.
///
/// Claimed of it: whether there is a line depends on the bytes and on how far the
/// machine counts, and on nothing else; and no call panics where there is a frame
/// to be decoded.
#[verifier::external_body]
fn read_png_row(bytes: &[u8]) -> (out: Result<(), png::DecodingError>)
    requires
        countable(bytes@),
        png_info(bytes@, usize::MAX as int) matches Some(info) && info.has_frame(),
    ensures
        match out {
            Ok(_) => png_row_reads(bytes@, usize::MAX as int),
            Err(_) => !png_row_reads(bytes@, usize::MAX as int),
        },
{
    let mut decoder = png::Decoder::new(std::io::Cursor::new(bytes));
    decoder.set_transformations(png::Transformations::STRIP_16);
    let mut reader = decoder.read_info()?;
    reader.next_row()?;
    Ok(())
}

/// Decodes the first image of a PNG file with `png::Decoder`, its output
/// normalised to eight bits by `Transformations::normalize_to_color8`, into a
/// buffer of the size that the reader asks for.
///
/// Claimed of it: what comes out depends on the bytes and on how far the machine
/// counts, and on nothing else; the samples of an image fill its width and height
/// exactly, one byte each, and none points into a palette; there is no image where
/// `read_png_info` reports an error, nor where there is no frame, nor where
/// `read_png_row` reports one; and, given the memory for the image, no call panics
/// on the bytes that `decodable` admits. What the samples are is not stated.
#[verifier::external_body]
fn decode_png(bytes: &[u8]) -> (out: Result<DecodedImage, png::DecodingError>)
    requires
        bytes@.len() > 0,
        decodable(bytes@),
    ensures
        match out {
            Ok(image) => png_image(bytes@, usize::MAX as int) == Some(image@),
            Err(_) => png_image(bytes@, usize::MAX as int) is None,
        },
        out matches Ok(image) ==> image@.data.len() == image@.width * image@.height
            * crate::pixels::samples(image@.color),
        out matches Ok(image) ==> image@.color != ColorType::Indexed,
        out is Ok ==> (png_info(bytes@, usize::MAX as int) matches Some(info)
            && info.has_frame()),
        out is Ok ==> png_row_reads(bytes@, usize::MAX as int),
{
    let mut decoder = png::Decoder::new(std::io::Cursor::new(bytes));
    decoder.set_transformations(png::Transformations::normalize_to_color8());
    let mut reader = decoder.read_info()?;
    let mut data: Vec<u8> = vec![0; reader.output_buffer_size()];
    let info = reader.next_frame(&mut data)?;
    data.truncate(info.buffer_size());
    let color = match info.color_type {
        png::ColorType::Grayscale => ColorType::Grayscale,
        png::ColorType::Rgb => ColorType::Rgb,
        png::ColorType::Indexed => ColorType::Indexed,
        png::ColorType::GrayscaleAlpha => ColorType::GrayscaleAlpha,
        png::ColorType::Rgba => ColorType::Rgba,
    };
    Ok(DecodedImage { width: info.width, height: info.height, color, data })
}

/// Reads the 32-bit number at a place, most significant byte first.
fn read_number(bytes: &[u8], at: usize) -> (number: u32)
    requires
        at + 4 <= bytes@.len(),
    ensures
        number == number_at(bytes@, at as int),
{
    bytes[at] as u32 * 0x1000000 + bytes[at + 1] as u32 * 0x10000 + bytes[at + 2] as u32 * 0x100
        + bytes[at + 3] as u32
}

/// Finds where the first image data starts.
pub fn find_image_data(bytes: &[u8]) -> (found: Option<usize>)
    ensures
        match found {
            Some(data) => image_data(bytes@, FIRST_CHUNK as int) == Some(data as int),
            None => image_data(bytes@, FIRST_CHUNK as int) is None,
        },
        found matches Some(data) ==> data + 8 <= bytes@.len() <= usize::MAX,
{
    let mut at: usize = FIRST_CHUNK;
    while at <= bytes.len() && bytes.len() - at >= 8
        invariant
            image_data(bytes@, FIRST_CHUNK as int) == image_data(bytes@, at as int),
        decreases bytes@.len() - at,
    {
        let tag: u32 = read_number(bytes, at + 4);
        if tag == IDAT || tag == FDAT {
            return Some(at);
        }
        let length: u32 = read_number(bytes, at);
        let left: usize = bytes.len() - at;
        if left < 12 || length as u64 > (left - 12) as u64 {
            return None;
        }
        at = at + 12 + length as usize;
    }
    None
}

/// Finds the last chunk with a tag, of those that hold something and come before
/// any image data.
pub fn find_last_chunk(bytes: &[u8], tag: u32) -> (found: Option<usize>)
    ensures
        match found {
            Some(at) => last_chunk(bytes@, FIRST_CHUNK as int, tag) == Some(at as int),
            None => last_chunk(bytes@, FIRST_CHUNK as int, tag) is None,
        },
        found matches Some(at) ==> whole_chunk(bytes@, at as int) && number_at(bytes@, at as int)
            > 0 && bytes@.len() <= usize::MAX,
{
    let mut found: Option<usize> = None;
    let mut at: usize = FIRST_CHUNK;
    while at <= bytes.len() && bytes.len() - at >= 12
        invariant
            last_chunk(bytes@, FIRST_CHUNK as int, tag) == match last_chunk(
                bytes@,
                at as int,
                tag,
            ) {
                Some(later) => Some(later),
                None => match found {
                    Some(here) => Some(here as int),
                    None => None,
                },
            },
            found matches Some(here) ==> whole_chunk(bytes@, here as int) && number_at(
                bytes@,
                here as int,
            ) > 0,
        decreases bytes@.len() - at,
    {
        let kind: u32 = read_number(bytes, at + 4);
        let length: u32 = read_number(bytes, at);
        let left: usize = bytes.len() - at;
        if kind == IDAT || kind == FDAT || length as u64 > (left - 12) as u64 {
            return found;
        }
        if kind == tag && length > 0 {
            found = Some(at);
        }
        at = at + 12 + length as usize;
    }
    found
}

/// Image data starts where the walk over the chunks ends, or after it.
proof fn lemma_image_data_ahead(bytes: Seq<u8>, at: int)
    ensures
        image_data(bytes, at) matches Some(data) ==> at <= data && data + 8 <= bytes.len(),
    decreases bytes.len() - at,
{
    if whole_chunk(bytes, at) {
        lemma_image_data_ahead(bytes, next_chunk(bytes, at));
    }
}

/// There is no image data in what comes before the first.
proof fn lemma_nothing_before(bytes: Seq<u8>, at: int, data: int)
    requires
        image_data(bytes, at) == Some(data),
    ensures
        image_data(bytes.take(data), at) is None,
    decreases bytes.len() - at,
{
    lemma_image_data_ahead(bytes, at);
    if whole_chunk(bytes, at) {
        lemma_image_data_ahead(bytes, next_chunk(bytes, at));
        lemma_nothing_before(bytes, next_chunk(bytes, at), data);
    }
}

/// A file with one frame announces just that.
proof fn lemma_one_frame(bytes: Seq<u8>, at: int, data: int)
    requires
        0 <= at,
        image_data(bytes, at) == Some(data),
    ensures
        last_chunk(with_one_frame(bytes, data), at, ACTL) == Some(data),
        number_at(with_one_frame(bytes, data), data + 8) == 1,
    decreases bytes.len() - at,
{
    let other = with_one_frame(bytes, data);
    lemma_image_data_ahead(bytes, at);
    assert(forall|i: int| 0 <= i < data ==> other[i] == bytes[i]);
    assert(forall|i: int| 0 <= i < 20 ==> other[data + i] == #[trigger] one_frame()[i]);
    assert(forall|i: int| data <= i < bytes.len() ==> other[i + 20] == #[trigger] bytes[i]);
    assert(one_frame()[0] == 0 && one_frame()[1] == 0 && one_frame()[2] == 0 && one_frame()[3]
        == 8);
    assert(one_frame()[4] == 0x61 && one_frame()[5] == 0x63 && one_frame()[6] == 0x54
        && one_frame()[7] == 0x4C);
    assert(one_frame()[8] == 0 && one_frame()[9] == 0 && one_frame()[10] == 0 && one_frame()[11]
        == 1);
    assert(other[data] == one_frame()[0] && other[data + 1] == one_frame()[1] && other[data + 2]
        == one_frame()[2] && other[data + 3] == one_frame()[3]);
    if whole_chunk(bytes, at) {
        lemma_image_data_ahead(bytes, next_chunk(bytes, at));
        lemma_one_frame(bytes, next_chunk(bytes, at), data);
        assert(number_at(other, at) == number_at(bytes, at));
        assert(tag_at(other, at) == tag_at(bytes, at));
        assert(whole_chunk(other, at));
    } else {
        assert(at == data);
        let after = data + 20;
        assert(number_at(other, data) == 8);
        assert(tag_at(other, data) == ACTL);
        assert(other[after + 4] == bytes[data + 4] && other[after + 5] == bytes[data + 5]
            && other[after + 6] == bytes[data + 6] && other[after + 7] == bytes[data + 7]);
        assert(tag_at(other, after) == tag_at(bytes, data));
        assert(!whole_chunk(other, after));
        assert(last_chunk(other, after, ACTL) is None);
        assert(next_chunk(other, data) == after);
        assert(whole_chunk(other, data));
    }
}

/// Whether the decoder loses count of the bytes of a line.
fn is_line_lost(bytes: &[u8]) -> (answer: bool)
    ensures
        answer == loses_line(bytes@),
{
    let data: usize = match find_image_data(bytes) {
        Some(data) => data,
        None => return false,
    };
    let header: usize = match find_last_chunk(bytes, IHDR) {
        Some(header) => header,
        None => return false,
    };
    if read_number(bytes, header) < IHDR_BYTES || find_last_chunk(bytes, TRNS).is_none() {
        return false;
    }
    let width: u32 = match find_last_chunk(bytes, FCTL) {
        Some(frame) => {
            if read_number(bytes, frame) < FCTL_BYTES {
                return false;
            }
            read_number(bytes, frame + 12)
        },
        None => {
            if read_number(bytes, data + 4) != IDAT {
                return false;
            }
            read_number(bytes, header + 8)
        },
    };
    let samples: u128 = if bytes[header + 17] == GREY {
        2
    } else {
        4
    };
    if width as u128 * samples <= usize::MAX as u128 {
        return false;
    }
    proof {
        lemma_nothing_before(bytes@, FIRST_CHUNK as int, data as int);
    }
    runs_out(vstd::slice::slice_subrange(bytes, 0, data))
}

/// A copy of a file that announces one frame.
pub fn announce_one_frame(bytes: &[u8], data: usize) -> (other: Vec<u8>)
    requires
        data <= bytes@.len(),
    ensures
        other@ == with_one_frame(bytes@, data as int),
{
    let mut other: Vec<u8> = Vec::new();
    other.extend_from_slice(vstd::slice::slice_subrange(bytes, 0, data));
    let chunk: [u8; 20] = [
        0, 0, 0, 8, 0x61, 0x63, 0x54, 0x4C, 0, 0, 0, 1, 0, 0, 0, 0, 0xB4, 0x2D, 0xE9, 0xA0,
    ];
    other.extend_from_slice(chunk.as_slice());
    other.extend_from_slice(vstd::slice::slice_subrange(bytes, data, bytes.len()));
    assert(other@ =~= with_one_frame(bytes@, data as int));
    other
}

/// Whether the decoder loses count of the frames.
fn are_frames_lost(bytes: &[u8]) -> (answer: bool)
    ensures
        answer == loses_frames(bytes@),
{
    if usize::MAX as u64 != u32::MAX as u64 {
        return false;
    }
    let data: usize = match find_image_data(bytes) {
        Some(data) => data,
        None => return false,
    };
    if find_last_chunk(bytes, FCTL).is_some() {
        return false;
    }
    match find_last_chunk(bytes, ACTL) {
        Some(control) => if read_number(bytes, control + 8) != u32::MAX {
            return false;
        },
        None => return false,
    }
    proof {
        lemma_image_data_ahead(bytes@, FIRST_CHUNK as int);
        lemma_one_frame(bytes@, FIRST_CHUNK as int, data as int);
    }
    let other: Vec<u8> = announce_one_frame(bytes, data);
    if is_line_lost(other.as_slice()) {
        return true;
    }
    read_png_info(other.as_slice()).is_ok()
}

/// Whether the decoder takes the bytes.
pub fn is_decodable(bytes: &[u8]) -> (answer: bool)
    ensures
        answer == decodable(bytes@),
{
    if bytes.len() == 0 {
        return true;
    }
    if is_line_lost(bytes) || are_frames_lost(bytes) {
        return false;
    }
    let info = match read_png_info(bytes) {
        Ok(info) => info,
        Err(_) => return true,
    };
    if !info.has_room() {
        return false;
    }
    if info.is_sound() || !info.has_frame() {
        return true;
    }
    read_png_row(bytes).is_err()
}

impl FileInfo {
    /// Whether there can be room for the decoded image.
    pub fn has_room(&self) -> (answer: bool)
        requires
            self.samples <= 4,
        ensures
            answer == self@.has_room(),
    {
        self.size() <= isize::MAX as u128
    }

    /// Whether there is a frame to be decoded.
    pub fn has_frame(&self) -> (answer: bool)
        ensures
            answer == self@.has_frame(),
    {
        match (self.frame, self.frames) {
            (Some(_), Some(count)) => count != 0,
            _ => true,
        }
    }

    /// Whether nothing in the file stands in the way once the first line was read.
    pub fn is_sound(&self) -> (answer: bool)
        requires
            self.samples <= 4,
        ensures
            answer == (self@.has_sound_palette() && self@.has_countable_bits()),
    {
        if self.interlaced && self.last_bit() > usize::MAX as i128 {
            return false;
        }
        match &self.palette {
            Some(entries) => self.color != INDEXED || entries.len() % 3 == 0 && entries.len()
                <= PALETTE_BYTES,
            None => true,
        }
    }

    /// How many bits come before the last pixel of the decoded image. There are
    /// fewer than none where there is no pixel.
    fn last_bit(&self) -> (bits: i128)
        requires
            self.samples <= 4,
        ensures
            bits == ((self@.frame_height() - 1) * self.width + self@.frame_width() - 1)
                * self.samples * 8,
    {
        let (width, height): (u32, u32) = match self.frame {
            Some(size) => size,
            None => (self.width, self.height),
        };
        let lines: i128 = height as i128 - 1;
        assert(-0xFFFF_FFFF <= lines * self.width <= 0xFFFF_FFFF * 0xFFFF_FFFF) by (nonlinear_arith)
            requires
                -1 <= lines <= 0xFFFF_FFFF,
                0 <= self.width <= 0xFFFF_FFFF,
        ;
        let pixels: i128 = lines * self.width as i128 + width as i128 - 1;
        assert(-0x10_0000_0000 <= pixels * self.samples <= 0xFFFF_FFFF * 0x4_0000_0000) by (
        nonlinear_arith)
            requires
                -0x1_0000_0000 <= pixels <= 0xFFFF_FFFF * 0x1_0000_0000,
                0 <= self.samples <= 4,
        ;
        pixels * self.samples as i128 * 8
    }

    /// How many bytes the decoded image takes.
    fn size(&self) -> (size: u128)
        requires
            self.samples <= 4,
        ensures
            size == self.width * self.height * self.samples,
            size <= 0xFFFF_FFFF * 0xFFFF_FFFF * 4,
    {
        assert(0 <= self.width * self.height <= 0xFFFF_FFFF * 0xFFFF_FFFF) by (nonlinear_arith)
            requires
                0 <= self.width <= 0xFFFF_FFFF,
                0 <= self.height <= 0xFFFF_FFFF,
        ;
        let area: u128 = self.width as u128 * self.height as u128;
        assert(0 <= area * self.samples <= area * 4) by (nonlinear_arith)
            requires
                0 <= self.samples <= 4,
                0 <= area,
        ;
        area * self.samples as u128
    }
}

/// Reads the image in the bytes of a PNG file. There is no answer where the
/// decoder does not take the bytes, nor where the image makes no bitmap.
pub fn png_to_bgra(bytes: &[u8]) -> (out: Option<Result<BgraImage, WindowsTrayError>>)
    ensures
        out is Some <==> icon_fits(bytes@),
        out matches Some(image) ==> crate::pixels::image_view(image) == icon_image(bytes@),
        out matches Some(Ok(image)) ==> crate::icon::image_fits(image@) && image@.pixels.len()
            == image.width * image.height * 4,
        unreadable(bytes@) ==> icon_fits(bytes@) && icon_image(bytes@) == Err::<
            BgraView,
            WindowsTrayError,
        >(WindowsTrayError::BadIcon),
        out is None ==> !decodable(bytes@) || makes_no_bitmap(bytes@),
        out matches Some(Err(_)) ==> bytes@.len() == 0 || (png_image(bytes@, usize::MAX as int)
            matches Some(decoded) ==> decoded.width == 0 || decoded.height == 0),
{
    if bytes.len() == 0 {
        return Some(Err(WindowsTrayError::BadIcon));
    }
    if !is_decodable(bytes) {
        return None;
    }
    let decoded = match decode_png(bytes) {
        Ok(decoded) => decoded,
        Err(_) => return Some(Err(WindowsTrayError::BadIcon)),
    };
    proof {
        let count = decoded.width * decoded.height;
        let each = crate::pixels::samples(decoded.color);
        assert(0 <= count) by (nonlinear_arith)
            requires
                count == decoded.width * decoded.height,
        ;
        assert((count * each) / (each as int) == count) by (nonlinear_arith)
            requires
                each > 0,
        ;
    }
    if decoded.width > 0 && decoded.height > 0 && !fits(decoded.width, decoded.height) {
        return None;
    }
    Some(to_bgra_image(&decoded))
}

/// Reads the image of an icon. There is no answer where the decoder does not take
/// the bytes, nor where the image makes no bitmap.
pub fn icon_to_bgra(icon: &TrayIcon) -> (out: Option<Result<BgraImage, WindowsTrayError>>)
    ensures
        out is Some <==> icon_fits(icon->bytes@),
        out matches Some(image) ==> crate::pixels::image_view(image)
            == icon_image(icon->bytes@),
        out matches Some(Ok(image)) ==> crate::icon::image_fits(image@),
        out is None ==> !decodable(icon->bytes@) || makes_no_bitmap(icon->bytes@),
        unreadable(icon->bytes@) ==> icon_fits(icon->bytes@) && icon_image(icon->bytes@)
            == Err::<BgraView, WindowsTrayError>(WindowsTrayError::BadIcon),
{
    match icon {
        TrayIcon::Png { bytes } => png_to_bgra(bytes.as_slice()),
    }
}

/// What is said of a file is said of its own fields.
pub proof fn law_files_keep_their_fields(info: FileInfo)
    ensures
        info@.width == info.width,
        info@.height == info.height,
        info@.samples == info.samples,
        info@.interlaced == info.interlaced,
        info@.color == info.color,
        info@.palette is Some <==> info.palette is Some,
        info.palette matches Some(entries) ==> info@.palette == Some(entries@),
        info@.frames == info.frames,
        info@.frame == info.frame,
{
}

/// A machine that counts to 64 bits can count whatever the decoder counts up to the
/// image data.
pub proof fn law_wide_machines_count_everything(bytes: Seq<u8>)
    requires
        usize::MAX == u64::MAX,
    ensures
        countable(bytes),
{
}

/// What stands in the way of counting. A line is lost only where its width is more
/// than a quarter of what the machine counts to, and everything before the image data
/// reads; frames are lost only on a machine that counts to 32 bits, where the image is
/// none of the frames, and the file would read if it announced one frame.
pub proof fn law_lost_counts(bytes: Seq<u8>)
    ensures
        loses_line(bytes) ==> {
            let data = image_data(bytes, 8)->0;
            let header = last_chunk(bytes, 8, IHDR)->0;
            &&& image_data(bytes, 8) is Some
            &&& png_runs_out(bytes.take(data), usize::MAX as int)
            &&& 4 * line_width(bytes, header) > usize::MAX
            &&& last_chunk(bytes, 8, TRNS) is Some
        },
        loses_frames(bytes) ==> {
            let data = image_data(bytes, 8)->0;
            let other = bytes.take(data) + one_frame() + bytes.skip(data);
            &&& usize::MAX == u32::MAX
            &&& image_data(bytes, 8) is Some
            &&& last_chunk(bytes, 8, FCTL) is None
            &&& number_at(bytes, last_chunk(bytes, 8, ACTL)->0 + 8) == 0xFFFF_FFFF
            &&& loses_line(other) || png_info(other, usize::MAX as int) is Some
        },
{
}

/// The decoder takes every file that it reports an error on before the image data,
/// and every file whose decoded image can be kept, unless its first line reads and
/// then its palette is broken or its bits cannot be counted.
pub proof fn law_files_that_decode(bytes: Seq<u8>)
    requires
        bytes.len() > 0,
        countable(bytes),
    ensures
        decodable(bytes) <==> match png_info(bytes, usize::MAX as int) {
            None => true,
            Some(info) => {
                let size = info.width * info.height * info.samples;
                let empty = info.frame is Some && info.frames == Some(0u32);
                let reads = png_row_reads(bytes, usize::MAX as int);
                let entries = info.palette->0.len();
                let broken = info.color == 3 && info.palette is Some && (entries % 3 != 0 || entries
                    > 768);
                let (width, height) = match info.frame {
                    Some(frame) => (frame.0 as int, frame.1 as int),
                    None => (info.width as int, info.height as int),
                };
                let bits = ((height - 1) * info.width + width - 1) * info.samples * 8;
                &&& size <= isize::MAX
                &&& empty || !reads || (!broken && (info.interlaced ==> bits <= usize::MAX))
            },
        },
{
}

/// An icon is what its bytes decode to. No bytes, and bytes that do not decode, are a
/// bad icon. There is an answer for every icon that the decoder takes, unless its
/// image is too large for a bitmap.
pub proof fn law_icons_are_what_they_decode_to(bytes: Seq<u8>)
    ensures
        ({
            let decoded = png_image(bytes, usize::MAX as int);
            &&& bytes.len() == 0 ==> icon_fits(bytes) && icon_image(bytes) == Err::<
                BgraView,
                WindowsTrayError,
            >(WindowsTrayError::BadIcon)
            &&& bytes.len() > 0 && decoded is None ==> icon_image(bytes) == Err::<
                BgraView,
                WindowsTrayError,
            >(WindowsTrayError::BadIcon)
            &&& bytes.len() > 0 && decoded is Some ==> icon_image(bytes)
                == crate::pixels::bgra_image(decoded->0)
            &&& icon_fits(bytes) <==> decodable(bytes) && (icon_image(bytes) matches Ok(image)
                ==> 0 < 4 * (image.width * image.height) <= 0xFFFF_FFFF && 4 * (image.width
                * image.height) <= isize::MAX && image.pixels.len() <= 4 * (image.width
                * image.height))
        }),
{
    if let Ok(image) = icon_image(bytes) {
        crate::icon::law_sizes_that_fit(image.width, image.height, image);
    }
}

/// A number stands with its most significant byte first: its digits, in base 256, are
/// the bytes.
pub proof fn law_numbers_stand_high_byte_first(bytes: Seq<u8>, at: int)
    ensures
        0 <= number_at(bytes, at) <= 0xFFFF_FFFF,
        number_at(bytes, at) / 0x1000000 == bytes[at],
        number_at(bytes, at) / 0x10000 % 0x100 == bytes[at + 1],
        number_at(bytes, at) / 0x100 % 0x100 == bytes[at + 2],
        number_at(bytes, at) % 0x100 == bytes[at + 3],
        tag_at(bytes, at) == number_at(bytes, at + 4),
{
    let number = number_at(bytes, at);
    let (first, second) = (bytes[at] as int, bytes[at + 1] as int);
    let (third, fourth) = (bytes[at + 2] as int, bytes[at + 3] as int);
    assert(number / 0x1000000 == first) by (nonlinear_arith)
        requires
            number == first * 0x1000000 + second * 0x10000 + third * 0x100 + fourth,
            0 <= first <= 0xFF,
            0 <= second <= 0xFF,
            0 <= third <= 0xFF,
            0 <= fourth <= 0xFF,
    ;
    assert(number / 0x10000 == first * 0x100 + second) by (nonlinear_arith)
        requires
            number == first * 0x1000000 + second * 0x10000 + third * 0x100 + fourth,
            0 <= first <= 0xFF,
            0 <= second <= 0xFF,
            0 <= third <= 0xFF,
            0 <= fourth <= 0xFF,
    ;
    assert(number / 0x100 == first * 0x10000 + second * 0x100 + third) by (nonlinear_arith)
        requires
            number == first * 0x1000000 + second * 0x10000 + third * 0x100 + fourth,
            0 <= first <= 0xFF,
            0 <= second <= 0xFF,
            0 <= third <= 0xFF,
            0 <= fourth <= 0xFF,
    ;
}

/// Whether image data starts at a place: there is room for a length and a tag, and the
/// tag reads `IDAT` or `fdAT`.
pub open spec fn starts_image_data(bytes: Seq<u8>, at: int) -> bool {
    &&& at + 8 <= bytes.len()
    &&& ({
        ||| bytes[at + 4] == 0x49 && bytes[at + 5] == 0x44
        ||| bytes[at + 4] == 0x66 && bytes[at + 5] == 0x64
    })
    &&& bytes[at + 6] == 0x41
    &&& bytes[at + 7] == 0x54
}

/// Whether places in a file follow one another from chunk to chunk, with no image data
/// at any but the last: a chunk is as long as the number that it starts with says, and
/// twelve bytes more.
pub open spec fn places_follow(bytes: Seq<u8>, places: Seq<int>) -> bool {
    &&& places.len() > 0
    &&& places[0] >= 0
    &&& forall|i: int|
        0 <= i < places.len() - 1 ==> {
            let end = #[trigger] places[i] + 12 + number_at(bytes, places[i]);
            places[i] + 12 <= bytes.len() && end <= bytes.len() && !starts_image_data(
                bytes,
                places[i],
            ) && places[i + 1] == end
        }
}

/// Whether no chunk can be passed at a place: image data starts there, or there is no
/// whole chunk.
pub open spec fn stops(bytes: Seq<u8>, at: int) -> bool {
    ||| starts_image_data(bytes, at)
    ||| at + 12 > bytes.len()
    ||| at + 12 + number_at(bytes, at) > bytes.len()
}

proof fn lemma_tags(bytes: Seq<u8>, at: int)
    requires
        0 <= at,
        at + 8 <= bytes.len(),
    ensures
        starts_image_data(bytes, at) <==> tag_at(bytes, at) == IDAT || tag_at(bytes, at) == FDAT,
{
    law_numbers_stand_high_byte_first(bytes, at + 4);
}

/// Image data is found where the chunks that come before it end, and nowhere else: the
/// places of the chunks, as far as they can be followed, lead to it, or there is none.
pub proof fn law_image_data_found(bytes: Seq<u8>, places: Seq<int>)
    requires
        places_follow(bytes, places),
        stops(bytes, places.last()),
    ensures
        image_data(bytes, places[0]) == if starts_image_data(bytes, places.last()) {
            Some(places.last())
        } else {
            None
        },
    decreases places.len(),
{
    let at = places[0];
    if at + 8 <= bytes.len() {
        lemma_tags(bytes, at);
    }
    if places.len() > 1 {
        assert(places[0] + 12 <= bytes.len());
        let rest = places.drop_first();
        assert(rest[0] == places[1]);
        assert(places[0int + 1] == next_chunk(bytes, at));
        assert forall|i: int| 0 <= i < rest.len() - 1 implies {
            let end = #[trigger] rest[i] + 12 + number_at(bytes, rest[i]);
            rest[i] + 12 <= bytes.len() && end <= bytes.len() && !starts_image_data(bytes, rest[i])
                && rest[i + 1] == end
        } by {
            assert(rest[i] == places[i + 1]);
            assert(rest[i + 1] == places[i + 1 + 1]);
        }
        law_image_data_found(bytes, rest);
    }
}

/// Whether a chunk at a place has a tag and holds something.
pub open spec fn has_tag(bytes: Seq<u8>, at: int, tag: u32) -> bool {
    number_at(bytes, at + 4) == tag && number_at(bytes, at) > 0
}

/// Of the chunks before the image data that have a tag and hold something, the last one
/// is found; where there is none, none is found.
pub proof fn law_last_chunk_found(bytes: Seq<u8>, places: Seq<int>, tag: u32)
    requires
        places_follow(bytes, places),
        stops(bytes, places.last()),
    ensures
        forall|i: int|
            0 <= i < places.len() - 1 && has_tag(bytes, #[trigger] places[i], tag) && (forall|
                j: int,
            |
                i < j < places.len() - 1 ==> !has_tag(bytes, #[trigger] places[j], tag))
                ==> last_chunk(bytes, places[0], tag) == Some(places[i]),
        (forall|i: int| 0 <= i < places.len() - 1 ==> !has_tag(bytes, #[trigger] places[i], tag))
            ==> last_chunk(bytes, places[0], tag) is None,
    decreases places.len(),
{
    let at = places[0];
    if at + 8 <= bytes.len() {
        lemma_tags(bytes, at);
    }
    if places.len() > 1 {
        assert(places[0] + 12 <= bytes.len());
        let rest = places.drop_first();
        assert(rest[0] == places[1]);
        assert(places[0int + 1] == next_chunk(bytes, at));
        assert(whole_chunk(bytes, at));
        assert(forall|i: int| 0 <= i < rest.len() ==> #[trigger] rest[i] == places[i + 1]);
        assert forall|i: int| 0 <= i < rest.len() - 1 implies {
            let end = #[trigger] rest[i] + 12 + number_at(bytes, rest[i]);
            rest[i] + 12 <= bytes.len() && end <= bytes.len() && !starts_image_data(bytes, rest[i])
                && rest[i + 1] == end
        } by {
            assert(rest[i] == places[i + 1]);
            assert(rest[i + 1] == places[i + 1 + 1]);
        }
        law_last_chunk_found(bytes, rest, tag);
        assert forall|i: int|
            0 <= i < places.len() - 1 && has_tag(bytes, #[trigger] places[i], tag) && (forall|
                j: int,
            |
                i < j < places.len() - 1 ==> !has_tag(bytes, #[trigger] places[j], tag))
            implies last_chunk(bytes, places[0], tag) == Some(places[i]) by {
            if i == 0 {
                assert forall|j: int| 0 <= j < rest.len() - 1 implies !has_tag(
                    bytes,
                    #[trigger] rest[j],
                    tag,
                ) by {
                    assert(rest[j] == places[j + 1]);
                }
            } else {
                assert(rest[i - 1] == places[i]);
                assert forall|j: int| i - 1 < j < rest.len() - 1 implies !has_tag(
                    bytes,
                    #[trigger] rest[j],
                    tag,
                ) by {
                    assert(rest[j] == places[j + 1]);
                }
            }
        }
        if forall|i: int| 0 <= i < places.len() - 1 ==> !has_tag(bytes, #[trigger] places[i], tag) {
            assert forall|j: int| 0 <= j < rest.len() - 1 implies !has_tag(
                bytes,
                #[trigger] rest[j],
                tag,
            ) by {
                assert(rest[j] == places[j + 1]);
            }
        }
    }
}

/// From every place in a file the chunks can be followed until none can be passed.
pub proof fn law_places_can_be_followed(bytes: Seq<u8>, at: int) -> (places: Seq<int>)
    requires
        0 <= at,
    ensures
        places_follow(bytes, places),
        places[0] == at,
        stops(bytes, places.last()),
    decreases bytes.len() - at,
{
    if stops(bytes, at) {
        seq![at]
    } else {
        law_numbers_stand_high_byte_first(bytes, at);
        let rest = law_places_can_be_followed(bytes, at + 12 + number_at(bytes, at));
        let places = seq![at] + rest;
        assert(forall|i: int| 0 <= i < rest.len() ==> places[i + 1] == #[trigger] rest[i]);
        assert forall|i: int| 0 <= i < places.len() - 1 implies {
            let end = #[trigger] places[i] + 12 + number_at(bytes, places[i]);
            places[i] + 12 <= bytes.len() && end <= bytes.len() && !starts_image_data(
                bytes,
                places[i],
            ) && places[i + 1] == end
        } by {
            if i > 0 {
                assert(places[i] == rest[i - 1]);
                assert(places[i + 1] == rest[i - 1 + 1]);
            } else {
                assert(places[1] == rest[0]);
            }
        }
        assert(places.last() == rest.last());
        places
    }
}

/// A line is lost exactly where its pixels, at two bytes each if they are grey and at
/// four if not, are more than the machine counts to: in a file with a header,
/// transparency and image data, up to which it reads. The width of the line is that of
/// the last frame that is described, and else that of the header, the image data being
/// no frame.
pub proof fn law_lines_that_are_lost(bytes: Seq<u8>)
    ensures
        loses_line(bytes) <==> {
            let data = image_data(bytes, 8);
            let header = last_chunk(bytes, 8, 0x49484452);
            let frame = last_chunk(bytes, 8, 0x6663544C);
            let transparency = last_chunk(bytes, 8, 0x74524E53);
            let pixel = if bytes[header->0 + 17] == 0 {
                2int
            } else {
                4
            };
            &&& data is Some && header is Some && transparency is Some
            &&& number_at(bytes, header->0) >= 13
            &&& png_runs_out(bytes.take(data->0), usize::MAX as int)
            &&& match frame {
                Some(at) => number_at(bytes, at) >= 26 && number_at(bytes, at + 12) * pixel
                    > usize::MAX,
                None => bytes[data->0 + 4] == 0x49 && number_at(bytes, header->0 + 8) * pixel
                    > usize::MAX,
            }
        },
{
    lemma_image_data_ahead(bytes, 8);
    lemma_found_tag(bytes, 8);
    if let Some(data) = image_data(bytes, 8) {
        law_numbers_stand_high_byte_first(bytes, data + 4);
    }
}

/// Where image data is found, image data starts.
proof fn lemma_found_tag(bytes: Seq<u8>, at: int)
    ensures
        image_data(bytes, at) matches Some(data) ==> tag_at(bytes, data) == IDAT || tag_at(
            bytes,
            data,
        ) == FDAT,
    decreases bytes.len() - at,
{
    if whole_chunk(bytes, at) {
        lemma_found_tag(bytes, next_chunk(bytes, at));
    }
}

/// A file that is made to announce one frame has one chunk more, right before its image
/// data. The chunk says that there is one frame, which plays on and on, and ends in the
/// check sum of that. The rest is as it was.
pub proof fn law_one_frame_announced(bytes: Seq<u8>, data: int)
    requires
        image_data(bytes, 8) == Some(data),
    ensures
        ({
            let other = with_one_frame(bytes, data);
            &&& other.len() == bytes.len() + 20
            &&& other.take(data) == bytes.take(data)
            &&& other.skip(data + 20) == bytes.skip(data)
            &&& last_chunk(other, 8, 0x6163544C) == Some(data)
            &&& number_at(other, data) == 8
            &&& number_at(other, data + 8) == 1
            &&& number_at(other, data + 12) == 0
            &&& number_at(other, data + 16) == 0xB42DE9A0
        }),
{
    let other = with_one_frame(bytes, data);
    lemma_image_data_ahead(bytes, 8);
    lemma_one_frame(bytes, 8, data);
    assert(other.take(data) =~= bytes.take(data));
    assert(other.skip(data + 20) =~= bytes.skip(data));
    assert(forall|i: int| 0 <= i < 20 ==> other[data + i] == #[trigger] one_frame()[i]);
    let frame = one_frame();
    assert(frame[0] == 0 && frame[1] == 0 && frame[2] == 0 && frame[3] == 8);
    assert(frame[12] == 0 && frame[13] == 0 && frame[14] == 0 && frame[15] == 0);
    assert(frame[16] == 0xB4 && frame[17] == 0x2D && frame[18] == 0xE9 && frame[19] == 0xA0);
    assert(other[data] == frame[0] && other[data + 1] == frame[1] && other[data + 2] == frame[2]);
}

/// Frames are lost exactly where a machine that counts to 32 bits finds as many of them
/// announced as it can count, the image being none of them, in a file that would read,
/// or lose a line, if it announced one.
pub proof fn law_frames_that_are_lost(bytes: Seq<u8>)
    ensures
        loses_frames(bytes) <==> {
            let data = image_data(bytes, 8);
            let control = last_chunk(bytes, 8, 0x6163544C);
            let other = with_one_frame(bytes, data->0);
            &&& usize::MAX == 0xFFFF_FFFF
            &&& data is Some && control is Some
            &&& last_chunk(bytes, 8, 0x6663544C) is None
            &&& number_at(bytes, control->0 + 8) == 0xFFFF_FFFF
            &&& loses_line(other) || png_info(other, usize::MAX as int) is Some
        },
{
}

/// The decoder takes an empty file, to report an error, and no file of which the machine
/// loses count.
pub proof fn law_lost_counts_do_not_decode(bytes: Seq<u8>)
    ensures
        bytes.len() == 0 ==> decodable(bytes),
        bytes.len() > 0 && (loses_line(bytes) || loses_frames(bytes)) ==> !decodable(bytes),
        !loses_line(bytes) && !loses_frames(bytes) ==> countable(bytes),
{
}

/// What a file says of its image, put in numbers. There is room for as many bytes as the
/// pixels have samples; an animation has a frame unless it says that it has none; a
/// palette that is pointed into has whole entries, of three bytes, and at most 256 of
/// them; and the bits of an image that comes in passes are counted up to its last pixel,
/// in lines as wide as the file says.
pub proof fn law_files_in_numbers(info: FileView)
    ensures
        info.has_room() <==> info.samples * (info.width * info.height) <= isize::MAX,
        !info.has_frame() <==> info.frame is Some && info.frames is Some && info.frames->0 == 0,
        !info.has_sound_palette() <==> info.color == 3 && info.palette is Some && (
        info.palette->0.len() % 3 != 0 || info.palette->0.len() > 3 * 256),
        info.frame_width() == if info.frame is Some {
            (info.frame->0).0
        } else {
            info.width
        },
        info.frame_height() == if info.frame is Some {
            (info.frame->0).1
        } else {
            info.height
        },
        !info.has_countable_bits() <==> info.interlaced && 8 * (info.samples * ((
        info.frame_height() - 1) * info.width + info.frame_width() - 1)) > usize::MAX,
{
    let area = info.width * info.height;
    assert(info.samples * area == area * info.samples) by (nonlinear_arith);
    let last = (info.frame_height() - 1) * info.width + info.frame_width() - 1;
    let bits = last * info.samples;
    assert(info.samples * last == bits) by (nonlinear_arith)
        requires
            bits == last * info.samples,
    ;
}

} // verus!
