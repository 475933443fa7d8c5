//! From the samples of a decoded image to the pixels of a bitmap.

use vstd::prelude::*;

use crate::error::WindowsTrayError;

verus! {

/// Which samples a pixel of a decoded image is made of, one byte each.
#[derive(Clone, Copy, Debug, PartialEq, Eq, Structural)]
pub enum ColorType {
    Grayscale,
    Rgb,
    Indexed,
    GrayscaleAlpha,
    Rgba,
}

/// A decoded image.
#[derive(Debug)]
pub struct DecodedImage {
    pub width: u32,
    pub height: u32,
    pub color: ColorType,
    pub data: Vec<u8>,
}

/// A decoded image, with its samples as a sequence.
pub struct DecodedView {
    pub width: u32,
    pub height: u32,
    pub color: ColorType,
    pub data: Seq<u8>,
}

impl View for DecodedImage {
    type V = DecodedView;

    open spec fn view(&self) -> DecodedView {
        DecodedView {
            width: self.width,
            height: self.height,
            color: self.color,
            data: self.data@,
        }
    }
}

/// An image as the system takes it: four bytes to a pixel, in the order blue,
/// green, red, alpha.
#[derive(Debug)]
pub struct BgraImage {
    pub width: u32,
    pub height: u32,
    pub pixels: Vec<u8>,
}

/// An image as the system takes it, with its pixels as a sequence.
pub struct BgraView {
    pub width: u32,
    pub height: u32,
    pub pixels: Seq<u8>,
}

impl View for BgraImage {
    type V = BgraView;

    open spec fn view(&self) -> BgraView {
        BgraView { width: self.width, height: self.height, pixels: self.pixels@ }
    }
}

/// How many samples a pixel has.
pub open spec fn samples(color: ColorType) -> nat {
    match color {
        ColorType::Grayscale => 1,
        ColorType::Rgb => 3,
        ColorType::Indexed => 1,
        ColorType::GrayscaleAlpha => 2,
        ColorType::Rgba => 4,
    }
}

/// One of the red, green, blue and alpha values of a pixel: `channel` counts
/// them in that order. A pixel without an alpha sample is opaque.
pub open spec fn rgba_channel(
    color: ColorType,
    data: Seq<u8>,
    pixel: int,
    channel: int,
) -> u8 {
    match color {
        ColorType::Rgba => data[4 * pixel + channel],
        ColorType::Rgb => if channel < 3 {
            data[3 * pixel + channel]
        } else {
            255
        },
        ColorType::GrayscaleAlpha => if channel < 3 {
            data[2 * pixel]
        } else {
            data[2 * pixel + 1]
        },
        _ => if channel < 3 {
            data[pixel]
        } else {
            255
        },
    }
}

/// The whole pixels of an image in the order red, green, blue, alpha.
pub open spec fn rgba_of(color: ColorType, data: Seq<u8>) -> Seq<u8> {
    Seq::new(
        data.len() / samples(color) * 4,
        |k: int| rgba_channel(color, data, k / 4, k % 4),
    )
}

/// Exchanges red and blue.
pub open spec fn swapped(channel: int) -> int {
    if channel == 0 {
        2
    } else if channel == 2 {
        0
    } else {
        channel
    }
}

/// The whole pixels of an image with red and blue exchanged.
pub open spec fn bgra_of(rgba: Seq<u8>) -> Seq<u8> {
    Seq::new(rgba.len() / 4 * 4, |k: int| rgba[k - k % 4 + swapped(k % 4)])
}

/// An image, or why there is none, with the pixels as a sequence.
pub open spec fn image_view(image: Result<BgraImage, WindowsTrayError>) -> Result<
    BgraView,
    WindowsTrayError,
> {
    match image {
        Ok(drawn) => Ok(drawn@),
        Err(error) => Err(error),
    }
}

/// What a decoded image looks like to the system. An image without pixels is
/// no icon, nor is one whose samples point into a palette.
pub open spec fn bgra_image(decoded: DecodedView) -> Result<BgraView, WindowsTrayError> {
    if decoded.color == ColorType::Indexed || decoded.width == 0 || decoded.height == 0 {
        Err(WindowsTrayError::BadIcon)
    } else {
        Ok(
            BgraView {
                width: decoded.width,
                height: decoded.height,
                pixels: bgra_of(rgba_of(decoded.color, decoded.data)),
            },
        )
    }
}

/// Appends one pixel.
fn push_pixel(out: &mut Vec<u8>, first: u8, second: u8, third: u8, fourth: u8)
    ensures
        final(out)@ == old(out)@ + seq![first, second, third, fourth],
{
    out.push(first);
    out.push(second);
    out.push(third);
    out.push(fourth);
    assert(out@ =~= old(out)@ + seq![first, second, third, fourth]);
}

/// Brings the whole pixels of an image into the order red, green, blue, alpha.
/// Samples that point into a palette cannot be read.
pub fn to_rgba(color: ColorType, data: &Vec<u8>) -> (out: Option<Vec<u8>>)
    ensures
        out is None <==> color == ColorType::Indexed,
        out matches Some(rgba) ==> rgba@ == rgba_of(color, data@),
{
    let width: usize = match color {
        ColorType::Grayscale => 1,
        ColorType::Rgb => 3,
        ColorType::Indexed => return None,
        ColorType::GrayscaleAlpha => 2,
        ColorType::Rgba => 4,
    };
    let count: usize = data.len() / width;
    let mut out: Vec<u8> = Vec::new();
    let mut i: usize = 0;
    assert(count * width <= data.len()) by (nonlinear_arith)
        requires
            count == data.len() / width,
            width > 0,
    ;
    while i < count
        invariant
            i <= count,
            width == samples(color),
            1 <= width <= 4,
            color != ColorType::Indexed,
            count == data.len() / width,
            count * width <= data.len(),
            out@.len() == 4 * i,
            forall|k: int| 0 <= k < 4 * i ==> #[trigger] out@[k] == rgba_channel(
                color,
                data@,
                k / 4,
                k % 4,
            ),
        decreases count - i,
    {
        let ghost before: Seq<u8> = out@;
        assert(i * width + width <= data.len()) by (nonlinear_arith)
            requires
                i < count,
                count * width <= data.len(),
                width > 0,
        ;
        assert(color == ColorType::Grayscale ==> i * width == i);
        assert(color == ColorType::GrayscaleAlpha ==> i * width == 2 * i);
        assert(color == ColorType::Rgb ==> i * width == 3 * i);
        assert(color == ColorType::Rgba ==> i * width == 4 * i);
        match color {
            ColorType::Rgba => {
                push_pixel(
                    &mut out,
                    data[4 * i],
                    data[4 * i + 1],
                    data[4 * i + 2],
                    data[4 * i + 3],
                );
            },
            ColorType::Rgb => {
                push_pixel(&mut out, data[3 * i], data[3 * i + 1], data[3 * i + 2], 255);
            },
            ColorType::GrayscaleAlpha => {
                let gray: u8 = data[2 * i];
                push_pixel(&mut out, gray, gray, gray, data[2 * i + 1]);
            },
            _ => {
                let gray: u8 = data[i];
                push_pixel(&mut out, gray, gray, gray, 255);
            },
        }
        assert forall|k: int| 0 <= k < 4 * (i + 1) implies #[trigger] out@[k] == rgba_channel(
            color,
            data@,
            k / 4,
            k % 4,
        ) by {
            if k < 4 * i {
                assert(out@[k] == before[k]);
            } else {
                assert(k / 4 == i);
            }
        }
        i = i + 1;
    }
    assert(out@ =~= rgba_of(color, data@));
    Some(out)
}

/// Exchanges red and blue in the whole pixels of an image.
pub fn to_bgra(rgba: &Vec<u8>) -> (out: Vec<u8>)
    ensures
        out@ == bgra_of(rgba@),
{
    let count: usize = rgba.len() / 4;
    let mut out: Vec<u8> = Vec::new();
    let mut i: usize = 0;
    while i < count
        invariant
            i <= count,
            count == rgba.len() / 4,
            out@.len() == 4 * i,
            forall|k: int|
                0 <= k < 4 * i ==> #[trigger] out@[k] == rgba@[k - k % 4 + swapped(k % 4)],
        decreases count - i,
    {
        let ghost before: Seq<u8> = out@;
        push_pixel(&mut out, rgba[4 * i + 2], rgba[4 * i + 1], rgba[4 * i], rgba[4 * i + 3]);
        assert forall|k: int| 0 <= k < 4 * (i + 1) implies #[trigger] out@[k] == rgba@[k - k % 4
            + swapped(k % 4)] by {
            if k < 4 * i {
                assert(out@[k] == before[k]);
            } else {
                assert(k - k % 4 == 4 * i);
            }
        }
        i = i + 1;
    }
    assert(out@ =~= bgra_of(rgba@));
    out
}

/// Brings a decoded image into the form that the system takes.
pub fn to_bgra_image(decoded: &DecodedImage) -> (out: Result<BgraImage, WindowsTrayError>)
    ensures
        image_view(out) == bgra_image(decoded@),
{
    let rgba: Vec<u8> = match to_rgba(decoded.color, &decoded.data) {
        Some(rgba) => rgba,
        None => return Err(WindowsTrayError::BadIcon),
    };
    if decoded.width == 0 || decoded.height == 0 {
        return Err(WindowsTrayError::BadIcon);
    }
    Ok(BgraImage { width: decoded.width, height: decoded.height, pixels: to_bgra(&rgba) })
}

/// Every whole pixel of a decoded image becomes four bytes, and nothing else
/// does.
pub proof fn law_four_bytes_to_a_pixel(color: ColorType, data: Seq<u8>)
    ensures
        bgra_of(rgba_of(color, data)).len() == data.len() / samples(color) * 4,
        rgba_of(color, data).len() == 4 * (match color {
            ColorType::Rgba => data.len() as int / 4,
            ColorType::Rgb => data.len() as int / 3,
            ColorType::GrayscaleAlpha => data.len() as int / 2,
            _ => data.len() as int,
        }),
{
    let count = data.len() / samples(color);
    match color {
        ColorType::Rgba => assert(count == data.len() as int / 4),
        ColorType::Rgb => assert(count == data.len() as int / 3),
        ColorType::GrayscaleAlpha => assert(count == data.len() as int / 2),
        _ => assert(count == data.len()),
    }
}

/// Blue, green, red and alpha of every pixel are those that the samples give,
/// in that order.
pub proof fn law_channels_in_order(color: ColorType, data: Seq<u8>, pixel: int)
    requires
        0 <= pixel < data.len() / samples(color),
    ensures
        bgra_of(rgba_of(color, data))[4 * pixel] == rgba_channel(color, data, pixel, 2),
        bgra_of(rgba_of(color, data))[4 * pixel + 1] == rgba_channel(color, data, pixel, 1),
        bgra_of(rgba_of(color, data))[4 * pixel + 2] == rgba_channel(color, data, pixel, 0),
        bgra_of(rgba_of(color, data))[4 * pixel + 3] == rgba_channel(color, data, pixel, 3),
{
    assert((4 * pixel + 2) / 4 == pixel);
}

/// Exchanging red and blue twice gives the whole pixels back.
pub proof fn law_exchange_undoes_itself(rgba: Seq<u8>)
    ensures
        bgra_of(bgra_of(rgba)) == rgba.take((rgba.len() / 4 * 4) as int),
{
    assert forall|k: int| 0 <= k < rgba.len() / 4 * 4 implies bgra_of(bgra_of(rgba))[k] == rgba[k] by {
        let j = k - k % 4 + swapped(k % 4);
        assert(j - j % 4 == k - k % 4);
    }
    assert(bgra_of(bgra_of(rgba)) =~= rgba.take((rgba.len() / 4 * 4) as int));
}

/// The samples of a pixel come out in the order blue, green, red, alpha. Colours are
/// as they were, a grey sample stands for all three of them, and a pixel is as
/// transparent as its alpha sample says, or opaque where it has none.
pub proof fn law_pixels_show_their_samples(color: ColorType, data: Seq<u8>, pixel: int)
    requires
        0 <= pixel,
        color == ColorType::Rgba ==> 4 * pixel + 4 <= data.len(),
        color == ColorType::Rgb ==> 3 * pixel + 3 <= data.len(),
        color == ColorType::GrayscaleAlpha ==> 2 * pixel + 2 <= data.len(),
        color == ColorType::Grayscale ==> pixel < data.len(),
        color != ColorType::Indexed,
    ensures
        ({
            let rgba = rgba_of(color, data);
            let bgra = bgra_of(rgba);
            let at = 4 * pixel;
            &&& at + 4 <= rgba.len()
            &&& at + 4 <= bgra.len()
            &&& bgra[at] == rgba[at + 2]
            &&& bgra[at + 1] == rgba[at + 1]
            &&& bgra[at + 2] == rgba[at]
            &&& bgra[at + 3] == rgba[at + 3]
            &&& match color {
                ColorType::Rgba => {
                    &&& bgra[at] == data[4 * pixel + 2]
                    &&& bgra[at + 1] == data[4 * pixel + 1]
                    &&& bgra[at + 2] == data[4 * pixel]
                    &&& bgra[at + 3] == data[4 * pixel + 3]
                },
                ColorType::Rgb => {
                    &&& bgra[at] == data[3 * pixel + 2]
                    &&& bgra[at + 1] == data[3 * pixel + 1]
                    &&& bgra[at + 2] == data[3 * pixel]
                    &&& bgra[at + 3] == 255
                },
                ColorType::GrayscaleAlpha => {
                    &&& bgra[at] == data[2 * pixel]
                    &&& bgra[at + 1] == data[2 * pixel]
                    &&& bgra[at + 2] == data[2 * pixel]
                    &&& bgra[at + 3] == data[2 * pixel + 1]
                },
                _ => {
                    &&& bgra[at] == data[pixel]
                    &&& bgra[at + 1] == data[pixel]
                    &&& bgra[at + 2] == data[pixel]
                    &&& bgra[at + 3] == 255
                },
            }
        }),
{
    let rgba = rgba_of(color, data);
    assert(pixel < data.len() / samples(color));
    assert((4 * pixel) / 4 == pixel && (4 * pixel) % 4 == 0);
    assert((4 * pixel + 1) / 4 == pixel && (4 * pixel + 1) % 4 == 1);
    assert((4 * pixel + 2) / 4 == pixel && (4 * pixel + 2) % 4 == 2);
    assert((4 * pixel + 3) / 4 == pixel && (4 * pixel + 3) % 4 == 3);
}

/// A decoded image is turned down where its samples point into a palette or it has
/// no pixels, and only there. Otherwise it keeps its size, and its pixels are those
/// of its samples, as many as there are whole ones.
pub proof fn law_images_keep_their_size(decoded: DecodedView)
    ensures
        match bgra_image(decoded) {
            Err(error) => {
                &&& error is BadIcon
                &&& decoded.color is Indexed || decoded.width == 0 || decoded.height == 0
            },
            Ok(image) => {
                &&& !(decoded.color is Indexed)
                &&& image.width == decoded.width
                &&& image.width > 0
                &&& image.height == decoded.height
                &&& image.height > 0
                &&& image.pixels == bgra_of(rgba_of(decoded.color, decoded.data))
                &&& image.pixels.len() == 4 * (match decoded.color {
                    ColorType::Rgba => decoded.data.len() as int / 4,
                    ColorType::Rgb => decoded.data.len() as int / 3,
                    ColorType::GrayscaleAlpha => decoded.data.len() as int / 2,
                    _ => decoded.data.len() as int,
                })
            },
        },
{
}

/// What is said of an image is said of its own fields.
pub proof fn law_images_keep_their_fields(
    decoded: DecodedImage,
    image: BgraImage,
    error: WindowsTrayError,
)
    ensures
        decoded@.width == decoded.width,
        decoded@.height == decoded.height,
        decoded@.color == decoded.color,
        decoded@.data == decoded.data@,
        image@.width == image.width,
        image@.height == image.height,
        image@.pixels == image.pixels@,
        image_view(Ok::<BgraImage, WindowsTrayError>(image)) == Ok::<BgraView, WindowsTrayError>(
            image@,
        ),
        image_view(Err::<BgraImage, WindowsTrayError>(error)) == Err::<BgraView, WindowsTrayError>(
            error,
        ),
{
}

} // verus!
