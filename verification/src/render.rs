//! From a rendered page to the image that a panel takes: gray levels, packed bits
//! and the PNG around them.

use image::imageops::ColorMap;
use image::Luma;
use vstd::prelude::*;
use vstd::string::StringExecFns;

verus! {

/// What can go wrong when a page is rendered.
#[derive(Debug)]
pub enum Error {
    /// A file could not be read.
    Io(String),
    /// The image could not be encoded.
    Encoding(String),
    /// The page could not be laid out.
    Typst(String),
}

/// What an `Error` says.
pub enum ErrorView {
    Io(Seq<char>),
    Encoding(Seq<char>),
    Typst(Seq<char>),
}

impl View for Error {
    type V = ErrorView;

    open spec fn view(&self) -> ErrorView {
        match *self {
            Error::Io(message) => ErrorView::Io(message@),
            Error::Encoding(message) => ErrorView::Encoding(message@),
            Error::Typst(message) => ErrorView::Typst(message@),
        }
    }
}

impl ErrorView {
    /// The error in words.
    pub open spec fn message(self) -> Seq<char> {
        match self {
            ErrorView::Io(message) => "Input/Output error: "@ + message,
            ErrorView::Encoding(message) => "Encoding to PNG failed: "@ + message,
            ErrorView::Typst(message) => message,
        }
    }
}

impl Error {
    /// The error in words.
    pub fn message(&self) -> (r: String)
        ensures
            r@ == self@.message(),
    {
        match self {
            Error::Io(message) => "Input/Output error: ".to_owned().concat(message.as_str()),
            Error::Encoding(message) => "Encoding to PNG failed: ".to_owned().concat(
                message.as_str(),
            ),
            Error::Typst(message) => message.clone(),
        }
    }
}

/// How many bits a pixel of the image has.
#[derive(Copy, Clone, Debug, PartialEq, Eq, PartialOrd, Ord, Hash, Structural)]
pub enum Depth {
    /// As the page was drawn, in color.
    Native,
    /// Black or white.
    Bit1,
    /// One of four grays.
    Bit2,
}

impl Default for Depth {
    fn default() -> (r: Self)
        ensures
            r == Depth::Bit1,
    {
        Depth::Bit1
    }
}

// ------------------------------------------------------------------- palette

/// The gray of the palette that is closest to a luma: 0 to 3, from black to
/// white. The palette is 0, 85, 170 and 255.
pub open spec fn level_of(luma: u8) -> int {
    if luma < 43 {
        0
    } else if luma < 128 {
        1
    } else if luma < 213 {
        2
    } else {
        3
    }
}

/// The luma of a gray of the palette.
pub open spec fn gray_of(level: int) -> int {
    85 * level
}

/// The gray of the palette, as a luma, that is closest to a luma.
pub open spec fn nearest_gray(luma: u8) -> u8 {
    gray_of(level_of(luma)) as u8
}

/// A gray pixel of the crate `image`.
#[verifier::external_type_specification]
#[verifier::external_body]
#[verifier::reject_recursive_types(T)]
pub struct ExLuma<T>(image::Luma<T>);

/// The channels of a gray pixel, of which it has one.
pub uninterp spec fn channels(color: Luma<u8>) -> Seq<u8>;

/// The luma that an `image::Luma` holds.
#[verifier::external_body]
fn luma_value(color: &Luma<u8>) -> (r: u8)
    ensures
        channels(*color) == seq![r],
{
    color.0[0]
}

/// Puts a luma into an `image::Luma`.
#[verifier::external_body]
fn set_luma(color: &mut Luma<u8>, luma: u8)
    ensures
        channels(*final(color)) == seq![luma],
{
    *color = Luma([luma]);
}

/// The four grays of a panel that takes two bits a pixel.
pub struct Palette2Bit;

impl Palette2Bit {
    /// The number of the gray that is closest to a luma.
    pub fn level(luma: u8) -> (r: usize)
        ensures
            r == level_of(luma),
    {
        // the midpoints between 0, 85, 170 and 255
        if luma < 43 {
            0
        } else if luma < 128 {
            1
        } else if luma < 213 {
            2
        } else {
            3
        }
    }

    /// The gray that is closest to a luma.
    pub fn nearest(luma: u8) -> (r: u8)
        ensures
            r == nearest_gray(luma),
    {
        match Self::level(luma) {
            0 => 0x00,
            1 => 0x55,
            2 => 0xAA,
            _ => 0xFF,
        }
    }
}

impl ColorMap for Palette2Bit {
    type Color = Luma<u8>;

    fn index_of(&self, color: &Luma<u8>) -> (r: usize)
        ensures
            r == level_of(channels(*color)[0]),
    {
        Self::level(luma_value(color))
    }

    fn map_color(&self, color: &mut Luma<u8>)
        ensures
            channels(*final(color)) == seq![nearest_gray(channels(*old(color))[0])],
    {
        let luma: u8 = luma_value(color);
        set_luma(color, Self::nearest(luma));
    }
}

// ------------------------------------------------------------- packing of bits

/// Bit `i` of the packed data: set where the pixel is brighter than 127, and not
/// set past the last pixel.
pub open spec fn bit_at(data: Seq<u8>, i: int) -> int {
    if 0 <= i < data.len() && data[i] > 127 {
        1
    } else {
        0
    }
}

/// Eight pixels as one byte, the first in the highest bit.
pub open spec fn byte_of_bits(data: Seq<u8>, k: int) -> int {
    128 * bit_at(data, 8 * k) + 64 * bit_at(data, 8 * k + 1) + 32 * bit_at(data, 8 * k + 2) + 16
        * bit_at(data, 8 * k + 3) + 8 * bit_at(data, 8 * k + 4) + 4 * bit_at(data, 8 * k + 5) + 2
        * bit_at(data, 8 * k + 6) + bit_at(data, 8 * k + 7)
}

/// The pixels, packed eight to a byte.
pub open spec fn packed_bits(data: Seq<u8>) -> Seq<u8> {
    Seq::new(((data.len() + 7) / 8) as nat, |k: int| byte_of_bits(data, k) as u8)
}

/// The value of the first `n` bits of a byte of packed data.
spec fn bits_value(data: Seq<u8>, k: int, n: int) -> int
    decreases n,
{
    if n <= 0 {
        0
    } else {
        2 * bits_value(data, k, n - 1) + bit_at(data, 8 * k + n - 1)
    }
}

/// Packs gray pixels eight to a byte: one bit each, set where the pixel is
/// brighter than 127. Unused bits of the last byte are not set.
pub fn pack_1bit(data: &[u8]) -> (r: Vec<u8>)
    ensures
        r@ == packed_bits(data@),
{
    let mut r: Vec<u8> = Vec::new();
    let n: usize = data.len();
    let count: usize = n / 8 + if n % 8 == 0 {
        0
    } else {
        1
    };
    for k in 0..count
        invariant
            n == data@.len(),
            count == (n + 7) / 8,
            r@.len() == k,
            forall|j: int| 0 <= j < k ==> r@[j] == byte_of_bits(data@, j) as u8,
    {
        let mut byte: u8 = 0;
        for i in 0..8usize
            invariant
                n == data@.len(),
                count == (n + 7) / 8,
                k < count,
                byte == bits_value(data@, k as int, i as int),
                i == 0 ==> byte < 1,
                i == 1 ==> byte < 2,
                i == 2 ==> byte < 4,
                i == 3 ==> byte < 8,
                i == 4 ==> byte < 16,
                i == 5 ==> byte < 32,
                i == 6 ==> byte < 64,
                i == 7 ==> byte < 128,
        {
            let at: usize = k * 8;
            let bit: u8 = if i < n - at && data[at + i] > 127 {
                1
            } else {
                0
            };
            byte = byte * 2 + bit;
        }
        proof {
            reveal_with_fuel(bits_value, 9);
            assert(byte == byte_of_bits(data@, k as int));
        }
        r.push(byte);
    }
    assert(r@ =~= packed_bits(data@));
    r
}

/// The level of pixel `i` of the packed data: nought past the last pixel.
pub open spec fn level_at(data: Seq<u8>, i: int) -> int {
    if 0 <= i < data.len() {
        level_of(data[i])
    } else {
        0
    }
}

/// Four pixels as one byte, the first in the highest bits.
pub open spec fn byte_of_levels(data: Seq<u8>, k: int) -> int {
    64 * level_at(data, 4 * k) + 16 * level_at(data, 4 * k + 1) + 4 * level_at(data, 4 * k + 2)
        + level_at(data, 4 * k + 3)
}

/// The pixels, packed four to a byte.
pub open spec fn packed_levels(data: Seq<u8>) -> Seq<u8> {
    Seq::new(((data.len() + 3) / 4) as nat, |k: int| byte_of_levels(data, k) as u8)
}

/// The value of the first `n` levels of a byte of packed data.
spec fn levels_value(data: Seq<u8>, k: int, n: int) -> int
    decreases n,
{
    if n <= 0 {
        0
    } else {
        4 * levels_value(data, k, n - 1) + level_at(data, 4 * k + n - 1)
    }
}

/// Packs gray pixels four to a byte: two bits each, the level of the closest gray
/// of the palette. Unused bits of the last byte are not set.
pub fn pack_2bit(data: &[u8]) -> (r: Vec<u8>)
    ensures
        r@ == packed_levels(data@),
{
    let mut r: Vec<u8> = Vec::new();
    let n: usize = data.len();
    let count: usize = n / 4 + if n % 4 == 0 {
        0
    } else {
        1
    };
    for k in 0..count
        invariant
            n == data@.len(),
            count == (n + 3) / 4,
            r@.len() == k,
            forall|j: int| 0 <= j < k ==> r@[j] == byte_of_levels(data@, j) as u8,
    {
        let mut byte: u8 = 0;
        for i in 0..4usize
            invariant
                n == data@.len(),
                count == (n + 3) / 4,
                k < count,
                byte == levels_value(data@, k as int, i as int),
                i == 0 ==> byte < 1,
                i == 1 ==> byte < 4,
                i == 2 ==> byte < 16,
                i == 3 ==> byte < 64,
        {
            let at: usize = k * 4;
            let level: u8 = if i < n - at {
                match data[at + i] {
                    0..=42 => 0,
                    43..=127 => 1,
                    128..=212 => 2,
                    _ => 3,
                }
            } else {
                0
            };
            byte = byte * 4 + level;
        }
        proof {
            reveal_with_fuel(levels_value, 5);
            assert(byte == byte_of_levels(data@, k as int));
        }
        r.push(byte);
    }
    assert(r@ =~= packed_levels(data@));
    r
}

// ------------------------------------------------------------------- pipeline

/// Whether `luma` is the brightness of a color, to the nearest step: red, green
/// and blue weigh about 21, 72 and 7 percent.
pub open spec fn near_luma(luma: u8, red: u8, green: u8, blue: u8) -> bool {
    -6000 <= 10000 * luma - (2126 * red + 7152 * green + 722 * blue) <= 6000
}

/// Whether `luma` holds the brightness of each pixel of `rgba`.
pub open spec fn is_luma_of(luma: Seq<u8>, rgba: Seq<u8>) -> bool {
    &&& rgba.len() == 4 * luma.len()
    &&& forall|i: int|
        0 <= i < luma.len() ==> near_luma(
            #[trigger] luma[i],
            rgba[4 * i],
            rgba[4 * i + 1],
            rgba[4 * i + 2],
        )
}

/// `image::DynamicImage::into_luma8` on an RGBA image: the brightness of each
/// pixel, whatever its alpha. It is computed in floating point with weights that
/// are derived from the color space, and by fused operations where the machine
/// has them, so which of two neighboring values comes out is left open.
#[verifier::external_body]
fn to_luma(rgba: Vec<u8>, width: u32, height: u32) -> (r: Vec<u8>)
    requires
        rgba@.len() == 4 * width * height,
    ensures
        is_luma_of(r@, rgba@),
{
    let image = image::RgbaImage::from_raw(width, height, rgba).unwrap();
    image::DynamicImage::ImageRgba8(image).into_luma8().into_raw()
}

/// An image of four grays, with the error of each pixel spread over its
/// neighbors.
pub uninterp spec fn dithered(luma: Seq<u8>, width: u32, height: u32) -> Seq<u8>;

/// Whether all pixels are grays of the palette.
pub open spec fn in_four_grays(image: Seq<u8>) -> bool {
    forall|i: int| 0 <= i < image.len() ==> #[trigger] image[i] == nearest_gray(image[i])
}

/// `image::imageops::dither` with the palette of four grays: every pixel becomes
/// a gray of the palette. Which one is a matter of error diffusion in whole
/// numbers over the image.
#[verifier::external_body]
fn dither(luma: Vec<u8>, width: u32, height: u32) -> (r: Vec<u8>)
    requires
        luma@.len() == width * height,
        width >= 2,
        height >= 1,
    ensures
        r@ == dithered(luma@, width, height),
        r@.len() == luma@.len(),
        in_four_grays(r@),
{
    let mut image = image::GrayImage::from_raw(width, height, luma).unwrap();
    image::imageops::dither(&mut image, &Palette2Bit);
    image.into_raw()
}

/// The bytes of a row of an image that has `bits` bits a pixel.
pub open spec fn row_bytes(width: u32, bits: u8) -> int {
    (width * bits + 7) / 8
}

/// Whether `len` bytes are the rows of an image that is not empty.
pub open spec fn fills_rows(len: int, width: u32, height: u32, bits: u8) -> bool {
    width > 0 && height > 0 && len == row_bytes(width, bits) * height
}

/// A grayscale PNG, or what the encoder has against making one.
pub uninterp spec fn gray_png(data: Seq<u8>, width: u32, height: u32, bits: u8) -> Result<
    Seq<u8>,
    Seq<char>,
>;

/// What an encoder returned: the file, or a message.
pub open spec fn encoded(r: Result<Vec<u8>, String>) -> Result<Seq<u8>, Seq<char>> {
    match r {
        Ok(file) => Ok(file@),
        Err(message) => Err(message@),
    }
}

/// `png::Encoder` and `png::Writer::write_image_data` for a grayscale image: the
/// file is a function of the size, the depth and the data. It succeeds for an
/// image that is not empty and for which there is as much data as its rows, each
/// filled up to full bytes, need.
#[verifier::external_body]
fn encode_gray(data: &[u8], width: u32, height: u32, depth: Depth) -> (r: Result<Vec<u8>, String>)
    requires
        (row_bytes(width, depth_bits(depth)) + 1) * height <= usize::MAX,
    ensures
        encoded(r) == gray_png(data@, width, height, depth_bits(depth)),
        (r is Ok) == fills_rows(data@.len() as int, width, height, depth_bits(depth)),
{
    let mut file = Vec::with_capacity(100 * 1024);
    let mut encoder = png::Encoder::new(&mut file, width, height);
    encoder.set_color(png::ColorType::Grayscale);
    encoder.set_depth(match depth {
        Depth::Native => png::BitDepth::Eight,
        Depth::Bit1 => png::BitDepth::One,
        Depth::Bit2 => png::BitDepth::Two,
    });
    let mut writer = encoder.write_header().map_err(|e| e.to_string())?;
    writer.write_image_data(data).map_err(|e| e.to_string())?;
    drop(writer);
    Ok(file)
}

/// The bits of a gray pixel.
pub open spec fn depth_bits(depth: Depth) -> u8 {
    match depth {
        Depth::Native => 8,
        Depth::Bit1 => 1,
        Depth::Bit2 => 2,
    }
}

/// Whether `r` is what the encoder makes of an image.
pub open spec fn is_gray_png(
    r: Result<Vec<u8>, Error>,
    data: Seq<u8>,
    width: u32,
    height: u32,
    bits: u8,
) -> bool {
    match gray_png(data, width, height, bits) {
        Ok(file) => r matches Ok(bytes) && bytes@ == file,
        Err(message) => r matches Err(e) && e@ == ErrorView::Encoding(message),
    }
}

/// Makes a grayscale PNG of packed pixels.
pub fn save_png(data: &[u8], width: u32, height: u32, depth: Depth) -> (r: Result<Vec<u8>, Error>)
    requires
        (row_bytes(width, depth_bits(depth)) + 1) * height <= usize::MAX,
    ensures
        is_gray_png(r, data@, width, height, depth_bits(depth)),
        (r is Ok) == fills_rows(data@.len() as int, width, height, depth_bits(depth)),
{
    match encode_gray(data, width, height, depth) {
        Ok(file) => Ok(file),
        Err(message) => Err(Error::Encoding(message)),
    }
}

/// Black below and white above a brightness of 160.
pub open spec fn thresholded(luma: Seq<u8>) -> Seq<u8> {
    luma.map_values(
        |v: u8|
            if v > 160 {
                255u8
            } else {
                0u8
            },
    )
}

/// Rows of whole pixels do not outgrow the pixels, so their size is no concern.
proof fn lemma_rows_fit(width: u32, height: u32, bits: u8, pixels: int)
    requires
        pixels == width * height,
        2 * pixels <= usize::MAX,
        1 <= bits <= 2,
    ensures
        (row_bytes(width, bits) + 1) * height <= usize::MAX,
{
    let row = row_bytes(width, bits);
    if width == 0 {
        assert(width * bits == 0) by (nonlinear_arith)
            requires
                width == 0,
        ;
        assert((row + 1) * height == height) by (nonlinear_arith)
            requires
                row == 0,
        ;
    } else {
        assert(row + 1 <= 2 * width) by (nonlinear_arith)
            requires
                row == (width * bits + 7) / 8,
                width >= 1,
                1 <= bits <= 2,
        ;
        assert((row + 1) * height <= 2 * (width * height)) by (nonlinear_arith)
            requires
                row + 1 <= 2 * width,
                height >= 0,
        ;
    }
}

/// Makes a black and white PNG of the brightness of its pixels.
pub fn luma_to_1bit(luma: Vec<u8>, width: u32, height: u32) -> (r: Result<Vec<u8>, Error>)
    requires
        luma@.len() == width * height,
        2 * luma@.len() <= usize::MAX,
    ensures
        is_gray_png(r, packed_bits(thresholded(luma@)), width, height, 1),
        (r is Ok) == fills_rows((luma@.len() + 7) as int / 8, width, height, 1),
{
    let mut image = luma;
    let n: usize = image.len();
    for i in 0..n
        invariant
            n == luma@.len(),
            image@.len() == n,
            forall|j: int| 0 <= j < i ==> image@[j] == thresholded(luma@)[j],
            forall|j: int| i <= j < n ==> image@[j] == luma@[j],
    {
        let white: bool = image[i] > 160;
        image[i] = if white {
            255
        } else {
            0
        };
    }
    assert(image@ =~= thresholded(luma@));
    let packed = pack_1bit(image.as_slice());
    proof {
        lemma_rows_fit(width, height, 1, luma@.len() as int);
    }
    save_png(packed.as_slice(), width, height, Depth::Bit1)
}

/// Makes a PNG of four grays of the brightness of its pixels.
pub fn luma_to_2bit(luma: Vec<u8>, width: u32, height: u32) -> (r: Result<Vec<u8>, Error>)
    requires
        luma@.len() == width * height,
        2 * luma@.len() <= usize::MAX,
        width >= 2,
        height >= 1,
    ensures
        is_gray_png(r, packed_levels(dithered(luma@, width, height)), width, height, 2),
        dithered(luma@, width, height).len() == luma@.len(),
        in_four_grays(dithered(luma@, width, height)),
        (r is Ok) == fills_rows((luma@.len() + 3) as int / 4, width, height, 2),
{
    proof {
        lemma_rows_fit(width, height, 2, luma@.len() as int);
    }
    let image = dither(luma, width, height);
    let packed = pack_2bit(image.as_slice());
    save_png(packed.as_slice(), width, height, Depth::Bit2)
}

/// Makes a black and white PNG of a drawn page.
pub fn process_1bit(rgba: Vec<u8>, width: u32, height: u32) -> (r: Result<Vec<u8>, Error>)
    requires
        rgba@.len() == 4 * width * height,
    ensures
        exists|luma: Seq<u8>| #[trigger]
            is_luma_of(luma, rgba@) && is_gray_png(
                r,
                packed_bits(thresholded(luma)),
                width,
                height,
                1,
            ),
        (r is Ok) == fills_rows((width * height + 7) / 8, width, height, 1),
{
    assert(4 * width * height == 4 * (width * height)) by (nonlinear_arith);
    assert(rgba@.len() == rgba.len());
    let luma = to_luma(rgba, width, height);
    luma_to_1bit(luma, width, height)
}

/// Makes a PNG of four grays of a drawn page, which is at least two pixels wide.
pub fn process_2bit(rgba: Vec<u8>, width: u32, height: u32) -> (r: Result<Vec<u8>, Error>)
    requires
        rgba@.len() == 4 * width * height,
        width >= 2,
        height >= 1,
    ensures
        exists|luma: Seq<u8>| #[trigger]
            is_luma_of(luma, rgba@) && is_gray_png(
                r,
                packed_levels(dithered(luma, width, height)),
                width,
                height,
                2,
            ) && dithered(luma, width, height).len() == luma.len() && in_four_grays(
                dithered(luma, width, height),
            ),
        (r is Ok) == fills_rows((width * height + 3) / 4, width, height, 2),
{
    assert(4 * width * height == 4 * (width * height)) by (nonlinear_arith);
    assert(rgba@.len() == rgba.len());
    let luma = to_luma(rgba, width, height);
    luma_to_2bit(luma, width, height)
}

/// A PNG in color of a drawn page.
pub uninterp spec fn color_png(rgba: Seq<u8>, width: u32, height: u32) -> Seq<u8>;

/// `tiny_skia::PixmapRef::encode_png` of a page that was drawn with its colors
/// multiplied by their alpha: a PNG in color, which is a function of the size and
/// of the pixels. It succeeds for a page that is not empty.
#[verifier::external_body]
fn encode_color(rgba: &[u8], width: u32, height: u32) -> (r: Result<Vec<u8>, String>)
    requires
        rgba@.len() == 4 * width * height,
        0 < 4 * width <= i32::MAX,
        height > 0,
    ensures
        r is Ok,
        r matches Ok(file) ==> file@ == color_png(rgba@, width, height),
{
    let pixmap = tiny_skia::PixmapRef::from_bytes(rgba, width, height).unwrap();
    pixmap.encode_png().map_err(|e| e.to_string())
}

/// Makes the image of a drawn page: in color, in black and white, or in four
/// grays.
pub fn encode_page(rgba: Vec<u8>, width: u32, height: u32, depth: Depth) -> (r: Result<
    Vec<u8>,
    Error,
>)
    requires
        rgba@.len() == 4 * width * height,
        depth == Depth::Native ==> 0 < 4 * width <= i32::MAX && height > 0,
        depth == Depth::Bit2 ==> width >= 2 && height >= 1,
    ensures
        match depth {
            Depth::Native => r matches Ok(file) && file@ == color_png(rgba@, width, height),
            Depth::Bit1 => {
                &&& exists|luma: Seq<u8>| #[trigger]
                    is_luma_of(luma, rgba@) && is_gray_png(
                        r,
                        packed_bits(thresholded(luma)),
                        width,
                        height,
                        1,
                    )
                &&& (r is Ok) == fills_rows((width * height + 7) / 8, width, height, 1)
            },
            Depth::Bit2 => {
                &&& exists|luma: Seq<u8>| #[trigger]
                    is_luma_of(luma, rgba@) && is_gray_png(
                        r,
                        packed_levels(dithered(luma, width, height)),
                        width,
                        height,
                        2,
                    ) && dithered(luma, width, height).len() == luma.len() && in_four_grays(
                        dithered(luma, width, height),
                    )
                &&& (r is Ok) == fills_rows((width * height + 3) / 4, width, height, 2)
            },
        },
{
    match depth {
        Depth::Native => match encode_color(rgba.as_slice(), width, height) {
            Ok(file) => Ok(file),
            Err(message) => Err(Error::Encoding(message)),
        },
        Depth::Bit2 => process_2bit(rgba, width, height),
        Depth::Bit1 => process_1bit(rgba, width, height),
    }
}

// ----------------------------------------------------------------------- laws

/// No gray of the palette is closer to a luma than the one that is chosen.
pub proof fn nearest_gray_is_nearest(luma: u8, level: int)
    requires
        0 <= level <= 3,
    ensures
        0 <= level_of(luma) <= 3,
        luma >= nearest_gray(luma) ==> luma - nearest_gray(luma) <= gray_of(level) - luma || luma
            - nearest_gray(luma) <= luma - gray_of(level),
        luma < nearest_gray(luma) ==> nearest_gray(luma) - luma <= gray_of(level) - luma
            || nearest_gray(luma) - luma <= luma - gray_of(level),
{
}

/// A gray of the palette stays what it is, and a luma keeps its level when it is
/// replaced by the closest gray.
pub proof fn nearest_gray_is_stable(luma: u8)
    ensures
        level_of(nearest_gray(luma)) == level_of(luma),
        nearest_gray(nearest_gray(luma)) == nearest_gray(luma),
{
}

/// A brighter pixel never gets a darker gray.
pub proof fn level_is_monotonic(a: u8, b: u8)
    requires
        a <= b,
    ensures
        level_of(a) <= level_of(b),
{
}

/// Pixel `i` of data that was packed eight to a byte.
pub open spec fn unpacked_bit(packed: Seq<u8>, i: int) -> int {
    let byte = packed[i / 8] as int;
    if i % 8 == 0 {
        byte / 128
    } else if i % 8 == 1 {
        byte / 64 % 2
    } else if i % 8 == 2 {
        byte / 32 % 2
    } else if i % 8 == 3 {
        byte / 16 % 2
    } else if i % 8 == 4 {
        byte / 8 % 2
    } else if i % 8 == 5 {
        byte / 4 % 2
    } else if i % 8 == 6 {
        byte / 2 % 2
    } else {
        byte % 2
    }
}

/// Packing keeps every pixel: its bit can be read off the packed data.
pub proof fn packed_bits_are_kept(data: Seq<u8>, i: int)
    requires
        0 <= i < data.len(),
    ensures
        i / 8 < packed_bits(data).len(),
        unpacked_bit(packed_bits(data), i) == bit_at(data, i),
{
    let k = i / 8;
    assert(packed_bits(data)[k] == byte_of_bits(data, k));
}

/// Pixel `i` of data that was packed four to a byte.
pub open spec fn unpacked_level(packed: Seq<u8>, i: int) -> int {
    let byte = packed[i / 4] as int;
    if i % 4 == 0 {
        byte / 64
    } else if i % 4 == 1 {
        byte / 16 % 4
    } else if i % 4 == 2 {
        byte / 4 % 4
    } else {
        byte % 4
    }
}

/// Packing keeps the level of every pixel.
pub proof fn packed_levels_are_kept(data: Seq<u8>, i: int)
    requires
        0 <= i < data.len(),
    ensures
        i / 4 < packed_levels(data).len(),
        unpacked_level(packed_levels(data), i) == level_of(data[i]),
{
    let k = i / 4;
    assert(packed_levels(data)[k] == byte_of_levels(data, k));
}

/// An image of nothing but grays of the palette can be read back in full.
pub proof fn palette_images_are_kept(data: Seq<u8>, i: int)
    requires
        in_four_grays(data),
        0 <= i < data.len(),
    ensures
        gray_of(unpacked_level(packed_levels(data), i)) == data[i],
{
    packed_levels_are_kept(data, i);
}

/// A thresholded image can be read back in full: each pixel is white where the
/// brightness is above 160.
pub proof fn thresholded_images_are_kept(luma: Seq<u8>, i: int)
    requires
        0 <= i < luma.len(),
    ensures
        unpacked_bit(packed_bits(thresholded(luma)), i) == if luma[i] > 160 {
            1int
        } else {
            0int
        },
{
    packed_bits_are_kept(thresholded(luma), i);
}

/// Images whose rows fill whole bytes have just the data that a PNG needs: a
/// width that is a multiple of eight never fails in black and white.
pub proof fn full_bytes_never_fail_1bit(width: u32, height: u32)
    requires
        width > 0,
        height > 0,
        width % 8 == 0,
    ensures
        fills_rows((width * height + 7) / 8, width, height, 1),
{
    let q = width as int / 8;
    assert((width * height + 7) / 8 == q * height) by (nonlinear_arith)
        requires
            width == 8 * q,
    ;
    assert(row_bytes(width, 1) == q);
}

/// A width that is a multiple of four never fails in four grays.
pub proof fn full_bytes_never_fail_2bit(width: u32, height: u32)
    requires
        width > 0,
        height > 0,
        width % 4 == 0,
    ensures
        fills_rows((width * height + 3) / 4, width, height, 2),
{
    let q = width as int / 4;
    assert((width * height + 3) / 4 == q * height) by (nonlinear_arith)
        requires
            width == 4 * q,
    ;
    assert(row_bytes(width, 2) == q);
}

/// Where rows fill whole bytes, each row of a black and white image starts with a
/// byte of its own, and a pixel stands in its row where a PNG has it.
pub proof fn rows_start_with_a_byte_1bit(width: u32, x: int, y: int)
    requires
        width % 8 == 0,
        0 <= x < width,
        0 <= y,
    ensures
        (y * width + x) / 8 == y * row_bytes(width, 1) + x / 8,
        (y * width + x) % 8 == x % 8,
{
    let q = width as int / 8;
    assert(row_bytes(width, 1) == q);
    assert(y * width == 8 * (y * q)) by (nonlinear_arith)
        requires
            width == 8 * q,
    ;
}

/// Where rows fill whole bytes, each row of an image of four grays starts with a
/// byte of its own, and a pixel stands in its row where a PNG has it.
pub proof fn rows_start_with_a_byte_2bit(width: u32, x: int, y: int)
    requires
        width % 4 == 0,
        0 <= x < width,
        0 <= y,
    ensures
        (y * width + x) / 4 == y * row_bytes(width, 2) + x / 4,
        (y * width + x) % 4 == x % 4,
{
    let q = width as int / 4;
    assert(row_bytes(width, 2) == q);
    assert(y * width == 4 * (y * q)) by (nonlinear_arith)
        requires
            width == 4 * q,
    ;
}

}
