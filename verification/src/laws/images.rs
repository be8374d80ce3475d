//! What holds of images: their grays, their packed pixels and their files.

use crate::render::{
    bit_at, byte_of_bits, byte_of_levels, depth_bits, encoded, fills_rows, gray_of, gray_png,
    in_four_grays, is_gray_png, is_luma_of, level_at, level_of, near_luma, nearest_gray,
    packed_bits, packed_levels, row_bytes, thresholded, unpacked_bit, unpacked_level, Depth, Error,
    ErrorView,
};
use vstd::prelude::*;

verus! {

// ---------------------------------------------------------------------- grays

/// The gray of a pixel is one of 0, 85, 170 and 255, and no further than 42 from its
/// brightness; its level is how many of these grays are darker.
pub proof fn grays_are_close_to_the_brightness(luma: u8)
    ensures
        nearest_gray(luma) == 0 || nearest_gray(luma) == 85 || nearest_gray(luma) == 170
            || nearest_gray(luma) == 255,
        -42 <= nearest_gray(luma) - luma <= 42,
        level_of(luma) == nearest_gray(luma) as int / 85,
        85 * level_of(luma) == nearest_gray(luma),
        gray_of(level_of(luma)) == nearest_gray(luma),
        gray_of(0) == 0 && gray_of(1) == 85 && gray_of(2) == 170 && gray_of(3) == 255,
{
}

/// An image is in four grays if each of its pixels is one of them.
pub proof fn four_grays_are_these(image: Seq<u8>)
    ensures
        in_four_grays(image) <==> forall|i: int|
            0 <= i < image.len() ==> (#[trigger] image[i]) == 0 || image[i] == 85 || image[i] == 170
                || image[i] == 255,
{
    assert forall|v: u8| nearest_gray(v) == v <==> v == 0 || v == 85 || v == 170 || v == 255 by {}
    if in_four_grays(image) {
        assert forall|i: int| 0 <= i < image.len() implies (#[trigger] image[i]) == 0 || image[i]
            == 85 || image[i] == 170 || image[i] == 255 by {
            assert(nearest_gray(image[i]) == image[i]);
        }
    }
}

/// In black and white a pixel is white if and only if its brightness is above 160.
pub proof fn bright_pixels_become_white(luma: Seq<u8>, i: int)
    requires
        0 <= i < luma.len(),
    ensures
        thresholded(luma).len() == luma.len(),
        luma[i] > 160 ==> thresholded(luma)[i] == 255,
        luma[i] <= 160 ==> thresholded(luma)[i] == 0,
{
}

/// The brightness of a pixel is its red, green and blue, weighed with 2126, 7152 and
/// 722 ten thousandths, to within six tenths of a step; alpha does not count.
pub proof fn brightness_weighs_the_colors(luma: Seq<u8>, rgba: Seq<u8>, i: int)
    requires
        is_luma_of(luma, rgba),
        0 <= i < luma.len(),
    ensures
        rgba.len() == 4 * luma.len(),
        10000 * luma[i] - 6000 <= 2126 * rgba[4 * i] + 7152 * rgba[4 * i + 1] + 722 * rgba[4 * i
            + 2] <= 10000 * luma[i] + 6000,
{
    assert(near_luma(luma[i], rgba[4 * i], rgba[4 * i + 1], rgba[4 * i + 2]));
}

// -------------------------------------------------------------------- packing

/// Black and white pixels are packed eight to a byte, the first in the highest bit. A
/// bit is set if and only if there is such a pixel and it is brighter than 127.
pub proof fn eight_pixels_make_a_byte(data: Seq<u8>, k: int)
    requires
        0 <= k < packed_bits(data).len(),
    ensures
        8 * packed_bits(data).len() >= data.len(),
        8 * (packed_bits(data).len() - 1) < data.len(),
        ({
            let byte = packed_bits(data)[k] as int;
            let bright = |i: int| 0 <= i < data.len() && data[i] > 127;
            &&& bright(8 * k) <==> byte / 128 == 1
            &&& bright(8 * k + 1) <==> byte / 64 % 2 == 1
            &&& bright(8 * k + 2) <==> byte / 32 % 2 == 1
            &&& bright(8 * k + 3) <==> byte / 16 % 2 == 1
            &&& bright(8 * k + 4) <==> byte / 8 % 2 == 1
            &&& bright(8 * k + 5) <==> byte / 4 % 2 == 1
            &&& bright(8 * k + 6) <==> byte / 2 % 2 == 1
            &&& bright(8 * k + 7) <==> byte % 2 == 1
        }),
{
    assert(packed_bits(data)[k] == byte_of_bits(data, k));
}

/// Gray pixels are packed four to a byte, the first in the highest bits, each by the
/// level of its gray. What is left over of the last byte is nought.
pub proof fn four_pixels_make_a_byte(data: Seq<u8>, k: int)
    requires
        0 <= k < packed_levels(data).len(),
    ensures
        4 * packed_levels(data).len() >= data.len(),
        4 * (packed_levels(data).len() - 1) < data.len(),
        ({
            let byte = packed_levels(data)[k] as int;
            let level = |i: int|
                if 0 <= i < data.len() {
                    level_of(data[i])
                } else {
                    0
                };
            &&& byte / 64 == level(4 * k)
            &&& byte / 16 % 4 == level(4 * k + 1)
            &&& byte / 4 % 4 == level(4 * k + 2)
            &&& byte % 4 == level(4 * k + 3)
        }),
{
    assert(packed_levels(data)[k] == byte_of_levels(data, k));
}

/// There is no byte without a pixel, and no pixel without a byte.
pub proof fn nothing_is_packed_into_nothing()
    ensures
        packed_bits(Seq::empty()).len() == 0,
        packed_levels(Seq::empty()).len() == 0,
{
}

/// A pixel of packed data stands in the byte of its place, as high as its place among
/// the pixels of the byte is early.
pub proof fn pixels_are_read_off_their_byte(packed: Seq<u8>, data: Seq<u8>, i: int, j: int)
    requires
        0 <= i,
    ensures
        ({
            let byte = packed[i / 8] as int;
            let bit = unpacked_bit(packed, i);
            &&& i % 8 == 0 ==> bit == byte / 128
            &&& i % 8 == 1 ==> bit == byte / 64 % 2
            &&& i % 8 == 2 ==> bit == byte / 32 % 2
            &&& i % 8 == 3 ==> bit == byte / 16 % 2
            &&& i % 8 == 4 ==> bit == byte / 8 % 2
            &&& i % 8 == 5 ==> bit == byte / 4 % 2
            &&& i % 8 == 6 ==> bit == byte / 2 % 2
            &&& i % 8 == 7 ==> bit == byte % 2
        }),
        ({
            let byte = packed[i / 4] as int;
            let level = unpacked_level(packed, i);
            &&& i % 4 == 0 ==> level == byte / 64
            &&& i % 4 == 1 ==> level == byte / 16 % 4
            &&& i % 4 == 2 ==> level == byte / 4 % 4
            &&& i % 4 == 3 ==> level == byte % 4
        }),
        0 <= j < data.len() ==> (bit_at(data, j) == 1 <==> data[j] > 127),
        0 <= j < data.len() ==> level_at(data, j) == level_of(data[j]),
        !(0 <= j < data.len()) ==> bit_at(data, j) == 0 && level_at(data, j) == 0,
{
}

// ---------------------------------------------------------------------- files

/// A row takes as many bytes as its bits need, filled up. An image has data for all
/// its rows, and at least one pixel.
pub proof fn rows_take_whole_bytes(len: int, width: u32, height: u32, bits: u8)
    ensures
        8 * row_bytes(width, bits) >= width * bits,
        8 * row_bytes(width, bits) < width * bits + 8,
        fills_rows(len, width, height, bits) <==> width > 0 && height > 0 && len == row_bytes(
            width,
            bits,
        ) * height,
        depth_bits(Depth::Bit1) == 1,
        depth_bits(Depth::Bit2) == 2,
        depth_bits(Depth::Native) == 8,
{
}

/// The file of an image is what the encoder made of it, and its complaint is an error
/// of encoding.
pub proof fn files_are_what_the_encoder_makes(
    data: Seq<u8>,
    width: u32,
    height: u32,
    bits: u8,
    file: Vec<u8>,
    error: Error,
    message: String,
)
    ensures
        is_gray_png(Ok(file), data, width, height, bits) <==> gray_png(data, width, height, bits)
            == Ok::<Seq<u8>, Seq<char>>(file@),
        is_gray_png(Err(error), data, width, height, bits) <==> (gray_png(
            data,
            width,
            height,
            bits,
        ) matches Err(complaint) && error@ == ErrorView::Encoding(complaint)),
        encoded(Ok(file)) == Ok::<Seq<u8>, Seq<char>>(file@),
        encoded(Err(message)) == Err::<Seq<u8>, Seq<char>>(message@),
{
}

}
