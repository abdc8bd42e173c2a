//! Image data as plain bytes and its gray, inactive variant.

use vstd::prelude::*;

verus! {

/// Layout of the bytes of one pixel.
#[derive(Debug, Clone, Copy, PartialEq, Eq, Structural)]
pub enum ColorDepth {
    /// 8-bit gray, one byte per pixel.
    L8,
    /// 8-bit gray with alpha, two bytes per pixel.
    La8,
    /// 8-bit RGB, three bytes per pixel.
    Rgb8,
    /// 8-bit RGB with alpha, four bytes per pixel.
    Rgba8,
}

/// Bytes per pixel of a color depth.
pub open spec fn bytes_per_pixel(d: ColorDepth) -> nat {
    match d {
        ColorDepth::L8 => 1,
        ColorDepth::La8 => 2,
        ColorDepth::Rgb8 => 3,
        ColorDepth::Rgba8 => 4,
    }
}

/// An image as its pixel bytes, their layout and its size in pixels.
#[derive(Debug, Clone, PartialEq, Eq)]
pub struct RgbImageData {
    pub data: Vec<u8>,
    pub depth: ColorDepth,
    pub w: i32,
    pub h: i32,
}

/// The gray value of an RGB pixel: (306 r + 601 g + 116 b) / 1024.
pub open spec fn gray_of(r: u8, g: u8, b: u8) -> u8 {
    ((306 * r + 601 * g + 116 * b) / 1024) as u8
}

/// The gray, inactive variant of `data`, `pixels` pixels laid out as
/// `depth`: RGB turns into gray (RGBA into gray with the same alpha), and
/// gray turns into the middle gray 128 (keeping the alpha).
pub open spec fn spec_gray_image(data: Seq<u8>, pixels: nat, depth: ColorDepth) -> Seq<u8> {
    match depth {
        ColorDepth::Rgb8 => Seq::new(pixels, |i: int| gray_of(data[3 * i], data[3 * i + 1], data[3 * i + 2])),
        ColorDepth::Rgba8 => Seq::new(2 * pixels, |k: int|
            if k % 2 == 0 {
                gray_of(data[4 * (k / 2)], data[4 * (k / 2) + 1], data[4 * (k / 2) + 2])
            } else {
                data[4 * (k / 2) + 3]
            }),
        ColorDepth::L8 => Seq::new(pixels, |i: int| 128u8),
        ColorDepth::La8 => Seq::new(2 * pixels, |k: int|
            if k % 2 == 0 { 128u8 } else { data[2 * (k / 2) + 1] }),
    }
}

fn gray_value(r: u8, g: u8, b: u8) -> (v: u8)
    ensures
        v == gray_of(r, g, b),
{
    let x: u32 = 306 * r as u32 + 601 * g as u32 + 116 * b as u32;
    assert(x >> 10 == x / 1024) by (bit_vector);
    let gray = x >> 10;
    gray as u8
}

/// The gray data of an image of `w` × `h` pixels whose bytes are laid out as
/// `depth`; the format of the result is `L8` or `La8`.
pub fn gray_image(rgb_data: &Vec<u8>, w: i32, h: i32, depth: ColorDepth) -> (out: Vec<u8>)
    requires
        w >= 0,
        h >= 0,
        w * h <= usize::MAX,
        depth != ColorDepth::L8 ==> rgb_data@.len() >= bytes_per_pixel(depth) * (w * h),
        2 * (w * h) <= usize::MAX,
    ensures
        out@ == spec_gray_image(rgb_data@, (w * h) as nat, depth),
{
    let pixels: usize = (w as usize) * (h as usize);
    let n = rgb_data.len();
    let mut gray_data: Vec<u8> = Vec::new();
    match depth {
        ColorDepth::Rgb8 => {
            let mut i: usize = 0;
            while i < pixels
                invariant
                    i <= pixels,
                    pixels == w * h,
                    n == rgb_data@.len(),
                    rgb_data@.len() >= 3 * pixels,
                    gray_data@ =~= Seq::new(i as nat, |k: int| gray_of(rgb_data@[3 * k], rgb_data@[3 * k + 1], rgb_data@[3 * k + 2])),
                decreases pixels - i,
            {
                let j = i * 3;
                gray_data.push(gray_value(rgb_data[j], rgb_data[j + 1], rgb_data[j + 2]));
                i = i + 1;
            }
        },
        ColorDepth::Rgba8 => {
            let mut i: usize = 0;
            while i < pixels
                invariant
                    i <= pixels,
                    pixels == w * h,
                    n == rgb_data@.len(),
                    rgb_data@.len() >= 4 * pixels,
                    gray_data@ =~= Seq::new(2 * i as nat, |k: int|
                        if k % 2 == 0 {
                            gray_of(rgb_data@[4 * (k / 2)], rgb_data@[4 * (k / 2) + 1], rgb_data@[4 * (k / 2) + 2])
                        } else {
                            rgb_data@[4 * (k / 2) + 3]
                        }),
                decreases pixels - i,
            {
                let j = i * 4;
                gray_data.push(gray_value(rgb_data[j], rgb_data[j + 1], rgb_data[j + 2]));
                gray_data.push(rgb_data[j + 3]);
                i = i + 1;
                assert(gray_data@.len() == 2 * i);
                assert forall|k: int| 0 <= k < 2 * i implies #[trigger] gray_data@[k] == (
                    if k % 2 == 0 {
                        gray_of(rgb_data@[4 * (k / 2)], rgb_data@[4 * (k / 2) + 1], rgb_data@[4 * (k / 2) + 2])
                    } else {
                        rgb_data@[4 * (k / 2) + 3]
                    }) by {
                    if k >= 2 * (i - 1) {
                        assert(k / 2 == i - 1);
                    }
                }
            }
        },
        ColorDepth::L8 => {
            let mut i: usize = 0;
            while i < pixels
                invariant
                    i <= pixels,
                    gray_data@ =~= Seq::new(i as nat, |k: int| 128u8),
                decreases pixels - i,
            {
                gray_data.push(128u8);
                i = i + 1;
            }
        },
        ColorDepth::La8 => {
            let mut i: usize = 0;
            while i < pixels
                invariant
                    i <= pixels,
                    pixels == w * h,
                    n == rgb_data@.len(),
                    rgb_data@.len() >= 2 * pixels,
                    gray_data@ =~= Seq::new(2 * i as nat, |k: int|
                        if k % 2 == 0 { 128u8 } else { rgb_data@[2 * (k / 2) + 1] }),
                decreases pixels - i,
            {
                gray_data.push(128u8);
                gray_data.push(rgb_data[i * 2 + 1]);
                i = i + 1;
                assert(gray_data@.len() == 2 * i);
                assert forall|k: int| 0 <= k < 2 * i implies #[trigger] gray_data@[k] == (
                    if k % 2 == 0 { 128u8 } else { rgb_data@[2 * (k / 2) + 1] }) by {
                    if k >= 2 * (i - 1) {
                        assert(k / 2 == i - 1);
                    }
                }
            }
        },
    }
    gray_data
}

/// The pixel data, depth and size of an optional image; without an image, a
/// black `L8` board of the target size.
pub fn image_to_rgb_data(rgb_image: &Option<RgbImageData>, target_width: i32, target_height: i32) -> (r: (Option<Vec<u8>>, ColorDepth, i32, i32))
    requires
        rgb_image is None ==> target_width >= 0 && target_height >= 0
            && target_width * target_height <= usize::MAX,
    ensures
        match rgb_image {
            Some(image) => r.0 matches Some(d) && d@ == image.data@ && r.1 == image.depth && r.2 == image.w && r.3 == image.h,
            None => r.0 matches Some(d) && d@ == Seq::new((target_width * target_height) as nat, |i: int| 0u8)
                && r.1 == ColorDepth::L8 && r.2 == target_width && r.3 == target_height,
        },
{
    match rgb_image {
        Some(image) => (Some(image.data.clone()), image.depth, image.w, image.h),
        None => {
            let pixels: usize = (target_width as usize) * (target_height as usize);
            let mut board: Vec<u8> = Vec::new();
            let mut i: usize = 0;
            while i < pixels
                invariant
                    i <= pixels,
                    board@ =~= Seq::new(i as nat, |k: int| 0u8),
                decreases pixels - i,
            {
                board.push(0u8);
                i = i + 1;
            }
            (Some(board), ColorDepth::L8, target_width, target_height)
        },
    }
}

/// Graying keeps the size and the transparency of an image: pixel `i` of
/// RGB or RGBA data turns into the gray byte (306 r + 601 g + 116 b) / 1024,
/// followed, for RGBA, by the pixel's own alpha; a gray pixel turns into
/// the middle gray 128, keeping its alpha.
pub proof fn law_gray_keeps_alpha(data: Seq<u8>, pixels: nat, depth: ColorDepth, i: int)
    requires
        0 <= i < pixels,
        data.len() >= bytes_per_pixel(depth) * pixels,
    ensures
        ({
            let out = spec_gray_image(data, pixels, depth);
            match depth {
                ColorDepth::Rgba8 => {
                    &&& out.len() == 2 * pixels
                    &&& out[2 * i] as int == (306 * data[4 * i] + 601 * data[4 * i + 1] + 116 * data[4 * i + 2]) / 1024
                    &&& out[2 * i + 1] == data[4 * i + 3]
                },
                ColorDepth::Rgb8 => {
                    &&& out.len() == pixels
                    &&& out[i] as int == (306 * data[3 * i] + 601 * data[3 * i + 1] + 116 * data[3 * i + 2]) / 1024
                },
                ColorDepth::La8 => {
                    &&& out.len() == 2 * pixels
                    &&& out[2 * i] == 128u8
                    &&& out[2 * i + 1] == data[2 * i + 1]
                },
                ColorDepth::L8 => {
                    &&& out.len() == pixels
                    &&& out[i] == 128u8
                },
            }
        }),
{
    assert((2 * i) % 2 == 0 && (2 * i) / 2 == i && (2 * i + 1) % 2 == 1 && (2 * i + 1) / 2 == i);
    let (r, g, b) = (data[4 * i], data[4 * i + 1], data[4 * i + 2]);
    assert(0 <= 306 * r + 601 * g + 116 * b <= 1023 * 255);
    let (r3, g3, b3) = (data[3 * i], data[3 * i + 1], data[3 * i + 2]);
    assert(0 <= 306 * r3 + 601 * g3 + 116 * b3 <= 1023 * 255);
}

} // verus!
