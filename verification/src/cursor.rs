//! Red-tinted mouse cursors: the pixel work behind recolouring the system
//! cursors so the pointer, which the screen filter never reaches, turns red
//! too.
//!
//! Colour cursors keep their red and alpha channels and lose green and blue.
//! Monochrome cursors are rebuilt as 32-bit cursors from their AND/XOR masks:
//! transparent stays transparent, black stays black, white and inverting
//! pixels become red.

use vstd::prelude::*;
use vstd::arithmetic::div_mod::lemma_fundamental_div_mod_converse;

verus! {

/// The standard system cursors that are recoloured: arrow, I-beam, wait,
/// cross, up arrow, the four resize cursors, move, unavailable, hand and
/// app-starting.
pub const CURSOR_IDS: [u32; 13] = [
    32512,
    32513,
    32514,
    32515,
    32516,
    32642,
    32643,
    32644,
    32645,
    32646,
    32648,
    32649,
    32650,
];

/// The red-only transform of a buffer of 32-bit BGRA pixels: in every whole
/// pixel, blue (byte 0) and green (byte 1) become 0; red, alpha and any
/// trailing partial pixel are kept.
pub open spec fn red_only(old_buf: Seq<u8>) -> Seq<u8> {
    Seq::new(
        old_buf.len(),
        |k: int|
            if k < (old_buf.len() / 4) * 4 && k % 4 < 2 {
                0u8
            } else {
                old_buf[k]
            },
    )
}

/// Pixel `p` (4 bytes) of a flat buffer of 32-bit pixels.
pub open spec fn nth_pixel(buf: Seq<u8>, p: int) -> Seq<u8> {
    buf.subrange(4 * p, 4 * p + 4)
}

/// Pixel `(x, y)` of a top-down image of 32-bit pixels, `width` pixels wide.
pub open spec fn pixel_at(px: Seq<u8>, width: int, x: int, y: int) -> Seq<u8> {
    nth_pixel(px, y * width + x)
}

/// The red-only transform keeps the buffer's length; every whole pixel,
/// however many there are, loses blue and green and keeps red and alpha; a
/// trailing partial pixel is left alone.
pub proof fn lemma_red_only_every_pixel(buf: Seq<u8>)
    ensures
        red_only(buf).len() == buf.len(),
        forall|p: int|
            0 <= p < buf.len() / 4 ==> #[trigger] nth_pixel(red_only(buf), p) == seq![
                0u8,
                0u8,
                buf[4 * p + 2],
                buf[4 * p + 3],
            ],
        forall|k: int| (buf.len() / 4) * 4 <= k < buf.len() ==> #[trigger] red_only(buf)[k] == buf[k],
{
    assert forall|p: int| 0 <= p < buf.len() / 4 implies #[trigger] nth_pixel(red_only(buf), p)
        == seq![0u8, 0u8, buf[4 * p + 2], buf[4 * p + 3]] by {
        assert((4 * p) % 4 == 0 && (4 * p + 1) % 4 == 1 && (4 * p + 2) % 4 == 2 && (4 * p + 3) % 4
            == 3);
        assert(4 * p + 3 < (buf.len() / 4) * 4);
        assert(nth_pixel(red_only(buf), p) =~= seq![0u8, 0u8, buf[4 * p + 2], buf[4 * p + 3]]);
    }
}

/// Pushes a colour cursor's BGRA pixels through the red-only transform in place.
pub fn recolor_pixels(buf: &mut Vec<u8>)
    ensures
        final(buf)@ == red_only(old(buf)@),
        final(buf)@.len() == old(buf)@.len(),
        forall|p: int|
            0 <= p < old(buf)@.len() / 4 ==> #[trigger] nth_pixel(final(buf)@, p) == seq![
                0u8,
                0u8,
                old(buf)@[4 * p + 2],
                old(buf)@[4 * p + 3],
            ],
        forall|k: int|
            (old(buf)@.len() / 4) * 4 <= k < old(buf)@.len() ==> #[trigger] final(buf)@[k] == old(
                buf,
            )@[k],
{
    let ghost orig = buf@;
    let len = buf.len();
    let n = len / 4;
    let mut p: usize = 0;
    while p < n
        invariant
            len == orig.len(),
            n == orig.len() / 4,
            p <= n,
            buf@.len() == orig.len(),
            forall|k: int|
                0 <= k < orig.len() ==> #[trigger] buf@[k] == if k < 4 * p && k % 4 < 2 {
                    0u8
                } else {
                    orig[k]
                },
        decreases n - p,
    {
        assert(4 * p + 1 < orig.len());
        buf[4 * p] = 0;
        buf[4 * p + 1] = 0;
        p += 1;
    }
    assert(buf@ =~= red_only(orig));
    proof {
        lemma_red_only_every_pixel(orig);
    }
}

/// Sizes derived from a monochrome cursor's mask bitmap, which stacks the AND
/// mask on top of the XOR mask.
#[derive(Clone, Copy, Debug, PartialEq, Eq, Structural)]
pub struct MaskLayout {
    /// Height of the cursor: half the mask's height.
    pub height: i32,
    /// Bytes per row of the mask read as a 1-bit device-independent bitmap
    /// (rows padded to 32 bits).
    pub stride: usize,
    /// Bytes per row of a 1-bit device-dependent bitmap of the cursor's width
    /// (rows padded to 16 bits), for the replacement all-opaque mask.
    pub mono_stride: usize,
}

/// Checks a mask bitmap's width and full height and derives its layout; a
/// mask that is empty or of odd height is refused.
pub fn mask_layout(width: i32, full_h: i32) -> (layout: Option<MaskLayout>)
    requires
        (width > 0 && full_h > 0 && full_h % 2 == 0) ==> width <= i32::MAX - 31,
    ensures
        layout is None <==> (width <= 0 || full_h <= 0 || full_h % 2 != 0),
        layout matches Some(l) ==> {
            &&& l.height == full_h / 2
            &&& l.stride == ((width + 31) / 32) * 4
            &&& l.mono_stride == ((width + 15) / 16) * 2
        },
{
    if width <= 0 || full_h <= 0 || full_h % 2 != 0 {
        return None;
    }
    let height = full_h / 2;
    let stride = (((width + 31) / 32) * 4) as usize;
    let mono_stride = (((width + 15) / 16) * 2) as usize;
    Some(MaskLayout { height, stride, mono_stride })
}

/// Bytes of a `width` by `height` 32-bit colour bitmap, or `None` when the
/// bitmap is empty.
pub fn color_buffer_len(width: i32, height: i32) -> (len: Option<usize>)
    requires
        (width > 0 && height > 0) ==> width * height <= i32::MAX,
        (width > 0 && height > 0) ==> width * height * 4 <= usize::MAX,
    ensures
        len is None <==> (width <= 0 || height <= 0),
        len matches Some(n) ==> n == width * height * 4,
{
    if width <= 0 || height <= 0 {
        return None;
    }
    assert(0 < width * height) by (nonlinear_arith)
        requires
            width > 0,
            height > 0,
    ;
    let pixels = (width * height) as usize;
    Some(pixels * 4)
}

/// Bit `x` of row `row` of a 1-bit top-down bitmap with `stride` bytes per
/// row; the most significant bit of a byte is its leftmost pixel.
pub open spec fn mask_bit(mask: Seq<u8>, stride: int, row: int, x: int) -> u8 {
    (mask[row * stride + x / 8] >> ((7 - x % 8) as u8)) & 1u8
}

/// The BGRA pixel that replaces a monochrome cursor pixel with the given AND
/// and XOR bits: transparent (AND 1, XOR 0), black (AND 0, XOR 0), red
/// otherwise (white, or inverting the screen).
pub open spec fn mono_pixel(and_bit: u8, xor_bit: u8) -> Seq<u8> {
    if and_bit == 1 && xor_bit == 0 {
        seq![0u8, 0u8, 0u8, 0u8]
    } else if and_bit == 0 && xor_bit == 0 {
        seq![0u8, 0u8, 0u8, 255u8]
    } else {
        seq![0u8, 0u8, 255u8, 255u8]
    }
}

/// The top-down BGRA pixels of the red cursor built from a mask whose rows
/// `0..height` are the AND mask and rows `height..2 * height` the XOR mask.
pub open spec fn mask_cursor_pixels(mask: Seq<u8>, stride: nat, width: nat, height: nat) -> Seq<
    u8,
> {
    Seq::new(
        width * height * 4,
        |k: int|
            {
                let p = k / 4;
                let y = p / (width as int);
                let x = p % (width as int);
                mono_pixel(
                    mask_bit(mask, stride as int, y, x),
                    mask_bit(mask, stride as int, y + height, x),
                )[k % 4]
            },
    )
}

/// Pixel `(x, y)` of the red cursor built from a mask depends on two mask bits
/// alone: bit `7 - x % 8` of byte `y * stride + x / 8` (the AND mask) and of
/// byte `(y + height) * stride + x / 8` (the XOR mask). AND set with XOR clear
/// gives transparent, both clear opaque black, anything else opaque red (BGRA).
pub proof fn lemma_mask_cursor_pixel(
    mask: Seq<u8>,
    stride: nat,
    width: nat,
    height: nat,
    x: int,
    y: int,
)
    requires
        0 <= x < width,
        0 <= y < height,
    ensures
        mask_cursor_pixels(mask, stride, width, height).len() == width * height * 4,
        ({
            let and_bit = (mask[y * stride + x / 8] >> ((7 - x % 8) as u8)) & 1u8;
            let xor_bit = (mask[(y + height) * stride + x / 8] >> ((7 - x % 8) as u8)) & 1u8;
            pixel_at(mask_cursor_pixels(mask, stride, width, height), width as int, x, y) == if and_bit
                == 1 && xor_bit == 0 {
                seq![0u8, 0u8, 0u8, 0u8]
            } else if and_bit == 0 && xor_bit == 0 {
                seq![0u8, 0u8, 0u8, 255u8]
            } else {
                seq![0u8, 0u8, 255u8, 255u8]
            }
        }),
{
    let px = mask_cursor_pixels(mask, stride, width, height);
    lemma_cursor_position(width, height, y as nat, x as nat, 0);
    lemma_cursor_position(width, height, y as nat, x as nat, 1);
    lemma_cursor_position(width, height, y as nat, x as nat, 2);
    lemma_cursor_position(width, height, y as nat, x as nat, 3);
    let and_bit = (mask[y * stride + x / 8] >> ((7 - x % 8) as u8)) & 1u8;
    let xor_bit = (mask[(y + height) * stride + x / 8] >> ((7 - x % 8) as u8)) & 1u8;
    let expected = if and_bit == 1 && xor_bit == 0 {
        seq![0u8, 0u8, 0u8, 0u8]
    } else if and_bit == 0 && xor_bit == 0 {
        seq![0u8, 0u8, 0u8, 255u8]
    } else {
        seq![0u8, 0u8, 255u8, 255u8]
    };
    assert(mono_pixel(mask_bit(mask, stride as int, y, x), mask_bit(mask, stride as int, y + height, x))
        == expected);
    assert(pixel_at(px, width as int, x, y) =~= expected);
}

fn read_mask_bit(mask: &[u8], stride: usize, row: usize, x: usize) -> (b: u8)
    requires
        row * stride + x / 8 < mask@.len(),
    ensures
        b == mask_bit(mask@, stride as int, row as int, x as int),
        b <= 1,
{
    let mask_len = mask.len();
    assert(row * stride <= row * stride + x / 8 < mask_len);
    let byte = mask[row * stride + x / 8];
    let shift = (7 - x % 8) as u8;
    assert((byte >> shift) & 1u8 <= 1u8) by (bit_vector);
    (byte >> shift) & 1
}

proof fn lemma_mask_index(stride: nat, width: nat, height: nat, y: nat, x: nat)
    requires
        width <= 8 * stride,
        y < 2 * height,
        x < width,
    ensures
        y * stride + x / 8 < 2 * height * stride,
{
    assert(x / 8 < stride);
    assert(y * stride + stride <= 2 * height * stride) by (nonlinear_arith)
        requires
            y < 2 * height,
    ;
}

proof fn lemma_cursor_position(width: nat, height: nat, y: nat, x: nat, c: nat)
    requires
        y < height,
        x < width,
        c < 4,
    ensures
        ((y * width + x) * 4 + c) / 4 == y * width + x,
        ((y * width + x) * 4 + c) % 4 == c,
        ((y * width + x) as int) / (width as int) == y,
        ((y * width + x) as int) % (width as int) == x,
        (y * width + x) * 4 + c < width * height * 4,
{
    lemma_fundamental_div_mod_converse(((y * width + x) * 4 + c) as int, 4, (y * width + x) as int, c as int);
    lemma_fundamental_div_mod_converse((y * width + x) as int, width as int, y as int, x as int);
    assert((y * width + x) * 4 + c < width * height * 4) by (nonlinear_arith)
        requires
            y < height,
            x < width,
            c < 4,
    ;
}

/// Builds the pixels of a red 32-bit cursor from a monochrome cursor's mask,
/// read as a top-down 1-bit bitmap of `width` pixels and `2 * height` rows of
/// `stride` bytes.
pub fn cursor_from_mask(mask: &[u8], stride: usize, width: usize, height: usize) -> (px: Vec<u8>)
    requires
        mask@.len() >= 2 * height * stride,
        width <= 8 * stride,
        width * height * 4 <= usize::MAX,
    ensures
        px@ == mask_cursor_pixels(mask@, stride as nat, width as nat, height as nat),
        px@.len() == width * height * 4,
        forall|x: int, y: int|
            0 <= x < width && 0 <= y < height ==> #[trigger] pixel_at(px@, width as int, x, y) == ({
                let and_bit = (mask@[y * stride + x / 8] >> ((7 - x % 8) as u8)) & 1u8;
                let xor_bit = (mask@[(y + height) * stride + x / 8] >> ((7 - x % 8) as u8)) & 1u8;
                if and_bit == 1 && xor_bit == 0 {
                    seq![0u8, 0u8, 0u8, 0u8]
                } else if and_bit == 0 && xor_bit == 0 {
                    seq![0u8, 0u8, 0u8, 255u8]
                } else {
                    seq![0u8, 0u8, 255u8, 255u8]
                }
            }),
{
    let ghost target = mask_cursor_pixels(mask@, stride as nat, width as nat, height as nat);
    let mut px: Vec<u8> = Vec::new();
    let mask_len = mask.len();
    let mut y: usize = 0;
    while y < height
        invariant
            mask_len == mask@.len(),
            mask@.len() >= 2 * height * stride,
            width <= 8 * stride,
            width * height * 4 <= usize::MAX,
            target == mask_cursor_pixels(mask@, stride as nat, width as nat, height as nat),
            y <= height,
            px@ == target.take((y * width * 4) as int),
        decreases height - y,
    {
        let mut x: usize = 0;
        while x < width
            invariant
                mask_len == mask@.len(),
                mask@.len() >= 2 * height * stride,
                width <= 8 * stride,
                width * height * 4 <= usize::MAX,
                target == mask_cursor_pixels(mask@, stride as nat, width as nat, height as nat),
                y < height,
                x <= width,
                px@ == target.take(((y * width + x) * 4) as int),
            decreases width - x,
        {
            proof {
                lemma_mask_index(stride as nat, width as nat, height as nat, y as nat, x as nat);
                lemma_mask_index(
                    stride as nat,
                    width as nat,
                    height as nat,
                    (y + height) as nat,
                    x as nat,
                );
                lemma_cursor_position(width as nat, height as nat, y as nat, x as nat, 0);
                lemma_cursor_position(width as nat, height as nat, y as nat, x as nat, 1);
                lemma_cursor_position(width as nat, height as nat, y as nat, x as nat, 2);
                lemma_cursor_position(width as nat, height as nat, y as nat, x as nat, 3);
            }
            assert(2 * height <= 2 * height * stride) by (nonlinear_arith)
                requires
                    stride >= 1,
            ;
            let and_bit = read_mask_bit(mask, stride, y, x);
            let xor_bit = read_mask_bit(mask, stride, y + height, x);
            let ghost pixel = mono_pixel(and_bit, xor_bit);
            let ghost n = ((y * width + x) * 4) as int;
            let (b, g, r, a): (u8, u8, u8, u8) = if and_bit == 1 && xor_bit == 0 {
                (0, 0, 0, 0)
            } else if and_bit == 0 && xor_bit == 0 {
                (0, 0, 0, 255)
            } else {
                (0, 0, 255, 255)
            };
            px.push(b);
            px.push(g);
            px.push(r);
            px.push(a);
            assert(target[n] == pixel[0]);
            assert(target[n + 1] == pixel[1]);
            assert(target[n + 2] == pixel[2]);
            assert(target[n + 3] == pixel[3]);
            assert(px@ =~= target.take(n + 4));
            x += 1;
        }
        assert((y * width + width) * 4 == (y + 1) * width * 4) by (nonlinear_arith);
        y += 1;
    }
    assert(target.take((height * width * 4) as int) =~= target) by {
        assert(height * width * 4 == width * height * 4) by (nonlinear_arith);
    }
    assert forall|x: int, y: int| 0 <= x < width && 0 <= y < height implies #[trigger] pixel_at(
        px@,
        width as int,
        x,
        y,
    ) == ({
        let and_bit = (mask@[y * stride + x / 8] >> ((7 - x % 8) as u8)) & 1u8;
        let xor_bit = (mask@[(y + height) * stride + x / 8] >> ((7 - x % 8) as u8)) & 1u8;
        if and_bit == 1 && xor_bit == 0 {
            seq![0u8, 0u8, 0u8, 0u8]
        } else if and_bit == 0 && xor_bit == 0 {
            seq![0u8, 0u8, 0u8, 255u8]
        } else {
            seq![0u8, 0u8, 255u8, 255u8]
        }
    }) by {
        lemma_mask_cursor_pixel(mask@, stride as nat, width as nat, height as nat, x, y);
    }
    px
}

} // verus!
