//! The tray icon: a red disc drawn in code and wrapped in a single-image
//! Windows `.ico` container.

use vstd::prelude::*;
use vstd::arithmetic::div_mod::lemma_fundamental_div_mod_converse;

verus! {

/// Little-endian bytes of a 16-bit quantity.
pub open spec fn le16(x: nat) -> Seq<u8> {
    seq![(x % 256) as u8, ((x / 256) % 256) as u8]
}

/// Little-endian bytes of a 32-bit quantity.
pub open spec fn le32(x: nat) -> Seq<u8> {
    seq![
        (x % 256) as u8,
        ((x / 256) % 256) as u8,
        ((x / 65536) % 256) as u8,
        ((x / 16777216) % 256) as u8,
    ]
}

/// Bytes per row of the 1-bit AND mask: rows are padded to 32 bits.
pub open spec fn and_row_len(s: nat) -> nat {
    ((s + 31) / 32) * 4
}

/// Bytes of the AND mask of an `s`-by-`s` image.
pub open spec fn and_mask_len(s: nat) -> nat {
    and_row_len(s) * s
}

/// Bytes of the 32-bit colour pixels of an `s`-by-`s` image.
pub open spec fn xor_len(s: nat) -> nat {
    s * s * 4
}

/// Bytes of the image proper: bitmap header, colour pixels and AND mask.
pub open spec fn image_len(s: nat) -> nat {
    40 + xor_len(s) + and_mask_len(s)
}

/// The icon directory and its single entry (22 bytes). The width and height
/// bytes hold the size modulo 256, and the image length is written as 32 bits.
pub open spec fn icon_dir(size: nat) -> Seq<u8> {
    le16(0) + le16(1) + le16(1) + seq![(size % 256) as u8, (size % 256) as u8, 0u8, 0u8]
        + le16(1) + le16(32) + le32(image_len(size) % 0x1_0000_0000) + le32(22)
}

/// The 40-byte bitmap header of a 32-bit image whose recorded height counts
/// the colour rows and the mask rows together.
pub open spec fn bitmap_info_header(size: nat) -> Seq<u8> {
    le32(40) + le32(size) + le32(2 * size) + le16(1) + le16(32) + le32(0) + le32(0) + le32(0)
        + le32(0) + le32(0) + le32(0)
}

/// Which RGBA channel is stored at position `c` of a BGRA pixel.
pub open spec fn bgra_source_channel(c: int) -> int {
    if c == 0 {
        2
    } else if c == 1 {
        1
    } else if c == 2 {
        0
    } else {
        3
    }
}

/// The colour pixels of a top-down RGBA image, stored bottom-up as BGRA.
pub open spec fn bgra_bottom_up(rgba: Seq<u8>, s: nat) -> Seq<u8> {
    Seq::new(
        xor_len(s),
        |k: int|
            {
                let w = (4 * s) as int;
                let row = k / w;
                let x = (k % w) / 4;
                let y = s - 1 - row;
                rgba[(y * s + x) * 4 + bgra_source_channel(k % 4)]
            },
    )
}

/// The whole `.ico` file for an `s`-by-`s` RGBA image: directory, bitmap
/// header, pixels, then an all-zero (fully opaque) AND mask.
pub open spec fn ico_file(rgba: Seq<u8>, size: nat) -> Seq<u8> {
    icon_dir(size) + bitmap_info_header(size) + bgra_bottom_up(rgba, size) + Seq::new(
        and_mask_len(size),
        |i: int| 0u8,
    )
}

fn push_le16(v: &mut Vec<u8>, x: u16)
    ensures
        final(v)@ == old(v)@ + le16(x as nat),
{
    v.push((x % 256) as u8);
    v.push(((x / 256) % 256) as u8);
    assert(v@ =~= old(v)@ + le16(x as nat));
}

fn push_le32(v: &mut Vec<u8>, x: u32)
    ensures
        final(v)@ == old(v)@ + le32(x as nat),
{
    v.push((x % 256) as u8);
    v.push(((x / 256) % 256) as u8);
    v.push(((x / 65536) % 256) as u8);
    v.push(((x / 16777216) % 256) as u8);
    assert(v@ =~= old(v)@ + le32(x as nat));
}

/// Where byte `c` of pixel `x` in output row `row` sits in the pixel data,
/// and which source pixel it comes from.
proof fn lemma_pixel_position(s: nat, row: nat, x: nat, c: nat)
    requires
        row < s,
        x < s,
        c < 4,
    ensures
        (row * (4 * s) + 4 * x + c) / (4 * s) == row,
        ((row * (4 * s) + 4 * x + c) % (4 * s)) / 4 == x,
        (row * (4 * s) + 4 * x + c) % 4 == c,
        row * (4 * s) + 4 * x + c < xor_len(s),
        ((s - 1 - row) * s + x) < s * s,
{
    let k = row * (4 * s) + 4 * x + c;
    lemma_fundamental_div_mod_converse(k as int, (4 * s) as int, row as int, (4 * x + c) as int);
    assert(row * (4 * s) + 4 * x + c == (row * s + x) * 4 + c) by (nonlinear_arith);
    lemma_fundamental_div_mod_converse(k as int, 4, (row * s + x) as int, c as int);
    assert(row * (4 * s) + 4 * x + c < s * s * 4) by (nonlinear_arith)
        requires
            row < s,
            x < s,
            c < 4,
    ;
    assert(((s - 1 - row) * s + x) < s * s) by (nonlinear_arith)
        requires
            row < s,
            x < s,
    ;
}

/// Wraps a top-down 32-bit RGBA image of `size` by `size` pixels in a
/// single-image Windows `.ico` container.
pub fn rgba_to_ico(rgba: &[u8], size: u32) -> (ico: Vec<u8>)
    requires
        rgba@.len() >= xor_len(size as nat),
        2 * size <= u32::MAX,
        22 + image_len(size as nat) <= isize::MAX,
    ensures
        ico@ == ico_file(rgba@, size as nat),
{
    let s = size as usize;
    let xor_size = s * s * 4;
    let and_row = ((s + 31) / 32) * 4;
    let and_size = and_row * s;
    let image_size = 40 + xor_size + and_size;

    let mut v: Vec<u8> = Vec::with_capacity(22 + image_size);
    push_le16(&mut v, 0);
    push_le16(&mut v, 1);
    push_le16(&mut v, 1);
    v.push((size % 256) as u8);
    v.push((size % 256) as u8);
    v.push(0);
    v.push(0);
    push_le16(&mut v, 1);
    push_le16(&mut v, 32);
    push_le32(&mut v, ((image_size as u64) % 0x1_0000_0000) as u32);
    push_le32(&mut v, 22);
    push_le32(&mut v, 40);
    push_le32(&mut v, size);
    push_le32(&mut v, size * 2);
    push_le16(&mut v, 1);
    push_le16(&mut v, 32);
    push_le32(&mut v, 0);
    push_le32(&mut v, 0);
    push_le32(&mut v, 0);
    push_le32(&mut v, 0);
    push_le32(&mut v, 0);
    push_le32(&mut v, 0);

    let ghost sn = size as nat;
    let ghost header = icon_dir(sn) + bitmap_info_header(sn);
    let ghost pixels = bgra_bottom_up(rgba@, sn);
    assert(v@ =~= header);

    let mut row: usize = 0;
    while row < s
        invariant
            s == sn,
            sn == size,
            rgba@.len() >= xor_len(sn),
            22 + image_len(sn) <= isize::MAX,
            pixels == bgra_bottom_up(rgba@, sn),
            row <= s,
            v@ == header + pixels.take(row * (4 * sn)),
        decreases s - row,
    {
        let y = s - 1 - row;
        let mut x: usize = 0;
        while x < s
            invariant
                s == sn,
                rgba@.len() >= xor_len(sn),
                22 + image_len(sn) <= isize::MAX,
                pixels == bgra_bottom_up(rgba@, sn),
                row < s,
                y == s - 1 - row,
                x <= s,
                v@ == header + pixels.take(row * (4 * sn) + 4 * x),
            decreases s - x,
        {
            let ghost n = row * (4 * sn) + 4 * x;
            proof {
                lemma_pixel_position(sn, row as nat, x as nat, 0);
                lemma_pixel_position(sn, row as nat, x as nat, 1);
                lemma_pixel_position(sn, row as nat, x as nat, 2);
                lemma_pixel_position(sn, row as nat, x as nat, 3);
                assert((y * s + x) * 4 + 3 < s * s * 4) by (nonlinear_arith)
                    requires
                        y * s + x < s * s,
                ;
            }
            let i = (y * s + x) * 4;
            v.push(rgba[i + 2]);
            v.push(rgba[i + 1]);
            v.push(rgba[i]);
            v.push(rgba[i + 3]);
            assert(pixels[n] == rgba@[i + 2]);
            assert(pixels[n + 1] == rgba@[i + 1]);
            assert(pixels[n + 2] == rgba@[i as int]);
            assert(pixels[n + 3] == rgba@[i + 3]);
            assert(v@ =~= header + pixels.take(n + 4));
            x += 1;
        }
        assert(row * (4 * sn) + 4 * sn == (row + 1) * (4 * sn)) by (nonlinear_arith);
        row += 1;
    }
    assert(s * (4 * sn) == xor_len(sn)) by (nonlinear_arith)
        requires
            s == sn,
    ;
    assert(pixels.take(s * (4 * sn)) =~= pixels);

    let ghost body = header + pixels;
    let mut k: usize = 0;
    while k < and_size
        invariant
            k <= and_size,
            and_size == and_mask_len(sn),
            v@ == body + Seq::new(k as nat, |i: int| 0u8),
        decreases and_size - k,
    {
        v.push(0);
        assert(v@ =~= body + Seq::new((k + 1) as nat, |i: int| 0u8));
        k += 1;
    }
    v
}

/// The top-down RGBA image read back from the pixel data of an `.ico` file
/// made by `rgba_to_ico`: pixel `(x, y)` is in stored row `s - 1 - y`, with
/// its blue and red bytes swapped back.
pub open spec fn read_back_rgba(ico: Seq<u8>, s: nat) -> Seq<u8> {
    Seq::new(
        xor_len(s),
        |k: int|
            {
                let p = k / 4;
                let y = p / (s as int);
                let x = p % (s as int);
                ico[62 + ((s - 1 - y) * s + x) * 4 + bgra_source_channel(k % 4)]
            },
    )
}

/// Where pixel data byte `k` comes from: a source byte inside the image.
proof fn lemma_source_in_range(s: nat, k: int)
    requires
        0 <= k < xor_len(s),
    ensures
        ({
            let w = (4 * s) as int;
            let row = k / w;
            let x = (k % w) / 4;
            let y = s - 1 - row;
            &&& 0 <= row < s
            &&& 0 <= x < s
            &&& 0 <= y < s
            &&& 0 <= (y * s + x) * 4 + bgra_source_channel(k % 4) < xor_len(s)
        }),
{
    let w = (4 * s) as int;
    assert(s > 0) by (nonlinear_arith)
        requires
            0 <= k < s * s * 4,
    ;
    let row = k / w;
    let r = k % w;
    vstd::arithmetic::div_mod::lemma_fundamental_div_mod(k, w);
    vstd::arithmetic::div_mod::lemma_mod_bound(k, w);
    assert(0 <= row) by (nonlinear_arith)
        requires
            k == w * row + r,
            0 <= r < w,
            0 <= k,
            w > 0,
    ;
    assert(row < s) by (nonlinear_arith)
        requires
            k == w * row + r,
            0 <= r,
            k < s * s * 4,
            w == 4 * s,
            s > 0,
    ;
    let x = r / 4;
    let y = s - 1 - row;
    assert(0 <= (y * s + x) * 4 + bgra_source_channel(k % 4) < s * s * 4) by (nonlinear_arith)
        requires
            0 <= y < s,
            0 <= x < s,
            0 <= bgra_source_channel(k % 4) < 4,
    ;
}

/// The pixels of a made `.ico` file read back to the image: byte `k` of the
/// image sits at data byte `j` below, which the file stores from byte 62 on.
proof fn lemma_read_back_byte(rgba: Seq<u8>, s: nat, k: int)
    requires
        rgba.len() >= xor_len(s),
        0 <= k < xor_len(s),
    ensures
        read_back_rgba(ico_file(rgba, s), s)[k] == rgba[k],
{
    assert(s > 0) by (nonlinear_arith)
        requires
            0 <= k < s * s * 4,
    ;
    let p = k / 4;
    let c = k % 4;
    let y = p / (s as int);
    let x = p % (s as int);
    vstd::arithmetic::div_mod::lemma_fundamental_div_mod(p, s as int);
    vstd::arithmetic::div_mod::lemma_mod_bound(p, s as int);
    assert(0 <= y < s) by (nonlinear_arith)
        requires
            p == s * y + x,
            0 <= x < s,
            0 <= p,
            4 * p + c == k,
            0 <= c < 4,
            k < s * s * 4,
    ;
    let row = s - 1 - y;
    let c2 = bgra_source_channel(c);
    lemma_pixel_position(s, row as nat, x as nat, c2 as nat);
    let j = row * (4 * s) + 4 * x + c2;
    assert(((s - 1 - y) * s + x) * 4 + c2 == j) by (nonlinear_arith)
        requires
            row == s - 1 - y,
            j == row * (4 * s) + 4 * x + c2,
    ;
    let ico = ico_file(rgba, s);
    let head = icon_dir(s) + bitmap_info_header(s);
    assert(head.len() == 62);
    let pixels = bgra_bottom_up(rgba, s);
    assert(ico[62 + j] == pixels[j]);
    assert(pixels[j] == rgba[(y * s + x) * 4 + bgra_source_channel(c2)]);
    assert((y * s + x) * 4 + bgra_source_channel(c2) == k) by (nonlinear_arith)
        requires
            p == s * y + x,
            4 * p + c == k,
            bgra_source_channel(c2) == c,
    ;
}

/// Reading the pixel data of a made `.ico` file back, bottom-up with blue and
/// red swapped back, gives the image's first `s * s * 4` bytes.
pub proof fn lemma_ico_reads_back(rgba: Seq<u8>, s: nat)
    requires
        rgba.len() >= xor_len(s),
    ensures
        read_back_rgba(ico_file(rgba, s), s) == rgba.take(xor_len(s) as int),
{
    assert forall|k: int| 0 <= k < xor_len(s) implies read_back_rgba(ico_file(rgba, s), s)[k]
        == rgba.take(xor_len(s) as int)[k] by {
        lemma_read_back_byte(rgba, s, k);
    }
    assert(read_back_rgba(ico_file(rgba, s), s) =~= rgba.take(xor_len(s) as int));
}

/// Two images of the same size give the same `.ico` file exactly when their
/// first `s * s * 4` bytes agree.
pub proof fn lemma_ico_injective(a: Seq<u8>, b: Seq<u8>, s: nat)
    requires
        a.len() >= xor_len(s),
        b.len() >= xor_len(s),
    ensures
        (ico_file(a, s) == ico_file(b, s)) <==> (a.take(xor_len(s) as int) == b.take(
            xor_len(s) as int,
        )),
{
    lemma_ico_reads_back(a, s);
    lemma_ico_reads_back(b, s);
    if a.take(xor_len(s) as int) == b.take(xor_len(s) as int) {
        assert forall|k: int| 0 <= k < xor_len(s) implies bgra_bottom_up(a, s)[k]
            == bgra_bottom_up(b, s)[k] by {
            lemma_source_in_range(s, k);
            let w = (4 * s) as int;
            let i = ((s - 1 - k / w) * s + (k % w) / 4) * 4 + bgra_source_channel(k % 4);
            assert(a.take(xor_len(s) as int)[i] == b.take(xor_len(s) as int)[i]);
        }
        assert(bgra_bottom_up(a, s) =~= bgra_bottom_up(b, s));
        assert(ico_file(a, s) =~= ico_file(b, s));
    }
}

/// Pixel `(x, y)` of a top-down RGBA image `s` pixels wide, as its 4 bytes.
pub open spec fn image_pixel(rgba: Seq<u8>, s: int, x: int, y: int) -> Seq<u8> {
    rgba.subrange((y * s + x) * 4, (y * s + x) * 4 + 4)
}

/// The 4 bytes a made `.ico` file stores for pixel `(x, y)`: data row
/// `s - 1 - y`, after the 62 header bytes.
pub open spec fn stored_pixel(ico: Seq<u8>, s: int, x: int, y: int) -> Seq<u8> {
    ico.subrange(62 + ((s - 1 - y) * s + x) * 4, 62 + ((s - 1 - y) * s + x) * 4 + 4)
}

/// The layout of a made `.ico` file, byte by byte: its length; the directory
/// (reserved 0, type 1, one image, width and height as `s % 256`, planes 1,
/// 32 bits per pixel, the image length, data offset 22); the bitmap header
/// (size 40, width `s`, height `2 * s`, planes 1, 32 bits, the rest zero);
/// each pixel `(x, y)` stored in row `s - 1 - y` with red and blue swapped;
/// and an all-zero mask at the end.
pub proof fn lemma_ico_layout(rgba: Seq<u8>, s: nat)
    requires
        rgba.len() >= xor_len(s),
    ensures
        ({
            let f = ico_file(rgba, s);
            let img = (40 + s * s * 4 + ((s + 31) / 32) * 4 * s) % 0x1_0000_0000;
            &&& f.len() == 62 + s * s * 4 + ((s + 31) / 32) * 4 * s
            &&& f.subrange(0, 6) == seq![0u8, 0u8, 1u8, 0u8, 1u8, 0u8]
            &&& f[6] == (s % 256) as u8 && f[7] == (s % 256) as u8
            &&& f[8] == 0 && f[9] == 0
            &&& f.subrange(10, 14) == seq![1u8, 0u8, 32u8, 0u8]
            &&& f.subrange(14, 18) == seq![
                (img % 256) as u8,
                ((img / 256) % 256) as u8,
                ((img / 65536) % 256) as u8,
                ((img / 16777216) % 256) as u8,
            ]
            &&& f.subrange(18, 26) == seq![22u8, 0u8, 0u8, 0u8, 40u8, 0u8, 0u8, 0u8]
            &&& f.subrange(26, 30) == seq![
                (s % 256) as u8,
                ((s / 256) % 256) as u8,
                ((s / 65536) % 256) as u8,
                ((s / 16777216) % 256) as u8,
            ]
            &&& f.subrange(30, 34) == seq![
                ((2 * s) % 256) as u8,
                (((2 * s) / 256) % 256) as u8,
                (((2 * s) / 65536) % 256) as u8,
                (((2 * s) / 16777216) % 256) as u8,
            ]
            &&& f.subrange(34, 38) == seq![1u8, 0u8, 32u8, 0u8]
            &&& forall|i: int| 38 <= i < 62 ==> #[trigger] f[i] == 0
            &&& forall|i: int| 62 + s * s * 4 <= i < f.len() ==> #[trigger] f[i] == 0
            &&& forall|x: int, y: int|
                0 <= x < s && 0 <= y < s ==> #[trigger] stored_pixel(f, s as int, x, y) == seq![
                    image_pixel(rgba, s as int, x, y)[2],
                    image_pixel(rgba, s as int, x, y)[1],
                    image_pixel(rgba, s as int, x, y)[0],
                    image_pixel(rgba, s as int, x, y)[3],
                ]
        }),
{
    let f = ico_file(rgba, s);
    let head = icon_dir(s) + bitmap_info_header(s);
    let pixels = bgra_bottom_up(rgba, s);
    assert(icon_dir(s).len() == 22);
    assert(bitmap_info_header(s).len() == 40);
    assert(f.subrange(0, 6) =~= seq![0u8, 0u8, 1u8, 0u8, 1u8, 0u8]);
    assert(f.subrange(10, 14) =~= seq![1u8, 0u8, 32u8, 0u8]);
    assert(f.subrange(14, 18) =~= le32(image_len(s) % 0x1_0000_0000));
    assert(f.subrange(18, 26) =~= seq![22u8, 0u8, 0u8, 0u8, 40u8, 0u8, 0u8, 0u8]);
    assert(f.subrange(26, 30) =~= le32(s));
    assert(f.subrange(30, 34) =~= le32(2 * s));
    assert(f.subrange(34, 38) =~= seq![1u8, 0u8, 32u8, 0u8]);
    assert forall|x: int, y: int| 0 <= x < s && 0 <= y < s implies #[trigger] stored_pixel(
        f,
        s as int,
        x,
        y,
    ) == seq![
        image_pixel(rgba, s as int, x, y)[2],
        image_pixel(rgba, s as int, x, y)[1],
        image_pixel(rgba, s as int, x, y)[0],
        image_pixel(rgba, s as int, x, y)[3],
    ] by {
        let row = s - 1 - y;
        lemma_pixel_position(s, row as nat, x as nat, 0);
        lemma_pixel_position(s, row as nat, x as nat, 1);
        lemma_pixel_position(s, row as nat, x as nat, 2);
        lemma_pixel_position(s, row as nat, x as nat, 3);
        let j = row * (4 * s) + 4 * x;
        assert(((s - 1 - y) * s + x) * 4 == j) by (nonlinear_arith)
            requires
                row == s - 1 - y,
                j == row * (4 * s) + 4 * x,
        ;
        assert((y * s + x) * 4 + 3 < s * s * 4) by (nonlinear_arith)
            requires
                0 <= x < s,
                0 <= y < s,
        ;
        assert(s - 1 - row == y);
        assert(stored_pixel(f, s as int, x, y) =~= seq![
            image_pixel(rgba, s as int, x, y)[2],
            image_pixel(rgba, s as int, x, y)[1],
            image_pixel(rgba, s as int, x, y)[0],
            image_pixel(rgba, s as int, x, y)[3],
        ]);
    }
}

/// Four times the squared distance of pixel `(x, y)` of the 32-by-32 icon from
/// the disc's centre (15.5, 15.5): coordinates are doubled so it is an integer.
pub open spec fn doubled_dist2(x: int, y: int) -> int {
    (2 * x - 31) * (2 * x - 31) + (2 * y - 31) * (2 * y - 31)
}

/// The pixel lies on the disc of radius 15.5.
pub open spec fn on_disc(x: int, y: int) -> bool {
    doubled_dist2(x, y) <= 31 * 31
}

/// The pixel lies on the disc's outer ring, more than 14 (the radius less 1.5)
/// from the centre.
pub open spec fn on_rim(x: int, y: int) -> bool {
    doubled_dist2(x, y) > 28 * 28
}

/// Channel `c` of pixel `(x, y)` of the icon: transparent off the disc, red
/// (220, 20, 20) on it, with alpha 180 on the rim and 255 inside.
pub open spec fn icon_channel(x: int, y: int, c: int) -> u8 {
    if !on_disc(x, y) {
        0
    } else if c == 0 {
        220
    } else if c == 1 || c == 2 {
        20
    } else if on_rim(x, y) {
        180
    } else {
        255
    }
}

/// The 32-by-32 top-down RGBA image of the icon.
pub open spec fn icon_rgba() -> Seq<u8> {
    Seq::new(4096, |k: int| icon_channel((k / 4) % 32, (k / 4) / 32, k % 4))
}

/// Builds the tray icon, a red disc on a transparent 32-by-32 square, as the
/// bytes of an in-memory `.ico` file.
///
/// The disc test compares squared distances in doubled integer coordinates,
/// which decides exactly as comparing the distances themselves.
pub fn make_icon_bin() -> (ico: Vec<u8>)
    ensures
        ico@ == ico_file(icon_rgba(), 32),
        read_back_rgba(ico@, 32) == icon_rgba(),
{
    let mut rgba: Vec<u8> = Vec::with_capacity(4096);
    let mut y: u32 = 0;
    while y < 32
        invariant
            y <= 32,
            rgba@ == icon_rgba().take((y * 32 * 4) as int),
        decreases 32 - y,
    {
        let mut x: u32 = 0;
        while x < 32
            invariant
                y < 32,
                x <= 32,
                rgba@ == icon_rgba().take(((y * 32 + x) * 4) as int),
            decreases 32 - x,
        {
            let dx: i32 = 2 * (x as i32) - 31;
            let dy: i32 = 2 * (y as i32) - 31;
            assert(0 <= dx * dx <= 1089 && 0 <= dy * dy <= 1089) by (nonlinear_arith)
                requires
                    -31 <= dx <= 33,
                    -31 <= dy <= 33,
            ;
            let d2: i32 = dx * dx + dy * dy;
            let ghost p = (y * 32 + x) as int;
            assert(d2 == doubled_dist2(x as int, y as int));
            assert(p / 32 == y && p % 32 == x);
            assert forall|c: int| 0 <= c < 4 implies (#[trigger] (p * 4 + c)) / 4 == p && (p * 4
                + c) % 4 == c by {
                lemma_fundamental_div_mod_converse(p * 4 + c, 4, p, c);
            }
            if d2 <= 961 {
                rgba.push(220);
                rgba.push(20);
                rgba.push(20);
                if d2 > 784 {
                    rgba.push(180);
                } else {
                    rgba.push(255);
                }
            } else {
                rgba.push(0);
                rgba.push(0);
                rgba.push(0);
                rgba.push(0);
            }
            assert(rgba@ =~= icon_rgba().take(((y * 32 + x + 1) * 4) as int));
            x += 1;
        }
        y += 1;
    }
    assert(icon_rgba().take(4096) =~= icon_rgba());
    proof {
        lemma_ico_reads_back(icon_rgba(), 32);
        assert(icon_rgba().take(xor_len(32) as int) =~= icon_rgba());
    }
    rgba_to_ico(rgba.as_slice(), 32)
}


/// Pixel `(x, y)` of the icon image, as its 4 RGBA bytes.
pub open spec fn icon_pixel(x: int, y: int) -> Seq<u8> {
    image_pixel(icon_rgba(), 32, x, y)
}

proof fn lemma_icon_pixel_channels(x: int, y: int)
    requires
        0 <= x < 32,
        0 <= y < 32,
    ensures
        icon_pixel(x, y) == seq![
            icon_channel(x, y, 0),
            icon_channel(x, y, 1),
            icon_channel(x, y, 2),
            icon_channel(x, y, 3),
        ],
{
    let p = y * 32 + x;
    assert forall|c: int| 0 <= c < 4 implies icon_rgba()[p * 4 + c] == icon_channel(x, y, c) by {
        lemma_fundamental_div_mod_converse(p * 4 + c, 4, p, c);
        lemma_fundamental_div_mod_converse(p, 32, y, x);
    }
    assert(icon_pixel(x, y) =~= seq![
        icon_channel(x, y, 0),
        icon_channel(x, y, 1),
        icon_channel(x, y, 2),
        icon_channel(x, y, 3),
    ]);
}

/// The icon is a red disc centred in the 32-by-32 square: every pixel is
/// either fully transparent or red (220, 20, 20) with alpha 180 or 255; a
/// pixel is on the disc exactly when its centre lies within 15.5 of the
/// square's centre (in doubled coordinates, a squared distance of at most
/// 961), and its alpha is 180 exactly when it lies more than 14 away; and the
/// image is unchanged by mirroring either way or by swapping the axes.
pub proof fn lemma_icon_is_red_disc(x: int, y: int)
    requires
        0 <= x < 32,
        0 <= y < 32,
    ensures
        ({
            let d2 = (2 * x - 31) * (2 * x - 31) + (2 * y - 31) * (2 * y - 31);
            let px = icon_pixel(x, y);
            &&& px.len() == 4
            &&& d2 > 961 ==> px == seq![0u8, 0u8, 0u8, 0u8]
            &&& 784 < d2 <= 961 ==> px == seq![220u8, 20u8, 20u8, 180u8]
            &&& d2 <= 784 ==> px == seq![220u8, 20u8, 20u8, 255u8]
        }),
        icon_pixel(x, y) == icon_pixel(31 - x, y),
        icon_pixel(x, y) == icon_pixel(x, 31 - y),
        icon_pixel(x, y) == icon_pixel(y, x),
{
    lemma_icon_pixel_channels(x, y);
    lemma_icon_pixel_channels(31 - x, y);
    lemma_icon_pixel_channels(x, 31 - y);
    lemma_icon_pixel_channels(y, x);
    assert(doubled_dist2(31 - x, y) == doubled_dist2(x, y)) by (nonlinear_arith);
    assert(doubled_dist2(x, 31 - y) == doubled_dist2(x, y)) by (nonlinear_arith);
}

} // verus!
