//! The window icon: the largest image of an ICO file, decoded from its
//! embedded BMP (24 or 32 bits per pixel) into RGBA rows, top row first.
//! Embedded PNG images are not decoded.

use vstd::prelude::*;
use vstd::slice::slice_subrange;

verus! {

/// The little-endian 16-bit number at `i`.
pub open spec fn le16(d: Seq<u8>, i: int) -> int {
    d[i] + 256 * d[i + 1]
}

/// The little-endian 32-bit number at `i`.
pub open spec fn le32(d: Seq<u8>, i: int) -> int {
    d[i] + 256 * d[i + 1] + 65536 * d[i + 2] + 16777216 * d[i + 3]
}

/// The magnitude of the 32-bit two's complement number whose bits are `u`.
pub open spec fn abs32(u: int) -> int {
    if u >= 0x8000_0000 {
        0x1_0000_0000 - u
    } else {
        u
    }
}

/// The width of a BMP image: the header's width, without its sign.
pub open spec fn dib_width(d: Seq<u8>) -> int {
    abs32(le32(d, 4))
}

/// The height of an icon's BMP image: half the header's height (the other
/// half is the mask), without its sign.
pub open spec fn dib_height(d: Seq<u8>) -> int {
    abs32(le32(d, 8)) / 2
}

/// Bits per pixel.
pub open spec fn dib_bits(d: Seq<u8>) -> int {
    le16(d, 14)
}

/// Where the pixels start: right after the header (no colour table at 24
/// or 32 bits per pixel).
pub open spec fn dib_pixel_offset(d: Seq<u8>) -> int {
    le32(d, 0)
}

/// Bytes per pixel row, rounded up to a multiple of 4.
pub open spec fn dib_row_size(d: Seq<u8>) -> int {
    ((dib_bits(d) * dib_width(d) + 31) / 32) * 4
}

/// A BMP image the decoder reads: a whole header, 24 or 32 bits per pixel,
/// and all pixel rows inside the data.
pub open spec fn dib_readable(d: Seq<u8>) -> bool {
    &&& d.len() >= 40
    &&& (dib_bits(d) == 32 || dib_bits(d) == 24)
    &&& dib_pixel_offset(d) + dib_row_size(d) * dib_height(d) <= d.len()
}

/// Byte `c` (red, green, blue, alpha) of pixel (`x`, `y`), `y` counted from
/// the top: BMP rows are stored bottom-up, each pixel blue, green, red, and
/// alpha at 32 bits; at 24 bits the pixel is opaque.
pub open spec fn dib_byte(d: Seq<u8>, y: int, x: int, c: int) -> u8 {
    let base = dib_pixel_offset(d) + (dib_height(d) - 1 - y) * dib_row_size(d);
    let s = if dib_bits(d) == 32 {
        base + 4 * x
    } else {
        base + 3 * x
    };
    if c == 0 {
        d[s + 2]
    } else if c == 1 {
        d[s + 1]
    } else if c == 2 {
        d[s]
    } else if dib_bits(d) == 32 {
        d[s + 3]
    } else {
        255
    }
}

/// An RGBA image.
pub struct IconImage {
    pub rgba: Vec<u8>,
    pub width: u32,
    pub height: u32,
}

/// `img` is the image the BMP data `d` holds, row by row from the top.
pub open spec fn decodes_dib(d: Seq<u8>, img: IconImage) -> bool {
    let w = img.width as int;
    let h = img.height as int;
    &&& w == dib_width(d)
    &&& h == dib_height(d)
    &&& img.rgba@.len() == w * h * 4
    &&& forall|y: int, x: int, c: int|
        0 <= y < h && 0 <= x < w && 0 <= c < 4 ==> #[trigger] img.rgba@[(y * w + x) * 4 + c] == dib_byte(
            d,
            y,
            x,
            c,
        )
}

fn read_le16(d: &[u8], i: usize) -> (r: u16)
    requires
        i + 2 <= d@.len(),
    ensures
        r == le16(d@, i as int),
{
    d[i] as u16 + (d[i + 1] as u16) * 256
}

fn read_le32(d: &[u8], i: usize) -> (r: u32)
    requires
        i + 4 <= d@.len(),
    ensures
        r == le32(d@, i as int),
{
    d[i] as u32 + (d[i + 1] as u32) * 256 + (d[i + 2] as u32) * 65536 + (d[i + 3] as u32) * 16777216
}

/// `i32::from_le_bytes(..).unsigned_abs()` of the bits `u`.
fn abs_of_bits(u: u32) -> (r: u32)
    ensures
        r == abs32(u as int),
{
    if u >= 0x8000_0000 {
        (0x1_0000_0000u64 - u as u64) as u32
    } else {
        u
    }
}

proof fn lemma_index_step(y: int, x: int, w: int, c: int)
    requires
        0 <= y,
        0 <= x < w,
        0 <= c < 4,
    ensures
        (y * w + x) * 4 + c < (y * w + x + 1) * 4,
        (y * w + x + 1) * 4 <= ((y + 1) * w) * 4,
        (y * w + w) == (y + 1) * w,
{
    assert((y + 1) * w == y * w + w) by (nonlinear_arith);
}

proof fn lemma_row_in_data(off: int, rows: int, row: int, size: int, s: int, len: int)
    requires
        0 <= row < rows,
        0 <= s < size,
        off >= 0,
        off + size * rows <= len,
    ensures
        0 <= off + row * size + s < len,
{
    assert(row * size + size <= size * rows) by (nonlinear_arith)
        requires
            row + 1 <= rows,
            size > 0,
    ;
    assert(row * size >= 0) by (nonlinear_arith)
        requires
            row >= 0,
            size > 0,
    ;
}

/// Decodes the BMP image of an icon (see `decodes_dib`); `None` when it is
/// not readable (see `dib_readable`).
pub fn decode_bmp_dib(dib: &[u8]) -> (r: Option<IconImage>)
    ensures
        r is Some <==> dib_readable(dib@),
        r matches Some(img) ==> decodes_dib(dib@, img),
{
    let n = dib.len();
    if n < 40 {
        return None;
    }
    let width = abs_of_bits(read_le32(dib, 4));
    let height = abs_of_bits(read_le32(dib, 8)) / 2;
    let bit_count = read_le16(dib, 14);
    if bit_count != 32 && bit_count != 24 {
        return None;
    }
    let pixel_offset = read_le32(dib, 0) as u64;
    assert(bit_count as u64 * width as u64 <= 32 * 0x8000_0000u64) by (nonlinear_arith)
        requires
            bit_count <= 32,
            width <= 0x8000_0000u64,
    ;
    let row_size: u64 = ((bit_count as u64 * width as u64 + 31) / 32) * 4;
    assert(row_size * height <= 0x2_0000_0000u64 * 0x4000_0000u64) by (nonlinear_arith)
        requires
            row_size <= 0x2_0000_0000u64,
            height <= 0x4000_0000u64,
    ;
    if pixel_offset + row_size * (height as u64) > n as u64 {
        return None;
    }
    let ghost d = dib@;
    let ghost w = width as int;
    let ghost h = height as int;
    proof {
        if bit_count == 32 {
            assert(((32 * w + 31) / 32) * 4 == 4 * w) by (nonlinear_arith)
                requires
                    w >= 0,
            ;
        } else {
            assert(((24 * w + 31) / 32) * 4 >= 3 * w) by (nonlinear_arith)
                requires
                    w >= 0,
            ;
        }
        assert(row_size > 0 || w == 0);
    }
    let mut rgba: Vec<u8> = Vec::new();
    let wu = width as usize;
    let hu = height as usize;
    let mut y: usize = 0;
    while y < hu
        invariant
            d == dib@,
            n == d.len(),
            dib_readable(d),
            w == width,
            h == height,
            wu == width,
            hu == height,
            w == dib_width(d),
            h == dib_height(d),
            bit_count == dib_bits(d),
            pixel_offset == dib_pixel_offset(d),
            row_size == dib_row_size(d),
            bit_count == 32 ==> row_size == 4 * w,
            bit_count == 24 ==> row_size >= 3 * w,
            y <= h,
            rgba@.len() == y * w * 4,
            forall|yy: int, x: int, c: int|
                0 <= yy < y && 0 <= x < w && 0 <= c < 4 ==> #[trigger] rgba@[(yy * w + x) * 4 + c]
                    == dib_byte(d, yy, x, c),
        decreases hu - y,
    {
        let src_row = hu - 1 - y;
        let mut x: usize = 0;
        while x < wu
            invariant
                d == dib@,
                n == d.len(),
                dib_readable(d),
                w == width,
                h == height,
                wu == width,
                hu == height,
                w == dib_width(d),
                h == dib_height(d),
                bit_count == dib_bits(d),
                pixel_offset == dib_pixel_offset(d),
                row_size == dib_row_size(d),
                bit_count == 32 ==> row_size == 4 * w,
                bit_count == 24 ==> row_size >= 3 * w,
                y < h,
                src_row == h - 1 - y,
                x <= w,
                rgba@.len() == (y * w + x) * 4,
                forall|yy: int, xx: int, c: int|
                    0 <= yy < y && 0 <= xx < w && 0 <= c < 4 ==> #[trigger] rgba@[(yy * w + xx) * 4 + c]
                        == dib_byte(d, yy, xx, c),
                forall|xx: int, c: int|
                    0 <= xx < x && 0 <= c < 4 ==> #[trigger] rgba@[(y * w + xx) * 4 + c] == dib_byte(
                        d,
                        y as int,
                        xx,
                        c,
                    ),
            decreases wu - x,
        {
            let ghost before = rgba@;
            let s: usize;
            let last: usize;
            if bit_count == 32 {
                proof {
                    lemma_row_in_data(pixel_offset as int, h, src_row as int, row_size as int, 4 * x + 3, d.len() as int);
                    lemma_row_in_data(pixel_offset as int, h, src_row as int, row_size as int, 4 * x as int, d.len() as int);
                }
                assert(src_row * row_size <= n);
                s = (pixel_offset + src_row as u64 * row_size) as usize + 4 * x;
                last = s + 3;
            } else {
                proof {
                    lemma_row_in_data(pixel_offset as int, h, src_row as int, row_size as int, 3 * x + 2, d.len() as int);
                    lemma_row_in_data(pixel_offset as int, h, src_row as int, row_size as int, 3 * x as int, d.len() as int);
                }
                assert(src_row * row_size <= n);
                s = (pixel_offset + src_row as u64 * row_size) as usize + 3 * x;
                last = s + 2;
            }
            rgba.push(dib[s + 2]);
            rgba.push(dib[s + 1]);
            rgba.push(dib[s]);
            if bit_count == 32 {
                rgba.push(dib[last]);
            } else {
                rgba.push(255);
            }
            proof {
                lemma_index_step(y as int, x as int, w, 0);
                let k = (y * w + x) * 4;
                assert(rgba@.len() == k + 4);
                assert forall|yy: int, xx: int, c: int|
                    0 <= yy < y && 0 <= xx < w && 0 <= c < 4 implies #[trigger] rgba@[(yy * w + xx) * 4 + c]
                        == dib_byte(d, yy, xx, c) by {
                    lemma_index_step(yy, xx, w, c);
                    assert((yy * w + xx + 1) * 4 <= ((yy + 1) * w) * 4);
                    assert(((yy + 1) * w) * 4 <= (y * w) * 4) by (nonlinear_arith)
                        requires
                            yy + 1 <= y,
                            w >= 0,
                    ;
                    assert(rgba@[(yy * w + xx) * 4 + c] == before[(yy * w + xx) * 4 + c]);
                }
                assert forall|xx: int, c: int|
                    0 <= xx < x + 1 && 0 <= c < 4 implies #[trigger] rgba@[(y * w + xx) * 4 + c]
                        == dib_byte(d, y as int, xx, c) by {
                    if xx < x {
                        lemma_index_step(y as int, xx, w, c);
                        assert((y * w + xx + 1) * 4 <= k) by (nonlinear_arith)
                            requires
                                xx + 1 <= x,
                                k == (y * w + x) * 4,
                        ;
                        assert(rgba@[(y * w + xx) * 4 + c] == before[(y * w + xx) * 4 + c]);
                    } else {
                        assert((y * w + xx) * 4 + c == k + c);
                    }
                }
            }
            x = x + 1;
        }
        proof {
            assert((y * w + w) * 4 == (y + 1) * w * 4) by (nonlinear_arith);
            assert forall|yy: int, xx: int, c: int|
                0 <= yy < y + 1 && 0 <= xx < w && 0 <= c < 4 implies #[trigger] rgba@[(yy * w + xx) * 4 + c]
                    == dib_byte(d, yy, xx, c) by {
                if yy == y {
                }
            }
        }
        y = y + 1;
    }
    proof {
        assert(rgba@.len() == w * h * 4) by (nonlinear_arith)
            requires
                rgba@.len() == h * w * 4,
        ;
    }
    Some(IconImage { rgba, width, height })
}

/// Embedded PNG images are not decoded: the window keeps the icon the
/// system gives it.
pub fn decode_png(png: &[u8]) -> (r: Option<IconImage>)
    ensures
        r is None,
{
    None
}

/// The number of images of an ICO file.
pub open spec fn ico_count(d: Seq<u8>) -> int {
    le16(d, 4)
}

/// A side of an image entry: its byte, 0 meaning 256.
pub open spec fn entry_side(b: u8) -> int {
    if b == 0 {
        256
    } else {
        b as int
    }
}

/// The pixel count of image entry `i`.
pub open spec fn entry_area(d: Seq<u8>, i: int) -> int {
    entry_side(d[6 + 16 * i]) * entry_side(d[7 + 16 * i])
}

/// The byte size of image entry `i`'s data.
pub open spec fn entry_size(d: Seq<u8>, i: int) -> int {
    le32(d, 6 + 16 * i + 8)
}

/// Where image entry `i`'s data starts.
pub open spec fn entry_offset(d: Seq<u8>, i: int) -> int {
    le32(d, 6 + 16 * i + 12)
}

/// The first of the largest images among entries `0..n` (-1 when `n` is 0).
pub open spec fn best_entry(d: Seq<u8>, n: int) -> int
    decreases n,
{
    if n <= 0 {
        -1
    } else {
        let b = best_entry(d, n - 1);
        if b < 0 || entry_area(d, n - 1) > entry_area(d, b) {
            n - 1
        } else {
            b
        }
    }
}

/// The data of the largest image of an ICO file (the first such), when the
/// header and entries are whole and the data lies inside the file.
pub open spec fn ico_image(d: Seq<u8>) -> Option<Seq<u8>> {
    if d.len() < 6 || ico_count(d) == 0 || d.len() < 6 + 16 * ico_count(d) {
        None
    } else {
        let b = best_entry(d, ico_count(d));
        if entry_offset(d, b) + entry_size(d, b) > d.len() {
            None
        } else {
            Some(d.subrange(entry_offset(d, b), entry_offset(d, b) + entry_size(d, b)))
        }
    }
}

/// Image data that starts as a PNG file does.
pub open spec fn is_png(img: Seq<u8>) -> bool {
    img.len() >= 4 && img[0] == 0x89 && img[1] == 0x50 && img[2] == 0x4E && img[3] == 0x47
}

proof fn lemma_best_entry(d: Seq<u8>, n: int)
    requires
        n >= 1,
    ensures
        0 <= best_entry(d, n) < n,
    decreases n,
{
    if n > 1 {
        lemma_best_entry(d, n - 1);
    } else {
        assert(best_entry(d, 0) == -1);
    }
}

/// The icon an ICO file holds: its largest image (see `ico_image`), decoded
/// from BMP (see `decode_bmp_dib`); none when there is no such image, when
/// it is a PNG, or when its BMP data is not readable.
pub fn parse_ico(data: &[u8]) -> (r: Option<IconImage>)
    ensures
        r is Some <==> (ico_image(data@) matches Some(img) && !is_png(img) && dib_readable(img)),
        r matches Some(icon) ==> (ico_image(data@) matches Some(img) && decodes_dib(img, icon)),
{
    let n = data.len();
    if n < 6 {
        return None;
    }
    let count = read_le16(data, 4) as usize;
    if count == 0 || n < 6 + count * 16 {
        return None;
    }
    let mut best_size: u32 = 0;
    let mut best_offset: u32 = 0;
    let mut best_data_size: u32 = 0;
    let mut i: usize = 0;
    while i < count
        invariant
            n == data@.len(),
            count == ico_count(data@),
            1 <= count,
            6 + 16 * count <= n,
            i <= count,
            i == 0 ==> best_size == 0,
            i > 0 ==> ({
                let b = best_entry(data@, i as int);
                &&& best_size == entry_area(data@, b)
                &&& best_offset == entry_offset(data@, b)
                &&& best_data_size == entry_size(data@, b)
            }),
        decreases count - i,
    {
        let e = 6 + i * 16;
        let w: u32 = if data[e] == 0 {
            256
        } else {
            data[e] as u32
        };
        let h: u32 = if data[e + 1] == 0 {
            256
        } else {
            data[e + 1] as u32
        };
        assert(w * h <= 256 * 256) by (nonlinear_arith)
            requires
                w <= 256,
                h <= 256,
        ;
        let sz = w * h;
        let data_size = read_le32(data, e + 8);
        let offset = read_le32(data, e + 12);
        proof {
            if i > 0 {
                lemma_best_entry(data@, i as int);
            }
            assert(sz > 0) by (nonlinear_arith)
                requires
                    w >= 1,
                    h >= 1,
                    sz == w * h,
            ;
        }
        if sz > best_size {
            best_size = sz;
            best_offset = offset;
            best_data_size = data_size;
        }
        i = i + 1;
    }
    if best_offset as u64 + best_data_size as u64 > n as u64 {
        return None;
    }
    let start = best_offset as usize;
    let end = start + best_data_size as usize;
    let img = slice_subrange(data, start, end);
    if img.len() >= 4 && img[0] == 0x89 && img[1] == 0x50 && img[2] == 0x4E && img[3] == 0x47 {
        decode_png(img)
    } else {
        decode_bmp_dib(img)
    }
}

} // verus!
