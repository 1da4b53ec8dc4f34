use flatcaster::icon::{decode_bmp_dib, decode_png, parse_ico};

fn le32(v: u32) -> [u8; 4] {
    v.to_le_bytes()
}

/// A BMP image as an icon stores it: 40-byte header, doubled height,
/// rows bottom-up.
fn dib(width: u32, height: u32, bits: u16, rows_bottom_up: &[Vec<u8>]) -> Vec<u8> {
    let mut d = Vec::new();
    d.extend_from_slice(&le32(40));
    d.extend_from_slice(&le32(width));
    d.extend_from_slice(&le32(height * 2));
    d.extend_from_slice(&1u16.to_le_bytes());
    d.extend_from_slice(&bits.to_le_bytes());
    d.resize(40, 0);
    for r in rows_bottom_up {
        d.extend_from_slice(r);
    }
    d
}

fn ico(entries: &[(u8, u8, Vec<u8>)]) -> Vec<u8> {
    let mut out = vec![0, 0, 1, 0];
    out.extend_from_slice(&(entries.len() as u16).to_le_bytes());
    let mut offset = 6 + 16 * entries.len();
    let mut blobs = Vec::new();
    for (w, h, data) in entries {
        out.extend_from_slice(&[*w, *h, 0, 0, 1, 0, 32, 0]);
        out.extend_from_slice(&le32(data.len() as u32));
        out.extend_from_slice(&le32(offset as u32));
        offset += data.len();
        blobs.extend_from_slice(data);
    }
    out.extend_from_slice(&blobs);
    out
}

#[test]
fn bmp_32_bits_is_flipped_and_swizzled() {
    // bottom row: blue, green; top row: red, white half transparent
    let d = dib(2, 2, 32, &[vec![255, 0, 0, 255, 0, 255, 0, 255], vec![0, 0, 255, 255, 255, 255, 255, 128]]);
    let img = decode_bmp_dib(&d).unwrap();
    assert_eq!((img.width, img.height), (2, 2));
    assert_eq!(
        img.rgba,
        vec![255, 0, 0, 255, 255, 255, 255, 128, 0, 0, 255, 255, 0, 255, 0, 255]
    );
}

#[test]
fn bmp_24_bits_rows_are_padded() {
    // one pixel per row: 3 bytes then a padding byte
    let d = dib(1, 2, 24, &[vec![1, 2, 3, 0], vec![4, 5, 6, 0]]);
    let img = decode_bmp_dib(&d).unwrap();
    assert_eq!((img.width, img.height), (1, 2));
    assert_eq!(img.rgba, vec![6, 5, 4, 255, 3, 2, 1, 255]);
}

#[test]
fn bmp_refusals() {
    assert!(decode_bmp_dib(&[0u8; 39]).is_none());
    let d8 = dib(1, 1, 8, &[vec![0, 0, 0, 0]]);
    assert!(decode_bmp_dib(&d8).is_none());
    let mut short = dib(2, 2, 32, &[vec![0; 8], vec![0; 8]]);
    short.pop();
    assert!(decode_bmp_dib(&short).is_none());
}

#[test]
fn negative_height_is_read_as_its_size() {
    let mut d = dib(1, 1, 32, &[vec![9, 8, 7, 6]]);
    d[8..12].copy_from_slice(&(-2i32).to_le_bytes());
    let img = decode_bmp_dib(&d).unwrap();
    assert_eq!((img.width, img.height), (1, 1));
    assert_eq!(img.rgba, vec![7, 8, 9, 6]);
}

#[test]
fn png_is_not_decoded() {
    assert!(decode_png(&[0x89, 0x50, 0x4E, 0x47]).is_none());
    let file = ico(&[(1, 1, vec![0x89, 0x50, 0x4E, 0x47, 0, 0])]);
    assert!(parse_ico(&file).is_none());
}

#[test]
fn ico_picks_the_largest_image() {
    let small = dib(1, 1, 32, &[vec![1, 1, 1, 1]]);
    let large = dib(2, 1, 32, &[vec![10, 20, 30, 40, 50, 60, 70, 80]]);
    let file = ico(&[(1, 1, small), (2, 1, large)]);
    let img = parse_ico(&file).unwrap();
    assert_eq!((img.width, img.height), (2, 1));
    assert_eq!(img.rgba, vec![30, 20, 10, 40, 70, 60, 50, 80]);
}

#[test]
fn ico_first_of_equal_sizes() {
    let a = dib(1, 1, 32, &[vec![1, 2, 3, 4]]);
    let b = dib(1, 1, 32, &[vec![5, 6, 7, 8]]);
    let img = parse_ico(&ico(&[(1, 1, a), (1, 1, b)])).unwrap();
    assert_eq!(img.rgba, vec![3, 2, 1, 4]);
}

#[test]
fn ico_refusals() {
    assert!(parse_ico(&[0, 0, 1, 0]).is_none());
    assert!(parse_ico(&[0, 0, 1, 0, 0, 0]).is_none());
    // one entry announced, not there
    assert!(parse_ico(&[0, 0, 1, 0, 1, 0, 1, 1]).is_none());
    let mut file = ico(&[(1, 1, dib(1, 1, 32, &[vec![0; 4]]))]);
    file.truncate(file.len() - 1);
    assert!(parse_ico(&file).is_none());
}
