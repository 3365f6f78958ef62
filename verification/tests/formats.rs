use imgsize::{avif, bmp, get_size, gif, jpg, png, Animation, Size};

fn size(width: u64, height: u64, mime_type: &str, is_animated: Animation) -> Option<Size> {
    Some(Size::new(width, height, mime_type.to_string(), is_animated))
}

fn chunk(kind: &[u8; 4], body: &[u8]) -> Vec<u8> {
    let mut out = (body.len() as u32).to_be_bytes().to_vec();
    out.extend_from_slice(kind);
    out.extend_from_slice(body);
    out.extend_from_slice(&[0, 0, 0, 0]);
    out
}

fn png_bytes(with_actl: bool, actl_first: bool) -> Vec<u8> {
    let mut data = vec![0x89, b'P', b'N', b'G', 0x0d, 0x0a, 0x1a, 0x0a];
    let mut ihdr = Vec::new();
    ihdr.extend_from_slice(&640u32.to_be_bytes());
    ihdr.extend_from_slice(&480u32.to_be_bytes());
    ihdr.extend_from_slice(&[8, 6, 0, 0, 0]);
    let actl = chunk(b"acTL", &[0, 0, 0, 2, 0, 0, 0, 0]);
    if with_actl && actl_first {
        data.extend(actl.clone());
    }
    data.extend(chunk(b"IHDR", &ihdr));
    data.extend(chunk(b"tEXt", b"comment"));
    if with_actl && !actl_first {
        data.extend(actl);
    }
    data.extend(chunk(b"IDAT", &[1, 2, 3]));
    data
}

#[test]
fn png_still_image() {
    assert_eq!(get_size(&png_bytes(false, false)), size(640, 480, "image/png", Animation::No));
}

#[test]
fn apng_with_actl_after_ihdr() {
    assert_eq!(get_size(&png_bytes(true, false)), size(640, 480, "image/png", Animation::Yes));
}

#[test]
fn apng_with_actl_before_ihdr() {
    assert_eq!(get_size(&png_bytes(true, true)), size(640, 480, "image/png", Animation::Yes));
}

#[test]
fn png_with_bad_ihdr_length() {
    let mut data = png_bytes(false, false);
    data[11] = 12;
    assert_eq!(get_size(&data), None);
}

#[test]
fn png_cut_before_idat_gives_nothing() {
    let data = png_bytes(false, false);
    assert_eq!(png::get_size(&data[..40]), None);
}

#[test]
fn png_cut_after_ihdr_of_apng_still_finds_it() {
    // acTL first, then IHDR: the walk stops at IHDR.
    let data = png_bytes(true, true);
    assert_eq!(png::get_size(&data[..8 + 20 + 16]), size(640, 480, "image/png", Animation::Yes));
}

fn jpeg_bytes() -> Vec<u8> {
    let mut data = vec![0xff, 0xd8, 0xff, 0xe0, 0x00, 0x10];
    data.extend_from_slice(&[b'J', b'F', b'I', b'F', 0, 1, 1, 0, 0, 1, 0, 1, 0, 0]);
    data.extend_from_slice(&[0xff, 0xc0, 0x00, 0x11, 0x08, 0x01, 0xe0, 0x02, 0x80, 0x03]);
    data
}

#[test]
fn jpeg_size_from_start_of_frame() {
    assert_eq!(get_size(&jpeg_bytes()), size(640, 480, "image/jpeg", Animation::No));
}

#[test]
fn jpeg_progressive_frame() {
    let mut data = jpeg_bytes();
    data[21] = 0xc2;
    assert_eq!(jpg::get_size(&data), size(640, 480, "image/jpeg", Animation::No));
}

#[test]
fn jpeg_huffman_table_is_not_a_frame() {
    // 0xc4 (DHT) is skipped by its length, so the bytes after it must start a marker.
    let mut data = jpeg_bytes();
    data[21] = 0xc4;
    assert_eq!(jpg::get_size(&data), None);
}

#[test]
fn jpeg_segment_not_followed_by_marker() {
    let mut data = jpeg_bytes();
    data[20] = 0x00;
    assert_eq!(get_size(&data), None);
}

#[test]
fn jpeg_without_signature() {
    let mut data = jpeg_bytes();
    data[1] = 0xd9;
    assert_eq!(jpg::get_size(&data), None);
}

fn gif_header(flags: u8) -> Vec<u8> {
    let mut data = b"GIF89a".to_vec();
    data.extend_from_slice(&[0x40, 0x01, 0xf0, 0x00, flags, 0, 0]);
    if flags & 0x80 != 0 {
        data.extend(vec![0u8; 3 << ((flags & 7) + 1)]);
    }
    data
}

const GCE: [u8; 8] = [0x21, 0xf9, 0x04, 0x00, 0x0a, 0x00, 0x00, 0x00];
const IMAGE: [u8; 15] = [0x2c, 0, 0, 0, 0, 0x40, 0x01, 0xf0, 0x00, 0x00, 0x02, 0x02, 0x44, 0x01, 0x00];

#[test]
fn gif_image_without_graphic_control_is_still() {
    let mut data = gif_header(0x00);
    data.extend_from_slice(&IMAGE);
    data.push(0x3b);
    assert_eq!(get_size(&data), size(320, 240, "image/gif", Animation::No));
}

#[test]
fn gif_two_frames_is_animated() {
    let mut data = gif_header(0x91);
    data.extend_from_slice(&[0x21, 0xff, 0x0b]);
    data.extend_from_slice(b"NETSCAPE2.0");
    data.extend_from_slice(&[0x03, 0x01, 0x00, 0x00, 0x00]);
    data.extend_from_slice(&GCE);
    data.extend_from_slice(&IMAGE);
    data.extend_from_slice(&GCE);
    data.extend_from_slice(&IMAGE);
    data.push(0x3b);
    assert_eq!(get_size(&data), size(320, 240, "image/gif", Animation::Yes));
}

#[test]
fn gif_one_frame_then_trailer_is_still() {
    let mut data = b"GIF87a".to_vec();
    data.extend_from_slice(&gif_header(0x00)[6..]);
    data.extend_from_slice(&[0x21, 0xfe, 0x03, b'a', b'b', b'c', 0x00]);
    data.extend_from_slice(&GCE);
    data.extend_from_slice(&IMAGE);
    data.push(0x3b);
    assert_eq!(get_size(&data), size(320, 240, "image/gif", Animation::No));
}

#[test]
fn gif_cut_short_has_unknown_animation() {
    let mut data = gif_header(0x80);
    data.extend_from_slice(&GCE);
    data.extend_from_slice(&IMAGE[..6]);
    assert_eq!(get_size(&data), size(320, 240, "image/gif", Animation::Unknown));
}

#[test]
fn gif_trailer_before_any_image() {
    let mut data = gif_header(0x00);
    data.push(0x3b);
    assert_eq!(gif::get_size(&data), None);
}

#[test]
fn gif_unknown_extension() {
    let mut data = gif_header(0x00);
    data.extend_from_slice(&[0x21, 0x02, 0x00]);
    assert_eq!(gif::get_size(&data), None);
}

#[test]
fn gif_color_table_sizes() {
    assert_eq!(gif::color_table_size(0x00), None);
    assert_eq!(gif::color_table_size(0x7f), None);
    assert_eq!(gif::color_table_size(0x80), Some(6));
    assert_eq!(gif::color_table_size(0x91), Some(12));
    assert_eq!(gif::color_table_size(0xf7), Some(768));
}

fn boxed(kind: &[u8; 4], body: &[u8]) -> Vec<u8> {
    let mut out = ((body.len() + 8) as u32).to_be_bytes().to_vec();
    out.extend_from_slice(kind);
    out.extend_from_slice(body);
    out
}

fn avif_bytes(major: &[u8; 4], minors: &[&[u8; 4]]) -> Vec<u8> {
    let mut ftyp = major.to_vec();
    ftyp.extend_from_slice(&[0, 0, 0, 0]);
    for minor in minors {
        ftyp.extend_from_slice(*minor);
    }
    let mut ispe = vec![0, 0, 0, 0];
    ispe.extend_from_slice(&1920u32.to_be_bytes());
    ispe.extend_from_slice(&1080u32.to_be_bytes());
    let mut ipco = boxed(b"pixi", &[0, 0, 0, 0, 3, 8, 8, 8]);
    ipco.extend(boxed(b"ispe", &ispe));
    let iprp = boxed(b"ipco", &ipco);
    let mut meta = vec![0, 0, 0, 0];
    meta.extend(boxed(b"hdlr", &[0; 12]));
    meta.extend(boxed(b"iprp", &iprp));
    let mut data = boxed(b"ftyp", &ftyp);
    data.extend(boxed(b"meta", &meta));
    data.extend(boxed(b"mdat", &[0; 4]));
    data
}

#[test]
fn avif_still_image() {
    let data = avif_bytes(b"avif", &[b"mif1", b"miaf"]);
    assert_eq!(get_size(&data), size(1920, 1080, "image/avif", Animation::No));
}

#[test]
fn avif_with_avis_minor_brand_is_animated() {
    let data = avif_bytes(b"avif", &[b"mif1", b"avis"]);
    assert_eq!(get_size(&data), size(1920, 1080, "image/avif", Animation::Yes));
}

#[test]
fn avis_major_brand_is_animated() {
    let data = avif_bytes(b"avis", &[]);
    assert_eq!(avif::get_size(&data), size(1920, 1080, "image/avif", Animation::Yes));
}

#[test]
fn heic_is_not_accepted() {
    let data = avif_bytes(b"heic", &[b"mif1"]);
    assert_eq!(get_size(&data), None);
}

#[test]
fn avif_with_truncated_ftyp_gives_nothing() {
    let mut data = boxed(b"ftyp", b"avif");
    data.extend(vec![0; 16]);
    assert_eq!(get_size(&data), None);
    assert_eq!(get_size(&[0, 0, 0, 8, b'f', b't', b'y', b'p']), None);
}

fn bmp_bytes(header_size: u32, body: &[u8]) -> Vec<u8> {
    let mut data = vec![b'B', b'M', 0x46, 0, 0, 0, 0, 0, 0, 0, 0x36, 0, 0, 0];
    data.extend_from_slice(&header_size.to_le_bytes());
    data.extend_from_slice(body);
    data
}

#[test]
fn bmp_windows_header() {
    let mut body = 300u32.to_le_bytes().to_vec();
    body.extend_from_slice(&200u32.to_le_bytes());
    body.extend_from_slice(&[1, 0, 24, 0]);
    assert_eq!(get_size(&bmp_bytes(40, &body)), size(300, 200, "image/bmp", Animation::No));
}

#[test]
fn bmp_top_down_height_is_positive() {
    let mut body = 300u32.to_le_bytes().to_vec();
    body.extend_from_slice(&(-200i32).to_le_bytes());
    assert_eq!(get_size(&bmp_bytes(124, &body)), size(300, 200, "image/bmp", Animation::No));
}

#[test]
fn bmp_os2_header() {
    let body = [0x2c, 0x01, 0xc8, 0x00, 1, 0, 24, 0];
    assert_eq!(bmp::get_size(&bmp_bytes(12, &body)), size(300, 200, "image/bmp", Animation::No));
}

#[test]
fn bmp_unknown_header_size() {
    let body = [0u8; 16];
    assert_eq!(get_size(&bmp_bytes(56, &body)), None);
}

#[test]
fn bmp_without_signature() {
    let mut body = 300u32.to_le_bytes().to_vec();
    body.extend_from_slice(&200u32.to_le_bytes());
    let mut data = bmp_bytes(40, &body);
    data[1] = b'A';
    assert_eq!(bmp::get_size(&data), None);
}

#[test]
fn unknown_format() {
    assert_eq!(get_size(b"RIFF\0\0\0\0WEBPVP8 "), None);
}

#[test]
fn short_input_gives_none() {
    assert_eq!(get_size(&[0x89, 0x50, 0x4e]), None);
    assert_eq!(get_size(&[]), None);
}
