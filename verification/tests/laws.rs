use imgsize::{get_size, Animation, Size};

fn sample_png() -> Vec<u8> {
    let mut data = vec![0x89, b'P', b'N', b'G', 0x0d, 0x0a, 0x1a, 0x0a];
    data.extend_from_slice(&[0, 0, 0, 13, b'I', b'H', b'D', b'R', 0, 0, 0, 16, 0, 0, 0, 9, 8, 2, 0, 0, 0]);
    data.extend_from_slice(&[0, 0, 0, 0]);
    data.extend_from_slice(&[0, 0, 0, 1, b'I', b'D', b'A', b'T']);
    data
}

#[test]
fn more_data_keeps_the_size() {
    let data = sample_png();
    let found = get_size(&data);
    assert_eq!(found, Some(Size::new(16, 9, "image/png".to_string(), Animation::No)));
    let mut longer = data.clone();
    longer.extend_from_slice(&[0xde, 0xad, 0xbe, 0xef, 0, 0, 0, 0, 1, 2, 3]);
    assert_eq!(get_size(&longer), found);
}

#[test]
fn mime_types_are_the_supported_ones() {
    let supported = ["image/png", "image/jpeg", "image/gif", "image/avif", "image/bmp"];
    let found = get_size(&sample_png()).unwrap();
    assert!(supported.contains(&found.mime_type.as_str()));
}

#[test]
fn animation_from_bool() {
    assert_eq!(Animation::from(true), Animation::Yes);
    assert_eq!(Animation::from(false), Animation::No);
    assert_eq!(Animation::Yes.as_str(), "yes");
    assert_eq!(Animation::No.as_str(), "no");
    assert_eq!(Animation::Unknown.as_str(), "unknown");
}

#[test]
fn fewer_than_eight_bytes_give_nothing() {
    let data = sample_png();
    for n in 0..8 {
        assert_eq!(get_size(&data[..n]), None);
    }
}
