use imgsize::avif::{get_u32, BMFFBox, BMFFBoxIter, Ftyp};
use imgsize::cursor::{ByteCursor, ReadError};
use imgsize::utils::{cursor_parser, format_parser};
use imgsize::{Animation, Size};

#[test]
fn cursor_reads_in_both_byte_orders() {
    let data = [1u8, 2, 3, 4, 5];
    let mut c = ByteCursor::new(&data);
    assert_eq!(c.read_u32_be(), Ok(0x01020304));
    let mut c = ByteCursor::new(&data);
    assert_eq!(c.read_u32_le(), Ok(0x04030201));
    assert_eq!(c.read_u8(), Ok(5));
    assert_eq!(c.read_u8(), Err(ReadError::UnexpectedEof));
    let mut c = ByteCursor::new(&data);
    assert_eq!(c.read_u16_be(), Ok(0x0102));
    assert_eq!(c.read_u16_le(), Ok(0x0403));
    assert_eq!(c.read_u16_le(), Err(ReadError::UnexpectedEof));
}

#[test]
fn cursor_seeks() {
    let data = [1u8, 2, 3, 4, 5];
    let mut c = ByteCursor::new(&data);
    assert_eq!(c.seek_current(-1), Err(ReadError::InvalidSeek));
    assert_eq!(c.seek_current(3), Ok(()));
    assert_eq!(c.read_u8(), Ok(4));
    c.seek_start(100);
    assert_eq!(c.read_u8(), Err(ReadError::UnexpectedEof));
    assert_eq!(c.seek_current(-98), Ok(()));
    assert_eq!(c.read_u8(), Ok(3));
    c.seek_start(u64::MAX);
    assert_eq!(c.seek_current(1), Err(ReadError::InvalidSeek));
}

fn first_byte_as_width(c: ByteCursor) -> Result<Option<Size>, ReadError> {
    let mut c = c;
    let w = c.read_u8()?;
    Ok(Some(Size::new(w as u64, 1, "x/y".to_string(), Animation::No)))
}

#[test]
fn cursor_parser_turns_failed_reads_into_none() {
    assert_eq!(
        cursor_parser(&[7], first_byte_as_width),
        Some(Size::new(7, 1, "x/y".to_string(), Animation::No))
    );
    assert_eq!(cursor_parser(&[], first_byte_as_width), None);
}

#[test]
fn format_parser_checks_the_signature() {
    assert_eq!(
        format_parser(&[7, 8], &[7], first_byte_as_width),
        Some(Size::new(7, 1, "x/y".to_string(), Animation::No))
    );
    assert_eq!(format_parser(&[7, 8], &[8], first_byte_as_width), None);
    assert_eq!(format_parser(&[7], &[7, 8], first_byte_as_width), None);
}

#[test]
fn get_u32_reads_big_endian() {
    let data = [0xaa, 0x01, 0x02, 0x03, 0x04];
    assert_eq!(get_u32(&data, 1), Some(0x01020304));
    assert_eq!(get_u32(&data, 2), None);
}

#[test]
fn box_with_64_bit_size() {
    let mut data = vec![0, 0, 0, 1, b'm', b'd', b'a', b't', 0, 0, 0, 0, 0, 0, 0, 20];
    data.extend_from_slice(&[9, 9, 9, 9, 7]);
    let b = BMFFBox::from_data(&data).unwrap();
    assert_eq!(b.size, 20);
    assert_eq!(&b.box_type, b"mdat");
    assert_eq!(b.data, &[9, 9, 9, 9]);
}

#[test]
fn boxes_that_do_not_fit_are_refused() {
    assert!(BMFFBox::from_data(&[0, 0, 0, 9, b'f', b'r', b'e', b'e']).is_none());
    assert!(BMFFBox::from_data(&[0, 0, 0, 0, b'f', b'r', b'e', b'e']).is_none());
    assert!(BMFFBox::from_data(&[0, 0, 0, 7, b'f', b'r', b'e', b'e']).is_none());
    assert!(BMFFBox::from_data(&[0, 0, 0, 1, b'f', b'r', b'e', b'e', 0, 0, 0, 0, 0, 0, 0, 15]).is_none());
}

#[test]
fn iterating_and_finding_boxes() {
    let data = [
        0, 0, 0, 9, b'f', b'r', b'e', b'e', 1, //
        0, 0, 0, 8, b's', b'k', b'i', b'p', //
        0, 0, 0, 10, b'm', b'd', b'a', b't', 5, 6,
    ];
    let mut it = BMFFBoxIter::new(&data);
    assert!(it.next_typed(b"skip").is_none());
    assert_eq!(&it.next().unwrap().box_type, b"skip");
    assert_eq!(it.next_typed(b"mdat").unwrap().data, &[5, 6]);
    assert!(it.next().is_none());

    let outer = BMFFBox { data: &data, size: data.len() + 8, box_type: *b"moov" };
    assert_eq!(outer.find_inner_box(b"mdat").unwrap().data, &[5, 6]);
    assert!(outer.find_inner_box(b"trak").is_none());
    assert_eq!(&outer.find_inner_box_after(b"skip", 9).unwrap().box_type, b"skip");
    assert!(outer.find_inner_box_after(b"free", 9).is_none());
    assert!(outer.find_inner_box_after(b"free", 100).is_none());
}

#[test]
fn ftyp_brands() {
    let payload = *b"avif\0\0\0\0mif1avisxx";
    let b = BMFFBox { data: &payload, size: payload.len() + 8, box_type: *b"ftyp" };
    let f = Ftyp::maybe_from(b).unwrap();
    assert_eq!(&f.major_brand, b"avif");
    assert_eq!(f.minor_brands, vec![*b"mif1", *b"avis"]);
}

#[test]
fn ftyp_too_short_for_its_brands() {
    let payload = *b"avif";
    let b = BMFFBox { data: &payload, size: 12, box_type: *b"ftyp" };
    assert!(Ftyp::maybe_from(b).is_none());
}
