//! BMP: the size comes from the DIB header that follows the 14-byte file
//! header; its length tells the old OS/2 layout (16-bit fields) from the
//! Windows ones (32-bit fields, where a negative height marks a top-down
//! image).
use crate::cursor::{le16_at, le32_at, u8_at, ByteCursor, ReadError};
use crate::utils::{format_parser, has_signature, outcome};
use crate::{found, make_size, size_view, Animation, Size, SizeModel};
use vstd::prelude::*;

verus! {

pub const MIME_TYPE: &'static str = "image/bmp";

/// The file header's magic number `BM`.
pub const SIGNATURE: [u8; 2] = [0x42, 0x4d];

/// The signature as a sequence.
pub open spec fn signature() -> Seq<u8> {
    seq![0x42u8, 0x4du8]
}

/// Whether a DIB header of this length has 32-bit width and height.
pub open spec fn is_windows_header(header_size: int) -> bool {
    header_size == 40 || header_size == 64 || header_size == 108 || header_size == 124
}

/// The height of a Windows DIB header: a height whose top byte is `0xff`
/// is negative, and its magnitude is taken.
pub open spec fn windows_height(raw: int, top_byte: int) -> int {
    if top_byte == 0xff { 0x1_0000_0000 - raw } else { raw }
}

/// What the DIB header of a BMP gives.
pub open spec fn bmp_header(d: Seq<u8>) -> Option<SizeModel> {
    match le32_at(d, 14) {
        Some(header_size) => {
            if header_size == 12 {
                match (le16_at(d, 18), le16_at(d, 20)) {
                    (Some(w), Some(h)) => found(w, h, MIME_TYPE, Animation::No),
                    _ => None,
                }
            } else if is_windows_header(header_size) {
                match (le32_at(d, 18), le32_at(d, 22), u8_at(d, 25)) {
                    (Some(w), Some(h), Some(top)) => found(w, windows_height(h, top), MIME_TYPE, Animation::No),
                    _ => None,
                }
            } else {
                None
            }
        },
        None => None,
    }
}

/// What a BMP gives: nothing without the signature, else what its DIB header
/// gives.
pub open spec fn spec_bmp(d: Seq<u8>) -> Option<SizeModel> {
    if has_signature(d, signature()) {
        bmp_header(d)
    } else {
        None
    }
}

/// Reads the DIB header of the BMP that `input` reads.
fn parse_header(input: ByteCursor) -> (r: Result<Option<Size>, ReadError>)
    ensures
        size_view(outcome(r)) == bmp_header(input.data@),
{
    let mut cursor = input;
    cursor.seek_start(14);
    let header_size = cursor.read_u32_le()?;
    if header_size == 12 {
        let width = cursor.read_u16_le()?;
        let height = cursor.read_u16_le()?;
        Ok(Some(make_size(width as u64, height as u64, MIME_TYPE, Animation::No)))
    } else if header_size == 40 || header_size == 64 || header_size == 108 || header_size == 124 {
        let width = cursor.read_u32_le()? as u64;
        let mut height = cursor.read_u32_le()? as u64;
        cursor.seek_current(-1)?;
        if cursor.read_u8()? == 0xff {
            height = 4294967296 - height;
        }
        Ok(Some(make_size(width, height, MIME_TYPE, Animation::No)))
    } else {
        Ok(None)
    }
}

/// The size of the BMP image in `data`, or `None` when `data` does not begin
/// with `BM`.
pub fn get_size(data: &[u8]) -> (res: Option<Size>)
    ensures
        size_view(res) == spec_bmp(data@),
{
    assert(SIGNATURE@ == signature());
    format_parser(data, &SIGNATURE, parse_header)
}

} // verus!
