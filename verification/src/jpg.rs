//! JPEG: the size comes from the first start-of-frame segment, reached by
//! skipping the segments before it by their lengths.
use crate::cursor::{be16_at, lemma_reads_extend, seek_by, u8_at, ByteCursor, ReadError};
use crate::utils::{format_parser, has_signature, outcome};
use crate::{found, make_size, size_view, Animation, Size, SizeModel};
use vstd::prelude::*;

verus! {

pub const MIME_TYPE: &'static str = "image/jpeg";

/// The start-of-image marker and the first byte of the next marker.
pub const SIGNATURE: [u8; 3] = [0xff, 0xd8, 0xff];

/// The signature as a sequence.
pub open spec fn signature() -> Seq<u8> {
    seq![0xffu8, 0xd8u8, 0xffu8]
}

/// Whether `marker` starts a frame (`SOF0`..`SOF15`, leaving out `DHT` (0xc4),
/// `JPG` (0xc8) and `DAC` (0xcc)).
pub open spec fn is_start_of_frame(marker: int) -> bool {
    0xc0 <= marker <= 0xcf && marker != 0xc4 && marker != 0xc8 && marker != 0xcc
}

/// The walk over the segments from the marker byte at position `p`: a
/// start-of-frame segment gives the height and then the width after three
/// bytes (length and precision); any other segment is skipped by its length,
/// and must be followed by `0xff`.
pub open spec fn jpg_markers(d: Seq<u8>, p: int) -> Option<SizeModel>
    decreases d.len() - p,
{
    match u8_at(d, p) {
        Some(marker) => {
            if is_start_of_frame(marker) {
                match seek_by(p + 1, 3) {
                    Some(q) => match (be16_at(d, q), be16_at(d, q + 2)) {
                        (Some(h), Some(w)) => found(w, h, MIME_TYPE, Animation::No),
                        _ => None,
                    },
                    None => None,
                }
            } else {
                match be16_at(d, p + 1) {
                    Some(len) => match seek_by(p + 3, len - 2) {
                        Some(q) => match u8_at(d, q) {
                            Some(b) => if b != 0xff {
                                None
                            } else if p < q + 1 <= d.len() {
                                jpg_markers(d, q + 1)
                            } else {
                                None
                            },
                            None => None,
                        },
                        None => None,
                    },
                    None => None,
                }
            }
        },
        None => None,
    }
}

/// What a JPEG gives: nothing without the signature, else the walk over the
/// segments from the first marker after the start-of-image marker.
pub open spec fn spec_jpg(d: Seq<u8>) -> Option<SizeModel> {
    if has_signature(d, signature()) {
        jpg_markers(d, 3)
    } else {
        None
    }
}

/// The walk gives the same size on any longer bytes that begin with the same
/// ones, once it found one.
pub proof fn lemma_jpg_markers_extend(d: Seq<u8>, e: Seq<u8>, p: int)
    requires
        jpg_markers(d, p) is Some,
    ensures
        jpg_markers(d + e, p) == jpg_markers(d, p),
    decreases d.len() - p,
{
    lemma_reads_extend(d, e, p);
    lemma_reads_extend(d, e, p + 1);
    let marker = u8_at(d, p)->Some_0;
    if is_start_of_frame(marker) {
        let q = seek_by(p + 1, 3)->Some_0;
        lemma_reads_extend(d, e, q);
        lemma_reads_extend(d, e, q + 2);
    } else {
        let len = be16_at(d, p + 1)->Some_0;
        let q = seek_by(p + 3, len - 2)->Some_0;
        lemma_reads_extend(d, e, q);
        lemma_jpg_markers_extend(d, e, q + 1);
    }
}

/// The walk only ever finds a JPEG, never animated.
pub proof fn lemma_jpg_markers_found(d: Seq<u8>, p: int)
    ensures
        jpg_markers(d, p) matches Some(s) ==> s.mime_type == MIME_TYPE@ && s.is_animated == Animation::No,
    decreases d.len() - p,
{
    if let Some(marker) = u8_at(d, p) {
        if !is_start_of_frame(marker) {
            if let Some(len) = be16_at(d, p + 1) {
                if let Some(q) = seek_by(p + 3, len - 2) {
                    if p < q + 1 <= d.len() {
                        lemma_jpg_markers_found(d, q + 1);
                    }
                }
            }
        }
    }
}

fn start_of_frame(marker: u8) -> (r: bool)
    ensures
        r == is_start_of_frame(marker as int),
{
    0xc0 <= marker && marker <= 0xcf && marker != 0xc4 && marker != 0xc8 && marker != 0xcc
}

/// Walks the segments of the JPEG that `input` reads.
fn parse_segments(input: ByteCursor) -> (r: Result<Option<Size>, ReadError>)
    ensures
        size_view(outcome(r)) == jpg_markers(input.data@, 3),
{
    let ghost d = input.data@;
    let mut cursor = input;
    cursor.seek_start(3);
    loop
        invariant
            cursor.data@ == d,
            d == input.data@,
            jpg_markers(d, cursor.pos as int) == jpg_markers(d, 3),
        decreases (if cursor.pos <= d.len() { d.len() + 1 - cursor.pos } else { 0 }),
    {
        let ghost p = cursor.pos as int;
        let marker = cursor.read_u8()?;
        if start_of_frame(marker) {
            cursor.seek_current(3)?;
            let height = cursor.read_u16_be()?;
            let width = cursor.read_u16_be()?;
            return Ok(Some(make_size(width as u64, height as u64, MIME_TYPE, Animation::No)));
        } else {
            let length = cursor.read_u16_be()?;
            cursor.seek_current(length as i64 - 2)?;
            if cursor.read_u8()? != 0xff {
                return Ok(None);
            }
        }
        assert(cursor.pos > p);
    }
}

/// The size of the JPEG image in `data`, or `None` when `data` does not
/// begin with the JPEG signature.
pub fn get_size(data: &[u8]) -> (res: Option<Size>)
    ensures
        size_view(res) == spec_jpg(data@),
{
    assert(SIGNATURE@ == signature());
    format_parser(data, &SIGNATURE, parse_segments)
}

} // verus!
