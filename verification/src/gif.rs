//! GIF (87a and 89a): the size comes from the logical screen descriptor; the
//! blocks that follow tell whether there is more than one frame.
use crate::cursor::{le16_at, lemma_reads_extend, seek_by, u8_at, ByteCursor, ReadError};
use crate::utils::{cursor_parser, outcome};
use crate::{animation_of, found, make_size, size_view, Animation, Size, SizeModel};
use vstd::arithmetic::power2::{lemma2_to64, pow2};
use vstd::bits::lemma_u64_shl_is_mul;
use vstd::prelude::*;

verus! {

pub const MIME_TYPE: &'static str = "image/gif";

/// The length in bytes of the color table that `flags` announces, if its
/// top bit says there is one: 3 × 2^(N+1), where N is the low three bits.
pub open spec fn color_table_bytes(flags: int) -> Option<int> {
    if flags >= 128 {
        Some(3 * pow2((flags % 8 + 1) as nat) as int)
    } else {
        None
    }
}

/// A seek by `off` from `p`, as the cursor reports it.
pub open spec fn seek_to(p: int, off: int) -> Result<int, ReadError> {
    match seek_by(p, off) {
        Some(q) => Ok(q),
        None => Err(ReadError::InvalidSeek),
    }
}

/// The position after a run of data sub-blocks that starts at `p`: each
/// sub-block is a length byte and that many bytes, and a zero length ends the
/// run. A run that goes past the end fails with `UnexpectedEof`.
pub open spec fn skip_sub_blocks(d: Seq<u8>, p: int) -> Result<int, ReadError>
    decreases d.len() - p,
{
    match u8_at(d, p) {
        Some(size) => {
            if size == 0 {
                Ok(p + 1)
            } else {
                match seek_to(p + 1, size) {
                    Ok(q) => if p < q <= d.len() {
                        skip_sub_blocks(d, q)
                    } else {
                        Err(ReadError::UnexpectedEof)
                    },
                    Err(e) => Err(e),
                }
            }
        },
        None => Err(ReadError::UnexpectedEof),
    }
}

/// The run of sub-blocks from a start that may have failed.
pub open spec fn skip_from(d: Seq<u8>, start: Result<int, ReadError>) -> Result<int, ReadError> {
    match start {
        Ok(s) => skip_sub_blocks(d, s),
        Err(e) => Err(e),
    }
}

/// Where the data sub-blocks of the image descriptor at `p` begin: after the
/// separator, eight bytes of position and size, the flags, the local color
/// table that the flags announce, and the LZW minimum code size.
pub open spec fn image_data_start(d: Seq<u8>, p: int) -> Result<int, ReadError> {
    match seek_to(p + 1, 8) {
        Ok(q) => match u8_at(d, q) {
            Some(flags) => {
                let after_table = match color_table_bytes(flags) {
                    Some(n) => seek_to(q + 1, n),
                    None => Ok(q + 1),
                };
                match after_table {
                    Ok(r) => seek_to(r, 1),
                    Err(e) => Err(e),
                }
            },
            None => Err(ReadError::UnexpectedEof),
        },
        Err(e) => Err(e),
    }
}

/// For the extension labels that are understood, the bytes between the label
/// and the data sub-blocks: graphic control (0xf9), comment (0xfe), plain text
/// (0x01) and application (0xff).
pub open spec fn extension_skip(label: int) -> Option<int> {
    if label == 0xf9 {
        Some(5)
    } else if label == 0xfe {
        Some(0)
    } else if label == 0x01 {
        Some(13)
    } else if label == 0xff {
        Some(12)
    } else {
        None
    }
}

/// The walk over the blocks from position `p`, given whether an image and a
/// graphic control extension were seen, with the position where it stops.
/// `Some(true)`: a second image; `Some(false)`: an image with no graphic
/// control extension before it, or the trailer after one image; `None`: an
/// unknown block or extension, or the trailer before any image; `Err`: a read
/// past the end (`UnexpectedEof`) or a seek past the largest position
/// (`InvalidSeek`).
pub open spec fn gif_blocks(d: Seq<u8>, p: int, found_image: bool, gce_found: bool) -> Result<(Option<bool>, int), ReadError>
    decreases d.len() - p,
{
    match u8_at(d, p) {
        Some(block) => {
            if block == 0x2c {
                if found_image {
                    Ok((Some(true), p + 1))
                } else if !gce_found {
                    Ok((Some(false), p + 1))
                } else {
                    match skip_from(d, image_data_start(d, p)) {
                        Ok(t) => if p < t <= d.len() {
                            gif_blocks(d, t, true, gce_found)
                        } else {
                            Err(ReadError::UnexpectedEof)
                        },
                        Err(e) => Err(e),
                    }
                }
            } else if block == 0x21 {
                match u8_at(d, p + 1) {
                    Some(label) => match extension_skip(label) {
                        Some(n) => match skip_from(d, seek_to(p + 2, n)) {
                            Ok(t) => if p < t <= d.len() {
                                gif_blocks(d, t, found_image, gce_found || label == 0xf9)
                            } else {
                                Err(ReadError::UnexpectedEof)
                            },
                            Err(e) => Err(e),
                        },
                        None => Ok((None, p + 2)),
                    },
                    None => Err(ReadError::UnexpectedEof),
                }
            } else if block == 0x3b {
                if found_image {
                    Ok((Some(false), p + 1))
                } else {
                    Ok((None, p + 1))
                }
            } else {
                Ok((None, p + 1))
            }
        },
        None => Err(ReadError::UnexpectedEof),
    }
}

/// The animation that the blocks from `p` show; a walk that fails leaves it
/// unknown.
pub open spec fn gif_animation(d: Seq<u8>, p: int) -> Option<Animation> {
    match gif_blocks(d, p, false, false) {
        Ok((Some(animated), _)) => Some(animation_of(animated)),
        Ok((None, _)) => None,
        Err(_) => Some(Animation::Unknown),
    }
}

/// What a GIF gives: the width, height and flags of the logical screen
/// descriptor after the 6-byte header, then the animation that the blocks
/// after the global color table show.
pub open spec fn spec_gif(d: Seq<u8>) -> Option<SizeModel> {
    match (le16_at(d, 6), le16_at(d, 8), u8_at(d, 10)) {
        (Some(w), Some(h), Some(flags)) => {
            let blocks = match color_table_bytes(flags) {
                Some(n) => 13 + n,
                None => 13,
            };
            match gif_animation(d, blocks) {
                Some(a) => found(w, h, MIME_TYPE, a),
                None => None,
            }
        },
        _ => None,
    }
}

/// A run of sub-blocks that ends within some bytes ends at the same place on
/// any longer bytes that begin with them.
pub proof fn lemma_skip_sub_blocks_extend(d: Seq<u8>, e: Seq<u8>, p: int)
    requires
        skip_sub_blocks(d, p) is Ok,
    ensures
        skip_sub_blocks(d + e, p) == skip_sub_blocks(d, p),
    decreases d.len() - p,
{
    lemma_reads_extend(d, e, p);
    let size = u8_at(d, p)->Some_0;
    if size != 0 {
        let q = seek_by(p + 1, size)->Some_0;
        lemma_skip_sub_blocks_extend(d, e, q);
    }
}

/// A walk over the blocks that ends without a failed read ends the same way on
/// any longer bytes that begin with the same ones.
pub proof fn lemma_gif_blocks_extend(d: Seq<u8>, e: Seq<u8>, p: int, found_image: bool, gce_found: bool)
    requires
        gif_blocks(d, p, found_image, gce_found) is Ok,
    ensures
        gif_blocks(d + e, p, found_image, gce_found) == gif_blocks(d, p, found_image, gce_found),
    decreases d.len() - p,
{
    lemma_reads_extend(d, e, p);
    lemma_reads_extend(d, e, p + 1);
    let block = u8_at(d, p)->Some_0;
    if block == 0x2c {
        if !found_image && gce_found {
            let q = seek_by(p + 1, 8)->Some_0;
            lemma_reads_extend(d, e, q);
            assert(image_data_start(d + e, p) == image_data_start(d, p));
            let t = skip_from(d, image_data_start(d, p))->Ok_0;
            lemma_skip_sub_blocks_extend(d, e, image_data_start(d, p)->Ok_0);
            lemma_gif_blocks_extend(d, e, t, true, gce_found);
        }
    } else if block == 0x21 {
        let label = u8_at(d, p + 1)->Some_0;
        if let Some(n) = extension_skip(label) {
            let t = skip_from(d, seek_to(p + 2, n))->Ok_0;
            lemma_skip_sub_blocks_extend(d, e, seek_to(p + 2, n)->Ok_0);
            lemma_gif_blocks_extend(d, e, t, found_image, gce_found || label == 0xf9);
        }
    }
}

/// A color table holds at most 768 bytes.
pub proof fn lemma_color_table_bounds(flags: int)
    ensures
        color_table_bytes(flags) matches Some(n) ==> 6 <= n <= 768,
{
    if flags >= 128 {
        lemma2_to64();
        let k = flags % 8 + 1;
        assert(1 <= k <= 8);
        assert(2 <= pow2(k as nat) <= 256);
    }
}

/// The length in bytes of the color table that `flags` announces, if there
/// is one.
pub fn color_table_size(flags: u8) -> (r: Option<i64>)
    ensures
        match color_table_bytes(flags as int) {
            Some(n) => r == Some(n as i64) && r->Some_0 == n,
            None => r is None,
        },
{
    if flags & (1u8 << 7u8) != 0 {
        let low = flags & 0x07u8;
        proof {
            assert(flags & (1u8 << 7u8) != 0 ==> flags >= 128) by (bit_vector);
            assert(flags & 0x07u8 == flags % 8) by (bit_vector);
        }
        let n: u64 = (low + 1) as u64;
        proof {
            lemma2_to64();
            assert(1u64 * pow2(n as nat) <= u64::MAX);
            lemma_u64_shl_is_mul(1, n);
            lemma_color_table_bounds(flags as int);
        }
        Some(((1u64 << n) * 3) as i64)
    } else {
        proof {
            assert(flags & (1u8 << 7u8) == 0 ==> flags < 128) by (bit_vector);
        }
        None
    }
}

/// Skips a run of data sub-blocks.
fn skip_data_sub_blocks(cursor: &mut ByteCursor) -> (r: Result<(), ReadError>)
    ensures
        final(cursor).data@ == old(cursor).data@,
        match skip_sub_blocks(old(cursor).data@, old(cursor).pos as int) {
            Ok(q) => r is Ok && final(cursor).pos == q,
            Err(e) => r == Err::<(), ReadError>(e),
        },
        old(cursor).pos <= final(cursor).pos,
        r is Ok ==> old(cursor).pos < final(cursor).pos <= old(cursor).data@.len(),
{
    let ghost d = cursor.data@;
    let ghost start = cursor.pos as int;
    proof {
        lemma_skip_sub_blocks_bounds(d, start);
    }
    loop
        invariant
            cursor.data@ == d,
            d == old(cursor).data@,
            start == old(cursor).pos,
            skip_sub_blocks(d, cursor.pos as int) == skip_sub_blocks(d, start),
            skip_sub_blocks(d, start) matches Ok(q) ==> start < q <= d.len(),
            start <= cursor.pos,
        decreases (if cursor.pos <= d.len() { d.len() + 1 - cursor.pos } else { 0 }),
    {
        let ghost p = cursor.pos as int;
        let size = cursor.read_u8()?;
        if size == 0 {
            return Ok(());
        }
        cursor.seek_current(size as i64)?;
        assert(cursor.pos > p);
    }
}

/// Walks the blocks that follow the logical screen descriptor and the global
/// color table.
fn detect_animation_inner(cursor: &mut ByteCursor) -> (r: Result<Option<bool>, ReadError>)
    ensures
        final(cursor).data@ == old(cursor).data@,
        match gif_blocks(old(cursor).data@, old(cursor).pos as int, false, false) {
            Ok((found, end)) => r == Ok::<Option<bool>, ReadError>(found) && final(cursor).pos == end,
            Err(e) => r == Err::<Option<bool>, ReadError>(e),
        },
        old(cursor).pos <= final(cursor).pos,
        r is Ok ==> final(cursor).pos <= old(cursor).data@.len(),
{
    let ghost d = cursor.data@;
    let ghost start = cursor.pos as int;
    let mut found_image = false;
    let mut gce_found = false;
    loop
        invariant
            cursor.data@ == d,
            d == old(cursor).data@,
            start == old(cursor).pos,
            gif_blocks(d, cursor.pos as int, found_image, gce_found) == gif_blocks(d, start, false, false),
            start <= cursor.pos,
        decreases (if cursor.pos <= d.len() { d.len() + 1 - cursor.pos } else { 0 }),
    {
        let ghost p = cursor.pos as int;
        let block = cursor.read_u8()?;
        if block == 0x2c {
            // Image Descriptor
            if found_image {
                return Ok(Some(true));
            } else if !gce_found {
                return Ok(Some(false));
            }
            found_image = true;
            cursor.seek_current(8)?;
            let flags = cursor.read_u8()?;
            if let Some(size) = color_table_size(flags) {
                cursor.seek_current(size)?;
            }
            // skip LZW Minimum Code Size
            cursor.seek_current(1)?;
            skip_data_sub_blocks(cursor)?;
        } else if block == 0x21 {
            // Extension
            let label = cursor.read_u8()?;
            if label == 0xf9 {
                // Graphic Control Extension: block size (always 4) and data
                gce_found = true;
                cursor.seek_current(5)?;
                skip_data_sub_blocks(cursor)?;
            } else if label == 0xfe {
                // Comment Extension
                proof {
                    assert(seek_to(p + 2, 0) == Ok::<int, ReadError>(p + 2));
                }
                skip_data_sub_blocks(cursor)?;
            } else if label == 0x01 {
                // Plain Text Extension: block size (always 12) and data
                cursor.seek_current(13)?;
                skip_data_sub_blocks(cursor)?;
            } else if label == 0xff {
                // Application Extension: block size (always 11) and data
                cursor.seek_current(12)?;
                skip_data_sub_blocks(cursor)?;
            } else {
                return Ok(None);
            }
        } else if block == 0x3b {
            // Trailer
            if found_image {
                return Ok(Some(false));
            }
            return Ok(None);
        } else {
            return Ok(None);
        }
        assert(p < cursor.pos <= d.len());
    }
}

/// A run of sub-blocks ends past its start and within the data.
pub proof fn lemma_skip_sub_blocks_bounds(d: Seq<u8>, p: int)
    ensures
        skip_sub_blocks(d, p) matches Ok(q) ==> p < q <= d.len(),
    decreases d.len() - p,
{
    match u8_at(d, p) {
        Some(size) => {
            if size != 0 {
                match seek_by(p + 1, size as int) {
                    Some(q) => if p < q <= d.len() {
                        lemma_skip_sub_blocks_bounds(d, q);
                    },
                    None => {},
                }
            }
        },
        None => {},
    }
}

/// The animation that the blocks show; a walk that fails leaves it unknown.
fn detect_animation(cursor: &mut ByteCursor) -> (r: Result<Option<Animation>, ReadError>)
    ensures
        final(cursor).data@ == old(cursor).data@,
        r == Ok::<Option<Animation>, ReadError>(gif_animation(old(cursor).data@, old(cursor).pos as int)),
        match gif_blocks(old(cursor).data@, old(cursor).pos as int, false, false) {
            Ok((_, end)) => final(cursor).pos == end,
            Err(_) => old(cursor).pos <= final(cursor).pos,
        },
{
    match detect_animation_inner(cursor) {
        Ok(animation) => Ok(
            match animation {
                Some(a) => Some(Animation::from(a)),
                None => None,
            },
        ),
        Err(_) => Ok(Some(Animation::Unknown)),
    }
}

/// Reads the GIF that `input` reads.
fn parse_gif(input: ByteCursor) -> (r: Result<Option<Size>, ReadError>)
    ensures
        size_view(outcome(r)) == spec_gif(input.data@),
{
    let mut cursor = input;
    // skip header
    cursor.seek_start(6);
    // Logical Screen Descriptor
    let width = cursor.read_u16_le()? as u64;
    let height = cursor.read_u16_le()? as u64;
    let flags = cursor.read_u8()?;
    // skip Background Color Index and Pixel Aspect Ratio
    cursor.seek_current(2)?;
    if let Some(size) = color_table_size(flags) {
        // skip Global Color Table
        cursor.seek_current(size)?;
    }
    let animation = detect_animation(&mut cursor)?;
    Ok(
        match animation {
            Some(animation) => Some(make_size(width, height, MIME_TYPE, animation)),
            None => None,
        },
    )
}

/// The size of the GIF image in `data` and whether it is animated, `Unknown`
/// when the data ends before that could be told.
pub fn get_size(data: &[u8]) -> (res: Option<Size>)
    ensures
        size_view(res) == spec_gif(data@),
{
    cursor_parser(data, parse_gif)
}

} // verus!
