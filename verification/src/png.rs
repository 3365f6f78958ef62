//! PNG and APNG: the size comes from the `IHDR` chunk, and an `acTL` chunk
//! before the first `IDAT` chunk marks an animation.
use crate::cursor::{be32_at, lemma_reads_extend, seek_by, ByteCursor, ReadError};
use crate::utils::{cursor_parser, outcome};
use crate::{animation_of, found, make_size, size_view, Animation, Size, SizeModel};
use vstd::prelude::*;

verus! {

pub const MIME_TYPE: &'static str = "image/png";

/// The chunk type `IHDR`, read as a big-endian integer.
pub const IHDR: u32 = 0x49484452;

/// The chunk type `acTL`, read as a big-endian integer.
pub const ACTL: u32 = 0x6163544c;

/// The chunk type `IDAT`, read as a big-endian integer.
pub const IDAT: u32 = 0x49444154;

/// The size found once the walk ends, with the animation seen so far.
pub open spec fn png_result(size: Option<(int, int)>, animated: bool) -> Option<SizeModel> {
    match size {
        Some((w, h)) => found(w, h, MIME_TYPE, animation_of(animated)),
        None => None,
    }
}

/// The walk over the chunks from position `p`, with the size and the
/// animation found so far. Each chunk is a big-endian length, a type, the data
/// and a checksum; the walk ends at `IDAT`, or as soon as both `IHDR` and
/// `acTL` were seen, and fails on an `IHDR` whose length is not 13 or on a
/// read past the end.
pub open spec fn png_chunks(d: Seq<u8>, p: int, size: Option<(int, int)>, animated: bool) -> Option<SizeModel>
    decreases d.len() - p,
{
    match (be32_at(d, p), be32_at(d, p + 4)) {
        (Some(len), Some(kind)) => {
            if kind == IHDR {
                if len != 13 {
                    None
                } else {
                    match (be32_at(d, p + 8), be32_at(d, p + 12)) {
                        (Some(w), Some(h)) => {
                            if animated {
                                png_result(Some((w, h)), animated)
                            } else {
                                match seek_by(p + 16, len - 4) {
                                    Some(q) => if p < q <= d.len() {
                                        png_chunks(d, q, Some((w, h)), animated)
                                    } else {
                                        None
                                    },
                                    None => None,
                                }
                            }
                        },
                        _ => None,
                    }
                }
            } else if kind == ACTL {
                if size is Some {
                    png_result(size, true)
                } else {
                    match seek_by(p + 8, len + 4) {
                        Some(q) => if p < q <= d.len() {
                            png_chunks(d, q, size, true)
                        } else {
                            None
                        },
                        None => None,
                    }
                }
            } else if kind == IDAT {
                png_result(size, animated)
            } else {
                match seek_by(p + 8, len + 4) {
                    Some(q) => if p < q <= d.len() {
                        png_chunks(d, q, size, animated)
                    } else {
                        None
                    },
                    None => None,
                }
            }
        },
        _ => None,
    }
}

/// What a PNG gives: the walk over the chunks that follow the 8-byte
/// signature.
pub open spec fn spec_png(d: Seq<u8>) -> Option<SizeModel> {
    png_chunks(d, 8, None, false)
}

/// The walk gives the same size on any longer bytes that begin with the same
/// ones, once it found one.
pub proof fn lemma_png_chunks_extend(d: Seq<u8>, e: Seq<u8>, p: int, size: Option<(int, int)>, animated: bool)
    requires
        png_chunks(d, p, size, animated) is Some,
    ensures
        png_chunks(d + e, p, size, animated) == png_chunks(d, p, size, animated),
    decreases d.len() - p,
{
    lemma_reads_extend(d, e, p);
    lemma_reads_extend(d, e, p + 4);
    lemma_reads_extend(d, e, p + 8);
    lemma_reads_extend(d, e, p + 12);
    let len = be32_at(d, p)->Some_0;
    let kind = be32_at(d, p + 4)->Some_0;
    if kind == IHDR {
        if !animated {
            let w = be32_at(d, p + 8)->Some_0;
            let h = be32_at(d, p + 12)->Some_0;
            let q = seek_by(p + 16, len - 4)->Some_0;
            lemma_png_chunks_extend(d, e, q, Some((w, h)), animated);
        }
    } else if kind == ACTL {
        if size is None {
            let q = seek_by(p + 8, len + 4)->Some_0;
            lemma_png_chunks_extend(d, e, q, size, true);
        }
    } else if kind != IDAT {
        let q = seek_by(p + 8, len + 4)->Some_0;
        lemma_png_chunks_extend(d, e, q, size, animated);
    }
}

/// The walk only ever finds a PNG whose animation is known.
pub proof fn lemma_png_chunks_found(d: Seq<u8>, p: int, size: Option<(int, int)>, animated: bool)
    ensures
        png_chunks(d, p, size, animated) matches Some(s) ==> s.mime_type == MIME_TYPE@
            && s.is_animated != Animation::Unknown,
    decreases d.len() - p,
{
    if let (Some(len), Some(kind)) = (be32_at(d, p), be32_at(d, p + 4)) {
        if kind == IHDR {
            if let (Some(w), Some(h)) = (be32_at(d, p + 8), be32_at(d, p + 12)) {
                if let Some(q) = seek_by(p + 16, len - 4) {
                    if p < q <= d.len() {
                        lemma_png_chunks_found(d, q, Some((w, h)), animated);
                    }
                }
            }
        } else if kind == ACTL {
            if let Some(q) = seek_by(p + 8, len + 4) {
                if p < q <= d.len() {
                    lemma_png_chunks_found(d, q, size, true);
                }
            }
        } else if kind != IDAT {
            if let Some(q) = seek_by(p + 8, len + 4) {
                if p < q <= d.len() {
                    lemma_png_chunks_found(d, q, size, animated);
                }
            }
        }
    }
}

spec fn pair_view(size: Option<(u32, u32)>) -> Option<(int, int)> {
    match size {
        Some((w, h)) => Some((w as int, h as int)),
        None => None,
    }
}

/// Walks the chunks of the PNG that `cursor` reads.
fn parse_chunks(input: ByteCursor) -> (r: Result<Option<Size>, ReadError>)
    ensures
        size_view(outcome(r)) == spec_png(input.data@),
{
    let ghost d = input.data@;
    let mut cursor = input;
    cursor.seek_start(8);
    let mut size: Option<(u32, u32)> = None;
    let mut animated = false;
    loop
        invariant
            cursor.data@ == d,
            d == input.data@,
            png_chunks(d, cursor.pos as int, pair_view(size), animated) == spec_png(d),
        decreases (if cursor.pos <= d.len() { d.len() + 1 - cursor.pos } else { 0 }),
    {
        let ghost p = cursor.pos as int;
        let chunk_length = cursor.read_u32_be()?;
        let chunk_type = cursor.read_u32_be()?;
        if chunk_type == IHDR {
            if chunk_length != 13 {
                return Ok(None);
            }
            let width = cursor.read_u32_be()?;
            let height = cursor.read_u32_be()?;
            size = Some((width, height));
            if animated {
                return Ok(finish(size, animated));
            }
            cursor.seek_current(chunk_length as i64 - 4)?;
        } else if chunk_type == ACTL {
            animated = true;
            if size.is_some() {
                return Ok(finish(size, animated));
            }
            cursor.seek_current(chunk_length as i64 + 4)?;
        } else if chunk_type == IDAT {
            return Ok(finish(size, animated));
        } else {
            cursor.seek_current(chunk_length as i64 + 4)?;
        }
        assert(cursor.pos > p);
    }
}

/// The image once the walk ends.
fn finish(size: Option<(u32, u32)>, animated: bool) -> (res: Option<Size>)
    ensures
        size_view(res) == png_result(pair_view(size), animated),
{
    match size {
        Some((width, height)) => Some(make_size(width as u64, height as u64, MIME_TYPE, crate::Animation::from(animated))),
        None => None,
    }
}


/// The size of the PNG or APNG image in `data`, which is expected to begin
/// with the PNG signature (the signature itself is not checked here).
pub fn get_size(data: &[u8]) -> (res: Option<Size>)
    ensures
        size_view(res) == spec_png(data@),
{
    cursor_parser(data, parse_chunks)
}

} // verus!
