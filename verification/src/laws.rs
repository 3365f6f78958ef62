//! What holds of every input: the MIME types that come out, which formats
//! can leave the animation unknown, that more data after a found size does not
//! change it, and, for each format, the byte layout it is read by, stated over
//! the bytes themselves: which leading bytes pick the format, which JPEG
//! markers give the size and how other segments are skipped, how PNG chunks
//! and GIF blocks are stepped over, which BMP header lengths are read, and how
//! AVIF boxes nest.
use crate::avif::{lemma_parse_box_extend, parse_box};
use crate::cursor::lemma_reads_extend;
use crate::cursor::ReadError;
use crate::gif::{color_table_bytes, gif_blocks, lemma_gif_blocks_extend, lemma_skip_sub_blocks_bounds, skip_sub_blocks};
use crate::jpg::{lemma_jpg_markers_extend, lemma_jpg_markers_found};
use crate::png::{lemma_png_chunks_extend, lemma_png_chunks_found};
use crate::utils::has_signature;
use crate::{avif, bmp, format_of, found, gif, jpg, png, spec_get_size, Animation, Format};
use vstd::arithmetic::power2::pow2;
use vstd::prelude::*;

verus! {

/// Every size found has one of the five supported MIME types: `image/png`,
/// `image/jpeg`, `image/gif`, `image/avif` or `image/bmp`.
pub proof fn law_supported_mime_types(d: Seq<u8>)
    ensures
        spec_get_size(d) matches Some(s) ==> {
            ||| s.mime_type == png::MIME_TYPE@
            ||| s.mime_type == jpg::MIME_TYPE@
            ||| s.mime_type == gif::MIME_TYPE@
            ||| s.mime_type == avif::MIME_TYPE@
            ||| s.mime_type == bmp::MIME_TYPE@
        },
{
    lemma_png_chunks_found(d, 8, None, false);
    lemma_jpg_markers_found(d, 3);
}

/// Only a GIF can leave the animation unknown (when its blocks end before a
/// second image or the trailer); PNG and AVIF always tell, and JPEG and BMP
/// images are never animated.
pub proof fn law_animation_known_but_for_gif(d: Seq<u8>)
    ensures
        spec_get_size(d) matches Some(s) && s.is_animated == Animation::Unknown ==> format_of(d) == Some(Format::Gif),
        (format_of(d) == Some(Format::Jpeg) || format_of(d) == Some(Format::Bmp)) ==> (spec_get_size(d) matches Some(s)
            ==> s.is_animated == Animation::No),
{
    lemma_png_chunks_found(d, 8, None, false);
    lemma_jpg_markers_found(d, 3);
}

/// Fewer than eight bytes never give a size.
pub proof fn law_short_data_gives_nothing(d: Seq<u8>)
    requires
        d.len() < 8,
    ensures
        spec_get_size(d) is None,
{
}

/// The format is told by the first eight bytes alone.
proof fn lemma_format_extend(d: Seq<u8>, e: Seq<u8>)
    requires
        d.len() >= 8,
    ensures
        format_of(d + e) == format_of(d),
{
    assert((d + e).subrange(0, 8) =~= d.subrange(0, 8));
    assert((d + e).subrange(0, 6) =~= d.subrange(0, 6));
    assert((d + e).subrange(4, 8) =~= d.subrange(4, 8));
    assert((d + e)[0] == d[0] && (d + e)[1] == d[1] && (d + e)[2] == d[2]);
}

/// A signature that some bytes begin with is one that any longer bytes
/// beginning with them begin with.
proof fn lemma_signature_extend(d: Seq<u8>, e: Seq<u8>, sig: Seq<u8>)
    requires
        sig.len() <= d.len(),
    ensures
        has_signature(d + e, sig) == has_signature(d, sig),
{
    assert((d + e).subrange(0, sig.len() as int) =~= d.subrange(0, sig.len() as int));
}

/// A PNG walk that found a size finds it on longer data too.
proof fn lemma_png_extend(d: Seq<u8>, e: Seq<u8>)
    requires
        png::spec_png(d) is Some,
    ensures
        png::spec_png(d + e) == png::spec_png(d),
{
    lemma_png_chunks_extend(d, e, 8, None, false);
}

/// A JPEG walk that found a size finds it on longer data too.
proof fn lemma_jpg_extend(d: Seq<u8>, e: Seq<u8>)
    requires
        jpg::spec_jpg(d) is Some,
    ensures
        jpg::spec_jpg(d + e) == jpg::spec_jpg(d),
{
    lemma_signature_extend(d, e, jpg::signature());
    lemma_jpg_markers_extend(d, e, 3);
}

/// A GIF whose animation is known keeps its size and animation on longer data.
proof fn lemma_gif_extend(d: Seq<u8>, e: Seq<u8>)
    requires
        gif::spec_gif(d) matches Some(s) && s.is_animated != Animation::Unknown,
    ensures
        gif::spec_gif(d + e) == gif::spec_gif(d),
{
    lemma_reads_extend(d, e, 6);
    lemma_reads_extend(d, e, 8);
    lemma_reads_extend(d, e, 10);
    let flags = crate::cursor::u8_at(d, 10)->Some_0;
    let blocks = match color_table_bytes(flags) {
        Some(n) => 13 + n,
        None => 13,
    };
    assert(gif_blocks(d, blocks, false, false) is Ok);
    lemma_gif_blocks_extend(d, e, blocks, false, false);
}

/// An AVIF whose size was found keeps it on longer data.
#[verifier::spinoff_prover]
#[verifier::rlimit(40)]
proof fn lemma_avif_extend(d: Seq<u8>, e: Seq<u8>)
    requires
        avif::spec_avif(d) is Some,
    ensures
        avif::spec_avif(d + e) == avif::spec_avif(d),
{
    let ftyp = parse_box(d)->Some_0;
    lemma_parse_box_extend(d, e);
    assert(parse_box(d + e) == parse_box(d));
    let rest = d.skip(ftyp.size);
    assert((d + e).skip(ftyp.size) =~= rest + e);
    lemma_parse_box_extend(rest, e);
    assert(parse_box((d + e).skip(ftyp.size)) == parse_box(rest));
}

/// A BMP whose size was found keeps it on longer data.
proof fn lemma_bmp_extend(d: Seq<u8>, e: Seq<u8>)
    requires
        bmp::spec_bmp(d) is Some,
    ensures
        bmp::spec_bmp(d + e) == bmp::spec_bmp(d),
{
    lemma_signature_extend(d, e, bmp::signature());
    lemma_reads_extend(d, e, 14);
    lemma_reads_extend(d, e, 18);
    lemma_reads_extend(d, e, 20);
    lemma_reads_extend(d, e, 22);
    lemma_reads_extend(d, e, 25);
}

/// Once the leading bytes of an image give its size with a known animation,
/// more bytes after them change nothing: the first kilobyte or so of an image
/// suffices.
pub proof fn law_more_data_keeps_size(d: Seq<u8>, e: Seq<u8>)
    requires
        spec_get_size(d) matches Some(s) && s.is_animated != Animation::Unknown,
    ensures
        spec_get_size(d + e) == spec_get_size(d),
{
    lemma_format_extend(d, e);
    match format_of(d) {
        Some(Format::Png) => lemma_png_extend(d, e),
        Some(Format::Jpeg) => lemma_jpg_extend(d, e),
        Some(Format::Gif) => lemma_gif_extend(d, e),
        Some(Format::Avif) => lemma_avif_extend(d, e),
        Some(Format::Bmp) => lemma_bmp_extend(d, e),
        None => {},
    }
}

/// The big-endian value of the two bytes at `p`.
pub open spec fn word16(d: Seq<u8>, p: int) -> int {
    d[p] * 256 + d[p + 1]
}

/// The little-endian value of the two bytes at `p`.
pub open spec fn little16(d: Seq<u8>, p: int) -> int {
    d[p] + d[p + 1] * 256
}

/// The big-endian value of the four bytes at `p`.
pub open spec fn word32(d: Seq<u8>, p: int) -> int {
    d[p] * 16777216 + d[p + 1] * 65536 + d[p + 2] * 256 + d[p + 3]
}

/// The little-endian value of the four bytes at `p`.
pub open spec fn little32(d: Seq<u8>, p: int) -> int {
    d[p] + d[p + 1] * 256 + d[p + 2] * 65536 + d[p + 3] * 16777216
}

/// The format is told by the first eight bytes in this order, whatever
/// follows: the PNG signature `89 50 4E 47 0D 0A 1A 0A`; `FF D8 FF` (JPEG,
/// whatever the fourth byte); `GIF87a` or `GIF89a`; `ftyp` at bytes 4..8
/// (AVIF); `BM` (BMP); anything else gives nothing.
pub proof fn law_format_by_first_bytes(d: Seq<u8>)
    requires
        d.len() >= 8,
    ensures
        d[0] == 0x89 && d[1] == 0x50 && d[2] == 0x4e && d[3] == 0x47 && d[4] == 0x0d && d[5] == 0x0a
            && d[6] == 0x1a && d[7] == 0x0a ==> spec_get_size(d) == png::spec_png(d),
        d[0] == 0xff && d[1] == 0xd8 && d[2] == 0xff ==> spec_get_size(d) == jpg::spec_jpg(d),
        d[0] == 0x47 && d[1] == 0x49 && d[2] == 0x46 && d[3] == 0x38 && (d[4] == 0x37 || d[4] == 0x39)
            && d[5] == 0x61 ==> spec_get_size(d) == gif::spec_gif(d),
        d[0] != 0x89 && d[0] != 0xff && d[0] != 0x47 && d[4] == 0x66 && d[5] == 0x74 && d[6] == 0x79
            && d[7] == 0x70 ==> spec_get_size(d) == avif::spec_avif(d),
        d[0] == 0x42 && d[1] == 0x4d && !(d[4] == 0x66 && d[5] == 0x74 && d[6] == 0x79 && d[7] == 0x70)
            ==> spec_get_size(d) == bmp::spec_bmp(d),
        d[0] != 0x89 && d[0] != 0xff && d[0] != 0x47 && d[0] != 0x42 && !(d[4] == 0x66 && d[5] == 0x74
            && d[6] == 0x79 && d[7] == 0x70) ==> spec_get_size(d) is None,
{
    let png_sig = seq![0x89u8, 0x50u8, 0x4eu8, 0x47u8, 0x0du8, 0x0au8, 0x1au8, 0x0au8];
    if d[0] == 0x89 && d[1] == 0x50 && d[2] == 0x4e && d[3] == 0x47 && d[4] == 0x0d && d[5] == 0x0a
        && d[6] == 0x1a && d[7] == 0x0a {
        assert(d.subrange(0, 8) =~= png_sig);
    } else {
        assert(d.subrange(0, 8) != png_sig) by {
            if d.subrange(0, 8) == png_sig {
                assert(d.subrange(0, 8)[0] == d[0] && d.subrange(0, 8)[1] == d[1] && d.subrange(0, 8)[2] == d[2]
                    && d.subrange(0, 8)[3] == d[3] && d.subrange(0, 8)[4] == d[4] && d.subrange(0, 8)[5] == d[5]
                    && d.subrange(0, 8)[6] == d[6] && d.subrange(0, 8)[7] == d[7]);
            }
        }
    }
    let gif7 = seq![0x47u8, 0x49u8, 0x46u8, 0x38u8, 0x37u8, 0x61u8];
    let gif9 = seq![0x47u8, 0x49u8, 0x46u8, 0x38u8, 0x39u8, 0x61u8];
    let head = d.subrange(0, 6);
    if d[0] == 0x47 && d[1] == 0x49 && d[2] == 0x46 && d[3] == 0x38 && (d[4] == 0x37 || d[4] == 0x39) && d[5] == 0x61 {
        if d[4] == 0x37 {
            assert(head =~= gif7);
        } else {
            assert(head =~= gif9);
        }
    } else {
        assert(head != gif7 && head != gif9) by {
            if head == gif7 || head == gif9 {
                assert(head[0] == d[0] && head[1] == d[1] && head[2] == d[2] && head[3] == d[3] && head[4] == d[4]
                    && head[5] == d[5]);
            }
        }
    }
    let tag = d.subrange(4, 8);
    if d[4] == 0x66 && d[5] == 0x74 && d[6] == 0x79 && d[7] == 0x70 {
        assert(tag =~= avif::ftyp_tag());
    } else {
        assert(tag != avif::ftyp_tag()) by {
            if tag == avif::ftyp_tag() {
                assert(tag[0] == d[4] && tag[1] == d[5] && tag[2] == d[6] && tag[3] == d[7]);
            }
        }
    }
}

/// A JPEG is read only when it begins with `FF D8 FF`, and then from the
/// marker byte at position 3.
pub proof fn law_jpeg_start(d: Seq<u8>)
    ensures
        d.len() >= 3 && d[0] == 0xff && d[1] == 0xd8 && d[2] == 0xff ==> jpg::spec_jpg(d) == jpg::jpg_markers(d, 3),
        d.len() < 3 || d[0] != 0xff || d[1] != 0xd8 || d[2] != 0xff ==> jpg::spec_jpg(d) is None,
{
    if d.len() >= 3 {
        if d[0] == 0xff && d[1] == 0xd8 && d[2] == 0xff {
            assert(d.subrange(0, 3) =~= jpg::signature());
        } else {
            assert(d.subrange(0, 3) != jpg::signature()) by {
                if d.subrange(0, 3) == jpg::signature() {
                    assert(d.subrange(0, 3)[0] == d[0] && d.subrange(0, 3)[1] == d[1] && d.subrange(0, 3)[2] == d[2]);
                }
            }
        }
    }
}

/// A start-of-frame marker (`C0`..`CF` except `C4`, `C8`, `CC`) gives the
/// size: the height is the big-endian word three bytes after the marker, the
/// width the word after it; a JPEG is never animated.
pub proof fn law_jpeg_frame_gives_size(d: Seq<u8>, p: int)
    requires
        d.len() <= usize::MAX,
        0 <= p,
        p + 8 <= d.len(),
        0xc0 <= d[p] <= 0xcf,
        d[p] != 0xc4 && d[p] != 0xc8 && d[p] != 0xcc,
    ensures
        jpg::jpg_markers(d, p) == found(word16(d, p + 6), word16(d, p + 4), "image/jpeg", Animation::No),
{
}

/// Any other marker (such as `DB`, a quantization table, or `C4`, a Huffman
/// table) starts a segment skipped by its big-endian length, which counts
/// itself: when the byte after the segment is `FF`, the walk goes on from
/// there, and otherwise it gives nothing.
pub proof fn law_jpeg_other_segments_are_skipped(d: Seq<u8>, p: int)
    requires
        d.len() <= usize::MAX,
        0 <= p,
        p + 3 <= d.len(),
        !(0xc0 <= d[p] <= 0xcf && d[p] != 0xc4 && d[p] != 0xc8 && d[p] != 0xcc),
        p + 1 + word16(d, p + 1) < d.len(),
    ensures
        d[p + 1 + word16(d, p + 1)] == 0xff ==> jpg::jpg_markers(d, p) == jpg::jpg_markers(d, p + 2 + word16(d, p + 1)),
        d[p + 1 + word16(d, p + 1)] != 0xff ==> jpg::jpg_markers(d, p) is None,
{
}

/// A BMP is read only when it begins with `BM`.
pub proof fn law_bmp_needs_signature(d: Seq<u8>)
    requires
        d.len() < 2 || d[0] != 0x42 || d[1] != 0x4d,
    ensures
        bmp::spec_bmp(d) is None,
{
    if d.len() >= 2 {
        assert(d.subrange(0, 2) != bmp::signature()) by {
            if d.subrange(0, 2) == bmp::signature() {
                assert(d.subrange(0, 2)[0] == d[0] && d.subrange(0, 2)[1] == d[1]);
            }
        }
    }
}

/// The DIB header's little-endian length at byte 14 picks the layout: 12
/// (OS/2) has 16-bit width and height at 18 and 20; 40, 64, 108 and 124
/// (Windows) have 32-bit width and height at 18 and 22, where a top byte `FF`
/// (byte 25) marks a negative height whose magnitude is taken; any other
/// length gives nothing. A BMP is never animated.
pub proof fn law_bmp_header(d: Seq<u8>)
    requires
        d.len() >= 26,
        d[0] == 0x42 && d[1] == 0x4d,
    ensures
        little32(d, 14) == 12 ==> bmp::spec_bmp(d) == found(little16(d, 18), little16(d, 20), "image/bmp", Animation::No),
        little32(d, 14) == 40 || little32(d, 14) == 64 || little32(d, 14) == 108 || little32(d, 14) == 124
            ==> bmp::spec_bmp(d) == found(
            little32(d, 18),
            if d[25] == 0xff { 0x1_0000_0000 - little32(d, 22) } else { little32(d, 22) },
            "image/bmp",
            Animation::No,
        ),
        little32(d, 14) != 12 && little32(d, 14) != 40 && little32(d, 14) != 64 && little32(d, 14) != 108
            && little32(d, 14) != 124 ==> bmp::spec_bmp(d) is None,
{
    assert(d.subrange(0, 2) =~= bmp::signature());
}

/// The walk over the PNG chunks starts right after the 8-byte signature,
/// with no size and no animation seen.
pub proof fn law_png_start(d: Seq<u8>)
    ensures
        png::spec_png(d) == png::png_chunks(d, 8, None, false),
{
}

/// A chunk whose type is none of `IHDR`, `acTL` and `IDAT` (such as `tEXt`)
/// is skipped whole: its 4-byte length, 4-byte type, the number of data bytes
/// that the big-endian length gives, and the 4-byte checksum.
pub proof fn law_png_skips_other_chunks(d: Seq<u8>, p: int, size: Option<(int, int)>, animated: bool)
    requires
        d.len() <= usize::MAX,
        0 <= p,
        p + 12 + word32(d, p) <= d.len(),
        word32(d, p + 4) != 0x49484452,
        word32(d, p + 4) != 0x6163544c,
        word32(d, p + 4) != 0x49444154,
    ensures
        png::png_chunks(d, p, size, animated) == png::png_chunks(d, p + 12 + word32(d, p), size, animated),
{
}

/// An `IHDR` chunk must have length 13 and holds the big-endian width and
/// height; the walk ends there when an `acTL` chunk came before it, and
/// otherwise goes on after its 13 bytes and checksum.
pub proof fn law_png_ihdr(d: Seq<u8>, p: int, size: Option<(int, int)>, animated: bool)
    requires
        d.len() <= usize::MAX,
        0 <= p,
        p + 16 <= d.len(),
        word32(d, p + 4) == 0x49484452,
    ensures
        word32(d, p) != 13 ==> png::png_chunks(d, p, size, animated) is None,
        word32(d, p) == 13 && animated ==> png::png_chunks(d, p, size, animated) == found(
            word32(d, p + 8),
            word32(d, p + 12),
            "image/png",
            Animation::Yes,
        ),
        word32(d, p) == 13 && !animated && p + 25 <= d.len() ==> png::png_chunks(d, p, size, animated)
            == png::png_chunks(d, p + 25, Some((word32(d, p + 8), word32(d, p + 12))), false),
{
}

/// An `acTL` chunk marks an animation: the walk ends there when the size is
/// already known, and otherwise goes on after the chunk.
pub proof fn law_png_actl(d: Seq<u8>, p: int, size: Option<(int, int)>, animated: bool)
    requires
        d.len() <= usize::MAX,
        0 <= p,
        p + 8 <= d.len(),
        word32(d, p + 4) == 0x6163544c,
    ensures
        size matches Some((w, h)) ==> png::png_chunks(d, p, size, animated) == found(w, h, "image/png", Animation::Yes),
        size is None && p + 12 + word32(d, p) <= d.len() ==> png::png_chunks(d, p, size, animated)
            == png::png_chunks(d, p + 12 + word32(d, p), None, true),
{
}

/// The walk ends at the first `IDAT` chunk, with the size seen before it (if
/// any), animated when an `acTL` chunk came before it.
pub proof fn law_png_idat(d: Seq<u8>, p: int, size: Option<(int, int)>, animated: bool)
    requires
        0 <= p,
        p + 8 <= d.len(),
        word32(d, p + 4) == 0x49444154,
    ensures
        png::png_chunks(d, p, size, animated) == match size {
            Some((w, h)) => found(w, h, "image/png", if animated { Animation::Yes } else { Animation::No }),
            None => None,
        },
{
}

/// The bytes of the color table that a GIF flags byte announces: when its
/// top bit is set, 3 × 2^(N+1) with N its low three bits; else none.
pub open spec fn table_length(flags: u8) -> int {
    if flags >= 128 { 3 * pow2((flags % 8 + 1) as nat) as int } else { 0 }
}

/// A run of GIF data sub-blocks: a zero length byte ends it just after that
/// byte; any other length byte is followed by that many bytes and the run goes
/// on after them; a run that reaches the end of the data fails as a read past
/// the end.
pub proof fn law_gif_sub_blocks(d: Seq<u8>, p: int)
    requires
        d.len() <= usize::MAX,
        0 <= p,
    ensures
        p >= d.len() ==> skip_sub_blocks(d, p) == Err::<int, ReadError>(ReadError::UnexpectedEof),
        p < d.len() && d[p] == 0 ==> skip_sub_blocks(d, p) == Ok::<int, ReadError>(p + 1),
        p < d.len() && d[p] != 0 && p + 1 + d[p] <= d.len() ==> skip_sub_blocks(d, p) == skip_sub_blocks(
            d,
            p + 1 + d[p],
        ),
        p < d.len() && d[p] != 0 && d.len() < p + 1 + d[p] <= u64::MAX ==> skip_sub_blocks(d, p) == Err::<int, ReadError>(
            ReadError::UnexpectedEof,
        ),
{
}

/// The first image descriptor after a graphic control extension is skipped
/// whole: the separator, eight bytes of position and size, the flags, the
/// local color table that the flags announce, the LZW minimum code size and
/// the image data sub-blocks; the walk goes on after them with an image seen.
pub proof fn law_gif_image_is_skipped(d: Seq<u8>, p: int, t: int)
    requires
        d.len() <= usize::MAX,
        0 <= p,
        p + 10 <= d.len(),
        d[p] == 0x2c,
        skip_sub_blocks(d, p + 11 + table_length(d[p + 9])) == Ok::<int, ReadError>(t),
    ensures
        gif_blocks(d, p, false, true) == gif_blocks(d, t, true, true),
{
    crate::gif::lemma_color_table_bounds(d[p + 9] as int);
    lemma_skip_sub_blocks_bounds(d, p + 11 + table_length(d[p + 9]));
}

/// An image descriptor ends the walk when an image was already seen (the GIF
/// is animated) or when no graphic control extension came before it (it is
/// not).
pub proof fn law_gif_image_ends_walk(d: Seq<u8>, p: int, gce_found: bool)
    requires
        0 <= p < d.len(),
        d[p] == 0x2c,
    ensures
        gif_blocks(d, p, true, gce_found) == Ok::<(Option<bool>, int), ReadError>((Some(true), p + 1)),
        gif_blocks(d, p, false, false) == Ok::<(Option<bool>, int), ReadError>((Some(false), p + 1)),
{
}

/// An extension (`21`) with a known label is skipped whole: graphic control
/// (`F9`) after 5 more bytes, comment (`FE`) at once, plain text (`01`) after
/// 13, application (`FF`) after 12, then its data sub-blocks; a graphic
/// control extension is remembered. Any other label ends the walk with no
/// answer.
pub proof fn law_gif_extension(d: Seq<u8>, p: int, found_image: bool, gce_found: bool, t: int)
    requires
        d.len() <= usize::MAX,
        0 <= p,
        p + 2 <= d.len(),
        d[p] == 0x21,
    ensures
        d[p + 1] == 0xf9 && skip_sub_blocks(d, p + 7) == Ok::<int, ReadError>(t)
            ==> gif_blocks(d, p, found_image, gce_found) == gif_blocks(d, t, found_image, true),
        d[p + 1] == 0xfe && skip_sub_blocks(d, p + 2) == Ok::<int, ReadError>(t)
            ==> gif_blocks(d, p, found_image, gce_found) == gif_blocks(d, t, found_image, gce_found),
        d[p + 1] == 0x01 && skip_sub_blocks(d, p + 15) == Ok::<int, ReadError>(t)
            ==> gif_blocks(d, p, found_image, gce_found) == gif_blocks(d, t, found_image, gce_found),
        d[p + 1] == 0xff && skip_sub_blocks(d, p + 14) == Ok::<int, ReadError>(t)
            ==> gif_blocks(d, p, found_image, gce_found) == gif_blocks(d, t, found_image, gce_found),
        d[p + 1] != 0xf9 && d[p + 1] != 0xfe && d[p + 1] != 0x01 && d[p + 1] != 0xff
            ==> gif_blocks(d, p, found_image, gce_found) == Ok::<(Option<bool>, int), ReadError>((None, p + 2)),
{
    lemma_skip_sub_blocks_bounds(d, p + 7);
    lemma_skip_sub_blocks_bounds(d, p + 2);
    lemma_skip_sub_blocks_bounds(d, p + 15);
    lemma_skip_sub_blocks_bounds(d, p + 14);
}

/// The trailer (`3B`) ends the walk: a still image when one image was seen,
/// no answer otherwise; any block byte other than `2C`, `21` and `3B` ends it
/// with no answer; the end of the data fails the walk.
pub proof fn law_gif_other_blocks(d: Seq<u8>, p: int, found_image: bool, gce_found: bool)
    requires
        0 <= p,
    ensures
        p >= d.len() ==> gif_blocks(d, p, found_image, gce_found) == Err::<(Option<bool>, int), ReadError>(
            ReadError::UnexpectedEof,
        ),
        p < d.len() && d[p] == 0x3b ==> gif_blocks(d, p, found_image, gce_found) == Ok::<(Option<bool>, int), ReadError>(
            (if found_image { Some(false) } else { None }, p + 1),
        ),
        p < d.len() && d[p] != 0x3b && d[p] != 0x2c && d[p] != 0x21 ==> gif_blocks(d, p, found_image, gce_found)
            == Ok::<(Option<bool>, int), ReadError>((None, p + 1)),
{
}

/// A GIF's width and height are the little-endian words at bytes 6 and 8;
/// its blocks start after the 13-byte header and the global color table that
/// the flags at byte 10 announce. A walk that ends on an answer gives the
/// animation, one with no answer gives nothing, and one that fails leaves the
/// animation unknown.
pub proof fn law_gif_header(d: Seq<u8>)
    ensures
        d.len() < 11 ==> gif::spec_gif(d) is None,
        d.len() >= 11 ==> gif::spec_gif(d) == match gif_blocks(d, 13 + table_length(d[10]), false, false) {
            Ok((Some(animated), _)) => found(
                little16(d, 6),
                little16(d, 8),
                "image/gif",
                if animated { Animation::Yes } else { Animation::No },
            ),
            Ok((None, _)) => None,
            Err(_) => found(little16(d, 6), little16(d, 8), "image/gif", Animation::Unknown),
        },
{
}

/// Each step up in the low three bits of a GIF flags byte with a color table
/// doubles the table, which starts at 6 bytes (two colors of three bytes).
pub proof fn law_gif_color_table_doubles(flags: int)
    requires
        128 <= flags < 256,
    ensures
        color_table_bytes(flags) is Some,
        flags % 8 == 0 ==> color_table_bytes(flags) == Some(6int),
        flags % 8 < 7 ==> color_table_bytes(flags + 1)->Some_0 == 2 * color_table_bytes(flags)->Some_0,
        color_table_bytes(flags - 128) is None,
{
    vstd::arithmetic::power2::lemma2_to64();
    let k = flags % 8 + 1;
    if flags % 8 < 7 {
        assert((flags + 1) % 8 + 1 == k + 1);
        vstd::arithmetic::power2::lemma_pow2_adds(k as nat, 1);
    }
}

/// A box begins with its big-endian 32-bit size and its 4-byte type: a size
/// of at least 8 that fits gives the payload after the 8-byte header; a size
/// field of 1 means a 64-bit size of at least 16 follows the type, with the
/// payload after the 16-byte header; a size field of 0, 2..7, or a size past
/// the end of the data gives no box.
pub proof fn law_avif_box_header(s: Seq<u8>)
    requires
        s.len() >= 8,
    ensures
        word32(s, 0) >= 8 && word32(s, 0) <= s.len() ==> avif::parse_box(s) == Some(
            avif::BoxModel {
                payload: s.subrange(8, word32(s, 0)),
                size: word32(s, 0),
                box_type: s.subrange(4, 8),
            },
        ),
        word32(s, 0) >= 8 && word32(s, 0) > s.len() ==> avif::parse_box(s) is None,
        word32(s, 0) == 0 || (2 <= word32(s, 0) < 8) ==> avif::parse_box(s) is None,
        word32(s, 0) == 1 && s.len() >= 16 && 16 <= word32(s, 8) * 0x1_0000_0000 + word32(s, 12) <= s.len()
            ==> avif::parse_box(s) == Some(
            avif::BoxModel {
                payload: s.subrange(16, word32(s, 8) * 0x1_0000_0000 + word32(s, 12)),
                size: word32(s, 8) * 0x1_0000_0000 + word32(s, 12),
                box_type: s.subrange(4, 8),
            },
        ),
        word32(s, 0) == 1 && s.len() >= 16 && word32(s, 8) * 0x1_0000_0000 + word32(s, 12) < 16
            ==> avif::parse_box(s) is None,
{
}

/// A search for a box type walks the boxes laid end to end: the first box of
/// that type is found, a box of another type is stepped over by its size, and
/// the search ends with nothing where no box can be read.
pub proof fn law_avif_find_box(s: Seq<u8>, box_type: Seq<u8>)
    ensures
        avif::parse_box(s) is None ==> avif::find_box(s, box_type) is None,
        avif::parse_box(s) matches Some(b) ==> (b.box_type == box_type ==> avif::find_box(s, box_type) == Some(b)),
        avif::parse_box(s) matches Some(b) ==> (b.box_type != box_type ==> avif::find_box(s, box_type)
            == avif::find_box(s.skip(b.size), box_type)),
{
    if let Some(b) = avif::parse_box(s) {
        assert(8 <= b.size <= s.len());
    }
}

/// An AVIF is read from an `ftyp` box first and a `meta` box right after it.
/// The `ftyp` payload holds the major brand, a 4-byte minor version, then the
/// minor brands: major brand `avis` is animated, major brand `avif` is
/// animated when `avis` is among the minor brands, and any other major brand,
/// or a payload under 8 bytes, gives nothing. The width and height are the
/// big-endian words at 4 and 8 in the payload of the `ispe` box inside the
/// `ipco` box inside the `iprp` box that follows the 4-byte header of `meta`.
pub proof fn law_avif_layout(d: Seq<u8>, ftyp: avif::BoxModel, meta: avif::BoxModel, iprp: avif::BoxModel,
    ipco: avif::BoxModel, ispe: avif::BoxModel)
    requires
        avif::parse_box(d) == Some(ftyp),
        ftyp.box_type == seq![0x66u8, 0x74u8, 0x79u8, 0x70u8],
        avif::parse_box(d.skip(ftyp.size)) == Some(meta),
        meta.box_type == seq![0x6du8, 0x65u8, 0x74u8, 0x61u8],
        meta.payload.len() >= 4,
        avif::find_box(meta.payload.skip(4), seq![0x69u8, 0x70u8, 0x72u8, 0x70u8]) == Some(iprp),
        avif::find_box(iprp.payload, seq![0x69u8, 0x70u8, 0x63u8, 0x6fu8]) == Some(ipco),
        avif::find_box(ipco.payload, seq![0x69u8, 0x73u8, 0x70u8, 0x65u8]) == Some(ispe),
        ispe.payload.len() >= 12,
    ensures
        ftyp.payload.len() < 8 ==> avif::spec_avif(d) is None,
        ftyp.payload.len() >= 8 && ftyp.payload.subrange(0, 4) == seq![0x61u8, 0x76u8, 0x69u8, 0x73u8]
            ==> avif::spec_avif(d) == found(word32(ispe.payload, 4), word32(ispe.payload, 8), "image/avif", Animation::Yes),
        ftyp.payload.len() >= 8 && ftyp.payload.subrange(0, 4) == seq![0x61u8, 0x76u8, 0x69u8, 0x66u8]
            ==> avif::spec_avif(d) == found(
            word32(ispe.payload, 4),
            word32(ispe.payload, 8),
            "image/avif",
            if exists|i: int| 0 <= i < (ftyp.payload.len() - 8) / 4 && #[trigger] ftyp.payload.subrange(8 + 4 * i, 12 + 4 * i)
                == seq![0x61u8, 0x76u8, 0x69u8, 0x73u8] {
                Animation::Yes
            } else {
                Animation::No
            },
        ),
        ftyp.payload.len() >= 8 && ftyp.payload.subrange(0, 4) != seq![0x61u8, 0x76u8, 0x69u8, 0x73u8]
            && ftyp.payload.subrange(0, 4) != seq![0x61u8, 0x76u8, 0x69u8, 0x66u8] ==> avif::spec_avif(d) is None,
{
    if ftyp.payload.len() >= 8 && ftyp.payload.subrange(0, 4) == seq![0x61u8, 0x76u8, 0x69u8, 0x66u8] {
        let avis = seq![0x61u8, 0x76u8, 0x69u8, 0x73u8];
        if exists|i: int| 0 <= i < (ftyp.payload.len() - 8) / 4 && #[trigger] ftyp.payload.subrange(8 + 4 * i, 12 + 4 * i) == avis {
            let i = choose|i: int| 0 <= i < (ftyp.payload.len() - 8) / 4 && #[trigger] ftyp.payload.subrange(8 + 4 * i, 12 + 4 * i) == avis;
            assert(avif::minor_brand(ftyp.payload, i) == avis);
        } else {
            assert forall|i: int| 0 <= i < avif::minor_count(ftyp.payload) implies #[trigger] avif::minor_brand(ftyp.payload, i) != avis by {
                assert(ftyp.payload.subrange(8 + 4 * i, 12 + 4 * i) != avis);
            }
        }
    }
}

} // verus!
