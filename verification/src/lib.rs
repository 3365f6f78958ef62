//! Determines whether some bytes are likely an image, and if so its width,
//! height, MIME type and whether it is animated, by reading only the few header
//! fields that each supported format (PNG/APNG, JPEG, GIF, AVIF/AVIS, BMP)
//! needs.
pub mod avif;
pub mod bmp;
pub mod cursor;
pub mod gif;
pub mod jpg;
pub mod laws;
pub mod png;
pub mod utils;

use crate::utils::{has_signature, starts_with};
use vstd::prelude::*;

verus! {

/// Whether an image is animated.
#[derive(Debug, Clone, Copy, PartialEq, Eq, Hash, Structural)]
pub enum Animation {
    Yes,
    No,
    Unknown,
}

/// `Yes` for `true`, `No` for `false`.
pub open spec fn animation_of(value: bool) -> Animation {
    if value { Animation::Yes } else { Animation::No }
}

impl From<bool> for Animation {
    fn from(value: bool) -> (a: Self) {
        if value {
            Animation::Yes
        } else {
            Animation::No
        }
    }
}

impl vstd::std_specs::convert::FromSpecImpl<bool> for Animation {
    open spec fn obeys_from_spec() -> bool {
        true
    }

    open spec fn from_spec(value: bool) -> Self {
        animation_of(value)
    }
}

impl Animation {
    /// The lower-case word for the value: `yes`, `no` or `unknown`.
    pub fn as_str(&self) -> (s: &'static str)
        ensures
            *self == Animation::Yes ==> s@ == "yes"@,
            *self == Animation::No ==> s@ == "no"@,
            *self == Animation::Unknown ==> s@ == "unknown"@,
    {
        match self {
            Animation::Yes => "yes",
            Animation::No => "no",
            Animation::Unknown => "unknown",
        }
    }
}

/// What was found of an image.
#[derive(Debug, PartialEq, Eq, Hash)]
pub struct Size {
    pub width: u64,
    pub height: u64,
    pub mime_type: String,
    pub is_animated: Animation,
}

/// The mathematical content of a [`Size`].
pub struct SizeModel {
    pub width: int,
    pub height: int,
    pub mime_type: Seq<char>,
    pub is_animated: Animation,
}

impl View for Size {
    type V = SizeModel;

    open spec fn view(&self) -> SizeModel {
        SizeModel {
            width: self.width as int,
            height: self.height as int,
            mime_type: self.mime_type@,
            is_animated: self.is_animated,
        }
    }
}

/// The content of an optional [`Size`].
pub open spec fn size_view(s: Option<Size>) -> Option<SizeModel> {
    match s {
        Some(s) => Some(s@),
        None => None,
    }
}

/// A size found with the given MIME type.
pub open spec fn found(width: int, height: int, mime_type: &str, is_animated: Animation) -> Option<SizeModel> {
    Some(SizeModel { width, height, mime_type: mime_type@, is_animated })
}

impl Size {
    /// A size with the given fields.
    pub fn new(width: u64, height: u64, mime_type: String, is_animated: Animation) -> (s: Self)
        ensures
            s.width == width,
            s.height == height,
            s.mime_type@ == mime_type@,
            s.is_animated == is_animated,
    {
        Size { width, height, mime_type, is_animated }
    }
}

/// A [`Size`] with the MIME type copied from a string literal.
fn make_size(width: u64, height: u64, mime_type: &str, is_animated: Animation) -> (s: Size)
    ensures
        s@ == found(width as int, height as int, mime_type, is_animated)->Some_0,
{
    Size::new(width, height, String::from_str(mime_type), is_animated)
}

/// The PNG signature.
pub const PNG_SIGNATURE: [u8; 8] = [0x89, 0x50, 0x4e, 0x47, 0x0d, 0x0a, 0x1a, 0x0a];

/// The GIF 87a header.
pub const GIF87A: [u8; 6] = [0x47, 0x49, 0x46, 0x38, 0x37, 0x61];

/// The GIF 89a header.
pub const GIF89A: [u8; 6] = [0x47, 0x49, 0x46, 0x38, 0x39, 0x61];

/// The PNG signature as a sequence.
pub open spec fn png_signature() -> Seq<u8> {
    seq![0x89u8, 0x50u8, 0x4eu8, 0x47u8, 0x0du8, 0x0au8, 0x1au8, 0x0au8]
}

/// Whether the data begins with a GIF 87a or GIF 89a header.
pub open spec fn is_gif_header(d: Seq<u8>) -> bool {
    has_signature(d, seq![0x47u8, 0x49u8, 0x46u8, 0x38u8, 0x37u8, 0x61u8])
        || has_signature(d, seq![0x47u8, 0x49u8, 0x46u8, 0x38u8, 0x39u8, 0x61u8])
}

/// The format that the first eight bytes point to, tried in this order:
/// PNG signature; JPEG start-of-image marker; GIF header; `ftyp` box type at
/// bytes 4..8 (AVIF); `BM` (BMP).
pub enum Format {
    Png,
    Jpeg,
    Gif,
    Avif,
    Bmp,
}

/// The format that the first eight bytes of `d` point to, if any.
pub open spec fn format_of(d: Seq<u8>) -> Option<Format> {
    if d.len() < 8 {
        None
    } else if d.subrange(0, 8) == png_signature() {
        Some(Format::Png)
    } else if d[0] == 0xff && d[1] == 0xd8 && d[2] == 0xff {
        Some(Format::Jpeg)
    } else if is_gif_header(d) {
        Some(Format::Gif)
    } else if d.subrange(4, 8) == avif::ftyp_tag() {
        Some(Format::Avif)
    } else if d[0] == 0x42 && d[1] == 0x4d {
        Some(Format::Bmp)
    } else {
        None
    }
}

/// What the data gives: what its format gives, or nothing when its first
/// eight bytes point to no supported format.
pub open spec fn spec_get_size(d: Seq<u8>) -> Option<SizeModel> {
    match format_of(d) {
        Some(Format::Png) => png::spec_png(d),
        Some(Format::Jpeg) => jpg::spec_jpg(d),
        Some(Format::Gif) => gif::spec_gif(d),
        Some(Format::Avif) => avif::spec_avif(d),
        Some(Format::Bmp) => bmp::spec_bmp(d),
        None => None,
    }
}

/// Whether `data` points to AVIF by its first eight bytes.
fn points_to_avif(data: &[u8]) -> (r: bool)
    requires
        data@.len() >= 8,
    ensures
        r == (data@.subrange(4, 8) == avif::ftyp_tag()),
{
    let r = data[4] == 0x66 && data[5] == 0x74 && data[6] == 0x79 && data[7] == 0x70;
    if r {
        assert(data@.subrange(4, 8) =~= avif::ftyp_tag());
    } else {
        assert(data@.subrange(4, 8) != avif::ftyp_tag()) by {
            if data@.subrange(4, 8) == avif::ftyp_tag() {
                assert(data@.subrange(4, 8)[0] == data@[4]);
                assert(data@.subrange(4, 8)[1] == data@[5]);
                assert(data@.subrange(4, 8)[2] == data@[6]);
                assert(data@.subrange(4, 8)[3] == data@[7]);
            }
        }
    }
    r
}

/// Given the data in the bytes provided, attempts to determine the image
/// format, size and whether it is an animated image or not, otherwise returns
/// `None`. The data provided does not need to be the entire image data, the
/// first kilobyte or so should suffice.
pub fn get_size(data: &[u8]) -> (res: Option<Size>)
    ensures
        size_view(res) == spec_get_size(data@),
{
    assert(PNG_SIGNATURE@ == png_signature());
    assert(GIF87A@ == seq![0x47u8, 0x49u8, 0x46u8, 0x38u8, 0x37u8, 0x61u8]);
    assert(GIF89A@ == seq![0x47u8, 0x49u8, 0x46u8, 0x38u8, 0x39u8, 0x61u8]);
    if data.len() < 8 {
        return None;
    }
    if starts_with(data, &PNG_SIGNATURE) {
        png::get_size(data)
    } else if data[0] == 0xff && data[1] == 0xd8 && data[2] == 0xff {
        jpg::get_size(data)
    } else if starts_with(data, &GIF87A) || starts_with(data, &GIF89A) {
        gif::get_size(data)
    } else if points_to_avif(data) {
        avif::get_size(data)
    } else if data[0] == 0x42 && data[1] == 0x4d {
        bmp::get_size(data)
    } else {
        None
    }
}

} // verus!
