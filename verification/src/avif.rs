//! AVIF and AVIS (HEIF/ISO-BMFF): an `ftyp` box whose brands tell a still
//! image from an image sequence, then a `meta` box whose
//! `iprp`/`ipco`/`ispe` property holds the width and height.
use crate::cursor::{be32_at, lemma_reads_extend};
use crate::{animation_of, found, make_size, size_view, Size, SizeModel};
use vstd::prelude::*;

verus! {

pub const MIME_TYPE: &'static str = "image/avif";

pub const FTYP: [u8; 4] = [0x66, 0x74, 0x79, 0x70];

pub const META: [u8; 4] = [0x6d, 0x65, 0x74, 0x61];

pub const IPRP: [u8; 4] = [0x69, 0x70, 0x72, 0x70];

pub const IPCO: [u8; 4] = [0x69, 0x70, 0x63, 0x6f];

pub const ISPE: [u8; 4] = [0x69, 0x73, 0x70, 0x65];

pub const AVIF: [u8; 4] = [0x61, 0x76, 0x69, 0x66];

pub const AVIS: [u8; 4] = [0x61, 0x76, 0x69, 0x73];

/// The box type `ftyp`.
pub open spec fn ftyp_tag() -> Seq<u8> {
    seq![0x66u8, 0x74u8, 0x79u8, 0x70u8]
}

/// The box type `meta`.
pub open spec fn meta_tag() -> Seq<u8> {
    seq![0x6du8, 0x65u8, 0x74u8, 0x61u8]
}

/// The box type `iprp`.
pub open spec fn iprp_tag() -> Seq<u8> {
    seq![0x69u8, 0x70u8, 0x72u8, 0x70u8]
}

/// The box type `ipco`.
pub open spec fn ipco_tag() -> Seq<u8> {
    seq![0x69u8, 0x70u8, 0x63u8, 0x6fu8]
}

/// The box type `ispe`.
pub open spec fn ispe_tag() -> Seq<u8> {
    seq![0x69u8, 0x73u8, 0x70u8, 0x65u8]
}

/// The brand `avif`.
pub open spec fn avif_brand() -> Seq<u8> {
    seq![0x61u8, 0x76u8, 0x69u8, 0x66u8]
}

/// The brand `avis`.
pub open spec fn avis_brand() -> Seq<u8> {
    seq![0x61u8, 0x76u8, 0x69u8, 0x73u8]
}

/// The big-endian 64-bit value at position `p`, if the bytes are there.
pub open spec fn be64_at(d: Seq<u8>, p: int) -> Option<int> {
    match (be32_at(d, p), be32_at(d, p + 4)) {
        (Some(hi), Some(lo)) => Some(hi * 0x1_0000_0000 + lo),
        _ => None,
    }
}

/// A box: its payload (what follows the header), its whole size, and its
/// four-byte type.
pub struct BoxModel {
    pub payload: Seq<u8>,
    pub size: int,
    pub box_type: Seq<u8>,
}

/// The size of the box at the start of `s` and the length of its header: a
/// 32-bit size of at least 8, or, when that field is 1, a 64-bit size of at
/// least 16 after the type; a size field of 0 (to the end of the file) is not
/// accepted.
pub open spec fn box_extent(s: Seq<u8>) -> Option<(int, int)> {
    match be32_at(s, 0) {
        Some(hint) => {
            if hint == 0 {
                None
            } else if hint == 1 {
                match be64_at(s, 8) {
                    Some(size) => if size < 16 { None } else { Some((size, 16)) },
                    None => None,
                }
            } else if hint < 8 {
                None
            } else {
                Some((hint, 8))
            }
        },
        None => None,
    }
}

/// The box at the start of `s`, if its header is there and the box fits in
/// `s`.
pub open spec fn parse_box(s: Seq<u8>) -> Option<BoxModel> {
    if s.len() < 8 {
        None
    } else {
        match box_extent(s) {
            Some((size, header)) => if size <= s.len() {
                Some(BoxModel { payload: s.subrange(header, size), size, box_type: s.subrange(4, 8) })
            } else {
                None
            },
            None => None,
        }
    }
}

/// The first of the boxes laid end to end from the start of `s` that has the
/// given type; the search stops at the first place where no box can be read.
pub open spec fn find_box(s: Seq<u8>, box_type: Seq<u8>) -> Option<BoxModel>
    decreases s.len(),
{
    match parse_box(s) {
        Some(b) => {
            if b.box_type == box_type {
                Some(b)
            } else if 0 < b.size <= s.len() {
                find_box(s.skip(b.size), box_type)
            } else {
                None
            }
        },
        None => None,
    }
}

/// A box that can be read from some bytes is the same box on any longer
/// bytes that begin with them.
pub proof fn lemma_parse_box_extend(s: Seq<u8>, e: Seq<u8>)
    requires
        parse_box(s) is Some,
    ensures
        parse_box(s + e) == parse_box(s),
{
    lemma_reads_extend(s, e, 0);
    lemma_reads_extend(s, e, 8);
    lemma_reads_extend(s, e, 12);
    let (size, header) = box_extent(s)->Some_0;
    assert(box_extent(s + e) == box_extent(s));
    assert((s + e).subrange(4, 8) =~= s.subrange(4, 8));
    assert((s + e).subrange(header, size) =~= s.subrange(header, size));
}

/// The number of minor brands in an `ftyp` payload: the four-byte entries
/// after the major brand and the minor version.
pub open spec fn minor_count(payload: Seq<u8>) -> int {
    (payload.len() - 8) / 4
}

/// The `i`-th minor brand of an `ftyp` payload.
pub open spec fn minor_brand(payload: Seq<u8>, i: int) -> Seq<u8> {
    payload.subrange(8 + 4 * i, 12 + 4 * i)
}

/// Whether the `ftyp` payload lists `brand` among its minor brands.
pub open spec fn has_minor_brand(payload: Seq<u8>, brand: Seq<u8>) -> bool {
    exists|i: int| 0 <= i < minor_count(payload) && #[trigger] minor_brand(payload, i) == brand
}

/// Whether an `ftyp` payload marks an animation: major brand `avif` with
/// `avis` among the minor brands, or major brand `avis`; any other major
/// brand, or a payload too short for the major brand and the minor version,
/// is not accepted.
pub open spec fn ftyp_animation(payload: Seq<u8>) -> Option<bool> {
    let major = payload.subrange(0, 4);
    if payload.len() < 8 {
        None
    } else if major == avif_brand() {
        Some(has_minor_brand(payload, avis_brand()))
    } else if major == avis_brand() {
        Some(true)
    } else {
        None
    }
}

/// The width and height in the `ispe` property under the `meta` box.
pub open spec fn meta_dimensions(meta: BoxModel) -> Option<(int, int)> {
    if meta.payload.len() < 4 {
        None
    } else {
        match find_box(meta.payload.skip(4), iprp_tag()) {
            Some(iprp) => match find_box(iprp.payload, ipco_tag()) {
                Some(ipco) => match find_box(ipco.payload, ispe_tag()) {
                    Some(ispe) => match (be32_at(ispe.payload, 4), be32_at(ispe.payload, 8)) {
                        (Some(w), Some(h)) => Some((w, h)),
                        _ => None,
                    },
                    None => None,
                },
                None => None,
            },
            None => None,
        }
    }
}

/// What an AVIF gives: the first box must be an `ftyp` box with an accepted
/// major brand and the second a `meta` box, whose `iprp` box (after the
/// four-byte version and flags) holds an `ipco` box that holds the `ispe`
/// property.
pub open spec fn spec_avif(d: Seq<u8>) -> Option<SizeModel> {
    match parse_box(d) {
        Some(ftyp) => {
            if ftyp.box_type != ftyp_tag() {
                None
            } else {
                match ftyp_animation(ftyp.payload) {
                    Some(animated) => match parse_box(d.skip(ftyp.size)) {
                        Some(meta) => {
                            if meta.box_type != meta_tag() {
                                None
                            } else {
                                match meta_dimensions(meta) {
                                    Some((w, h)) => found(w, h, MIME_TYPE, animation_of(animated)),
                                    None => None,
                                }
                            }
                        },
                        None => None,
                    },
                    None => None,
                }
            }
        },
        None => None,
    }
}

/// Whether two box types are the same.
fn same_type(a: &[u8; 4], b: &[u8; 4]) -> (r: bool)
    ensures
        r == (a@ == b@),
{
    let r = a[0] == b[0] && a[1] == b[1] && a[2] == b[2] && a[3] == b[3];
    if r {
        assert(a@ =~= b@);
    } else {
        assert(a@ != b@) by {
            if a@ == b@ {
                assert(a@[0] == b@[0] && a@[1] == b@[1] && a@[2] == b@[2] && a@[3] == b@[3]);
            }
        }
    }
    r
}

/// The big-endian 32-bit value at `start`, if four bytes are there.
pub fn get_u32(data: &[u8], start: usize) -> (r: Option<u32>)
    requires
        start <= usize::MAX - 4,
    ensures
        match be32_at(data@, start as int) {
            Some(v) => r == Some(v as u32),
            None => r is None,
        },
{
    if start + 4 > data.len() {
        return None;
    }
    Some((data[start] as u32) * 16777216 + (data[start + 1] as u32) * 65536 + (data[start + 2] as u32) * 256
        + (data[start + 3] as u32))
}

/// The big-endian 64-bit value at `start`, if eight bytes are there.
fn get_u64(data: &[u8], start: usize) -> (r: Option<u64>)
    requires
        start <= usize::MAX - 8,
    ensures
        match be64_at(data@, start as int) {
            Some(v) => r == Some(v as u64),
            None => r is None,
        },
{
    if start + 8 > data.len() {
        return None;
    }
    let hi = get_u32(data, start).unwrap();
    let lo = get_u32(data, start + 4).unwrap();
    Some((hi as u64) * 0x1_0000_0000 + (lo as u64))
}

/// A box of an ISO base media file: its payload, its whole size and its
/// type.
pub struct BMFFBox<'a> {
    pub data: &'a [u8],
    pub size: usize,
    pub box_type: [u8; 4],
}

impl<'a> View for BMFFBox<'a> {
    type V = BoxModel;

    open spec fn view(&self) -> BoxModel {
        BoxModel { payload: self.data@, size: self.size as int, box_type: self.box_type@ }
    }
}

/// The content of an optional box.
pub open spec fn box_view(b: Option<BMFFBox>) -> Option<BoxModel> {
    match b {
        Some(b) => Some(b@),
        None => None,
    }
}

impl<'a> BMFFBox<'a> {
    /// The box at the start of `data`.
    pub fn from_data(data: &'a [u8]) -> (r: Option<Self>)
        ensures
            box_view(r) == parse_box(data@),
    {
        let size_hint = get_u32(data, 0)?;
        if data.len() < 8 {
            return None;
        }
        let box_type = [data[4], data[5], data[6], data[7]];
        assert(box_type@ =~= data@.subrange(4, 8));
        let size: u64;
        let offset: usize;
        if size_hint == 0 {
            return None;
        } else if size_hint == 1 {
            let big = get_u64(data, 8)?;
            if big < 16 {
                return None;
            }
            size = big;
            offset = 16;
        } else {
            if size_hint < 8 {
                return None;
            }
            size = size_hint as u64;
            offset = 8;
        }
        if size > data.len() as u64 {
            return None;
        }
        let size = size as usize;
        Some(BMFFBox { box_type, size, data: &data[offset..size] })
    }

    /// The first box of the given type among the boxes laid end to end in
    /// the payload from `skipping` on.
    pub fn find_inner_box_after(&self, box_type: &[u8; 4], skipping: usize) -> (r: Option<BMFFBox<'a>>)
        ensures
            box_view(r) == if skipping <= self.data@.len() {
                find_box(self.data@.skip(skipping as int), box_type@)
            } else {
                None
            },
    {
        if skipping > self.data.len() {
            return None;
        }
        let mut itr = BMFFBoxIter::new(&self.data[skipping..self.data.len()]);
        let ghost s = self.data@.skip(skipping as int);
        assert(self.data@.subrange(skipping as int, self.data@.len() as int) =~= s);
        loop
            invariant
                skipping <= self.data@.len(),
                s == self.data@.skip(skipping as int),
                find_box(itr.rest(), box_type@) == find_box(s, box_type@),
            decreases itr.rest().len(),
        {
            match itr.next() {
                None => return None,
                Some(b) => {
                    if same_type(&b.box_type, box_type) {
                        return Some(b);
                    }
                },
            }
        }
    }

    /// The first box of the given type among the boxes laid end to end in
    /// the payload.
    pub fn find_inner_box(&self, box_type: &[u8; 4]) -> (r: Option<BMFFBox<'a>>)
        ensures
            box_view(r) == find_box(self.data@, box_type@),
    {
        assert(self.data@.skip(0) =~= self.data@);
        self.find_inner_box_after(box_type, 0)
    }
}

/// Boxes laid end to end in some bytes, read from the front.
pub struct BMFFBoxIter<'a> {
    data: &'a [u8],
    pos: usize,
}

impl<'a> BMFFBoxIter<'a> {
    #[verifier::type_invariant]
    spec fn wf(self) -> bool {
        self.pos <= self.data@.len()
    }

    /// The bytes the boxes are read from.
    pub closed spec fn bytes(self) -> Seq<u8> {
        self.data@
    }

    /// Where the next box starts in [`Self::bytes`].
    pub closed spec fn position(self) -> int {
        self.pos as int
    }

    /// The bytes not read yet.
    pub open spec fn rest(self) -> Seq<u8> {
        self.bytes().skip(self.position())
    }

    pub fn new(data: &'a [u8]) -> (it: Self)
        ensures
            it.bytes() == data@,
            it.position() == 0,
            it.rest() == data@,
    {
        let it = BMFFBoxIter { data, pos: 0 };
        assert(data@.skip(0) =~= data@);
        it
    }

    /// The next box, if one can be read; the position moves past it.
    pub fn next(&mut self) -> (r: Option<BMFFBox<'a>>)
        ensures
            final(self).bytes() == old(self).bytes(),
            0 <= final(self).position() <= final(self).bytes().len(),
            match parse_box(old(self).rest()) {
                Some(b) => box_view(r) == Some(b) && final(self).position() == old(self).position() + b.size
                    && final(self).rest() == old(self).rest().skip(b.size),
                None => r is None && final(self).position() == old(self).position(),
            },
    {
        proof {
            use_type_invariant(&*self);
        }
        let data = &self.data[self.pos..self.data.len()];
        assert(data@ =~= self.rest());
        let bmffbox = BMFFBox::from_data(data)?;
        let ghost old_rest = self.rest();
        self.pos = self.pos + bmffbox.size;
        assert(self.rest() =~= old_rest.skip(bmffbox.size as int));
        proof {
            use_type_invariant(&*self);
        }
        Some(bmffbox)
    }

    /// The next box when it has the given type. The position moves past the
    /// next box whatever its type.
    pub fn next_typed(&mut self, tag: &[u8; 4]) -> (r: Option<BMFFBox<'a>>)
        ensures
            final(self).bytes() == old(self).bytes(),
            0 <= final(self).position() <= final(self).bytes().len(),
            match parse_box(old(self).rest()) {
                Some(b) => box_view(r) == (if b.box_type == tag@ { Some(b) } else { None })
                    && final(self).position() == old(self).position() + b.size
                    && final(self).rest() == old(self).rest().skip(b.size),
                None => r is None && final(self).position() == old(self).position(),
            },
    {
        match self.next() {
            Some(bmffbox) => {
                if same_type(&bmffbox.box_type, tag) {
                    Some(bmffbox)
                } else {
                    None
                }
            },
            None => None,
        }
    }
}

/// The brands of an `ftyp` box.
pub struct Ftyp {
    pub major_brand: [u8; 4],
    pub minor_brands: Vec<[u8; 4]>,
}

impl Ftyp {
    /// Reads the brands of an `ftyp` box, or gives `None` when its payload is
    /// too short to hold the major brand and the minor version.
    pub fn maybe_from(bmff: BMFFBox) -> (r: Option<Self>)
        ensures
            bmff.data@.len() < 8 ==> r is None,
            bmff.data@.len() >= 8 ==> (r matches Some(f) && {
                &&& f.major_brand@ == bmff.data@.subrange(0, 4)
                &&& f.minor_brands@.len() == minor_count(bmff.data@)
                &&& forall|i: int| 0 <= i < minor_count(bmff.data@)
                    ==> #[trigger] f.minor_brands@[i]@ == minor_brand(bmff.data@, i)
            }),
    {
        let data = bmff.data;
        let data_len = data.len();
        if data_len < 8 {
            return None;
        }
        let num_minors = (data_len - 8) / 4;
        assert(num_minors * 4 + 8 <= data@.len()) by (nonlinear_arith)
            requires
                num_minors == (data@.len() - 8) / 4,
                data@.len() >= 8,
        ;
        let mut minors: Vec<[u8; 4]> = Vec::with_capacity(num_minors);
        for index in 0..num_minors
            invariant
                num_minors == minor_count(data@),
                num_minors * 4 + 8 <= data@.len(),
                data_len == data@.len(),
                minors@.len() == index,
                forall|i: int| 0 <= i < index ==> #[trigger] minors@[i]@ == minor_brand(data@, i),
        {
            assert(index * 4 + 12 <= data@.len()) by (nonlinear_arith)
                requires
                    index < num_minors,
                    num_minors * 4 + 8 <= data@.len(),
            ;
            let start = 8 + (index * 4);
            let brand = [data[start], data[start + 1], data[start + 2], data[start + 3]];
            assert(brand@ =~= minor_brand(data@, index as int));
            minors.push(brand);
        }
        let major_brand = [data[0], data[1], data[2], data[3]];
        assert(major_brand@ =~= data@.subrange(0, 4));
        Some(Ftyp { major_brand, minor_brands: minors })
    }
}

/// Whether the `ftyp` box lists `brand` among its minor brands.
fn contains_brand(ftyp: &Ftyp, brand: &[u8; 4]) -> (r: bool)
    ensures
        r == exists|i: int| 0 <= i < ftyp.minor_brands@.len() && #[trigger] ftyp.minor_brands@[i]@ == brand@,
{
    let mut i: usize = 0;
    while i < ftyp.minor_brands.len()
        invariant
            i <= ftyp.minor_brands@.len(),
            forall|j: int| 0 <= j < i ==> #[trigger] ftyp.minor_brands@[j]@ != brand@,
        decreases ftyp.minor_brands@.len() - i,
    {
        if same_type(&ftyp.minor_brands[i], brand) {
            return true;
        }
        i = i + 1;
    }
    false
}

/// The size of the AVIF or AVIS image in `data`.
pub fn get_size(data: &[u8]) -> (res: Option<Size>)
    ensures
        size_view(res) == spec_avif(data@),
{
    assert(FTYP@ == ftyp_tag() && META@ == meta_tag() && IPRP@ == iprp_tag() && IPCO@ == ipco_tag()
        && ISPE@ == ispe_tag() && AVIF@ == avif_brand() && AVIS@ == avis_brand());
    let mut itr = BMFFBoxIter::new(data);
    let ftyp_box = itr.next_typed(&FTYP)?;
    let ghost payload = ftyp_box.data@;
    let ftyp = Ftyp::maybe_from(ftyp_box)?;
    let animated = if same_type(&ftyp.major_brand, &AVIF) {
        let r = contains_brand(&ftyp, &AVIS);
        proof {
            if r {
                let i = choose|i: int| 0 <= i < ftyp.minor_brands@.len() && #[trigger] ftyp.minor_brands@[i]@ == AVIS@;
                assert(minor_brand(payload, i) == avis_brand());
            } else {
                assert forall|i: int| 0 <= i < minor_count(payload) implies #[trigger] minor_brand(payload, i) != avis_brand() by {
                    assert(ftyp.minor_brands@[i]@ == minor_brand(payload, i));
                }
            }
        }
        r
    } else if same_type(&ftyp.major_brand, &AVIS) {
        true
    } else {
        return None;
    };
    let meta = itr.next_typed(&META)?;
    let iprp = meta.find_inner_box_after(&IPRP, 4)?;
    let ipco = iprp.find_inner_box(&IPCO)?;
    let ispe = ipco.find_inner_box(&ISPE)?;
    let width = get_u32(ispe.data, 4)?;
    let height = get_u32(ispe.data, 8)?;
    Some(make_size(width as u64, height as u64, MIME_TYPE, crate::Animation::from(animated)))
}


} // verus!
