//! Running a parser over a cursor at the start of some bytes.
use crate::cursor::{ByteCursor, ReadError};
use crate::Size;
use vstd::prelude::*;

verus! {

/// What a parser's outcome gives the caller: a read that failed counts as
/// nothing found.
pub open spec fn outcome(r: Result<Option<Size>, ReadError>) -> Option<Size> {
    match r {
        Ok(found) => found,
        Err(_) => None,
    }
}

/// Runs `parser` on a cursor at the start of `data`; a failed read gives
/// `None`.
pub fn cursor_parser<'a, F>(data: &'a [u8], parser: F) -> (res: Option<Size>)
    where
        F: Fn(ByteCursor<'a>) -> Result<Option<Size>, ReadError>,
    requires
        call_requires(parser, ((ByteCursor { data: data, pos: 0 }),)),
    ensures
        exists|r: Result<Option<Size>, ReadError>|
            #[trigger] call_ensures(parser, ((ByteCursor { data: data, pos: 0 }),), r)
                && res == outcome(r),
{
    let cursor = ByteCursor { data, pos: 0 };
    let r = parser(cursor);
    assert(call_ensures(parser, ((ByteCursor { data: data, pos: 0 }),), r));
    match r {
        Ok(found) => found,
        Err(_) => None,
    }
}

/// Whether `data` begins with `signature`.
pub open spec fn has_signature(data: Seq<u8>, signature: Seq<u8>) -> bool {
    signature.len() <= data.len() && data.subrange(0, signature.len() as int) == signature
}

/// Whether `data` begins with `signature`.
pub fn starts_with(data: &[u8], signature: &[u8]) -> (r: bool)
    ensures
        r == has_signature(data@, signature@),
{
    if signature.len() > data.len() {
        return false;
    }
    let mut i: usize = 0;
    while i < signature.len()
        invariant
            signature@.len() <= data@.len(),
            i <= signature@.len(),
            forall|j: int| 0 <= j < i ==> data@[j] == signature@[j],
        decreases signature@.len() - i,
    {
        if data[i] != signature[i] {
            assert(data@.subrange(0, signature@.len() as int)[i as int] != signature@[i as int]);
            return false;
        }
        i = i + 1;
    }
    assert(data@.subrange(0, signature@.len() as int) =~= signature@);
    true
}

/// Runs `parser` on a cursor at the start of `data` when `data` begins with
/// `signature`, and gives `None` otherwise.
pub fn format_parser<'a, F>(data: &'a [u8], signature: &[u8], parser: F) -> (res: Option<Size>)
    where
        F: Fn(ByteCursor<'a>) -> Result<Option<Size>, ReadError>,
    requires
        has_signature(data@, signature@) ==> call_requires(parser, ((ByteCursor { data: data, pos: 0 }),)),
    ensures
        !has_signature(data@, signature@) ==> res is None,
        has_signature(data@, signature@) ==> exists|r: Result<Option<Size>, ReadError>|
            #[trigger] call_ensures(parser, ((ByteCursor { data: data, pos: 0 }),), r)
                && res == outcome(r),
{
    if starts_with(data, signature) {
        cursor_parser(data, parser)
    } else {
        None
    }
}

} // verus!
