use vstd::prelude::*;

use crate::chunk::{frame, spec_frame, spec_text};
use crate::common::{parse_edid, EDID, TAG_EDID};
use crate::cursor::{spec_take, Cursor};
use crate::error::DecodeError;

verus! {

/// The tag `CNAM`, read as a little-endian word.
pub const TAG_CNAM: u32 = 0x4d41_4e43;

/// The colour of a keyword.
#[derive(Debug, Clone, Copy, PartialEq, Eq, Structural, Default)]
pub struct CNAM {
    pub r: u8,
    pub g: u8,
    pub b: u8,
    pub a: u8,
}

/// A keyword record's fields.
#[allow(non_snake_case)]
#[derive(Debug, PartialEq, Eq, Default)]
pub struct KYWD {
    pub editorID: EDID,
    pub color: CNAM,
}

/// Reading a colour chunk at `p`: the first four payload bytes, in the order
/// red, green, blue, alpha.
pub open spec fn spec_color(b: Seq<u8>, p: int) -> Result<(CNAM, int), DecodeError> {
    match spec_frame(b, p, TAG_CNAM) {
        Err(e) => Err(e),
        Ok(end) => match spec_take(b.take(end), p + 6, 4) {
            Err(e) => Err(e),
            Ok(_) => Ok((CNAM { r: b[p + 6], g: b[p + 7], b: b[p + 8], a: b[p + 9] }, end)),
        },
    }
}

/// Decodes a colour chunk.
pub fn parse_cnam<'a>(c: Cursor<'a>) -> (r: Result<(CNAM, Cursor<'a>), DecodeError>)
    requires
        c.wf(),
    ensures
        match (r, spec_color(c.bytes(), c.offset())) {
            (Ok((v, d)), Ok((w, q))) => v == w && d.is_at(c, q),
            (Err(e), Err(f)) => e == f,
            _ => false,
        },
{
    match frame(c, TAG_CNAM) {
        Err(e) => Err(e),
        Ok((w, d)) => match w.take(4) {
            Err(e) => Err(e),
            Ok(_) => {
                let p = w.position();
                let n = w.len();
                assert(p + 4 <= n);
                let color = CNAM {
                    r: w.byte_at(p),
                    g: w.byte_at(p + 1),
                    b: w.byte_at(p + 2),
                    a: w.byte_at(p + 3),
                };
                Ok((color, d))
            },
        },
    }
}

/// Reading a keyword record's fields at `p`: the editor identifier, then the
/// colour.
pub open spec fn spec_kywd(b: Seq<u8>, p: int) -> Result<(Seq<char>, CNAM, int), DecodeError> {
    match spec_text(b, p, TAG_EDID) {
        Err(e) => Err(e),
        Ok((id, q)) => match spec_color(b, q) {
            Err(e) => Err(e),
            Ok((color, end)) => Ok((id, color, end)),
        },
    }
}

/// Decodes a keyword record's fields. Both are mandatory.
pub fn parse_kywd<'a>(c: Cursor<'a>) -> (r: Result<(KYWD, Cursor<'a>), DecodeError>)
    requires
        c.wf(),
    ensures
        match (r, spec_kywd(c.bytes(), c.offset())) {
            (Ok((k, d)), Ok((id, color, q))) => k.editorID.id@ == id && k.color == color && d.is_at(c, q),
            (Err(e), Err(f)) => e == f,
            _ => false,
        },
{
    match parse_edid(c) {
        Err(e) => Err(e),
        Ok((editor_id, d)) => match parse_cnam(d) {
            Err(e) => Err(e),
            Ok((color, d2)) => Ok((KYWD { editorID: editor_id, color }, d2)),
        },
    }
}

} // verus!
