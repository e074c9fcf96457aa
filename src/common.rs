use vstd::prelude::*;

use crate::chunk::{spec_text, text_field};
use crate::cursor::{spec_take, Cursor};
use crate::error::DecodeError;

verus! {

/// The tag `EDID`, read as a little-endian word.
pub const TAG_EDID: u32 = 0x4449_4445;

/// Who edited a record last, and when.
#[derive(Debug, Clone, Copy, PartialEq, Eq, Structural, Default)]
pub struct VersionControl {
    pub day: u8,
    pub month: u8,
    pub last_user: u8,
    pub curr_user: u8,
}

/// The editor identifier of a record.
#[derive(Debug, PartialEq, Eq, Default)]
pub struct EDID {
    pub id: String,
}

/// Reading a version stamp at `p`: four bytes, in field order.
pub open spec fn spec_version_control(b: Seq<u8>, p: int) -> Result<(VersionControl, int), DecodeError> {
    match spec_take(b, p, 4) {
        Err(e) => Err(e),
        Ok(q) => Ok((
            VersionControl { day: b[p], month: b[p + 1], last_user: b[p + 2], curr_user: b[p + 3] },
            q,
        )),
    }
}

/// Decodes a version stamp.
pub fn parse_version_control<'a>(c: Cursor<'a>) -> (r: Result<(VersionControl, Cursor<'a>), DecodeError>)
    requires
        c.wf(),
    ensures
        match (r, spec_version_control(c.bytes(), c.offset())) {
            (Ok((v, d)), Ok((w, q))) => v == w && d.is_at(c, q),
            (Err(e), Err(f)) => e == f,
            _ => false,
        },
{
    match c.take(4) {
        Err(e) => Err(e),
        Ok(d) => {
            let p = c.position();
            let n = c.len();
            assert(p + 4 <= n);
            let v = VersionControl {
                day: c.byte_at(p),
                month: c.byte_at(p + 1),
                last_user: c.byte_at(p + 2),
                curr_user: c.byte_at(p + 3),
            };
            Ok((v, d))
        },
    }
}

/// Decodes an `EDID` text chunk.
pub fn parse_edid<'a>(c: Cursor<'a>) -> (r: Result<(EDID, Cursor<'a>), DecodeError>)
    requires
        c.wf(),
    ensures
        match (r, spec_text(c.bytes(), c.offset(), TAG_EDID)) {
            (Ok((v, d)), Ok((t, q))) => v.id@ == t && d.is_at(c, q),
            (Err(e), Err(f)) => e == f,
            _ => false,
        },
{
    match text_field(c, TAG_EDID) {
        Err(e) => Err(e),
        Ok((id, d)) => Ok((EDID { id }, d)),
    }
}

} // verus!
