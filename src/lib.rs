//! Decoding of the tagged records of game-data plugin files: the file header
//! and the keyword record, built on a framer for tagged, sized sub-records.
use vstd::prelude::*;

pub mod error;
pub mod cursor;
pub mod chunk;
pub mod common;
#[allow(non_snake_case)]
pub mod tes4;
#[allow(non_snake_case)]
pub mod kywd;

pub use crate::chunk::resolve_optional;
pub use crate::cursor::Cursor;
pub use crate::error::DecodeError;

use crate::chunk::{spec_text, spec_u32_array, spec_u32_field};
use crate::common::{parse_version_control, spec_version_control};
use crate::chunk::lemma_frame_truncated;
use crate::cursor::{le16, le32, le_u16, le_u32};
use crate::tes4::{
    flags_known, lemma_unknown_flag_refused, parse_cnam, parse_hedr, parse_header_flags, parse_incc, parse_intv, parse_mast,
    parse_onam, parse_snam, spec_hedr, spec_masters, TES4View, TAG_CNAM, TAG_HEDR, TAG_INCC, TAG_INTV,
    TAG_ONAM, TAG_SNAM, TAG_TES4, TES4,
};

verus! {

/// The value and position of an optional field read at `p`: absent, with the
/// position unchanged, where the read fails.
pub open spec fn spec_optional<V>(r: Result<(V, int), DecodeError>, p: int) -> (Option<V>, int) {
    match r {
        Ok((v, q)) => (Some(v), q),
        Err(_) => (None, p),
    }
}

/// Reading a file header at the start of `b`: the fixed 24-byte prefix, the
/// mandatory `HEDR` chunk, then each optional chunk in turn, in canonical
/// order. The position is where the next record starts.
pub open spec fn spec_header(b: Seq<u8>) -> Result<(TES4View, int), DecodeError> {
    if b.len() < 4 {
        Err(DecodeError::Incomplete { needed: 4, offset: 0 })
    } else if le32(b, 0) != TAG_TES4 {
        Err(DecodeError::TagMismatch { offset: 0 })
    } else if b.len() < 8 {
        Err(DecodeError::Incomplete { needed: 4, offset: 4 })
    } else if b.len() < 12 {
        Err(DecodeError::Incomplete { needed: 4, offset: 8 })
    } else if !flags_known(le32(b, 8) as u32) {
        Err(DecodeError::InvalidFlags { offset: 8 })
    } else if b.len() < 16 {
        Err(DecodeError::Incomplete { needed: 4, offset: 12 })
    } else if b.len() < 20 {
        Err(DecodeError::Incomplete { needed: 4, offset: 16 })
    } else if b.len() < 22 {
        Err(DecodeError::Incomplete { needed: 2, offset: 20 })
    } else if b.len() < 24 {
        Err(DecodeError::Incomplete { needed: 2, offset: 22 })
    } else {
        match spec_hedr(b, 24) {
            Err(e) => Err(e),
            Ok((hedr, p0)) => {
                let (cnam, p1) = spec_optional(spec_text(b, p0, TAG_CNAM), p0);
                let (snam, p2) = spec_optional(spec_text(b, p1, TAG_SNAM), p1);
                let (mast, p3) = spec_optional(spec_masters(b, p2), p2);
                let (onam, p4) = spec_optional(spec_u32_array(b, p3, TAG_ONAM), p3);
                let (intv, p5) = spec_optional(spec_u32_field(b, p4, TAG_INTV), p4);
                let (incc, p6) = spec_optional(spec_u32_field(b, p5, TAG_INCC), p5);
                Ok((
                    TES4View {
                        size: le32(b, 4) as u32,
                        flags: le32(b, 8) as u32,
                        vc: spec_version_control(b, 16)->Ok_0.0,
                        version: le16(b, 20) as u16,
                        unknown: le16(b, 22) as u16,
                        hedr,
                        cnam,
                        snam,
                        mast,
                        onam,
                        intv,
                        incc,
                    },
                    p6,
                ))
            },
        }
    }
}

/// Decodes the file header at the start of `input`, and returns the bytes
/// that follow it with the header. A missing optional chunk, or one that is
/// malformed, is reported absent.
pub fn parse_header(input: &[u8]) -> (r: Result<(&[u8], TES4), DecodeError>)
    ensures
        match (r, spec_header(input@)) {
            (Ok((rest, h)), Ok((v, q))) => h@ == v && rest@ == input@.subrange(q, input@.len() as int),
            (Err(e), Err(f)) => e == f,
            _ => false,
        },
{
    let c0 = Cursor::new(input);
    let c = match le_u32(c0) {
        Err(e) => return Err(e),
        Ok((t, c)) => {
            if t != TAG_TES4 {
                return Err(DecodeError::TagMismatch { offset: 0 });
            }
            c
        },
    };
    let (size, c) = match le_u32(c) {
        Err(e) => return Err(e),
        Ok(x) => x,
    };
    let (flags, c) = match parse_header_flags(c) {
        Err(e) => return Err(e),
        Ok(x) => x,
    };
    let c = match c.take(4) {
        Err(e) => return Err(e),
        Ok(x) => x,
    };
    let (vc, c) = match parse_version_control(c) {
        Err(e) => return Err(e),
        Ok(x) => x,
    };
    let (version, c) = match le_u16(c) {
        Err(e) => return Err(e),
        Ok(x) => x,
    };
    let (unknown, c) = match le_u16(c) {
        Err(e) => return Err(e),
        Ok(x) => x,
    };
    let (hedr, c) = match parse_hedr(c) {
        Err(e) => return Err(e),
        Ok(x) => x,
    };
    let (cnam, c) = resolve_optional(parse_cnam(c), c);
    let (snam, c) = resolve_optional(parse_snam(c), c);
    let (mast, c) = resolve_optional(parse_mast(c), c);
    let (onam, c) = resolve_optional(parse_onam(c), c);
    let (intv, c) = resolve_optional(parse_intv(c), c);
    let (incc, c) = resolve_optional(parse_incc(c), c);
    let h = TES4 { size, flags, vc, version, unknown, hedr, cnam, snam, mast, onam, intv, incc };
    Ok((c.rest(), h))
}

/// A header whose flag word has a bit outside bits 0, 7 and 9 set is refused
/// with `InvalidFlags`, whatever follows it.
pub proof fn lemma_header_unknown_flag(b: Seq<u8>, i: u32)
    requires
        b.len() >= 12,
        le32(b, 0) == TAG_TES4,
        i < 32,
        i != 0,
        i != 7,
        i != 9,
        (le32(b, 8) as u32 >> i) & 1 == 1,
    ensures
        spec_header(b) == Err::<(TES4View, int), DecodeError>(DecodeError::InvalidFlags { offset: 8 }),
{
    lemma_unknown_flag_refused(b, 8, i);
}

/// Cutting a header short anywhere before the end of its mandatory part makes
/// decoding fail with `Incomplete`.
pub proof fn lemma_header_truncated(b: Seq<u8>, k: int)
    requires
        spec_header(b) is Ok,
        0 <= k < spec_hedr(b, 24)->Ok_0.1,
    ensures
        spec_header(b.take(k)) is Err,
        spec_header(b.take(k))->Err_0 is Incomplete,
{
    let t = b.take(k);
    if k >= 4 {
        assert(le32(t, 0) == le32(b, 0));
    }
    if k >= 12 {
        assert(le32(t, 8) == le32(b, 8));
    }
    if k >= 24 {
        lemma_frame_truncated(b, 24, TAG_HEDR, k);
    }
}

} // verus!
