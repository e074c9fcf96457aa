use vstd::prelude::*;

use crate::chunk::{
    frame, spec_frame, spec_text, spec_u32_array, spec_u32_field, text_field, u32_array, u32_field,
};
use crate::cursor::{as_signed32, le32, le_i32, le_u32, le_u64, spec_uint, Cursor};
use crate::error::DecodeError;

pub use crate::common::VersionControl;

verus! {

/// The tag `TES4`, read as a little-endian word.
pub const TAG_TES4: u32 = 0x3453_4554;

/// The tag `HEDR`, read as a little-endian word.
pub const TAG_HEDR: u32 = 0x5244_4548;

/// The tag `CNAM`, read as a little-endian word.
pub const TAG_CNAM: u32 = 0x4d41_4e43;

/// The tag `SNAM`, read as a little-endian word.
pub const TAG_SNAM: u32 = 0x4d41_4e53;

/// The tag `MAST`, read as a little-endian word.
pub const TAG_MAST: u32 = 0x5453_414d;

/// The tag `DATA`, read as a little-endian word.
pub const TAG_DATA: u32 = 0x4154_4144;

/// The tag `ONAM`, read as a little-endian word.
pub const TAG_ONAM: u32 = 0x4d41_4e4f;

/// The tag `INTV`, read as a little-endian word.
pub const TAG_INTV: u32 = 0x5654_4e49;

/// The tag `INCC`, read as a little-endian word.
pub const TAG_INCC: u32 = 0x4343_4e49;

/// Bit 0: the file is a master file.
pub const FLAG_MASTER: u32 = 0x0000_0001;

/// Bit 7: strings are kept in separate localised tables.
pub const FLAG_LOCALIZED: u32 = 0x0000_0080;

/// Bit 9: the file is a light plugin.
pub const FLAG_LIGHT: u32 = 0x0000_0200;

/// The bits that a header's flag word may have set.
pub const FLAGS_KNOWN: u32 = 0x0000_0281;

/// `v` has no bit set outside the recognised ones.
pub open spec fn flags_known(v: u32) -> bool {
    v & !FLAGS_KNOWN == 0
}

/// The flag word of a file header, with only recognised bits set.
#[derive(Debug, Clone, Copy, PartialEq, Eq, Structural, Default)]
pub struct TES4Flags {
    bits: u32,
}

impl View for TES4Flags {
    type V = u32;

    closed spec fn view(&self) -> u32 {
        self.bits
    }
}

impl TES4Flags {
    /// The flags of a raw word, or `None` where it has a bit outside the
    /// recognised ones.
    pub fn from_bits(v: u32) -> (r: Option<TES4Flags>)
        ensures
            r is Some <==> flags_known(v),
            r matches Some(f) ==> f@ == v,
    {
        if v & !FLAGS_KNOWN == 0 {
            Some(TES4Flags { bits: v })
        } else {
            None
        }
    }

    /// The raw word.
    pub fn bits(&self) -> (r: u32)
        ensures
            r == self@,
    {
        self.bits
    }

    /// Whether every bit of `mask` is set.
    pub fn contains(&self, mask: u32) -> (r: bool)
        ensures
            r == (self@ & mask == mask),
    {
        self.bits & mask == mask
    }

    pub fn is_master(&self) -> (r: bool)
        ensures
            r == (self@ & FLAG_MASTER == FLAG_MASTER),
    {
        self.contains(FLAG_MASTER)
    }

    pub fn is_localized(&self) -> (r: bool)
        ensures
            r == (self@ & FLAG_LOCALIZED == FLAG_LOCALIZED),
    {
        self.contains(FLAG_LOCALIZED)
    }

    pub fn is_light(&self) -> (r: bool)
        ensures
            r == (self@ & FLAG_LIGHT == FLAG_LIGHT),
    {
        self.contains(FLAG_LIGHT)
    }
}

/// Reading a flag word at `p`: the word and the position after it, or
/// `InvalidFlags` where it has an unrecognised bit.
pub open spec fn spec_header_flags(b: Seq<u8>, p: int) -> Result<(u32, int), DecodeError> {
    match spec_uint(b, p, 4) {
        Err(e) => Err(e),
        Ok((v, q)) => if flags_known(v as u32) {
            Ok((v as u32, q))
        } else {
            Err(DecodeError::InvalidFlags { offset: p as usize })
        },
    }
}

/// Decodes a header's flag word.
pub fn parse_header_flags<'a>(c: Cursor<'a>) -> (r: Result<(TES4Flags, Cursor<'a>), DecodeError>)
    requires
        c.wf(),
    ensures
        match (r, spec_header_flags(c.bytes(), c.offset())) {
            (Ok((f, d)), Ok((v, q))) => f@ == v && d.is_at(c, q),
            (Err(e), Err(g)) => e == g,
            _ => false,
        },
{
    match le_u32(c) {
        Err(e) => Err(e),
        Ok((v, d)) => match TES4Flags::from_bits(v) {
            Some(f) => Ok((f, d)),
            None => Err(DecodeError::InvalidFlags { offset: c.position() }),
        },
    }
}

/// A flag word with any bit outside bits 0, 7 and 9 set is refused.
pub proof fn lemma_unknown_flag_refused(b: Seq<u8>, p: int, i: u32)
    requires
        0 <= p,
        p + 4 <= b.len(),
        i < 32,
        i != 0,
        i != 7,
        i != 9,
        (le32(b, p) as u32 >> i) & 1 == 1,
    ensures
        spec_header_flags(b, p) == Err::<(u32, int), DecodeError>(DecodeError::InvalidFlags { offset: p as usize }),
{
    let v = le32(b, p) as u32;
    assert(v & !0x0000_0281u32 != 0) by (bit_vector)
        requires
            i < 32,
            i != 0,
            i != 7,
            i != 9,
            (v >> i) & 1 == 1,
    ;
}

/// File statistics. `version_bits` holds the IEEE-754 bits of the format
/// version number.
#[derive(Debug, Clone, Copy, PartialEq, Eq, Structural, Default)]
pub struct HEDR {
    pub version_bits: u32,
    pub num_records: i32,
    pub next_obj_id: u32,
}

/// Reading the `HEDR` chunk at `p`: three 32-bit fields from its payload.
pub open spec fn spec_hedr(b: Seq<u8>, p: int) -> Result<(HEDR, int), DecodeError> {
    match spec_frame(b, p, TAG_HEDR) {
        Err(e) => Err(e),
        Ok(end) => {
            let w = b.take(end);
            match spec_uint(w, p + 6, 4) {
                Err(e) => Err(e),
                Ok((ver, q1)) => match spec_uint(w, q1, 4) {
                    Err(e) => Err(e),
                    Ok((n, q2)) => match spec_uint(w, q2, 4) {
                        Err(e) => Err(e),
                        Ok((id, _)) => Ok((
                            HEDR {
                                version_bits: ver as u32,
                                num_records: as_signed32(n) as i32,
                                next_obj_id: id as u32,
                            },
                            end,
                        )),
                    },
                },
            }
        },
    }
}

/// Decodes the `HEDR` chunk.
pub fn parse_hedr<'a>(c: Cursor<'a>) -> (r: Result<(HEDR, Cursor<'a>), DecodeError>)
    requires
        c.wf(),
    ensures
        match (r, spec_hedr(c.bytes(), c.offset())) {
            (Ok((h, d)), Ok((g, q))) => h == g && d.is_at(c, q),
            (Err(e), Err(f)) => e == f,
            _ => false,
        },
{
    match frame(c, TAG_HEDR) {
        Err(e) => Err(e),
        Ok((w, d)) => match le_u32(w) {
            Err(e) => Err(e),
            Ok((version_bits, w1)) => match le_i32(w1) {
                Err(e) => Err(e),
                Ok((num_records, w2)) => match le_u32(w2) {
                    Err(e) => Err(e),
                    Ok((next_obj_id, _)) => Ok((HEDR { version_bits, num_records, next_obj_id }, d)),
                },
            },
        },
    }
}

/// The author of the file.
#[derive(Debug, PartialEq, Eq, Default)]
pub struct CNAM {
    pub author: String,
}

/// The description of the file.
#[derive(Debug, PartialEq, Eq, Default)]
pub struct SNAM {
    pub desc: String,
}

/// The name of a master file that this one depends on.
#[derive(Debug, PartialEq, Eq, Default)]
pub struct MAST {
    pub master: String,
}

/// The form identifiers that this file overrides.
#[derive(Debug, PartialEq, Eq, Default)]
pub struct ONAM {
    pub overrides: Vec<u32>,
}

/// The internal version.
#[derive(Debug, Clone, Copy, PartialEq, Eq, Structural, Default)]
pub struct INTV {
    pub internal_version: u32,
}

/// The content-change counter.
#[derive(Debug, Clone, Copy, PartialEq, Eq, Structural, Default)]
pub struct INCC {
    pub incc: u32,
}

/// Decodes the author chunk.
pub fn parse_cnam<'a>(c: Cursor<'a>) -> (r: Result<(CNAM, Cursor<'a>), DecodeError>)
    requires
        c.wf(),
    ensures
        match (r, spec_text(c.bytes(), c.offset(), TAG_CNAM)) {
            (Ok((v, d)), Ok((t, q))) => v.author@ == t && d.is_at(c, q),
            (Err(e), Err(f)) => e == f,
            _ => false,
        },
{
    match text_field(c, TAG_CNAM) {
        Err(e) => Err(e),
        Ok((author, d)) => Ok((CNAM { author }, d)),
    }
}

/// Decodes the description chunk.
pub fn parse_snam<'a>(c: Cursor<'a>) -> (r: Result<(SNAM, Cursor<'a>), DecodeError>)
    requires
        c.wf(),
    ensures
        match (r, spec_text(c.bytes(), c.offset(), TAG_SNAM)) {
            (Ok((v, d)), Ok((t, q))) => v.desc@ == t && d.is_at(c, q),
            (Err(e), Err(f)) => e == f,
            _ => false,
        },
{
    match text_field(c, TAG_SNAM) {
        Err(e) => Err(e),
        Ok((desc, d)) => Ok((SNAM { desc }, d)),
    }
}

/// Decodes the overrides chunk.
pub fn parse_onam<'a>(c: Cursor<'a>) -> (r: Result<(ONAM, Cursor<'a>), DecodeError>)
    requires
        c.wf(),
    ensures
        match (r, spec_u32_array(c.bytes(), c.offset(), TAG_ONAM)) {
            (Ok((v, d)), Ok((s, q))) => v.overrides@ == s && d.is_at(c, q),
            (Err(e), Err(f)) => e == f,
            _ => false,
        },
{
    match u32_array(c, TAG_ONAM) {
        Err(e) => Err(e),
        Ok((overrides, d)) => Ok((ONAM { overrides }, d)),
    }
}

/// Decodes the internal-version chunk.
pub fn parse_intv<'a>(c: Cursor<'a>) -> (r: Result<(INTV, Cursor<'a>), DecodeError>)
    requires
        c.wf(),
    ensures
        match (r, spec_u32_field(c.bytes(), c.offset(), TAG_INTV)) {
            (Ok((v, d)), Ok((x, q))) => v.internal_version == x && d.is_at(c, q),
            (Err(e), Err(f)) => e == f,
            _ => false,
        },
{
    match u32_field(c, TAG_INTV) {
        Err(e) => Err(e),
        Ok((internal_version, d)) => Ok((INTV { internal_version }, d)),
    }
}

/// Decodes the content-change counter chunk.
pub fn parse_incc<'a>(c: Cursor<'a>) -> (r: Result<(INCC, Cursor<'a>), DecodeError>)
    requires
        c.wf(),
    ensures
        match (r, spec_u32_field(c.bytes(), c.offset(), TAG_INCC)) {
            (Ok((v, d)), Ok((x, q))) => v.incc == x && d.is_at(c, q),
            (Err(e), Err(f)) => e == f,
            _ => false,
        },
{
    match u32_field(c, TAG_INCC) {
        Err(e) => Err(e),
        Ok((incc, d)) => Ok((INCC { incc }, d)),
    }
}

/// Reading one master reference at `p`: a `MAST` text chunk followed by a
/// `DATA` chunk that holds eight bytes.
pub open spec fn spec_master(b: Seq<u8>, p: int) -> Result<(Seq<char>, int), DecodeError> {
    match spec_text(b, p, TAG_MAST) {
        Err(e) => Err(e),
        Ok((s, q)) => match spec_frame(b, q, TAG_DATA) {
            Err(e) => Err(e),
            Ok(end) => match spec_uint(b.take(end), q + 6, 8) {
                Err(e) => Err(e),
                Ok(_) => Ok((s, end)),
            },
        },
    }
}

/// The four bytes at `p` are the tag `tag`.
pub open spec fn tag_at(b: Seq<u8>, p: int, tag: u32) -> bool {
    0 <= p && p + 4 <= b.len() && le32(b, p) == tag
}

/// Reading the master references at `p`: as long as the next tag is `MAST`,
/// one more reference; a reference that starts with `MAST` and is malformed
/// fails the whole group.
pub open spec fn spec_masters(b: Seq<u8>, p: int) -> Result<(Seq<Seq<char>>, int), DecodeError>
    decreases b.len() - p,
{
    if !tag_at(b, p, TAG_MAST) {
        Ok((Seq::empty(), p))
    } else {
        match spec_master(b, p) {
            Err(e) => Err(e),
            Ok((s, q)) => match spec_masters(b, q) {
                Err(e) => Err(e),
                Ok((rest, end)) => Ok((seq![s] + rest, end)),
            },
        }
    }
}

/// The names of a list of master references.
pub open spec fn master_names(v: Seq<MAST>) -> Seq<Seq<char>> {
    v.map_values(|m: MAST| m.master@)
}

/// The result of a group read from `d` onwards, behind the names `done`
/// already read.
pub open spec fn after(
    done: Seq<Seq<char>>,
    r: Result<(Seq<Seq<char>>, int), DecodeError>,
) -> Result<(Seq<Seq<char>>, int), DecodeError> {
    match r {
        Ok((s, end)) => Ok((done + s, end)),
        Err(e) => Err(e),
    }
}

/// Decodes one master reference.
pub fn parse_master<'a>(c: Cursor<'a>) -> (r: Result<(MAST, Cursor<'a>), DecodeError>)
    requires
        c.wf(),
    ensures
        match (r, spec_master(c.bytes(), c.offset())) {
            (Ok((m, d)), Ok((s, q))) => m.master@ == s && d.is_at(c, q),
            (Err(e), Err(f)) => e == f,
            _ => false,
        },
{
    match text_field(c, TAG_MAST) {
        Err(e) => Err(e),
        Ok((master, d)) => match frame(d, TAG_DATA) {
            Err(e) => Err(e),
            Ok((w, d2)) => match le_u64(w) {
                Err(e) => Err(e),
                Ok(_) => Ok((MAST { master }, d2)),
            },
        },
    }
}

/// Decodes the master references: zero or more, until the next tag is not
/// `MAST`. The cursor is left at that tag.
pub fn parse_mast<'a>(c: Cursor<'a>) -> (r: Result<(Vec<MAST>, Cursor<'a>), DecodeError>)
    requires
        c.wf(),
    ensures
        match (r, spec_masters(c.bytes(), c.offset())) {
            (Ok((v, d)), Ok((s, q))) => master_names(v@) == s && d.is_at(c, q),
            (Err(e), Err(f)) => e == f,
            _ => false,
        },
{
    let ghost b = c.bytes();
    let mut v: Vec<MAST> = Vec::new();
    let mut cur = c;
    loop
        invariant
            cur.wf(),
            cur.bytes() == b,
            c.wf(),
            c.bytes() == b,
            spec_masters(b, c.offset()) == after(master_names(v@), spec_masters(b, cur.offset())),
        decreases b.len() - cur.offset(),
    {
        let at_marker = match le_u32(cur) {
            Ok((t, _)) => t == TAG_MAST,
            Err(_) => false,
        };
        if !at_marker {
            assert(master_names(v@) + Seq::empty() =~= master_names(v@));
            return Ok((v, cur));
        }
        match parse_master(cur) {
            Err(e) => return Err(e),
            Ok((m, nxt)) => {
                let ghost before = master_names(v@);
                v.push(m);
                assert(master_names(v@) =~= before.push(m.master@));
                assert forall|rest: Seq<Seq<char>>| #[trigger] (before + (seq![m.master@] + rest)) =~= master_names(v@) + rest by {}
                cur = nxt;
            },
        }
    }
}

/// A file header.
#[derive(Debug, PartialEq, Eq, Default)]
pub struct TES4 {
    pub size: u32,
    pub flags: TES4Flags,
    pub vc: VersionControl,
    pub version: u16,
    pub unknown: u16,
    pub hedr: HEDR,
    pub cnam: Option<CNAM>,
    pub snam: Option<SNAM>,
    pub mast: Option<Vec<MAST>>,
    pub onam: Option<ONAM>,
    pub intv: Option<INTV>,
    pub incc: Option<INCC>,
}

/// What a file header holds, with text as characters and the flags as their
/// raw word.
pub struct TES4View {
    pub size: u32,
    pub flags: u32,
    pub vc: VersionControl,
    pub version: u16,
    pub unknown: u16,
    pub hedr: HEDR,
    pub cnam: Option<Seq<char>>,
    pub snam: Option<Seq<char>>,
    pub mast: Option<Seq<Seq<char>>>,
    pub onam: Option<Seq<u32>>,
    pub intv: Option<u32>,
    pub incc: Option<u32>,
}

impl View for TES4 {
    type V = TES4View;

    open spec fn view(&self) -> TES4View {
        TES4View {
            size: self.size,
            flags: self.flags@,
            vc: self.vc,
            version: self.version,
            unknown: self.unknown,
            hedr: self.hedr,
            cnam: match self.cnam {
                Some(x) => Some(x.author@),
                None => None,
            },
            snam: match self.snam {
                Some(x) => Some(x.desc@),
                None => None,
            },
            mast: match self.mast {
                Some(x) => Some(master_names(x@)),
                None => None,
            },
            onam: match self.onam {
                Some(x) => Some(x.overrides@),
                None => None,
            },
            intv: match self.intv {
                Some(x) => Some(x.internal_version),
                None => None,
            },
            incc: match self.incc {
                Some(x) => Some(x.incc),
                None => None,
            },
        }
    }
}

} // verus!
