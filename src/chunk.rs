use vstd::prelude::*;

use crate::cursor::{le16, le32, le_u16, le_u32, spec_take, spec_uint, Cursor};
use crate::error::DecodeError;

verus! {

/// Reading a chunk tagged `tag` at `p`: the end of its payload, which starts
/// six bytes past `p` and is as long as the size field says.
pub open spec fn spec_frame(b: Seq<u8>, p: int, tag: u32) -> Result<int, DecodeError> {
    match spec_uint(b, p, 4) {
        Err(e) => Err(e),
        Ok((t, q)) => if t != tag {
            Err(DecodeError::TagMismatch { offset: p as usize })
        } else {
            match spec_uint(b, q, 2) {
                Err(e) => Err(e),
                Ok((n, s)) => spec_take(b, s, n),
            }
        },
    }
}

/// Frames one chunk tagged `tag`: the payload, as a window that ends where the
/// payload ends, and the cursor past the chunk.
pub fn frame<'a>(c: Cursor<'a>, tag: u32) -> (r: Result<(Cursor<'a>, Cursor<'a>), DecodeError>)
    requires
        c.wf(),
    ensures
        match (r, spec_frame(c.bytes(), c.offset(), tag)) {
            (Ok((w, d)), Ok(end)) => d.is_at(c, end) && w.wf() && w.bytes() == c.bytes().take(end)
                && w.offset() == c.offset() + 6,
            (Err(e), Err(f)) => e == f,
            _ => false,
        },
{
    match le_u32(c) {
        Err(e) => Err(e),
        Ok((t, c1)) => {
            if t != tag {
                return Err(DecodeError::TagMismatch { offset: c.position() });
            }
            match le_u16(c1) {
                Err(e) => Err(e),
                Ok((n, c2)) => c2.split(n as usize),
            }
        },
    }
}

/// Reading only the header of a chunk tagged `tag` at `p`: its declared size
/// and the position just past the size field. The payload is not checked.
pub open spec fn spec_frame_header(b: Seq<u8>, p: int, tag: u32) -> Result<(int, int), DecodeError> {
    match spec_uint(b, p, 4) {
        Err(e) => Err(e),
        Ok((t, q)) => if t != tag {
            Err(DecodeError::TagMismatch { offset: p as usize })
        } else {
            spec_uint(b, q, 2)
        },
    }
}

/// Reads the tag and size of a chunk tagged `tag`, leaving the cursor at its
/// payload, for a payload whose own contents say where it ends.
pub fn frame_header<'a>(c: Cursor<'a>, tag: u32) -> (r: Result<(u16, Cursor<'a>), DecodeError>)
    requires
        c.wf(),
    ensures
        match (r, spec_frame_header(c.bytes(), c.offset(), tag)) {
            (Ok((n, d)), Ok((m, q))) => n == m && d.is_at(c, q),
            (Err(e), Err(f)) => e == f,
            _ => false,
        },
{
    match le_u32(c) {
        Err(e) => Err(e),
        Ok((t, c1)) => {
            if t != tag {
                return Err(DecodeError::TagMismatch { offset: c.position() });
            }
            le_u16(c1)
        },
    }
}

/// Framing consumes exactly the chunk header and the declared size: it
/// succeeds exactly when the tag matches and the declared payload fits, and
/// then the payload is exactly as long as the size field says.
pub proof fn lemma_frame_exact(b: Seq<u8>, p: int, tag: u32)
    requires
        0 <= p <= b.len(),
    ensures
        spec_frame(b, p, tag) is Ok <==> (p + 6 <= b.len() && le32(b, p) == tag && p + 6 + le16(b, p + 4)
            <= b.len()),
        spec_frame(b, p, tag) is Ok ==> spec_frame(b, p, tag)->Ok_0 == p + 6 + le16(b, p + 4),
{
}

/// Cutting the input short anywhere inside a chunk that frames makes framing
/// fail with `Incomplete`.
pub proof fn lemma_frame_truncated(b: Seq<u8>, p: int, tag: u32, k: int)
    requires
        0 <= p <= k,
        spec_frame(b, p, tag) is Ok,
        k < spec_frame(b, p, tag)->Ok_0,
    ensures
        spec_frame(b.take(k), p, tag) is Err,
        spec_frame(b.take(k), p, tag)->Err_0 is Incomplete,
{
    let t = b.take(k);
    if k >= p + 4 {
        assert(le32(t, p) == le32(b, p));
    }
    if k >= p + 6 {
        assert(le16(t, p + 4) == le16(b, p + 4));
    }
}

/// A decoded text field is the decoding of exactly the payload bytes before
/// the first NUL, none of which is NUL; a payload without a NUL is refused.
pub proof fn lemma_text_stops_at_nul(b: Seq<u8>, p: int, tag: u32)
    requires
        0 <= p <= b.len(),
        spec_frame(b, p, tag) is Ok,
    ensures
        ({
            let end = spec_frame(b, p, tag)->Ok_0;
            let pl = b.subrange(p + 6, end);
            &&& (forall|i: int| 0 <= i < pl.len() ==> pl[i] != 0) ==> spec_text(b, p, tag)
                == Err::<(Seq<char>, int), DecodeError>(
                DecodeError::InvalidEncoding { offset: (p + 6) as usize },
            )
            &&& spec_text(b, p, tag) is Ok ==> exists|i: int|
                #![trigger is_first_nul(pl, i)]
                is_first_nul(pl, i) && (forall|j: int| 0 <= j < i ==> pl.take(i)[j] != 0) && utf8_decode(
                    pl.take(i),
                ) == Some(spec_text(b, p, tag)->Ok_0.0)
        }),
{
    let end = spec_frame(b, p, tag)->Ok_0;
    let pl = b.subrange(p + 6, end);
    if exists|i: int| is_first_nul(pl, i) {
        let i = choose|i: int| is_first_nul(pl, i);
        assert(forall|j: int| 0 <= j < i ==> pl.take(i)[j] == pl[j]);
    }
}

/// The decoded text of `b`, where `b` is UTF-8.
pub uninterp spec fn utf8_decode(b: Seq<u8>) -> Option<Seq<char>>;

/// Relies on `String::from_utf8`: it succeeds exactly on UTF-8 input, and the
/// result depends on the bytes alone.
#[verifier::external_body]
fn decode_utf8(b: &[u8]) -> (r: Option<String>)
    ensures
        match r {
            Some(s) => utf8_decode(b@) == Some(s@),
            None => utf8_decode(b@) is None,
        },
{
    String::from_utf8(b.to_vec()).ok()
}

/// `i` is the index of the first NUL byte of `s`.
pub open spec fn is_first_nul(s: Seq<u8>, i: int) -> bool {
    0 <= i < s.len() && s[i] == 0 && forall|j: int| 0 <= j < i ==> s[j] != 0
}

/// The bytes of a text payload before its terminating NUL, if it has one.
pub open spec fn text_bytes(pl: Seq<u8>) -> Option<Seq<u8>> {
    if exists|i: int| is_first_nul(pl, i) {
        Some(pl.take(choose|i: int| is_first_nul(pl, i)))
    } else {
        None
    }
}

/// Reading a text chunk tagged `tag` at `p`: the text before the first NUL
/// of the payload, and the end of the payload.
pub open spec fn spec_text(b: Seq<u8>, p: int, tag: u32) -> Result<(Seq<char>, int), DecodeError> {
    match spec_frame(b, p, tag) {
        Err(e) => Err(e),
        Ok(end) => match text_bytes(b.subrange(p + 6, end)) {
            None => Err(DecodeError::InvalidEncoding { offset: (p + 6) as usize }),
            Some(t) => match utf8_decode(t) {
                None => Err(DecodeError::InvalidEncoding { offset: (p + 6) as usize }),
                Some(s) => Ok((s, end)),
            },
        },
    }
}

/// Decodes a text chunk tagged `tag`. The whole declared payload is consumed,
/// whatever follows the NUL.
pub fn text_field<'a>(c: Cursor<'a>, tag: u32) -> (r: Result<(String, Cursor<'a>), DecodeError>)
    requires
        c.wf(),
    ensures
        match (r, spec_text(c.bytes(), c.offset(), tag)) {
            (Ok((s, d)), Ok((t, end))) => s@ == t && d.is_at(c, end),
            (Err(e), Err(f)) => e == f,
            _ => false,
        },
{
    let ghost b = c.bytes();
    let ghost p = c.offset();
    match frame(c, tag) {
        Err(e) => Err(e),
        Ok((w, d)) => {
            let start = w.position();
            let end = w.len();
            let ghost pl = b.subrange(p + 6, end as int);
            let mut i: usize = start;
            while i < end && w.byte_at(i) != 0
                invariant
                    start <= i <= end,
                    end == w.bytes().len(),
                    start == p + 6,
                    w.bytes() == b.take(end as int),
                    forall|j: int| start <= j < i ==> w.bytes()[j] != 0,
                decreases end - i,
            {
                i += 1;
            }
            if i == end {
                assert forall|k: int| !is_first_nul(pl, k) by {
                    if is_first_nul(pl, k) {
                        assert(w.bytes()[start + k] == pl[k]);
                    }
                }
                return Err(DecodeError::InvalidEncoding { offset: start });
            }
            let ghost k = (i - start) as int;
            assert(is_first_nul(pl, k)) by {
                assert forall|j: int| 0 <= j < k implies pl[j] != 0 by {
                    assert(w.bytes()[start + j] == pl[j]);
                }
                assert(w.bytes()[i as int] == pl[k]);
            }
            let ghost k2 = choose|x: int| is_first_nul(pl, x);
            assert(k2 == k) by {
                if k2 < k {
                    assert(pl[k2] == 0);
                } else if k < k2 {
                    assert(pl[k] == 0);
                }
            }
            let t = w.slice(start, i);
            assert(t@ =~= pl.take(k));
            match decode_utf8(t) {
                None => Err(DecodeError::InvalidEncoding { offset: start }),
                Some(s) => Ok((s, d)),
            }
        },
    }
}

/// Reading a chunk tagged `tag` at `p` whose payload is an array of
/// little-endian `u32`: the elements and the end of the payload.
pub open spec fn spec_u32_array(b: Seq<u8>, p: int, tag: u32) -> Result<(Seq<u32>, int), DecodeError> {
    match spec_frame(b, p, tag) {
        Err(e) => Err(e),
        Ok(end) => {
            let n = end - (p + 6);
            if n % 4 != 0 {
                Err(DecodeError::ArrayLengthMismatch { offset: (p + 4) as usize })
            } else {
                Ok((Seq::new((n / 4) as nat, |k: int| le32(b, p + 6 + 4 * k) as u32), end))
            }
        },
    }
}

/// Decodes a chunk tagged `tag` whose payload is an array of `u32`, as many
/// as the declared size holds.
pub fn u32_array<'a>(c: Cursor<'a>, tag: u32) -> (r: Result<(Vec<u32>, Cursor<'a>), DecodeError>)
    requires
        c.wf(),
    ensures
        match (r, spec_u32_array(c.bytes(), c.offset(), tag)) {
            (Ok((v, d)), Ok((s, end))) => v@ == s && d.is_at(c, end),
            (Err(e), Err(f)) => e == f,
            _ => false,
        },
{
    let ghost b = c.bytes();
    let ghost p = c.offset();
    match frame(c, tag) {
        Err(e) => Err(e),
        Ok((w, d)) => {
            let start = w.position();
            let end = w.len();
            if (end - start) % 4 != 0 {
                return Err(DecodeError::ArrayLengthMismatch { offset: start - 2 });
            }
            let mut v: Vec<u32> = Vec::new();
            let mut cur = w;
            while cur.position() < end
                invariant
                    cur.is_at(w, start + 4 * v@.len()),
                    w.wf(),
                    start == p + 6,
                    end == w.bytes().len(),
                    end <= b.len(),
                    w.bytes() == b.take(end as int),
                    (end - cur.offset()) % 4 == 0,
                    forall|j: int| 0 <= j < v@.len() ==> v@[j] == le32(b, p + 6 + 4 * j) as u32,
                decreases end - cur.offset(),
            {
                let ghost q = cur.offset();
                match le_u32(cur) {
                    Ok((x, nxt)) => {
                        assert(q + 4 <= end);
                        assert(w.bytes()[q] == b[q] && w.bytes()[q + 1] == b[q + 1]);
                        assert(w.bytes()[q + 2] == b[q + 2] && w.bytes()[q + 3] == b[q + 3]);
                        v.push(x);
                        cur = nxt;
                    },
                    Err(_) => {
                        assert(false);
                        return Err(DecodeError::Incomplete { needed: 4, offset: cur.position() });
                    },
                }
            }
            assert(v@ =~= Seq::new(((end - start) / 4) as nat, |k: int| le32(b, p + 6 + 4 * k) as u32));
            Ok((v, d))
        },
    }
}

/// Reading a chunk tagged `tag` at `p` whose payload starts with a
/// little-endian `u32`: that value and the end of the payload.
pub open spec fn spec_u32_field(b: Seq<u8>, p: int, tag: u32) -> Result<(u32, int), DecodeError> {
    match spec_frame(b, p, tag) {
        Err(e) => Err(e),
        Ok(end) => match spec_uint(b.take(end), p + 6, 4) {
            Err(e) => Err(e),
            Ok((v, _)) => Ok((v as u32, end)),
        },
    }
}

/// Decodes a chunk tagged `tag` that holds a `u32`; any further payload bytes
/// are skipped.
pub fn u32_field<'a>(c: Cursor<'a>, tag: u32) -> (r: Result<(u32, Cursor<'a>), DecodeError>)
    requires
        c.wf(),
    ensures
        match (r, spec_u32_field(c.bytes(), c.offset(), tag)) {
            (Ok((v, d)), Ok((x, end))) => v == x && d.is_at(c, end),
            (Err(e), Err(f)) => e == f,
            _ => false,
        },
{
    match frame(c, tag) {
        Err(e) => Err(e),
        Ok((w, d)) => match le_u32(w) {
            Err(e) => Err(e),
            Ok((v, _)) => Ok((v, d)),
        },
    }
}

/// Speculative decoding: the value of a successful attempt with the cursor it
/// left, or, on any failure, no value and the cursor from before the attempt.
pub fn resolve_optional<'a, T>(attempt: Result<(T, Cursor<'a>), DecodeError>, c: Cursor<'a>) -> (r: (
    Option<T>,
    Cursor<'a>,
))
    ensures
        match attempt {
            Ok((v, d)) => r.0 == Some(v) && r.1 == d,
            Err(_) => r.0 is None && r.1 == c,
        },
{
    match attempt {
        Ok((v, d)) => (Some(v), d),
        Err(_) => (None, c),
    }
}

} // verus!
