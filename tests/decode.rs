use esp_decoder::chunk::{frame, frame_header, resolve_optional, text_field, u32_array, u32_field};
use esp_decoder::common::parse_version_control;
use esp_decoder::cursor::{le_i32, le_u16, le_u32, le_u64, le_u8};
use esp_decoder::kywd::{parse_kywd, CNAM as Color};
use esp_decoder::tes4::{
    parse_cnam, parse_header_flags, parse_hedr, parse_mast, parse_onam, TES4Flags, TAG_CNAM,
    TAG_HEDR, TAG_INTV,
};
use esp_decoder::{parse_header, Cursor, DecodeError};

fn chunk(tag: &[u8; 4], payload: &[u8]) -> Vec<u8> {
    let mut v = tag.to_vec();
    v.extend_from_slice(&(payload.len() as u16).to_le_bytes());
    v.extend_from_slice(payload);
    v
}

fn chunk_with_size(tag: &[u8; 4], size: u16, payload: &[u8]) -> Vec<u8> {
    let mut v = tag.to_vec();
    v.extend_from_slice(&size.to_le_bytes());
    v.extend_from_slice(payload);
    v
}

fn header_prefix(flags: u32) -> Vec<u8> {
    let mut v = b"TES4".to_vec();
    v.extend_from_slice(&20u32.to_le_bytes());
    v.extend_from_slice(&flags.to_le_bytes());
    v.extend_from_slice(&[0, 0, 0, 0]);
    v.extend_from_slice(&[0, 0, 0, 0]);
    v.extend_from_slice(&1u16.to_le_bytes());
    v.extend_from_slice(&0u16.to_le_bytes());
    let mut hedr = 1.0f32.to_bits().to_le_bytes().to_vec();
    hedr.extend_from_slice(&5i32.to_le_bytes());
    hedr.extend_from_slice(&100u32.to_le_bytes());
    v.extend(chunk(b"HEDR", &hedr));
    v
}

fn master(name: &str) -> Vec<u8> {
    let mut text = name.as_bytes().to_vec();
    text.push(0);
    let mut v = chunk(b"MAST", &text);
    v.extend(chunk(b"DATA", &[0u8; 8]));
    v
}

#[test]
fn header_test() {
    let data = header_prefix(1);
    if let Ok((_, tes4)) = parse_header(&data) {
        println!("{:?}", tes4);
    } else {
        println!("Failure parsing TES4 header!");
    }
}

#[test]
fn minimal_header_has_no_optional_fields() {
    let data = header_prefix(1);
    assert_eq!(data.len(), 42);
    let (rest, h) = parse_header(&data).unwrap();
    assert!(rest.is_empty());
    assert_eq!(h.size, 20);
    assert!(h.flags.is_master());
    assert!(!h.flags.is_localized());
    assert!(!h.flags.is_light());
    assert_eq!(h.flags.bits(), 1);
    assert_eq!(h.vc.day, 0);
    assert_eq!(h.vc.curr_user, 0);
    assert_eq!(h.version, 1);
    assert_eq!(h.unknown, 0);
    assert_eq!(f32::from_bits(h.hedr.version_bits), 1.0);
    assert_eq!(h.hedr.num_records, 5);
    assert_eq!(h.hedr.next_obj_id, 100);
    assert!(h.cnam.is_none());
    assert!(h.snam.is_none());
    assert_eq!(h.mast.as_ref().map(|m| m.len()), Some(0));
    assert!(h.onam.is_none());
    assert!(h.intv.is_none());
    assert!(h.incc.is_none());
}

#[test]
fn header_with_author() {
    let mut data = header_prefix(1);
    data.extend(chunk(b"CNAM", b"Alice\0"));
    let (rest, h) = parse_header(&data).unwrap();
    assert!(rest.is_empty());
    assert_eq!(h.cnam.unwrap().author, "Alice");
    assert!(h.snam.is_none());
}

#[test]
fn header_with_every_optional_field() {
    let mut data = header_prefix(0x281);
    data.extend(chunk(b"CNAM", b"Alice\0"));
    data.extend(chunk(b"SNAM", b"A test file\0"));
    data.extend(master("Skyrim.esm"));
    data.extend(master("Update.esm"));
    let mut ids = 7u32.to_le_bytes().to_vec();
    ids.extend_from_slice(&0x0100_0800u32.to_le_bytes());
    data.extend(chunk(b"ONAM", &ids));
    data.extend(chunk(b"INTV", &17u32.to_le_bytes()));
    data.extend(chunk(b"INCC", &3u32.to_le_bytes()));
    data.extend_from_slice(b"GRUP");
    let (rest, h) = parse_header(&data).unwrap();
    assert_eq!(rest, b"GRUP");
    assert!(h.flags.is_master() && h.flags.is_localized() && h.flags.is_light());
    assert_eq!(h.snam.unwrap().desc, "A test file");
    let masters: Vec<String> = h.mast.unwrap().into_iter().map(|m| m.master).collect();
    assert_eq!(masters, vec!["Skyrim.esm".to_string(), "Update.esm".to_string()]);
    assert_eq!(h.onam.unwrap().overrides, vec![7, 0x0100_0800]);
    assert_eq!(h.intv.unwrap().internal_version, 17);
    assert_eq!(h.incc.unwrap().incc, 3);
}

#[test]
fn master_group_stops_at_other_tag() {
    let mut data = master("Skyrim.esm");
    data.extend(master("Update.esm"));
    let stop = data.len();
    data.extend(chunk(b"ONAM", &[]));
    let (v, c) = parse_mast(Cursor::new(&data)).unwrap();
    assert_eq!(v.len(), 2);
    assert_eq!(v[0].master, "Skyrim.esm");
    assert_eq!(v[1].master, "Update.esm");
    assert_eq!(c.position(), stop);
    assert_eq!(&c.rest()[..4], b"ONAM");
}

#[test]
fn master_group_may_be_empty() {
    let data = chunk(b"INTV", &17u32.to_le_bytes());
    let (v, c) = parse_mast(Cursor::new(&data)).unwrap();
    assert!(v.is_empty());
    assert_eq!(c.position(), 0);
    let (v, c) = parse_mast(Cursor::new(&[])).unwrap();
    assert!(v.is_empty());
    assert_eq!(c.position(), 0);
}

#[test]
fn master_without_companion_fails_group() {
    let mut data = chunk(b"MAST", b"Skyrim.esm\0");
    data.extend(chunk(b"INTV", &17u32.to_le_bytes()));
    let at = 6 + 11;
    assert_eq!(
        parse_mast(Cursor::new(&data)).unwrap_err(),
        DecodeError::TagMismatch { offset: at }
    );
}

#[test]
fn onam_size_not_multiple_of_four() {
    let data = chunk(b"ONAM", &[1u8; 10]);
    assert_eq!(
        parse_onam(Cursor::new(&data)).unwrap_err(),
        DecodeError::ArrayLengthMismatch { offset: 4 }
    );
}

#[test]
fn author_without_nul_is_absent_through_resolver() {
    let mut data = header_prefix(1);
    let at = data.len();
    data.extend(chunk(b"CNAM", b"Alice"));
    let (rest, h) = parse_header(&data).unwrap();
    assert!(h.cnam.is_none());
    assert_eq!(rest, &data[at..]);
    let c = Cursor::new(&data[at..]);
    assert_eq!(
        parse_cnam(c).unwrap_err(),
        DecodeError::InvalidEncoding { offset: 6 }
    );
}

#[test]
fn frame_payload_matches_declared_size() {
    for size in [0usize, 1, 4, 13] {
        let payload: Vec<u8> = (0..size as u8).collect();
        let mut data = chunk(b"HEDR", &payload);
        data.extend_from_slice(b"tail");
        let (w, d) = frame(Cursor::new(&data), TAG_HEDR).unwrap();
        assert_eq!(w.position(), 6);
        assert_eq!(w.rest(), &payload[..]);
        assert_eq!(w.remaining(), size);
        assert_eq!(d.position(), 6 + size);
        assert_eq!(d.rest(), b"tail");
    }
}

#[test]
fn frame_errors() {
    let data = chunk(b"HEDR", &[1, 2, 3]);
    assert_eq!(
        frame(Cursor::new(&data), TAG_CNAM).unwrap_err(),
        DecodeError::TagMismatch { offset: 0 }
    );
    assert_eq!(
        frame(Cursor::new(&data[..3]), TAG_HEDR).unwrap_err(),
        DecodeError::Incomplete { needed: 4, offset: 0 }
    );
    assert_eq!(
        frame(Cursor::new(&data[..5]), TAG_HEDR).unwrap_err(),
        DecodeError::Incomplete { needed: 2, offset: 4 }
    );
    let short = chunk_with_size(b"HEDR", 9, &[1, 2, 3]);
    assert_eq!(
        frame(Cursor::new(&short), TAG_HEDR).unwrap_err(),
        DecodeError::Incomplete { needed: 9, offset: 6 }
    );
}

#[test]
fn truncated_header_is_incomplete() {
    let data = header_prefix(1);
    for k in 0..data.len() {
        match parse_header(&data[..k]) {
            Err(DecodeError::Incomplete { .. }) => {}
            other => panic!("prefix of {} bytes gave {:?}", k, other),
        }
    }
}

#[test]
fn truncated_primitives_are_incomplete() {
    let data = [1u8, 2, 3];
    assert_eq!(
        le_u32(Cursor::new(&data)).unwrap_err(),
        DecodeError::Incomplete { needed: 4, offset: 0 }
    );
    assert_eq!(
        le_u64(Cursor::new(&data)).unwrap_err(),
        DecodeError::Incomplete { needed: 8, offset: 0 }
    );
    assert_eq!(
        le_u8(Cursor::new(&[])).unwrap_err(),
        DecodeError::Incomplete { needed: 1, offset: 0 }
    );
    let (_, c) = le_u16(Cursor::new(&data)).unwrap();
    assert_eq!(
        le_u16(c).unwrap_err(),
        DecodeError::Incomplete { needed: 2, offset: 2 }
    );
}

#[test]
fn absent_field_leaves_cursor_unchanged() {
    let mut data = vec![9u8, 9];
    data.extend(chunk(b"SNAM", b"desc\0"));
    let (_, c) = le_u16(Cursor::new(&data)).unwrap();
    let (v, d) = resolve_optional(parse_cnam(c), c);
    assert!(v.is_none());
    assert_eq!(d.position(), c.position());
    assert_eq!(d.rest(), c.rest());
    let (v, d) = resolve_optional(parse_cnam(Cursor::new(&[])), Cursor::new(&[]));
    assert!(v.is_none());
    assert_eq!(d.position(), 0);
}

#[test]
fn present_field_advances_cursor() {
    let data = chunk(b"CNAM", b"Bob\0");
    let c = Cursor::new(&data);
    let (v, d) = resolve_optional(parse_cnam(c), c);
    assert_eq!(v.unwrap().author, "Bob");
    assert_eq!(d.position(), data.len());
}

#[test]
fn unknown_flag_bits_are_refused() {
    for i in 0..32u32 {
        let v = 1u32 << i;
        let bytes = v.to_le_bytes();
        let r = parse_header_flags(Cursor::new(&bytes));
        if i == 0 || i == 7 || i == 9 {
            assert_eq!(r.unwrap().0.bits(), v);
        } else {
            assert_eq!(r.unwrap_err(), DecodeError::InvalidFlags { offset: 0 });
            let mut data = header_prefix(v | 1);
            data.truncate(12);
            assert_eq!(
                parse_header(&data).unwrap_err(),
                DecodeError::InvalidFlags { offset: 8 }
            );
        }
    }
    assert!(TES4Flags::from_bits(0xffff_ffff).is_none());
    assert!(TES4Flags::from_bits(0x281).is_some());
}

#[test]
fn text_stops_at_nul_and_consumes_payload() {
    let data = chunk(b"CNAM", b"ab\0cd\0");
    let (s, d) = text_field(Cursor::new(&data), TAG_CNAM).unwrap();
    assert_eq!(s, "ab");
    assert!(!s.contains('\0'));
    assert_eq!(d.position(), data.len());
    let data = chunk(b"CNAM", b"\0");
    let (s, _) = text_field(Cursor::new(&data), TAG_CNAM).unwrap();
    assert_eq!(s, "");
}

#[test]
fn text_without_nul_is_refused() {
    let mut data = chunk(b"CNAM", b"abc");
    data.push(0);
    assert_eq!(
        text_field(Cursor::new(&data), TAG_CNAM).unwrap_err(),
        DecodeError::InvalidEncoding { offset: 6 }
    );
}

#[test]
fn text_invalid_utf8_is_refused() {
    let data = chunk(b"CNAM", &[0xff, 0xfe, 0]);
    assert_eq!(
        text_field(Cursor::new(&data), TAG_CNAM).unwrap_err(),
        DecodeError::InvalidEncoding { offset: 6 }
    );
    let data = chunk(b"CNAM", "héllo\0".as_bytes());
    let (s, _) = text_field(Cursor::new(&data), TAG_CNAM).unwrap();
    assert_eq!(s, "héllo");
}

#[test]
fn little_endian_values() {
    let data = [0x01u8, 0x02, 0x03, 0x04, 0x05, 0x06, 0x07, 0x08];
    assert_eq!(le_u8(Cursor::new(&data)).unwrap().0, 1);
    assert_eq!(le_u16(Cursor::new(&data)).unwrap().0, 0x0201);
    assert_eq!(le_u32(Cursor::new(&data)).unwrap().0, 0x0403_0201);
    assert_eq!(le_u64(Cursor::new(&data)).unwrap().0, 0x0807_0605_0403_0201);
    let neg = (-2i32).to_le_bytes();
    assert_eq!(le_i32(Cursor::new(&neg)).unwrap().0, -2);
    let min = i32::MIN.to_le_bytes();
    assert_eq!(le_i32(Cursor::new(&min)).unwrap().0, i32::MIN);
    let (_, c) = le_u32(Cursor::new(&data)).unwrap();
    assert_eq!(c.position(), 4);
    assert_eq!(c.remaining(), 4);
}

#[test]
fn version_control_fields() {
    let data = [3u8, 11, 7, 9];
    let (vc, c) = parse_version_control(Cursor::new(&data)).unwrap();
    assert_eq!((vc.day, vc.month, vc.last_user, vc.curr_user), (3, 11, 7, 9));
    assert_eq!(c.position(), 4);
    assert_eq!(
        parse_version_control(Cursor::new(&data[..3])).unwrap_err(),
        DecodeError::Incomplete { needed: 4, offset: 0 }
    );
}

#[test]
fn hedr_reads_payload_fields() {
    let mut payload = 1.7f32.to_bits().to_le_bytes().to_vec();
    payload.extend_from_slice(&(-1i32).to_le_bytes());
    payload.extend_from_slice(&0x800u32.to_le_bytes());
    payload.extend_from_slice(&[0xaa, 0xbb]);
    let data = chunk(b"HEDR", &payload);
    let (h, c) = parse_hedr(Cursor::new(&data)).unwrap();
    assert_eq!(f32::from_bits(h.version_bits), 1.7);
    assert_eq!(h.num_records, -1);
    assert_eq!(h.next_obj_id, 0x800);
    assert_eq!(c.position(), data.len());
    let short = chunk(b"HEDR", &payload[..8]);
    assert_eq!(
        parse_hedr(Cursor::new(&short)).unwrap_err(),
        DecodeError::Incomplete { needed: 4, offset: 14 }
    );
}

#[test]
fn u32_fields_and_arrays() {
    let data = chunk(b"INTV", &44u32.to_le_bytes());
    assert_eq!(u32_field(Cursor::new(&data), TAG_INTV).unwrap().0, 44);
    let data = chunk(b"INTV", &[]);
    let (v, c) = u32_array(Cursor::new(&data), TAG_INTV).unwrap();
    assert!(v.is_empty());
    assert_eq!(c.position(), 6);
    let mut payload = 5u32.to_le_bytes().to_vec();
    payload.extend_from_slice(&6u32.to_le_bytes());
    let data = chunk(b"INTV", &payload);
    assert_eq!(u32_array(Cursor::new(&data), TAG_INTV).unwrap().0, vec![5, 6]);
}

#[test]
fn keyword_record() {
    let mut data = chunk(b"EDID", b"WeapTypeSword\0");
    data.extend(chunk(b"CNAM", &[10, 20, 30, 255]));
    let (k, c) = parse_kywd(Cursor::new(&data)).unwrap();
    assert_eq!(k.editorID.id, "WeapTypeSword");
    assert_eq!(k.color, Color { r: 10, g: 20, b: 30, a: 255 });
    assert_eq!(c.position(), data.len());
    let mut bad = chunk(b"EDID", b"X\0");
    bad.extend(chunk(b"CNAM", &[1, 2]));
    assert_eq!(
        parse_kywd(Cursor::new(&bad)).unwrap_err(),
        DecodeError::Incomplete { needed: 4, offset: 14 }
    );
}

#[test]
fn frame_header_ignores_declared_size() {
    let data = chunk_with_size(b"CNAM", 200, b"ab\0");
    let (n, c) = frame_header(Cursor::new(&data), TAG_CNAM).unwrap();
    assert_eq!(n, 200);
    assert_eq!(c.position(), 6);
    assert_eq!(c.rest(), b"ab\0");
    assert!(frame(Cursor::new(&data), TAG_CNAM).is_err());
    assert_eq!(
        frame_header(Cursor::new(&data), TAG_HEDR).unwrap_err(),
        DecodeError::TagMismatch { offset: 0 }
    );
}
