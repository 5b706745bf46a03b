use bytes::Buf;
use neon_id::adapter::{schema_format, schema_name, JsonValue, ParseError};
use neon_id::hex_text::HexError;
use neon_id::id::Id;
use neon_id::kind::{IdKind, TenantId, TimelineId};

const SAMPLE: [u8; 16] = [
    0xad, 0x50, 0x84, 0x73, 0x81, 0xe2, 0x48, 0xfe, 0xaa, 0xc9, 0x87, 0x6c, 0xc7, 0x1a, 0xe4, 0x18,
];

#[test]
fn encodes_known_bytes() {
    assert_eq!(Id::from_array(SAMPLE).hex_encode(), "ad50847381e248feaac9876cc71ae418");
}

#[test]
fn decodes_and_reencodes_known_text() {
    let id = Id::from_hex("9840a3586d1a413699627b1dcf3e5103").unwrap();
    assert_eq!(id.hex_encode(), "9840a3586d1a413699627b1dcf3e5103");
    let t = TenantId::from_hex("9840a3586d1a413699627b1dcf3e5103").unwrap();
    assert_eq!(t.hex_encode(), "9840a3586d1a413699627b1dcf3e5103");
}

#[test]
fn round_trip_from_bytes() {
    for seed in 0u8..=255 {
        let mut b = [0u8; 16];
        for (i, x) in b.iter_mut().enumerate() {
            *x = seed.wrapping_mul(31).wrapping_add(i as u8 * 17);
        }
        let id = Id::from_array(b);
        assert_eq!(Id::from_hex(&id.hex_encode()), Ok(id));
    }
}

#[test]
fn uppercase_decodes_to_lowercase_text() {
    let id = Id::from_hex("AD50847381E248FEAAC9876CC71AE418").unwrap();
    assert_eq!(id.as_arr(), SAMPLE);
    assert_eq!(id.hex_encode(), "ad50847381e248feaac9876cc71ae418");
}

#[test]
fn rejects_wrong_lengths() {
    assert_eq!(Id::from_hex("9840a3586d1a413699627b1dcf3e510"), Err(HexError::OddLength));
    assert_eq!(Id::from_hex("9840a3586d1a413699627b1dcf3e51033"), Err(HexError::OddLength));
    assert_eq!(Id::from_hex("9840a3586d1a413699627b1dcf3e51"), Err(HexError::InvalidStringLength));
    assert_eq!(Id::from_hex(""), Err(HexError::InvalidStringLength));
}

#[test]
fn rejects_non_hex_character() {
    assert_eq!(
        Id::from_hex("9840a3586d1a413699627b1dcf3e510g"),
        Err(HexError::InvalidHexCharacter { c: 'g', index: 31 })
    );
    assert_eq!(
        Id::from_hex("x840a3586d1a413699627b1dcf3e510g"),
        Err(HexError::InvalidHexCharacter { c: 'x', index: 0 })
    );
}

#[test]
fn ordering_is_bytewise() {
    let mut lo = [0u8; 16];
    let mut hi = [0u8; 16];
    lo[0] = 1;
    hi[0] = 2;
    lo[15] = 0xff;
    let a = Id::from_array(lo);
    let b = Id::from_array(hi);
    assert!(a < b);
    assert!(b > a);
    assert_eq!(a.partial_cmp(&a), Some(std::cmp::Ordering::Equal));
    assert!(a != b);
    assert!(a == Id::from_array(lo));
    assert_eq!(a.cmp(&b), std::cmp::Ordering::Less);
}

#[test]
fn numeric_value_is_little_endian() {
    let mut b = [0u8; 16];
    b[0] = 1;
    assert_eq!(Id::from_array(b).to_u128(), 1);
    let mut c = [0u8; 16];
    c[15] = 1;
    assert_eq!(u128::from(Id::from_array(c)), 1u128 << 120);
    assert_eq!(u128::from(Id::from_array(SAMPLE)), u128::from_le_bytes(SAMPLE));
    assert_eq!(TimelineId::from_array([0xff; 16]).to_u128(), u128::MAX);
}

#[test]
fn kinds_share_the_bytes() {
    let t = TimelineId::from_array(SAMPLE);
    let n = TenantId::from_array(SAMPLE);
    assert_eq!(t.id(), n.id());
    assert_eq!(t.as_arr(), n.as_arr());
    assert_eq!(Id::from(SAMPLE), t.id());
}

#[test]
fn buffer_read_advances_sixteen_bytes() {
    let mut data: Vec<u8> = SAMPLE.to_vec();
    data.extend_from_slice(&[1, 2, 3]);
    let mut buf = bytes::Bytes::from(data);
    let id = Id::get_from_buf(&mut buf);
    assert_eq!(id.as_arr(), SAMPLE);
    assert_eq!(buf.remaining(), 3);
    assert_eq!(&buf[..], &[1, 2, 3]);
}

#[test]
fn kind_buffer_read() {
    let mut buf = bytes::Bytes::from(SAMPLE.to_vec());
    let t = TimelineId::get_from_buf(&mut buf);
    assert_eq!(t.as_arr(), SAMPLE);
    assert_eq!(buf.remaining(), 0);
}

#[test]
fn checked_buffer_read_leaves_short_buffer() {
    let mut buf = bytes::Bytes::from(vec![1u8, 2, 3]);
    assert_eq!(Id::try_get_from_buf(&mut buf), None);
    assert_eq!(&buf[..], &[1, 2, 3]);
    let mut full = bytes::Bytes::from(SAMPLE.to_vec());
    assert_eq!(Id::try_get_from_buf(&mut full), Some(Id::from_array(SAMPLE)));
    assert_eq!(full.remaining(), 0);
}

#[test]
fn json_adapter_outcomes() {
    assert_eq!(Id::parse_from_json(None), Err(ParseError::ExpectedInput));
    assert_eq!(Id::parse_from_json(Some(JsonValue::Null)), Err(ParseError::ExpectedInput));
    assert_eq!(Id::parse_from_json(Some(JsonValue::Bool(true))), Err(ParseError::ExpectedType));
    assert_eq!(Id::parse_from_json(Some(JsonValue::Number)), Err(ParseError::ExpectedType));
    let ok = Id::parse_from_json(Some(JsonValue::String("9840a3586d1a413699627b1dcf3e5103".to_string())));
    assert_eq!(ok.unwrap().hex_encode(), "9840a3586d1a413699627b1dcf3e5103");
    assert_eq!(
        Id::parse_from_json(Some(JsonValue::String("zz".to_string()))),
        Err(ParseError::Hex(HexError::InvalidStringLength))
    );
}

#[test]
fn json_and_header_render_hex() {
    let id = Id::from_array(SAMPLE);
    assert_eq!(id.to_json(), JsonValue::String("ad50847381e248feaac9876cc71ae418".to_string()));
    assert_eq!(id.to_header(), "ad50847381e248feaac9876cc71ae418");
}

#[test]
fn parameter_adapter_decodes() {
    assert_eq!(
        Id::parse_from_parameter("ad50847381e248feaac9876cc71ae418"),
        Ok(Id::from_array(SAMPLE))
    );
    assert_eq!(
        Id::parse_from_parameter("ad50"),
        Err(ParseError::Hex(HexError::InvalidStringLength))
    );
}

#[test]
fn schema_identity() {
    assert_eq!(schema_name(), "string(hex)");
    assert_eq!(schema_format(), ("string", "hex"));
}

#[test]
fn from_str_parses_hex() {
    let id: Id = "ad50847381e248feaac9876cc71ae418".parse().unwrap();
    assert_eq!(id.as_arr(), SAMPLE);
}

#[test]
fn from_str_matches_from_hex() {
    let text = "9840a3586d1a413699627b1dcf3e5103";
    let expected = [
        0x98, 0x40, 0xa3, 0x58, 0x6d, 0x1a, 0x41, 0x36, 0x99, 0x62, 0x7b, 0x1d, 0xcf, 0x3e, 0x51, 0x03,
    ];
    let id: Id = text.parse().unwrap();
    assert_eq!(id, Id::from(expected));
    assert_eq!(id.hex_encode(), text);
    assert_eq!(text.parse::<Id>(), Id::from_hex(text));
    assert_eq!("zz".parse::<Id>(), Id::from_hex("zz"));
    let t: TenantId = text.parse().unwrap();
    assert_eq!(t, TenantId::from(expected));
    let l: TimelineId = text.parse().unwrap();
    assert_eq!(l.hex_encode(), text);
    assert_eq!("zz".parse::<TimelineId>(), Err(HexError::InvalidStringLength));
}

#[test]
fn kinds_compare_as_bytes() {
    let mut lo = [0u8; 16];
    let mut hi = [0u8; 16];
    lo[3] = 7;
    hi[3] = 9;
    assert!(TenantId::from(lo) < TenantId::from(hi));
    assert!(TimelineId::from(hi) > TimelineId::from(lo));
    assert!(TenantId::from(lo) == TenantId::from(lo));
    assert!(TimelineId::from(lo) != TimelineId::from(hi));
    assert_eq!(TenantId::from(lo).cmp(&TenantId::from(hi)), std::cmp::Ordering::Less);
    assert_eq!(u128::from(TenantId::from(lo)), u128::from(Id::from(lo)));
}

#[test]
fn field_adapter_outcomes() {
    assert_eq!(Id::parse_from_field(None), Err(ParseError::ExpectedInput));
    assert_eq!(
        Id::parse_from_field(Some("ad50847381e248feaac9876cc71ae418")),
        Ok(Id::from_array(SAMPLE))
    );
    assert_eq!(
        Id::parse_from_field(Some("zz")),
        Err(ParseError::Hex(HexError::InvalidStringLength))
    );
}
