//! Concrete checks of the codec's laws: round trips, fallback totality,
//! padding, length equality, nesting depth, and one input for each decode
//! error.

use rtnetlink_codec::decode;
use rtnetlink_codec::encode;
use rtnetlink_codec::required_length;
use rtnetlink_codec::Message;
use rtnetlink_codec::error::DecodeError;
use rtnetlink_codec::fallback::DefaultNla;
use rtnetlink_codec::nested::{emit_forest, parse_forest, NlaNode, NlaPayload};
use rtnetlink_codec::tc_clsact::TcQdiscClsactOption;
use rtnetlink_codec::tc_flower::TcFilterFlowerOption;
use rtnetlink_codec::tc_handle::TcHandle;
use rtnetlink_codec::tc_message::{AddressFamily, TcAttribute, TcHeader, TcMessage};
use rtnetlink_codec::tc_options::TcOption;

fn empty_header() -> TcHeader {
    TcHeader {
        family: AddressFamily::Unspec,
        index: 0,
        handle: TcHandle { major: 0, minor: 0 },
        parent: TcHandle { major: 0, minor: 0 },
        info: 0,
    }
}

#[test]
fn roundtrip_constructed_flower_message() {
    let msg = TcMessage {
        header: TcHeader {
            family: AddressFamily::Unspec,
            index: 3,
            handle: TcHandle { major: 1, minor: 0 },
            parent: TcHandle {
                major: 0xffff,
                minor: 0xfff2,
            },
            info: 0x300,
        },
        attributes: vec![
            TcAttribute::Kind("flower".to_string()),
            TcAttribute::Options(vec![
                TcOption::Flower(TcFilterFlowerOption::ClassId(TcHandle {
                    major: 1,
                    minor: 2,
                })),
                TcOption::Flower(TcFilterFlowerOption::Indev(vec![0x65, 0x74, 0x68, 0x30])),
                TcOption::Flower(TcFilterFlowerOption::Other(DefaultNla::new(99, vec![1, 2, 3]))),
            ]),
        ],
    };
    let bytes = msg.emit();
    assert_eq!(TcMessage::parse(&bytes).unwrap(), msg);
    assert_eq!(msg.buffer_len(), bytes.len());
}

#[test]
fn flower_classid_wire_bytes() {
    let msg = TcMessage {
        header: empty_header(),
        attributes: vec![
            TcAttribute::Kind("flower".to_string()),
            TcAttribute::Options(vec![TcOption::Flower(TcFilterFlowerOption::ClassId(
                TcHandle { major: 1, minor: 2 },
            ))]),
        ],
    };
    let bytes = msg.emit();
    // After the 20-byte header: the kind record, then the options record
    // holding one class-id record with the handle 0x00010002 little-endian.
    let expected_tail = [
        0x0b, 0x00, 0x01, 0x00, 0x66, 0x6c, 0x6f, 0x77, 0x65, 0x72, 0x00, 0x00, // "flower"
        0x0c, 0x00, 0x02, 0x00, 0x08, 0x00, 0x01, 0x00, 0x02, 0x00, 0x01, 0x00,
    ];
    assert_eq!(&bytes[20..], &expected_tail[..]);
}

#[test]
fn roundtrip_clsact_option_kept_verbatim() {
    let msg = TcMessage {
        header: empty_header(),
        attributes: vec![
            TcAttribute::Kind("clsact".to_string()),
            TcAttribute::Options(vec![TcOption::Clsact(TcQdiscClsactOption::Other(
                DefaultNla::new(2, vec![0xde, 0xad]),
            ))]),
        ],
    };
    let bytes = msg.emit();
    assert_eq!(TcMessage::parse(&bytes).unwrap(), msg);
}

#[test]
fn options_before_kind_fall_back_verbatim() {
    // The options record stands before the kind record, so no catalog is
    // selected yet and its entries are kept verbatim.
    let mut raw = vec![0u8; 20];
    raw.extend_from_slice(&[
        0x0c, 0x00, 0x02, 0x00, 0x08, 0x00, 0x05, 0x00, 0x01, 0x02, 0x03, 0x04, // options
        0x0b, 0x00, 0x01, 0x00, 0x63, 0x6c, 0x73, 0x61, 0x63, 0x74, 0x00, 0x00, // "clsact"
    ]);
    let msg = TcMessage::parse(&raw).unwrap();
    assert_eq!(
        msg.attributes[0],
        TcAttribute::Options(vec![TcOption::Other(DefaultNla::new(5, vec![1, 2, 3, 4]))])
    );
    assert_eq!(msg.attributes[1], TcAttribute::Kind("clsact".to_string()));
    assert_eq!(msg.emit(), raw);
}

#[test]
fn fallback_keeps_unknown_attribute_verbatim() {
    let mut raw = vec![0u8; 20];
    raw.extend_from_slice(&[0x04, 0x00, 0x3e, 0x80]);
    let msg = TcMessage::parse(&raw).unwrap();
    assert_eq!(
        msg.attributes,
        vec![TcAttribute::Other(DefaultNla::new(0x803e, vec![]))]
    );
    assert_eq!(msg.emit(), raw);
}

#[test]
fn padding_is_smallest_multiple_of_four_and_zero() {
    let msg = TcMessage {
        header: empty_header(),
        attributes: vec![TcAttribute::Kind("ab".to_string())],
    };
    let bytes = msg.emit();
    // The kind record: stored length 7 (header + "ab\0"), padded to 8 with a
    // zero byte.
    assert_eq!(
        &bytes[20..],
        &[0x07, 0x00, 0x01, 0x00, 0x61, 0x62, 0x00, 0x00][..]
    );
    assert_eq!(msg.buffer_len(), 28);
}

#[test]
fn top_level_decode_encode_required_length() {
    let mut raw = vec![0u8; 20];
    raw[4] = 15;
    raw.extend_from_slice(&[0x0b, 0x00, 0x01, 0x00, 0x63, 0x6c, 0x73, 0x61, 0x63, 0x74, 0x00, 0x00]);
    let msg = decode(38, &raw).unwrap();
    match &msg {
        Message::Tc(tc) => assert_eq!(tc.header.index, 15),
        other => panic!("expected a tc message, got {:?}", other),
    }
    assert_eq!(required_length(&msg), raw.len());
    assert_eq!(encode(&msg), raw);
}

#[test]
fn unsupported_kind_is_reported() {
    assert_eq!(
        decode(1, &[]),
        Err(DecodeError::UnsupportedKind { kind: 1 })
    );
}

#[test]
fn short_header_is_too_short() {
    let raw = vec![0u8; 10];
    assert_eq!(
        TcMessage::parse(&raw),
        Err(DecodeError::TooShort {
            expected: 20,
            available: 10
        })
    );
}

#[test]
fn truncated_record_is_too_short() {
    let mut raw = vec![0u8; 20];
    raw.extend_from_slice(&[0x08, 0x00, 0x01, 0x00]);
    assert_eq!(
        TcMessage::parse(&raw),
        Err(DecodeError::TooShort {
            expected: 8,
            available: 4
        })
    );
}

#[test]
fn trailing_fragment_is_too_short() {
    let mut raw = vec![0u8; 20];
    raw.extend_from_slice(&[0x00, 0x00]);
    assert_eq!(
        TcMessage::parse(&raw),
        Err(DecodeError::TooShort {
            expected: 4,
            available: 2
        })
    );
}

#[test]
fn unterminated_kind_string_is_invalid() {
    let mut raw = vec![0u8; 20];
    raw.extend_from_slice(&[0x05, 0x00, 0x01, 0x00, 0x61, 0x00, 0x00, 0x00]);
    assert_eq!(
        TcMessage::parse(&raw),
        Err(DecodeError::InvalidField { code: 1 })
    );
}

#[test]
fn record_length_below_header_is_invalid() {
    let mut raw = vec![0u8; 20];
    raw.extend_from_slice(&[0x02, 0x00, 0x09, 0x00]);
    assert_eq!(
        TcMessage::parse(&raw),
        Err(DecodeError::InvalidField { code: 9 })
    );
}

#[test]
fn short_stats_value_is_too_short() {
    let mut raw = vec![0u8; 20];
    // A legacy statistics record whose value holds 4 bytes instead of 40.
    raw.extend_from_slice(&[0x08, 0x00, 0x03, 0x00, 0x00, 0x00, 0x00, 0x00]);
    assert_eq!(
        TcMessage::parse(&raw),
        Err(DecodeError::TooShort {
            expected: 40,
            available: 4
        })
    );
}

fn wrap_nested(inner: Vec<u8>) -> Vec<u8> {
    let mut v = Vec::new();
    let stored = (inner.len() + 4) as u16;
    v.extend_from_slice(&stored.to_le_bytes());
    v.extend_from_slice(&0x8001u16.to_le_bytes());
    v.extend_from_slice(&inner);
    v
}

#[test]
fn nesting_deeper_than_the_limit_fails() {
    let mut raw = vec![0x04, 0x00, 0x01, 0x00];
    for _ in 0..9 {
        raw = wrap_nested(raw);
    }
    assert_eq!(parse_forest(&raw, 8), Err(DecodeError::NestingTooDeep));
    assert!(parse_forest(&raw, 9).is_ok());
}

#[test]
fn nested_tree_roundtrips() {
    let leaf = NlaNode {
        net_byte_order: false,
        code: 3,
        payload: NlaPayload::Value(vec![0xaa, 0xbb]),
    };
    let nest = NlaNode {
        net_byte_order: true,
        code: 7,
        payload: NlaPayload::Nested(vec![leaf]),
    };
    let forest = vec![nest];
    let mut bytes = Vec::new();
    emit_forest(&forest, &mut bytes);
    // One nested record (flags 0x8000 | 0x4000) holding one leaf record of
    // two value bytes, padded with two zero bytes.
    assert_eq!(
        bytes,
        vec![0x0c, 0x00, 0x07, 0xc0, 0x06, 0x00, 0x03, 0x00, 0xaa, 0xbb, 0x00, 0x00]
    );
    assert_eq!(parse_forest(&bytes, 8).unwrap(), forest);
}
