//! Concrete checks of the codec's laws on link messages: constructed round
//! trips, flag bitsets with unnamed bits, content-dependent link-info
//! dispatch, and error inputs.

use rtnetlink_codec::decode;
use rtnetlink_codec::encode;
use rtnetlink_codec::required_length;
use rtnetlink_codec::Message;
use rtnetlink_codec::error::DecodeError;
use rtnetlink_codec::fallback::DefaultNla;
use rtnetlink_codec::link_attrs::{LinkAttribute, State};
use rtnetlink_codec::link_info::{InfoData, InfoKind, LinkInfo};
use rtnetlink_codec::link_message::{LinkFlag, LinkHeader, LinkLayerType, LinkMessage};
use rtnetlink_codec::bridge_info::InfoBridge;

fn empty_header() -> LinkHeader {
    LinkHeader {
        interface_family: AddressFamily::Unspec,
        index: 0,
        link_layer_type: LinkLayerType::Ether,
        flags: vec![],
        change_mask: vec![],
    }
}

use rtnetlink_codec::tc_message::AddressFamily;

#[test]
fn roundtrip_constructed_link_message() {
    let msg = LinkMessage {
        header: LinkHeader {
            interface_family: AddressFamily::Unspec,
            index: 9,
            link_layer_type: LinkLayerType::Loopback,
            flags: vec![LinkFlag::Loopback, LinkFlag::Running, LinkFlag::Up],
            change_mask: vec![],
        },
        attributes: vec![
            LinkAttribute::IfName("lo".to_string()),
            LinkAttribute::Mtu(65536),
            LinkAttribute::OperState(State::Up),
            LinkAttribute::LinkInfo(vec![
                LinkInfo::Kind(InfoKind::Bridge),
                LinkInfo::Data(InfoData::Bridge(vec![
                    InfoBridge::Priority(0x8000),
                    InfoBridge::VlanFiltering(true),
                ])),
            ]),
            LinkAttribute::Other(DefaultNla::new(0x7777, vec![1, 2, 3])),
        ],
    };
    let bytes = msg.emit();
    assert_eq!(LinkMessage::parse(&bytes).unwrap(), msg);
    assert_eq!(msg.buffer_len(), bytes.len());
}

#[test]
fn unnamed_flag_bits_survive_a_round_trip() {
    // Bit 25 has no name in the flag table; it comes back in the verbatim
    // arm and re-encodes to the same pattern.
    let mut raw = vec![0u8; 16];
    raw[2] = 1; // link-layer type: ethernet
    raw[8] = 0x41; // flags: up | running
    raw[11] = 0x02; // flags: bit 25
    let msg = LinkMessage::parse(&raw).unwrap();
    assert_eq!(
        msg.header.flags,
        vec![LinkFlag::Running, LinkFlag::Up, LinkFlag::Other(0x0200_0000)]
    );
    assert_eq!(msg.emit(), raw);
}

#[test]
fn info_data_without_kind_is_kept_verbatim() {
    // A link-info block whose data record stands before any kind record:
    // no catalog is selected, so the data bytes are kept raw.
    let mut raw = vec![0u8; 16];
    raw[2] = 1;
    raw.extend_from_slice(&[
        0x10, 0x00, 0x12, 0x00, // link-info, 12 value bytes
        0x0c, 0x00, 0x02, 0x00, 0xaa, 0xbb, 0xcc, 0xdd, 0xee, 0xff, 0x00, 0x11, // info-data
    ]);
    let msg = LinkMessage::parse(&raw).unwrap();
    assert_eq!(
        msg.attributes,
        vec![LinkAttribute::LinkInfo(vec![LinkInfo::Data(InfoData::Other(vec![
            0xaa, 0xbb, 0xcc, 0xdd, 0xee, 0xff, 0x00, 0x11
        ]))])]
    );
    assert_eq!(msg.emit(), raw);
}

#[test]
fn short_link_header_is_too_short() {
    let raw = vec![0u8; 12];
    assert_eq!(
        LinkMessage::parse(&raw),
        Err(DecodeError::TooShort {
            expected: 16,
            available: 12
        })
    );
}

#[test]
fn wrong_width_mtu_is_invalid() {
    let mut raw = vec![0u8; 16];
    raw[2] = 1;
    raw.extend_from_slice(&[0x06, 0x00, 0x04, 0x00, 0xdc, 0x05, 0x00, 0x00]);
    assert_eq!(
        LinkMessage::parse(&raw),
        Err(DecodeError::InvalidField { code: 4 })
    );
}

#[test]
fn top_level_link_decode_encode() {
    let mut raw = vec![0u8; 16];
    raw[2] = 1;
    raw[4] = 7;
    raw.extend_from_slice(&[0x08, 0x00, 0x04, 0x00, 0xdc, 0x05, 0x00, 0x00]);
    let msg = decode(16, &raw).unwrap();
    match &msg {
        Message::Link(l) => {
            assert_eq!(l.header.index, 7);
            assert_eq!(l.attributes, vec![LinkAttribute::Mtu(1500)]);
        },
        other => panic!("expected a link message, got {:?}", other),
    }
    assert_eq!(required_length(&msg), raw.len());
    assert_eq!(encode(&msg), raw);
}
