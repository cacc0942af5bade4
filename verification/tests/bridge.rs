//! Bridge VLAN info records captured from a bridge dump.

use rtnetlink_codec::af_bridge::{AfSpecBridge, BridgeVlanInfo};
use rtnetlink_codec::nla::{emit_attrs, parse_attrs};

#[test]
fn test_af_spec_bridge() {
    let raw: Vec<u8> = vec![
        0x08, 0x00, 0x02, 0x00, 0x06, 0x00, 0x01, 0x00, 0x08, 0x00, 0x02, 0x00,
        0x08, 0x00, 0x02, 0x00, 0x08, 0x00, 0x02, 0x00, 0x10, 0x00, 0xfe, 0x0f,
    ];

    let expected = vec![
        AfSpecBridge::VlanInfo(BridgeVlanInfo { flags: 6, vid: 1 }),
        AfSpecBridge::VlanInfo(BridgeVlanInfo { flags: 8, vid: 2 }),
        AfSpecBridge::VlanInfo(BridgeVlanInfo {
            flags: 16,
            vid: 4094,
        }),
    ];

    assert_eq!(parse_attrs::<(), AfSpecBridge>(&(), &raw).unwrap(), expected);
}

#[test]
fn af_spec_bridge_reencodes_exactly() {
    let raw: Vec<u8> = vec![
        0x08, 0x00, 0x02, 0x00, 0x06, 0x00, 0x01, 0x00, 0x08, 0x00, 0x02, 0x00,
        0x08, 0x00, 0x02, 0x00, 0x08, 0x00, 0x02, 0x00, 0x10, 0x00, 0xfe, 0x0f,
    ];
    let parsed: Vec<AfSpecBridge> = parse_attrs(&(), &raw).unwrap();
    let mut out: Vec<u8> = Vec::new();
    emit_attrs(&parsed, &mut out);
    assert_eq!(out, raw);
}
