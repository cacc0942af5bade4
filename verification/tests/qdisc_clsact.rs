//! A clsact qdisc dump captured from kernel traffic: decode, field checks,
//! and the byte-exact round trip.

use rtnetlink_codec::tc_handle::TcHandle;
use rtnetlink_codec::tc_message::{AddressFamily, TcAttribute, TcHeader, TcMessage};
use rtnetlink_codec::tc_stats::{TcStats, TcStats2, TcStatsBasic, TcStatsQueue};

#[test]
fn test_get_qdisc_clsact() {
    let raw = vec![
        0x00, 0x00, 0x00, 0x00, 0x0f, 0x00, 0x00, 0x00, 0x00, 0x00, 0xff, 0xff, 0xf1, 0xff, 0xff,
        0xff, 0x01, 0x00, 0x00, 0x00, 0x0b, 0x00, 0x01, 0x00, 0x63, 0x6c, 0x73, 0x61, 0x63, 0x74,
        0x00, 0x00, 0x05, 0x00, 0x0c, 0x00, 0x00, 0x00, 0x00, 0x00, 0x30, 0x00, 0x07, 0x00, 0x14,
        0x00, 0x01, 0x00, 0x00, 0x00, 0x00, 0x00, 0x00, 0x00, 0x00, 0x00, 0x00, 0x00, 0x00, 0x00,
        0x00, 0x00, 0x00, 0x00, 0x18, 0x00, 0x03, 0x00, 0x00, 0x00, 0x00, 0x00, 0x00, 0x00, 0x00,
        0x00, 0x00, 0x00, 0x00, 0x00, 0x00, 0x00, 0x00, 0x00, 0x00, 0x00, 0x00, 0x00, 0x2c, 0x00,
        0x03, 0x00, 0x00, 0x00, 0x00, 0x00, 0x00, 0x00, 0x00, 0x00, 0x00, 0x00, 0x00, 0x00, 0x00,
        0x00, 0x00, 0x00, 0x00, 0x00, 0x00, 0x00, 0x00, 0x00, 0x00, 0x00, 0x00, 0x00, 0x00, 0x00,
        0x00, 0x00, 0x00, 0x00, 0x00, 0x00, 0x00, 0x00, 0x00, 0x00, 0x00, 0x00,
    ];

    let expected = TcMessage {
        header: TcHeader {
            family: AddressFamily::Unspec,
            index: 15,
            handle: TcHandle {
                major: 0xffff,
                minor: 0,
            },
            parent: TcHandle {
                major: 0xffff,
                minor: 0xfff1,
            },
            info: 1,
        },
        attributes: vec![
            TcAttribute::Kind("clsact".to_string()),
            TcAttribute::HwOffload(0),
            TcAttribute::Stats2(vec![
                TcStats2::Basic(TcStatsBasic {
                    bytes: 0,
                    packets: 0,
                }),
                TcStats2::Queue(TcStatsQueue {
                    qlen: 0,
                    backlog: 0,
                    drops: 0,
                    requeues: 0,
                    overlimits: 0,
                }),
            ]),
            TcAttribute::Stats(TcStats {
                bytes: 0,
                packets: 0,
                drops: 0,
                overlimits: 0,
                bps: 0,
                pps: 0,
                qlen: 0,
                backlog: 0,
            }),
        ],
    };

    assert_eq!(expected, TcMessage::parse(&raw).unwrap());

    let buf = expected.emit();

    assert_eq!(buf, raw);
}

#[test]
fn clsact_buffer_len_matches_emit() {
    let raw = vec![
        0x00, 0x00, 0x00, 0x00, 0x0f, 0x00, 0x00, 0x00, 0x00, 0x00, 0xff, 0xff, 0xf1, 0xff, 0xff,
        0xff, 0x01, 0x00, 0x00, 0x00, 0x0b, 0x00, 0x01, 0x00, 0x63, 0x6c, 0x73, 0x61, 0x63, 0x74,
        0x00, 0x00,
    ];
    let msg = TcMessage::parse(&raw).unwrap();
    assert_eq!(msg.buffer_len(), raw.len());
    assert_eq!(msg.emit().len(), msg.buffer_len());
    assert_eq!(msg.emit(), raw);
}
