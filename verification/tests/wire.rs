//! The binary layout of events and messages.

use evk_datalogger::bytes::{le16, le32, le64, read_u16, read_u32, read_u64};
use evk_datalogger::decoder::{encode_packet, TriggerEdge};
use evk_datalogger::events::{encode_dvs, encode_triggers, read_dvs, DvsEvent, TriggerEvent};
use evk_datalogger::replay::{dvs_to_bytes, trigger_to_bytes};
use evk_datalogger::socket::{frame_prefix, payload_len, recv_start, recv_step, Receiving};

#[test]
fn dvs_event_layout() {
    let e = DvsEvent { t: 0x0102030405060708, x: 0x1122, y: 0x3344, on: 1 };
    let b = e.to_bytes();
    assert_eq!(b, [8, 7, 6, 5, 4, 3, 2, 1, 0x22, 0x11, 0x44, 0x33, 1]);
    assert_eq!(dvs_to_bytes(e.t, e.x, e.y, e.on), b);
    assert_eq!(read_dvs(&b, 0), e);
}

#[test]
fn trigger_event_layout() {
    let e = TriggerEvent { system_time: 1, system_timestamp: 0x0200, t: 0x030000, id: 4, rising: 1 };
    let b = e.to_bytes();
    let mut expected = [0u8; 26];
    expected[0] = 1;
    expected[9] = 2;
    expected[18] = 3;
    expected[24] = 4;
    expected[25] = 1;
    assert_eq!(b, expected);
    assert_eq!(trigger_to_bytes(1, 0x0200, 0x030000, 4, 1), b);
}

#[test]
fn little_endian_numbers_read_back() {
    assert_eq!(le16(0xabcd), [0xcd, 0xab]);
    assert_eq!(le32(0xdeadbeef), [0xef, 0xbe, 0xad, 0xde]);
    assert_eq!(le64(u64::MAX), [255; 8]);
    let s = [9u8, 0xcd, 0xab, 0, 0, 1, 0, 0, 0, 0x80];
    assert_eq!(read_u16(&s, 1), 0xabcd);
    assert_eq!(read_u32(&s, 1), 0x0000abcd);
    assert_eq!(read_u64(&s, 2), 0x80000000_010000ab);
    assert_eq!(read_u64(&le64(12345678901234567890), 0), 12345678901234567890);
}

#[test]
fn streams_are_records_in_a_row() {
    let a = DvsEvent { t: 1, x: 2, y: 3, on: 0 };
    let b = DvsEvent { t: 4, x: 5, y: 6, on: 1 };
    let s = encode_dvs(&vec![a, b]);
    assert_eq!(s.len(), 26);
    assert_eq!(read_dvs(&s, 0), a);
    assert_eq!(read_dvs(&s, 13), b);
    assert!(encode_dvs(&vec![]).is_empty());
    let t = TriggerEvent { system_time: 1, system_timestamp: 2, t: 3, id: 0, rising: 0 };
    let s = encode_triggers(&vec![t, t]);
    assert_eq!(s[..26], t.to_bytes());
    assert_eq!(s[26..], t.to_bytes());
}

#[test]
fn packet_carries_times_counts_and_latest_timestamp() {
    let dvs = vec![DvsEvent { t: 10, x: 1, y: 1, on: 1 }, DvsEvent { t: 30, x: 2, y: 2, on: 0 }];
    let edges = vec![TriggerEdge { t: 20, id: 3, rising: 1 }];
    let p = encode_packet(&dvs, &edges, 100, 90);
    assert_eq!(p.events, encode_dvs(&dvs));
    assert_eq!(p.triggers, trigger_to_bytes(100, 90, 20, 3, 1).to_vec());
    assert_eq!((p.dvs_count, p.trigger_count), (2, 1));
    assert_eq!((p.first_t, p.last_t), (Some(10), Some(30)));

    let p = encode_packet(&vec![], &edges, 0, 0);
    assert_eq!((p.dvs_count, p.trigger_count), (0, 1));
    assert_eq!((p.first_t, p.last_t), (Some(20), Some(20)));
    let early = vec![TriggerEdge { t: 5, id: 0, rising: 0 }];
    assert_eq!(encode_packet(&dvs, &early, 0, 0).first_t, Some(5));
    let p = encode_packet(&dvs, &vec![], 0, 0);
    assert_eq!(p.last_t, Some(30));
    let p = encode_packet(&vec![], &vec![], 0, 0);
    assert_eq!((p.events.len(), p.triggers.len()), (0, 0));
    assert_eq!((p.first_t, p.last_t), (None, None));
}

#[test]
fn message_prefix_is_the_length() {
    let payload = vec![7u8; 0x010203];
    let prefix = frame_prefix(&payload);
    assert_eq!(prefix, [3, 2, 1, 0]);
    assert_eq!(payload_len(&prefix), 0x010203);
    assert_eq!(frame_prefix(&[]), [0; 4]);
    assert_eq!(payload_len(&[255; 4]), u32::MAX);
}

#[test]
fn receiving_ends_when_full_or_closed() {
    assert_eq!(recv_start(0), Receiving::Full);
    assert_eq!(recv_start(4), Receiving::More(0));
    assert_eq!(recv_step(0, 4, 3), Receiving::More(3));
    assert_eq!(recv_step(3, 4, 1), Receiving::Full);
    assert_eq!(recv_step(3, 4, 0), Receiving::Closed);
}
