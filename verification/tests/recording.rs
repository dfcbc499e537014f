//! Decoding, buffering and recording of live packets, and their replay.

use evk_datalogger::buffer::CircularBuffer;
use evk_datalogger::decoder::Decoder;
use evk_datalogger::events::DvsEvent;
use evk_datalogger::names::{
    default_tmp_dir, name_at, stamped_name, LAST_SECOND,
};
use evk_datalogger::pipeline::{
    live_messages, report_due, Edge, Metrics, OwnedPacket, PacketCost, Processor, Watchdog,
};
use evk_datalogger::replay::{
    publish_start, publish_step, trigger_to_bytes, Pacer, Publishing, Replay,
};

/// The last second of the year 9999.
const LAST_SECOND_OF_9999: i64 = 253_402_300_799;

fn words(ws: &[u16]) -> Vec<u8> {
    ws.iter().flat_map(|w| w.to_le_bytes()).collect()
}

fn dvs(t: u64, x: u16, y: u16, on: u8) -> Vec<u8> {
    DvsEvent { t, x, y, on }.to_bytes().to_vec()
}

/// Time 0x1005, row 7: an ON event at column 3, a run of OFF events from column 100 on, and a
/// rising edge on channel 6.
fn sample() -> Vec<u8> {
    words(&[0x8001, 0x6005, 0x0007, 0x2803, 0x3064, 0x4005, 0xa601])
}

fn sample_events() -> Vec<u8> {
    [dvs(0x1005, 3, 7, 1), dvs(0x1005, 100, 7, 0), dvs(0x1005, 102, 7, 0)].concat()
}

#[test]
fn raw_data_is_decoded() {
    let mut d = Decoder::new(1280, 720);
    let p = d.decode_packet(&sample(), 11, 10).unwrap();
    assert_eq!(p.events, sample_events());
    assert_eq!(p.triggers, trigger_to_bytes(11, 10, 0x1005, 6, 1).to_vec());
    assert_eq!((p.dvs_count, p.trigger_count, p.last_t), (3, 1, Some(0x1005)));
    let p = d.decode_packet(&[], 0, 0).unwrap();
    assert_eq!((p.dvs_count, p.trigger_count, p.last_t), (0, 0, None));
}

#[test]
fn timestamps_go_on_after_a_wrap() {
    // The time high words 2047, 4094 and 0 make one wrap.
    let wrap = words(&[0x87ff, 0x8ffe, 0x8000]);
    let mut r = Replay::new();
    for n in 1..=3u64 {
        assert_eq!(r.next_chunk(&wrap).unwrap().last_t, None);
        let p = r.next_chunk(&words(&[0x2803])).unwrap();
        assert_eq!(p.events, dvs(n << 24, 3, 0, 1));
    }
}

#[test]
fn a_reopened_device_starts_its_time_anew() {
    let mut p = Processor::new(1280, 720, 0);
    p.decode(&OwnedPacket::new(words(&[0x8100, 0x2803]), 0, 0)).unwrap();
    p.finish_packet(vec![1, 2], 1, 1, 10, 100);
    p.started(1);
    // Without a restart the time does not go back.
    let late = OwnedPacket::new(words(&[0x8001, 0x0007, 0x2804]), 0, 0);
    assert_eq!(p.decode(&late).unwrap().events, dvs(0x10_0000, 4, 7, 1));
    p.reopened();
    assert_eq!(p.decode(&late).unwrap().events, dvs(0x1000, 4, 7, 1));
    // The buffer and the recording go on.
    assert!(p.is_open());
    assert_eq!(p.preroll(), vec![&vec![1u8, 2]]);
    let mut d = Decoder::new(1280, 720);
    d.decode_packet(&sample(), 0, 0).unwrap();
    d.restart();
    assert_eq!(d.decode_packet(&words(&[0x2803]), 0, 0).unwrap().events, dvs(0, 3, 0, 1));
}

#[test]
fn events_off_the_sensor_are_not_decoded() {
    let mut d = Decoder::new(4, 8);
    let p = d.decode_packet(&sample(), 0, 0).unwrap();
    assert_eq!(p.events, dvs(0x1005, 3, 7, 1));
}

#[test]
fn replay_does_not_depend_on_the_chunk_size() {
    let mut recording = sample();
    recording.extend_from_slice(&words(&[0x6105, 0x2004, 0x8002, 0x5003, 0xa000]));
    let mut whole = Replay::new();
    let p = whole.next_chunk(&recording).unwrap();
    for size in [1, 2, 3, 4, 5, 6, 7, 13, 14, 100] {
        let mut r = Replay::new();
        let (mut events, mut triggers) = (Vec::new(), Vec::new());
        for chunk in recording.chunks(size) {
            let q = r.next_chunk(chunk).unwrap();
            events.extend_from_slice(&q.events);
            triggers.extend_from_slice(&q.triggers);
        }
        assert_eq!((events, triggers), (p.events.clone(), p.triggers.clone()), "{size}");
    }
}

#[test]
fn a_word_cut_by_a_chunk_is_decoded_with_the_next_one() {
    let data = words(&[0x8001, 0x2803]);
    let mut r = Replay::new();
    assert!(r.next_chunk(&data[..3]).unwrap().events.is_empty());
    assert_eq!(r.next_chunk(&data[3..]).unwrap().events, dvs(0x1000, 3, 0, 1));
    // The first half of a word alone is nothing yet, however long it waits.
    assert!(r.next_chunk(&[0x04]).unwrap().events.is_empty());
    assert!(r.next_chunk(&[]).unwrap().events.is_empty());
    assert_eq!(r.next_chunk(&[0x28, 0x05]).unwrap().events, dvs(0x1000, 4, 0, 1));
    assert_eq!(r.next_chunk(&[0x28]).unwrap().events, dvs(0x1000, 5, 0, 1));
}

#[test]
fn replayed_triggers_carry_no_system_times() {
    let mut r = Replay::new();
    let p = r.next_chunk(&sample()).unwrap();
    assert_eq!(p.triggers, trigger_to_bytes(0, 0, 0x1005, 6, 1).to_vec());
    assert_eq!(r.totals(), (1, 0, 0));
    assert_eq!(r.count(&p), (1, 3, 1));
    assert!(r.next_chunk(&[]).is_some());
    assert_eq!(r.totals(), (2, 3, 1));
}

#[test]
fn replay_is_paced_from_its_first_event_on() {
    let mut r = Replay::new();
    assert_eq!(r.sleep_before(1, 0), 0);
    assert_eq!(r.pace(None, None, 5), None);
    // Pacing starts with the first event: the rest of its chunk is already paced.
    assert_eq!(r.pace(Some(1_000), Some(1_200), 7_000), Some(200));
    assert_eq!(r.sleep_before(200, 7_000), 200_000);
    assert_eq!(r.pace(Some(800), Some(900), 8_000), None);
    assert_eq!(r.pace(None, None, 8_500), None);
    assert_eq!(r.pace(Some(1_300), Some(1_500), 9_000), Some(500));
    assert_eq!(r.sleep_before(500, 9_000), 498_000);
    assert_eq!(r.sleep_before(500, 507_000), 0);
    assert_eq!(r.sleep_before(500, 600_000), 0);
    let mut r = Replay::new();
    assert_eq!(r.pace(Some(1_000), Some(1_000), 7_000), None);
}

#[test]
fn a_decoded_chunk_tells_its_first_and_latest_time() {
    let mut r = Replay::new();
    let p = r.next_chunk(&words(&[0x8001, 0x6005, 0x2803, 0x6009, 0xa601, 0x600b, 0x2004])).unwrap();
    assert_eq!((p.first_t, p.last_t), (Some(0x1005), Some(0x100b)));
    assert_eq!(r.pace(p.first_t, p.last_t, 0), Some(6));
}

#[test]
fn later_times_are_not_due_earlier() {
    let p = Pacer::new(100, 1_000_000);
    let mut due = 0;
    for ts in [101, 150, 150, 400, 10_000] {
        let target = p.sensor_delta(ts).unwrap() / 2;
        let release = p.wait_until(target, 1_100_000) + 1_100_000;
        assert!(release >= due);
        due = release;
    }
}

#[test]
fn pacer_waits_until_due() {
    let p = Pacer::new(100, 1_000_000);
    assert_eq!(p.sensor_delta(100), None);
    assert_eq!(p.sensor_delta(0), None);
    assert_eq!(p.sensor_delta(350), Some(250));
    assert_eq!(p.wait_until(250, 1_000_000), 250_000);
    assert_eq!(p.wait_until(250, 1_250_000), 0);
    assert_eq!(p.wait_until(u64::MAX, 0), 1_000_000 + u64::MAX as u128 * 1000);
}

#[test]
fn publishing_stops_when_a_client_is_gone() {
    let p = Decoder::new(1280, 720).decode_packet(&sample(), 0, 0).unwrap();
    let empty = Decoder::new(1280, 720).decode_packet(&[], 0, 0).unwrap();
    let edge = Decoder::new(1280, 720).decode_packet(&words(&[0xa001]), 0, 0).unwrap();
    assert_eq!(publish_start(&p, false), Publishing::SendEvents);
    assert_eq!(publish_start(&empty, true), Publishing::Done);
    assert_eq!(publish_start(&edge, true), Publishing::SendTriggers);
    assert_eq!(publish_start(&edge, false), Publishing::Done);
    assert_eq!(publish_step(Publishing::SendEvents, true, &p, true), Publishing::SendTriggers);
    assert_eq!(publish_step(Publishing::SendEvents, true, &p, false), Publishing::Done);
    assert_eq!(publish_step(Publishing::SendEvents, false, &p, true), Publishing::Stop);
    assert_eq!(publish_step(Publishing::SendTriggers, true, &p, true), Publishing::Done);
    assert_eq!(publish_step(Publishing::SendTriggers, false, &p, true), Publishing::Stop);
}

fn held(b: &CircularBuffer) -> Vec<Vec<u8>> {
    b.preroll().into_iter().cloned().collect()
}

#[test]
fn the_buffer_respects_both_caps() {
    let mut b = CircularBuffer::new();
    for i in 0..5u8 {
        b.push(i as u64 * 10, vec![i; 3]);
    }
    assert_eq!((b.total_bytes, b.chunks.len()), (15, 5));
    b.evict(40, 100, 100);
    assert_eq!(b.chunks.len(), 5);
    // By age: what arrived before 40 - 25 goes; what arrived exactly at the cutoff stays.
    b.evict(40, 25, 100);
    assert_eq!(held(&b), vec![vec![2; 3], vec![3; 3], vec![4; 3]]);
    b.evict(40, 20, 100);
    assert_eq!(b.chunks.len(), 3);
    // By size.
    b.evict(40, 25, 8);
    assert_eq!(held(&b), vec![vec![3; 3], vec![4; 3]]);
    assert_eq!(b.total_bytes, 6);
    b.evict(40, 25, 6);
    assert_eq!(b.chunks.len(), 2);
}

#[test]
fn a_cap_of_zero_turns_the_buffer_off() {
    let mut b = CircularBuffer::new();
    b.push(1, vec![1]);
    b.evict(1, 100, 0);
    assert_eq!((b.total_bytes, b.chunks.len()), (0, 0));
    b.push(1, vec![1]);
    b.evict(2, 0, 100);
    assert_eq!((b.total_bytes, b.chunks.len()), (0, 0));
}

#[test]
fn a_huge_age_disables_the_age_cap() {
    let mut b = CircularBuffer::new();
    b.push(0, vec![1]);
    b.evict(u64::MAX, u128::MAX, 10);
    assert_eq!(b.chunks.len(), 1);
}

#[test]
fn index_data_holds_the_times() {
    let p = OwnedPacket::new(vec![1], 0x0102, 2);
    assert_eq!(p.index_data, [2, 1, 0, 0, 0, 0, 0, 0, 0, 1, 0, 0, 0, 0, 0, 0]);
    assert_eq!(p.times(), (0x0102, 0x0100));
    assert_eq!(OwnedPacket::new(vec![], 5, 9).times(), (5, 0));
}

const SECOND: u64 = 1_000_000_000;

#[test]
fn a_recording_begins_with_the_preroll() {
    let mut p = Processor::new(1280, 720, 0);
    let mut file: Vec<u8> = Vec::new();
    for i in 0..6u8 {
        let now = i as u64 * SECOND;
        match p.edge(i >= 4) {
            Edge::Start => {
                for data in p.preroll() {
                    file.extend_from_slice(data);
                }
                p.started(now);
            }
            Edge::Stop => p.stopped(),
            Edge::Keep => {}
        }
        assert_eq!(p.is_open(), i >= 4);
        if p.is_open() {
            file.push(i);
        }
        p.finish_packet(vec![i], now, now, 2, 100);
    }
    // Nothing is missing and nothing is written twice.
    assert_eq!(file, vec![1, 2, 3, 4, 5]);
    assert_eq!(p.edge(true), Edge::Keep);
    assert_eq!(p.edge(false), Edge::Stop);
    p.stopped();
    assert!(!p.is_open());
    assert_eq!(p.edge(false), Edge::Keep);
    assert_eq!(p.edge(true), Edge::Start);
}

#[test]
fn only_a_recording_rolls_over() {
    let mut p = Processor::new(1280, 720, 0);
    assert!(!p.rollover_due(100 * SECOND, 60));
    p.started(5 * SECOND);
    assert!(!p.rollover_due(65 * SECOND - 1, 60));
    assert!(p.rollover_due(65 * SECOND, 60));
    p.rolled_over(65 * SECOND);
    assert!(p.is_open());
    assert!(!p.rollover_due(66 * SECOND, 60));
    // A clock that shows an earlier time counts as no time at all.
    assert!(!p.rollover_due(0, 60));
    assert!(p.rollover_due(0, 0));
}

#[test]
fn packets_are_decoded_with_their_times_and_buffered() {
    let mut p = Processor::new(1280, 720, 0);
    let packet = OwnedPacket::new(sample(), 1_000, 100);
    let d = p.decode(&packet).unwrap();
    assert_eq!(d.events, sample_events());
    assert_eq!(d.triggers, trigger_to_bytes(1_000, 900, 0x1005, 6, 1).to_vec());
    assert_eq!(p.finish_packet(packet.raw_bytes, 1, 2, 10, 100), (14, 1));
    assert_eq!(p.finish_packet(vec![1; 90], 2, 3, 10, 100), (90, 1));
    assert_eq!(p.finish_packet(vec![1; 5], 3, 4, 10, 0), (0, 0));
}

#[test]
fn empty_messages_are_not_sent() {
    let p = Decoder::new(1280, 720).decode_packet(&sample(), 0, 0).unwrap();
    assert_eq!(live_messages(&p), (Some(&p.events), Some(&p.triggers)));
    let p = Decoder::new(1280, 720).decode_packet(&words(&[0xa001]), 0, 0).unwrap();
    assert_eq!(live_messages(&p), (None, Some(&p.triggers)));
    let p = Decoder::new(1280, 720).decode_packet(&words(&[0x2003]), 0, 0).unwrap();
    assert_eq!(live_messages(&p), (Some(&p.events), None));
    let p = Decoder::new(1280, 720).decode_packet(&[], 0, 0).unwrap();
    assert_eq!(live_messages(&p), (None, None));
}

#[test]
fn metrics_are_summed_and_averaged() {
    let mut m = Metrics::new();
    assert_eq!(m.averages(), (0, 0, 0));
    let c = PacketCost {
        dvs_events: 10,
        trigger_events: 1,
        raw_bytes: 100,
        decode_us: 5,
        file_write_us: 8,
        socket_send_us: 1,
    };
    m.add_packet(&c);
    m.add_packet(&PacketCost { decode_us: 6, ..c });
    assert_eq!((m.packets, m.dvs_events, m.trigger_events, m.raw_bytes), (2, 20, 2, 200));
    assert_eq!(m.averages(), (5, 8, 1));
    assert!(!report_due(5, SECOND + 4));
    assert!(report_due(5, SECOND + 5));
    assert!(!report_due(SECOND, 0));
}

#[test]
fn the_watchdog_detects_silence() {
    let mut w = Watchdog::new(10, SECOND);
    assert!(!w.expired(11 * SECOND - 1));
    assert!(w.expired(11 * SECOND));
    w.note_data(5 * SECOND);
    assert!(!w.expired(11 * SECOND));
    assert!(w.expired(15 * SECOND));
    assert!(!w.expired(0));
    assert!(!Watchdog::new(0, 0).expired(u64::MAX));
}

#[test]
fn recordings_are_named_by_time() {
    assert_eq!(name_at(1_710_506_096, ".raw"), "20240315T123456Z_evk.raw");
    assert_eq!(name_at(0, ""), "19700101T000000Z_evk");
    assert_eq!(name_at(LAST_SECOND_OF_9999, ".raw"), "99991231T235959Z_evk.raw");
    assert_eq!(name_at(LAST_SECOND_OF_9999 + 1, ".raw"), "+100000101T000000Z_evk.raw");
    assert_eq!(name_at(LAST_SECOND, ""), "+2621421231T235959Z_evk");
    assert_eq!(stamped_name("now", ".bin"), "now_evk.bin");
    assert_eq!(default_tmp_dir(), "/tmp");
}

/// The number of days from 1 January 1970 to a date.
fn day_number(year: i64, month: i64, day: i64) -> i64 {
    let leap = year % 4 == 0 && (year % 100 != 0 || year % 400 == 0);
    let lengths = [31, if leap { 29 } else { 28 }, 31, 30, 31, 30, 31, 31, 30, 31, 30, 31];
    let before: i64 = lengths[..month as usize - 1].iter().sum();
    assert!(1 <= day && day <= lengths[month as usize - 1]);
    let past = year - 1;
    365 * past + past / 4 - past / 100 + past / 400 - 719162 + before + day - 1
}

#[test]
fn names_tell_the_date_and_the_time() {
    let mut secs = 0i64;
    while secs <= LAST_SECOND_OF_9999 {
        let name = name_at(secs, ".raw");
        assert_eq!(name.len(), 24, "{name}");
        let n = |a: usize, b: usize| name[a..b].parse::<i64>().unwrap();
        assert_eq!(day_number(n(0, 4), n(4, 6), n(6, 8)), secs / 86400, "{name}");
        assert_eq!(n(9, 11) * 3600 + n(11, 13) * 60 + n(13, 15), secs % 86400, "{name}");
        assert_eq!((&name[8..9], &name[15..]), ("T", "Z_evk.raw"));
        secs += 86400 * 31 + 12_345;
    }
    assert_eq!(day_number(1970, 1, 1), 0);
    assert_eq!(day_number(2024, 3, 15), 19797);
    assert_ne!(name_at(1_710_506_096, ".raw"), name_at(1_710_506_097, ".raw"));
}

#[test]
fn the_last_second_is_that_of_the_calendar() {
    assert_eq!(LAST_SECOND, chrono::DateTime::<chrono::Utc>::MAX_UTC.timestamp());
    assert!(name_at(LAST_SECOND, ".raw").ends_with("T235959Z_evk.raw"));
}
