//! The binary layout of decoded camera events.
//!
//! Every record is tightly packed and little-endian.
//!
//! A DVS event takes 13 bytes: `t` (8), `x` (2), `y` (2), `on` (1).
//! A trigger event takes 26 bytes: `system_time` (8), `system_timestamp` (8), `t` (8), `id` (1),
//! `rising` (1).

use vstd::prelude::*;

use crate::bytes;

verus! {

/// Bytes per DVS event.
pub const DVS_EVENT_SIZE: usize = 13;

/// Bytes per trigger event.
pub const TRIGGER_EVENT_SIZE: usize = 26;

/// A change of contrast at one pixel.
#[derive(Clone, Copy, Debug, PartialEq, Eq, Structural)]
pub struct DvsEvent {
    /// Sensor timestamp in microseconds.
    pub t: u64,
    /// Pixel column.
    pub x: u16,
    /// Pixel row.
    pub y: u16,
    /// 1 for ON polarity, 0 for OFF.
    pub on: u8,
}

/// An edge on an external trigger line.
#[derive(Clone, Copy, Debug, PartialEq, Eq, Structural)]
pub struct TriggerEvent {
    /// Wall-clock time at which the packet was taken over, in microseconds.
    pub system_time: u64,
    /// Wall-clock time at which the packet arrived, in microseconds.
    pub system_timestamp: u64,
    /// Sensor timestamp in microseconds.
    pub t: u64,
    /// Trigger channel.
    pub id: u8,
    /// 1 for a rising edge, 0 for a falling one.
    pub rising: u8,
}

/// The record of a DVS event.
pub open spec fn dvs_record(e: DvsEvent) -> Seq<u8> {
    bytes::le_bytes(e.t as nat, 8) + bytes::le_bytes(e.x as nat, 2)
        + bytes::le_bytes(e.y as nat, 2) + seq![e.on]
}

/// The record of a trigger event.
pub open spec fn trigger_record(e: TriggerEvent) -> Seq<u8> {
    bytes::le_bytes(e.system_time as nat, 8) + bytes::le_bytes(
        e.system_timestamp as nat,
        8,
    ) + bytes::le_bytes(e.t as nat, 8) + seq![e.id, e.rising]
}

/// The DVS event that a record of 13 bytes holds.
pub open spec fn dvs_of(s: Seq<u8>) -> DvsEvent {
    DvsEvent {
        t: bytes::le_value(s.subrange(0, 8)) as u64,
        x: bytes::le_value(s.subrange(8, 10)) as u16,
        y: bytes::le_value(s.subrange(10, 12)) as u16,
        on: s[12],
    }
}

/// The trigger event that a record of 26 bytes holds.
pub open spec fn trigger_of(s: Seq<u8>) -> TriggerEvent {
    TriggerEvent {
        system_time: bytes::le_value(s.subrange(0, 8)) as u64,
        system_timestamp: bytes::le_value(s.subrange(8, 16)) as u64,
        t: bytes::le_value(s.subrange(16, 24)) as u64,
        id: s[24],
        rising: s[25],
    }
}

/// The records of a run of DVS events, one after another.
pub open spec fn dvs_stream(events: Seq<DvsEvent>) -> Seq<u8>
    decreases events.len(),
{
    if events.len() == 0 {
        seq![]
    } else {
        dvs_stream(events.drop_last()) + dvs_record(events.last())
    }
}

/// The records of a run of trigger events, one after another.
pub open spec fn trigger_stream(events: Seq<TriggerEvent>) -> Seq<u8>
    decreases events.len(),
{
    if events.len() == 0 {
        seq![]
    } else {
        trigger_stream(events.drop_last()) + trigger_record(events.last())
    }
}

/// The DVS events that a payload holds: one per 13 bytes, an incomplete record at the end is left
/// out.
pub open spec fn dvs_events(payload: Seq<u8>) -> Seq<DvsEvent> {
    Seq::new(
        (payload.len() / 13) as nat,
        |i: int| dvs_of(payload.subrange(13 * i, 13 * i + 13)),
    )
}

/// The trigger events that a payload holds: one per 26 bytes, an incomplete record at the end is
/// left out.
pub open spec fn trigger_events(payload: Seq<u8>) -> Seq<TriggerEvent> {
    Seq::new(
        (payload.len() / 26) as nat,
        |i: int| trigger_of(payload.subrange(26 * i, 26 * i + 26)),
    )
}

/// A DVS record has 13 bytes and holds the event it was written from.
pub proof fn dvs_reads_back(e: DvsEvent)
    ensures
        dvs_record(e).len() == 13,
        dvs_of(dvs_record(e)) == e,
{
    reveal_with_fuel(bytes::capacity, 9);
    let t = bytes::le_bytes(e.t as nat, 8);
    let x = bytes::le_bytes(e.x as nat, 2);
    let y = bytes::le_bytes(e.y as nat, 2);
    bytes::le_reads_back(e.t as nat, 8);
    bytes::le_reads_back(e.x as nat, 2);
    bytes::le_reads_back(e.y as nat, 2);
    let r = dvs_record(e);
    assert(r.subrange(0, 8) =~= t);
    assert(r.subrange(8, 10) =~= x);
    assert(r.subrange(10, 12) =~= y);
}

/// Any 13 bytes are the record of the event they hold.
pub proof fn dvs_writes_back(s: Seq<u8>)
    requires
        s.len() == 13,
    ensures
        dvs_record(dvs_of(s)) == s,
{
    reveal_with_fuel(bytes::capacity, 9);
    bytes::le_writes_back(s.subrange(0, 8));
    bytes::le_writes_back(s.subrange(8, 10));
    bytes::le_writes_back(s.subrange(10, 12));
    assert(dvs_record(dvs_of(s)) =~= s);
}

/// A trigger record has 26 bytes and holds the event it was written from.
pub proof fn trigger_reads_back(e: TriggerEvent)
    ensures
        trigger_record(e).len() == 26,
        trigger_of(trigger_record(e)) == e,
{
    reveal_with_fuel(bytes::capacity, 9);
    bytes::le_reads_back(e.system_time as nat, 8);
    bytes::le_reads_back(e.system_timestamp as nat, 8);
    bytes::le_reads_back(e.t as nat, 8);
    let r = trigger_record(e);
    assert(r.subrange(0, 8) =~= bytes::le_bytes(e.system_time as nat, 8));
    assert(r.subrange(8, 16) =~= bytes::le_bytes(e.system_timestamp as nat, 8));
    assert(r.subrange(16, 24) =~= bytes::le_bytes(e.t as nat, 8));
}

/// Any 26 bytes are the record of the trigger event they hold.
pub proof fn trigger_writes_back(s: Seq<u8>)
    requires
        s.len() == 26,
    ensures
        trigger_record(trigger_of(s)) == s,
{
    reveal_with_fuel(bytes::capacity, 9);
    bytes::le_writes_back(s.subrange(0, 8));
    bytes::le_writes_back(s.subrange(8, 16));
    bytes::le_writes_back(s.subrange(16, 24));
    assert(trigger_record(trigger_of(s)) =~= s);
}

/// The records of two runs of DVS events, one after the other, are the records of both runs.
pub proof fn dvs_stream_concat(a: Seq<DvsEvent>, b: Seq<DvsEvent>)
    ensures
        dvs_stream(a + b) == dvs_stream(a) + dvs_stream(b),
    decreases b.len(),
{
    if b.len() == 0 {
        assert(a + b =~= a);
        assert(dvs_stream(a) + dvs_stream(b) =~= dvs_stream(a));
    } else {
        dvs_stream_concat(a, b.drop_last());
        assert((a + b).drop_last() =~= a + b.drop_last());
        assert(dvs_stream(a + b) =~= dvs_stream(a) + dvs_stream(b));
    }
}

/// The records of two runs of trigger events, one after the other, are the records of both runs.
pub proof fn trigger_stream_concat(a: Seq<TriggerEvent>, b: Seq<TriggerEvent>)
    ensures
        trigger_stream(a + b) == trigger_stream(a) + trigger_stream(b),
    decreases b.len(),
{
    if b.len() == 0 {
        assert(a + b =~= a);
        assert(trigger_stream(a) + trigger_stream(b) =~= trigger_stream(a));
    } else {
        trigger_stream_concat(a, b.drop_last());
        assert((a + b).drop_last() =~= a + b.drop_last());
        assert(trigger_stream(a + b) =~= trigger_stream(a) + trigger_stream(b));
    }
}

/// A reader of the payload gets back exactly the DVS events that were written, in order.
pub proof fn dvs_stream_reads_back(events: Seq<DvsEvent>)
    ensures
        dvs_stream(events).len() == 13 * events.len(),
        dvs_events(dvs_stream(events)) == events,
    decreases events.len(),
{
    if events.len() == 0 {
        assert(dvs_events(dvs_stream(events)) =~= events);
    } else {
        let init = events.drop_last();
        dvs_stream_reads_back(init);
        dvs_reads_back(events.last());
        let s = dvs_stream(events);
        let n = init.len() as int;
        assert forall|i: int| 0 <= i < events.len() implies #[trigger] dvs_events(s)[i]
            == events[i] by {
            if i < n {
                assert(s.subrange(13 * i, 13 * i + 13) =~= dvs_stream(init).subrange(
                    13 * i,
                    13 * i + 13,
                ));
                assert(dvs_events(dvs_stream(init))[i] == init[i]);
            } else {
                assert(s.subrange(13 * i, 13 * i + 13) =~= dvs_record(events.last()));
            }
        }
        assert(dvs_events(s) =~= events);
    }
}

/// A reader of the payload gets back exactly the trigger events that were written, in order.
pub proof fn trigger_stream_reads_back(events: Seq<TriggerEvent>)
    ensures
        trigger_stream(events).len() == 26 * events.len(),
        trigger_events(trigger_stream(events)) == events,
    decreases events.len(),
{
    if events.len() == 0 {
        assert(trigger_events(trigger_stream(events)) =~= events);
    } else {
        let init = events.drop_last();
        trigger_stream_reads_back(init);
        trigger_reads_back(events.last());
        let s = trigger_stream(events);
        let n = init.len() as int;
        assert forall|i: int| 0 <= i < events.len() implies #[trigger] trigger_events(s)[i]
            == events[i] by {
            if i < n {
                assert(s.subrange(26 * i, 26 * i + 26) =~= trigger_stream(init).subrange(
                    26 * i,
                    26 * i + 26,
                ));
                assert(trigger_events(trigger_stream(init))[i] == init[i]);
            } else {
                assert(s.subrange(26 * i, 26 * i + 26) =~= trigger_record(events.last()));
            }
        }
        assert(trigger_events(s) =~= events);
    }
}

impl DvsEvent {
    /// Serialises the event as its record.
    pub fn to_bytes(&self) -> (b: [u8; DVS_EVENT_SIZE])
        ensures
            b@ == dvs_record(*self),
    {
        let t = bytes::le64(self.t);
        let x = bytes::le16(self.x);
        let y = bytes::le16(self.y);
        let b: [u8; DVS_EVENT_SIZE] = [
            t[0],
            t[1],
            t[2],
            t[3],
            t[4],
            t[5],
            t[6],
            t[7],
            x[0],
            x[1],
            y[0],
            y[1],
            self.on,
        ];
        assert(b@ =~= dvs_record(*self));
        b
    }
}

impl TriggerEvent {
    /// Serialises the event as its record.
    pub fn to_bytes(&self) -> (b: [u8; TRIGGER_EVENT_SIZE])
        ensures
            b@ == trigger_record(*self),
    {
        let a = bytes::le64(self.system_time);
        let s = bytes::le64(self.system_timestamp);
        let t = bytes::le64(self.t);
        let b: [u8; TRIGGER_EVENT_SIZE] = [
            a[0],
            a[1],
            a[2],
            a[3],
            a[4],
            a[5],
            a[6],
            a[7],
            s[0],
            s[1],
            s[2],
            s[3],
            s[4],
            s[5],
            s[6],
            s[7],
            t[0],
            t[1],
            t[2],
            t[3],
            t[4],
            t[5],
            t[6],
            t[7],
            self.id,
            self.rising,
        ];
        assert(b@ =~= trigger_record(*self));
        b
    }
}

/// Reads the DVS event whose record starts at `at`.
pub fn read_dvs(payload: &[u8], at: usize) -> (e: DvsEvent)
    requires
        at + 13 <= payload@.len(),
    ensures
        e == dvs_of(payload@.subrange(at as int, at + 13)),
{
    let ghost r = payload@.subrange(at as int, at + 13);
    assert(payload@.len() == payload.len());
    assert(r.subrange(0, 8) =~= payload@.subrange(at as int, at + 8));
    assert(r.subrange(8, 10) =~= payload@.subrange(at + 8, at + 10));
    assert(r.subrange(10, 12) =~= payload@.subrange(at + 10, at + 12));
    DvsEvent {
        t: bytes::read_u64(payload, at),
        x: bytes::read_u16(payload, at + 8),
        y: bytes::read_u16(payload, at + 10),
        on: payload[at + 12],
    }
}

/// Serialises a run of DVS events.
pub fn encode_dvs(events: &Vec<DvsEvent>) -> (b: Vec<u8>)
    ensures
        b@ == dvs_stream(events@),
{
    let mut b: Vec<u8> = Vec::new();
    let mut i: usize = 0;
    while i < events.len()
        invariant
            i <= events@.len(),
            b@ == dvs_stream(events@.take(i as int)),
        decreases events@.len() - i,
    {
        let r = events[i].to_bytes();
        bytes::append_bytes(&mut b, r.as_slice());
        assert(events@.take(i + 1).drop_last() =~= events@.take(i as int));
        i += 1;
    }
    assert(events@.take(i as int) =~= events@);
    b
}

/// Serialises a run of trigger events.
pub fn encode_triggers(events: &Vec<TriggerEvent>) -> (b: Vec<u8>)
    ensures
        b@ == trigger_stream(events@),
{
    let mut b: Vec<u8> = Vec::new();
    let mut i: usize = 0;
    while i < events.len()
        invariant
            i <= events@.len(),
            b@ == trigger_stream(events@.take(i as int)),
        decreases events@.len() - i,
    {
        let r = events[i].to_bytes();
        bytes::append_bytes(&mut b, r.as_slice());
        assert(events@.take(i + 1).drop_last() =~= events@.take(i as int));
        i += 1;
    }
    assert(events@.take(i as int) =~= events@);
    b
}

// ---------------------------------------------------------------------------
// The layout, byte by byte
// ---------------------------------------------------------------------------
/// Byte `i` of a number, counted from the lowest.
pub open spec fn byte_of(x: u64, i: nat) -> int {
    (x as int / vstd::arithmetic::power::pow(256, i)) % 256
}

/// Where each field of a DVS event stands in its record.
pub proof fn dvs_layout(e: DvsEvent)
    ensures
        ({
            let r = dvs_record(e);
            &&& r.len() == 13
            &&& forall|i: int| 0 <= i < 8 ==> #[trigger] r[i] as int == byte_of(e.t, i as nat)
            &&& r[8] as int == e.x as int % 256
            &&& r[9] as int == e.x as int / 256
            &&& r[10] as int == e.y as int % 256
            &&& r[11] as int == e.y as int / 256
            &&& r[12] == e.on
        }),
{
    let r = dvs_record(e);
    dvs_reads_back(e);
    bytes::le_reads_back(e.t as nat, 8);
    bytes::le_reads_back(e.x as nat, 2);
    bytes::le_reads_back(e.y as nat, 2);
    assert forall|i: int| 0 <= i < 8 implies #[trigger] r[i] as int == byte_of(e.t, i as nat) by {
        bytes::le_bytes_are_digits(e.t as nat, 8, i as nat);
    }
    two_bytes(e.x);
    two_bytes(e.y);
    assert(r[8] == bytes::le_bytes(e.x as nat, 2)[0]);
    assert(r[9] == bytes::le_bytes(e.x as nat, 2)[1]);
    assert(r[10] == bytes::le_bytes(e.y as nat, 2)[0]);
    assert(r[11] == bytes::le_bytes(e.y as nat, 2)[1]);
}

proof fn two_bytes(x: u16)
    ensures
        bytes::le_bytes(x as nat, 2).len() == 2,
        bytes::le_bytes(x as nat, 2)[0] as int == x as int % 256,
        bytes::le_bytes(x as nat, 2)[1] as int == x as int / 256,
{
    bytes::le_reads_back(x as nat, 2);
    bytes::le_bytes_are_digits(x as nat, 2, 0);
    bytes::le_bytes_are_digits(x as nat, 2, 1);
    vstd::arithmetic::power::lemma_pow0(256);
    vstd::arithmetic::power::lemma_pow1(256);
}

/// Where each field of a trigger event stands in its record.
pub proof fn trigger_layout(e: TriggerEvent)
    ensures
        ({
            let r = trigger_record(e);
            &&& r.len() == 26
            &&& forall|i: int|
                0 <= i < 8 ==> {
                    &&& #[trigger] r[i] as int == byte_of(e.system_time, i as nat)
                    &&& r[8 + i] as int == byte_of(e.system_timestamp, i as nat)
                    &&& r[16 + i] as int == byte_of(e.t, i as nat)
                }
            &&& r[24] == e.id
            &&& r[25] == e.rising
        }),
{
    let r = trigger_record(e);
    trigger_reads_back(e);
    bytes::le_reads_back(e.system_time as nat, 8);
    bytes::le_reads_back(e.system_timestamp as nat, 8);
    bytes::le_reads_back(e.t as nat, 8);
    assert forall|i: int| 0 <= i < 8 implies {
        &&& #[trigger] r[i] as int == byte_of(e.system_time, i as nat)
        &&& r[8 + i] as int == byte_of(e.system_timestamp, i as nat)
        &&& r[16 + i] as int == byte_of(e.t, i as nat)
    } by {
        bytes::le_bytes_are_digits(e.system_time as nat, 8, i as nat);
        bytes::le_bytes_are_digits(e.system_timestamp as nat, 8, i as nat);
        bytes::le_bytes_are_digits(e.t as nat, 8, i as nat);
        assert(r[8 + i] == bytes::le_bytes(e.system_timestamp as nat, 8)[i]);
        assert(r[16 + i] == bytes::le_bytes(e.t as nat, 8)[i]);
    }
}

/// The record of event `i` stands at 13 times `i`.
pub proof fn dvs_stream_is_records(es: Seq<DvsEvent>, i: int)
    requires
        0 <= i < es.len(),
    ensures
        dvs_stream(es).len() == 13 * es.len(),
        dvs_stream(es).subrange(13 * i, 13 * i + 13) == dvs_record(es[i]),
{
    dvs_stream_reads_back(es);
    let s = dvs_stream(es);
    assert(dvs_events(s)[i] == es[i]);
    dvs_writes_back(s.subrange(13 * i, 13 * i + 13));
}

/// The record of trigger event `i` stands at 26 times `i`.
pub proof fn trigger_stream_is_records(es: Seq<TriggerEvent>, i: int)
    requires
        0 <= i < es.len(),
    ensures
        trigger_stream(es).len() == 26 * es.len(),
        trigger_stream(es).subrange(26 * i, 26 * i + 26) == trigger_record(es[i]),
{
    trigger_stream_reads_back(es);
    let s = trigger_stream(es);
    assert(trigger_events(s)[i] == es[i]);
    trigger_writes_back(s.subrange(26 * i, 26 * i + 26));
}

/// A payload holds as many events as it has whole records, and each event is the one whose record
/// stands there.
pub proof fn payload_holds_records(payload: Seq<u8>, i: int)
    ensures
        dvs_events(payload).len() == payload.len() / 13,
        0 <= i < payload.len() / 13 ==> dvs_record(dvs_events(payload)[i]) == payload.subrange(
            13 * i,
            13 * i + 13,
        ),
        trigger_events(payload).len() == payload.len() / 26,
        0 <= i < payload.len() / 26 ==> trigger_record(trigger_events(payload)[i])
            == payload.subrange(26 * i, 26 * i + 26),
{
    if 0 <= i < payload.len() / 13 {
        dvs_writes_back(payload.subrange(13 * i, 13 * i + 13));
    }
    if 0 <= i < payload.len() / 26 {
        trigger_writes_back(payload.subrange(26 * i, 26 * i + 26));
    }
}

} // verus!
