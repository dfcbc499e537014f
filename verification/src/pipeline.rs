//! The processing of live packets: recording with pre-roll, decoding, buffering and metrics.
//!
//! The processor decides; opening, writing and closing files and sending messages is up to the
//! caller. Times are nanoseconds since a fixed origin unless another unit is named.

use vstd::arithmetic::div_mod::lemma_fundamental_div_mod;
use vstd::arithmetic::power::lemma_pow_positive;
use vstd::arithmetic::power::pow;
use vstd::prelude::*;

use crate::buffer;
use crate::bytes;
use crate::decoder;

use crate::buffer::Chunk;
use crate::buffer::CircularBuffer;
use crate::decoder::DecodedPacket;
use crate::decoder::Decoder;

verus! {

// ---------------------------------------------------------------------------
// Packets
// ---------------------------------------------------------------------------
/// A raw packet with the times of its arrival.
#[derive(Debug)]
pub struct OwnedPacket {
    pub raw_bytes: Vec<u8>,
    /// The time at which the packet was taken over and the time at which it arrived, in
    /// microseconds, eight bytes each, lowest first.
    pub index_data: [u8; 16],
}

/// The time at which a packet arrived that was taken over at `now_us`, `delay_us` later.
pub open spec fn arrival(now_us: u64, delay_us: u64) -> u64 {
    if delay_us <= now_us {
        (now_us - delay_us) as u64
    } else {
        0
    }
}

/// The index data of a packet.
pub open spec fn index_of(now_us: u64, delay_us: u64) -> Seq<u8> {
    bytes::le_bytes(now_us as nat, 8) + bytes::le_bytes(arrival(now_us, delay_us) as nat, 8)
}

/// The times that index data holds.
pub open spec fn times_of(index: Seq<u8>) -> (u64, u64) {
    (
        bytes::le_value(index.subrange(0, 8)) as u64,
        bytes::le_value(index.subrange(8, 16)) as u64,
    )
}

impl OwnedPacket {
    /// A packet taken over at `now_us`, `delay_us` after its arrival.
    pub fn new(raw_bytes: Vec<u8>, now_us: u64, delay_us: u64) -> (p: Self)
        ensures
            p.raw_bytes == raw_bytes,
            p.index_data@ == index_of(now_us, delay_us),
    {
        let a = bytes::le64(now_us);
        let b = bytes::le64(now_us.saturating_sub(delay_us));
        let index_data: [u8; 16] = [
            a[0],
            a[1],
            a[2],
            a[3],
            a[4],
            a[5],
            a[6],
            a[7],
            b[0],
            b[1],
            b[2],
            b[3],
            b[4],
            b[5],
            b[6],
            b[7],
        ];
        assert(index_data@ =~= index_of(now_us, delay_us));
        OwnedPacket { raw_bytes, index_data }
    }

    /// The time at which the packet was taken over and the time at which it arrived.
    pub fn times(&self) -> (r: (u64, u64))
        ensures
            r == times_of(self.index_data@),
    {
        (
            bytes::read_u64(self.index_data.as_slice(), 0),
            bytes::read_u64(self.index_data.as_slice(), 8),
        )
    }
}

/// The times of a packet are read back from its index data.
pub proof fn index_reads_back(now_us: u64, delay_us: u64)
    ensures
        times_of(index_of(now_us, delay_us)) == (now_us, arrival(now_us, delay_us)),
{
    reveal_with_fuel(bytes::capacity, 9);
    let a = arrival(now_us, delay_us);
    bytes::le_reads_back(now_us as nat, 8);
    bytes::le_reads_back(a as nat, 8);
    let s = index_of(now_us, delay_us);
    assert(s.subrange(0, 8) =~= bytes::le_bytes(now_us as nat, 8));
    assert(s.subrange(8, 16) =~= bytes::le_bytes(a as nat, 8));
}

// ---------------------------------------------------------------------------
// Metrics
// ---------------------------------------------------------------------------
/// Sums over the packets since the last report. They wrap.
#[derive(Clone, Copy, Debug, PartialEq, Eq, Structural)]
pub struct Metrics {
    pub packets: u64,
    pub dvs_events: u64,
    pub trigger_events: u64,
    pub raw_bytes: u64,
    pub decode_us: u64,
    pub file_write_us: u64,
    pub socket_send_us: u64,
}

/// What one packet adds to the metrics.
#[derive(Clone, Copy, Debug, PartialEq, Eq, Structural)]
pub struct PacketCost {
    pub dvs_events: u64,
    pub trigger_events: u64,
    pub raw_bytes: u64,
    pub decode_us: u64,
    pub file_write_us: u64,
    pub socket_send_us: u64,
}

/// The average of a sum over packets, rounded down; over no packets it is the sum itself.
pub open spec fn average(sum: u64, packets: u64) -> int {
    sum as int / (if packets < 1 {
        1int
    } else {
        packets as int
    })
}

impl Metrics {
    /// No packets.
    pub fn new() -> (m: Self)
        ensures
            m == (Metrics {
                packets: 0,
                dvs_events: 0,
                trigger_events: 0,
                raw_bytes: 0,
                decode_us: 0,
                file_write_us: 0,
                socket_send_us: 0,
            }),
    {
        Metrics {
            packets: 0,
            dvs_events: 0,
            trigger_events: 0,
            raw_bytes: 0,
            decode_us: 0,
            file_write_us: 0,
            socket_send_us: 0,
        }
    }

    /// Adds a packet.
    pub fn add_packet(&mut self, c: &PacketCost)
        ensures
            *final(self) == (Metrics {
                packets: old(self).packets.wrapping_add(1),
                dvs_events: old(self).dvs_events.wrapping_add(c.dvs_events),
                trigger_events: old(self).trigger_events.wrapping_add(c.trigger_events),
                raw_bytes: old(self).raw_bytes.wrapping_add(c.raw_bytes),
                decode_us: old(self).decode_us.wrapping_add(c.decode_us),
                file_write_us: old(self).file_write_us.wrapping_add(c.file_write_us),
                socket_send_us: old(self).socket_send_us.wrapping_add(c.socket_send_us),
            }),
    {
        self.packets = self.packets.wrapping_add(1);
        self.dvs_events = self.dvs_events.wrapping_add(c.dvs_events);
        self.trigger_events = self.trigger_events.wrapping_add(c.trigger_events);
        self.raw_bytes = self.raw_bytes.wrapping_add(c.raw_bytes);
        self.decode_us = self.decode_us.wrapping_add(c.decode_us);
        self.file_write_us = self.file_write_us.wrapping_add(c.file_write_us);
        self.socket_send_us = self.socket_send_us.wrapping_add(c.socket_send_us);
    }

    /// The average times per packet for decoding, writing and sending, in microseconds.
    pub fn averages(&self) -> (r: (u64, u64, u64))
        ensures
            r.0 == average(self.decode_us, self.packets),
            r.1 == average(self.file_write_us, self.packets),
            r.2 == average(self.socket_send_us, self.packets),
    {
        let n: u64 = if self.packets < 1 {
            1
        } else {
            self.packets
        };
        (self.decode_us / n, self.file_write_us / n, self.socket_send_us / n)
    }
}

/// The time since an earlier one; 0 where the clock shows none.
pub open spec fn since(earlier: u64, now: u64) -> u64 {
    if earlier <= now {
        (now - earlier) as u64
    } else {
        0
    }
}

/// The time between metrics reports: one second.
pub const REPORT_NS: u64 = 1_000_000_000;

/// Decides whether a metrics report is due.
pub fn report_due(last_report: u64, now: u64) -> (r: bool)
    ensures
        r == (since(last_report, now) >= 1_000_000_000),
        r == (now >= last_report + 1_000_000_000),
{
    now.saturating_sub(last_report) >= REPORT_NS
}

// ---------------------------------------------------------------------------
// Publishing
// ---------------------------------------------------------------------------
/// A message for a socket, where there is anything to send.
pub open spec fn message(records: Seq<u8>) -> Option<Seq<u8>> {
    if records.len() > 0 {
        Some(records)
    } else {
        None
    }
}

fn message_of(records: &Vec<u8>) -> (r: Option<&Vec<u8>>)
    ensures
        match r {
            Some(m) => message(records@) == Some(m@),
            None => message(records@) is None,
        },
{
    if records.len() > 0 {
        Some(records)
    } else {
        None
    }
}

/// The messages for the events socket and the triggers socket. Empty messages are not sent, and
/// neither depends on the other.
pub fn live_messages(p: &DecodedPacket) -> (r: (Option<&Vec<u8>>, Option<&Vec<u8>>))
    ensures
        match r.0 {
            Some(m) => message(p.events@) == Some(m@),
            None => message(p.events@) is None,
        },
        match r.1 {
            Some(m) => message(p.triggers@) == Some(m@),
            None => message(p.triggers@) is None,
        },
{
    (message_of(&p.events), message_of(&p.triggers))
}

// ---------------------------------------------------------------------------
// Watchdog
// ---------------------------------------------------------------------------
/// Detects that a device gives no data at all any more.
#[derive(Clone, Copy, Debug, PartialEq, Eq, Structural)]
pub struct Watchdog {
    /// The longest silence, in seconds. 0 means that none is too long.
    pub timeout_secs: u64,
    /// When there was data last, or the device was opened.
    pub last_data: u64,
}

impl Watchdog {
    /// A watchdog for a device that was opened at `now`.
    pub fn new(timeout_secs: u64, now: u64) -> (w: Self)
        ensures
            w == (Watchdog { timeout_secs, last_data: now }),
    {
        Watchdog { timeout_secs, last_data: now }
    }

    /// Notes that there was data, or that the device was opened again.
    pub fn note_data(&mut self, now: u64)
        ensures
            *final(self) == (Watchdog { last_data: now, ..*old(self) }),
    {
        self.last_data = now;
    }

    /// Whether the device has been silent for too long and has to be opened again.
    pub fn expired(&self, now: u64) -> (r: bool)
        ensures
            r == (self.timeout_secs > 0 && since(self.last_data, now) >= self.timeout_secs
                * 1_000_000_000),
            r == (self.timeout_secs != 0 && now >= self.last_data + self.timeout_secs
                * 1_000_000_000),
    {
        self.timeout_secs > 0 && now.saturating_sub(self.last_data) as u128
            >= self.timeout_secs as u128 * 1_000_000_000
    }
}

// ---------------------------------------------------------------------------
// Recording
// ---------------------------------------------------------------------------
/// A change of the recording state.
#[derive(Clone, Copy, Debug, PartialEq, Eq, Structural)]
pub enum Edge {
    /// Open a file and write the pre-roll to it.
    Start,
    /// Close the file.
    Stop,
    /// Go on as before.
    Keep,
}

/// The change that is due where recording is asked for or not and a file is open or not.
pub open spec fn edge_of(recording: bool, open: bool) -> Edge {
    if recording && !open {
        Edge::Start
    } else if !recording && open {
        Edge::Stop
    } else {
        Edge::Keep
    }
}

/// The bytes of a run of packets, one after another.
pub open spec fn joined(packets: Seq<Seq<u8>>) -> Seq<u8>
    decreases packets.len(),
{
    if packets.len() == 0 {
        seq![]
    } else {
        joined(packets.drop_last()) + packets.last()
    }
}

/// The bytes of buffered chunks, without their times.
pub open spec fn payloads(chunks: Seq<Chunk>) -> Seq<Seq<u8>> {
    chunks.map_values(|c: Chunk| c.1)
}

/// The processing of live packets.
pub struct Processor {
    decoder: Decoder,
    circular: CircularBuffer,
    open: bool,
    last_rollover: u64,
    history: Ghost<Seq<Seq<u8>>>,
    first: Ghost<int>,
    recorded: Ghost<Seq<u8>>,
}

impl Processor {
    /// All packets processed so far.
    pub closed spec fn history(self) -> Seq<Seq<u8>> {
        self.history@
    }

    /// The buffered packets.
    pub closed spec fn buffered(self) -> Seq<Chunk> {
        self.circular@
    }

    /// Whether a file is open.
    pub closed spec fn open(self) -> bool {
        self.open
    }

    /// When the open file was opened.
    pub closed spec fn last_rollover(self) -> u64 {
        self.last_rollover
    }

    /// The position in the history of the first packet of the recording in progress.
    pub closed spec fn first(self) -> int {
        self.first@
    }

    /// What the recording in progress consists of, over all its files: the pre-roll and then every
    /// packet that was processed while a file was open.
    pub closed spec fn recorded(self) -> Seq<u8> {
        self.recorded@
    }

    /// The words decoded so far.
    pub closed spec fn fed(self) -> Seq<u8> {
        self.decoder.fed()
    }

    /// The width and height of the sensor.
    pub closed spec fn sensor(self) -> (u16, u16) {
        (self.decoder.width(), self.decoder.height())
    }

    /// What holds of the processor at all times: the buffer holds the latest packets and counts
    /// their bytes, and a recording is an unbroken run of packets, each of them once, that starts
    /// with those that were buffered when it began and reaches to the latest.
    pub open spec fn wf(self) -> bool {
        &&& self.buffer_wf()
        &&& self.buffered().len() <= self.history().len()
        &&& payloads(self.buffered()) == self.history().skip(
            self.history().len() - self.buffered().len(),
        )
        &&& self.open() ==> {
            &&& 0 <= self.first() <= self.history().len()
            &&& self.recorded() == joined(self.history().skip(self.first()))
        }
    }

    /// Whether the buffer's byte count is right.
    pub closed spec fn buffer_wf(self) -> bool {
        self.circular.wf()
    }

    /// Everything but the recording state is as it was.
    pub open spec fn same_data(self, other: Processor) -> bool {
        &&& self.history() == other.history()
        &&& self.buffered() == other.buffered()
        &&& self.fed() == other.fed()
        &&& self.sensor() == other.sensor()
    }

    /// A processor for a sensor of the given size: no file is open and nothing is buffered.
    pub fn new(width: u16, height: u16, now: u64) -> (p: Self)
        ensures
            p.wf(),
            p.history() == Seq::<Seq<u8>>::empty(),
            p.buffered() == Seq::<Chunk>::empty(),
            p.fed() == Seq::<u8>::empty(),
            p.sensor() == (width, height),
            !p.open(),
            p.last_rollover() == now,
    {
        let p = Processor {
            decoder: Decoder::new(width, height),
            circular: CircularBuffer::new(),
            open: false,
            last_rollover: now,
            history: Ghost(Seq::empty()),
            first: Ghost(0),
            recorded: Ghost(Seq::empty()),
        };
        assert(payloads(p.circular@) =~= p.history@.skip(0));
        p
    }

    /// The change of the recording state that is due.
    pub fn edge(&self, recording: bool) -> (r: Edge)
        ensures
            r == edge_of(recording, self.open()),
    {
        if recording && !self.open {
            Edge::Start
        } else if !recording && self.open {
            Edge::Stop
        } else {
            Edge::Keep
        }
    }

    /// Whether a file is open: the packet being processed is to be written to it.
    pub fn is_open(&self) -> (r: bool)
        ensures
            r == self.open(),
    {
        self.open
    }

    /// What a recording that starts now begins with: the buffered packets, oldest first.
    pub fn preroll(&self) -> (r: Vec<&Vec<u8>>)
        ensures
            r@.len() == self.buffered().len(),
            forall|i: int| 0 <= i < r@.len() ==> (#[trigger] r@[i])@ == self.buffered()[i].1,
    {
        self.circular.preroll()
    }

    /// Notes that a recording has started: a file is open and holds the pre-roll.
    pub fn started(&mut self, now: u64)
        requires
            old(self).wf(),
        ensures
            final(self).wf(),
            final(self).same_data(*old(self)),
            final(self).open(),
            final(self).last_rollover() == now,
            final(self).recorded() == joined(payloads(old(self).buffered())),
            final(self).first() == old(self).history().len() - old(self).buffered().len(),
    {
        self.open = true;
        self.last_rollover = now;
        self.first = Ghost(self.history@.len() - self.circular@.len());
        self.recorded = Ghost(joined(payloads(self.circular@)));
    }

    /// Notes that the recording has stopped and its file is closed.
    pub fn stopped(&mut self)
        requires
            old(self).wf(),
        ensures
            final(self).wf(),
            final(self).same_data(*old(self)),
            !final(self).open(),
            final(self).last_rollover() == old(self).last_rollover(),
    {
        self.open = false;
    }

    /// Whether it is time to go on in a new file. Only a recording rolls over.
    pub fn rollover_due(&self, now: u64, interval_secs: u64) -> (r: bool)
        ensures
            r == (self.open() && since(self.last_rollover(), now) >= interval_secs
                * 1_000_000_000),
            interval_secs > 0 ==> r == (self.open() && now >= self.last_rollover() + interval_secs
                * 1_000_000_000),
            interval_secs == 0 ==> r == self.open(),
    {
        self.open && now.saturating_sub(self.last_rollover) as u128 >= interval_secs as u128
            * 1_000_000_000
    }

    /// Notes that the recording goes on in a new file. The new file begins with the next packet.
    pub fn rolled_over(&mut self, now: u64)
        requires
            old(self).wf(),
        ensures
            final(self).wf(),
            final(self).same_data(*old(self)),
            final(self).open() == old(self).open(),
            final(self).recorded() == old(self).recorded(),
            final(self).first() == old(self).first(),
            final(self).last_rollover() == now,
    {
        self.last_rollover = now;
    }

    /// Decodes a packet; its trigger events carry the packet's times. It does not matter where the
    /// words decoded so far were cut into packets. `None`, with nothing decoded, exactly where the
    /// decoder's count of timestamp wraps has no room for the packet.
    pub fn decode(&mut self, packet: &OwnedPacket) -> (r: Option<DecodedPacket>)
        ensures
            old(self).wf() ==> final(self).wf(),
            final(self).history() == old(self).history(),
            final(self).buffered() == old(self).buffered(),
            final(self).sensor() == old(self).sensor(),
            final(self).open() == old(self).open(),
            final(self).last_rollover() == old(self).last_rollover(),
            final(self).recorded() == old(self).recorded(),
            final(self).first() == old(self).first(),
            r is Some <==> decoder::has_room(
                old(self).sensor().0,
                old(self).sensor().1,
                old(self).fed(),
                packet.raw_bytes@,
            ),
            r is None ==> final(self).fed() == old(self).fed(),
            r matches Some(p) ==> {
                let d = decoder::evt3_decoded(
                    old(self).sensor().0,
                    old(self).sensor().1,
                    old(self).fed(),
                    packet.raw_bytes@,
                );
                let (time, stamp) = times_of(packet.index_data@);
                &&& final(self).fed() == old(self).fed() + decoder::whole_words(packet.raw_bytes@)
                &&& decoder::packet_holds(p, d.0, d.1, time, stamp)
                &&& decoder::is_earliest(p.first_t, d.0, d.1)
                &&& decoder::is_latest(p.last_t, d.0, d.1)
                &&& forall|base: Seq<u8>, part: Seq<u8>|
                    base.len() % 2 == 0 && part.len() % 2 == 0 && base + part == old(self).fed()
                        ==> #[trigger] decoder::decodes_in_pieces(
                        old(self).sensor().0,
                        old(self).sensor().1,
                        base,
                        part,
                        packet.raw_bytes@,
                    )
            },
            decoder::evt3_wraps(
                old(self).sensor().0,
                old(self).sensor().1,
                final(self).fed(),
            ) <= decoder::evt3_wraps(
                old(self).sensor().0,
                old(self).sensor().1,
                old(self).fed(),
            ) + packet.raw_bytes@.len() / 2,
    {
        let (time, stamp): (u64, u64) = packet.times();
        self.decoder.decode_packet(packet.raw_bytes.as_slice(), time, stamp)
    }

    /// Notes that the device was opened again: its time starts anew, and so does decoding. The
    /// buffer and the recording go on.
    pub fn reopened(&mut self)
        requires
            old(self).wf(),
        ensures
            final(self).wf(),
            final(self).history() == old(self).history(),
            final(self).buffered() == old(self).buffered(),
            final(self).sensor() == old(self).sensor(),
            final(self).open() == old(self).open(),
            final(self).last_rollover() == old(self).last_rollover(),
            final(self).recorded() == old(self).recorded(),
            final(self).first() == old(self).first(),
            final(self).fed() == Seq::<u8>::empty(),
            decoder::evt3_wraps(old(self).sensor().0, old(self).sensor().1, final(self).fed()) == 0,
    {
        self.decoder.restart();
    }

    /// Ends the processing of a packet: it counts as recorded where a file is open, and it is moved
    /// into the buffer at the time `arrived`, which is then cut to its caps as of the time `now`.
    /// Gives the bytes and the chunks that are buffered.
    pub fn finish_packet(
        &mut self,
        raw: Vec<u8>,
        arrived: u64,
        now: u64,
        max_age_secs: u64,
        max_bytes: u64,
    ) -> (r: (u64, u64))
        requires
            old(self).wf(),
            buffer::total(old(self).buffered()) + raw@.len() <= usize::MAX,
        ensures
            final(self).wf(),
            final(self).history() == old(self).history().push(raw@),
            final(self).buffered() == buffer::evicted(
                old(self).buffered().push((arrived, raw@)),
                now,
                (max_age_secs * 1_000_000_000) as u128,
                max_bytes as usize,
            ),
            final(self).buffered().len() > 0 ==> now <= final(self).buffered()[0].0 + max_age_secs
                * 1_000_000_000,
            ({
                let all = old(self).buffered().push((arrived, raw@));
                &&& forall|i: int|
                    0 <= i < all.len() ==> now <= (#[trigger] all[i]).0 + max_age_secs
                        * 1_000_000_000
                &&& buffer::total(all) <= max_bytes as usize
            }) ==> final(self).buffered() == old(self).buffered().push((arrived, raw@)),
            final(self).fed() == old(self).fed(),
            final(self).sensor() == old(self).sensor(),
            final(self).open() == old(self).open(),
            final(self).last_rollover() == old(self).last_rollover(),
            final(self).first() == old(self).first(),
            old(self).open() ==> final(self).recorded() == old(self).recorded() + raw@,
            r.0 == buffer::total(final(self).buffered()),
            r.0 <= max_bytes as usize,
            r.1 == final(self).buffered().len(),
    {
        let ghost before = *self;
        let ghost packet = raw@;
        let max_age: u128 = max_age_secs as u128 * 1_000_000_000;
        self.circular.push(arrived, raw);
        let ghost pushed = self.circular@;
        self.circular.evict(now, max_age, #[verifier::truncate] (max_bytes as usize));
        self.history = Ghost(self.history@.push(packet));
        self.recorded = Ghost(self.recorded@ + packet);
        proof {
            buffer::evicted_is_longest_end(pushed, now, max_age, max_bytes as usize);
            let kept = self.circular@;
            let all = self.history@;
            assert(payloads(kept) =~= all.skip(all.len() - kept.len())) by {
                let n = before.history@.len();
                let k = before.circular@.len();
                assert forall|i: int| 0 <= i < kept.len() implies #[trigger] payloads(kept)[i]
                    == all.skip(all.len() - kept.len())[i] by {
                    let j = pushed.len() - kept.len() + i;
                    assert(kept[i] == pushed[j]);
                    if j < k {
                        assert(payloads(before.circular@)[j] == before.history@.skip(n - k)[j]);
                    }
                }
            }
            if self.open {
                let run = before.history@.skip(self.first@);
                assert(all.skip(self.first@) =~= run.push(packet));
                assert(run.push(packet).drop_last() =~= run);
            }
        }
        (self.circular.total_bytes as u64, self.circular.chunks.len() as u64)
    }
}

// ---------------------------------------------------------------------------
// Laws
// ---------------------------------------------------------------------------
/// The bytes of two runs of packets, one after the other, are the bytes of both runs.
pub proof fn joined_concat(a: Seq<Seq<u8>>, b: Seq<Seq<u8>>)
    ensures
        joined(a + b) == joined(a) + joined(b),
    decreases b.len(),
{
    if b.len() == 0 {
        assert(a + b =~= a);
        assert(joined(a) + joined(b) =~= joined(a));
    } else {
        joined_concat(a, b.drop_last());
        assert((a + b).drop_last() =~= a + b.drop_last());
        assert(joined(a + b) =~= joined(a) + joined(b));
    }
}

/// A recording contains the moments before it was asked for, without a gap and without a
/// repetition: split at any packet, it is the packets from its first one up to there, followed by
/// every packet from there on, each of them once. Split where the recording began, the first part
/// is the pre-roll.
pub proof fn recording_is_unbroken(p: Processor, at: int)
    requires
        p.wf(),
        p.open(),
        p.first() <= at <= p.history().len(),
    ensures
        p.recorded() == joined(p.history().subrange(p.first(), at)) + joined(p.history().skip(at)),
{
    let a = p.history().subrange(p.first(), at);
    let b = p.history().skip(at);
    assert(a + b =~= p.history().skip(p.first()));
    joined_concat(a, b);
}

/// A recording that starts now begins with the latest packets, as far as they are buffered.
pub proof fn preroll_is_latest_history(p: Processor)
    requires
        p.wf(),
    ensures
        payloads(p.buffered()) == p.history().skip(p.history().len() - p.buffered().len()),
        joined(p.history()) == joined(
            p.history().take(p.history().len() - p.buffered().len()),
        ) + joined(payloads(p.buffered())),
{
    let n = p.history().len() - p.buffered().len();
    assert(p.history().take(n) + p.history().skip(n) =~= p.history());
    joined_concat(p.history().take(n), p.history().skip(n));
}

/// A packet arrived as long before it was taken over as the delay says; where the clock had not run
/// that long, at its start.
pub proof fn arrival_is_the_delay_before(now_us: u64, delay_us: u64)
    ensures
        delay_us <= now_us ==> arrival(now_us, delay_us) + delay_us == now_us,
        delay_us > now_us ==> arrival(now_us, delay_us) == 0,
{
}

/// Index data is 16 bytes: those of the time at which the packet was taken over, lowest first, then
/// those of the time at which it arrived, lowest first.
pub proof fn index_layout(now_us: u64, delay_us: u64, i: nat)
    requires
        i < 8,
    ensures
        index_of(now_us, delay_us).len() == 16,
        index_of(now_us, delay_us)[i as int] == (now_us as int / pow(256, i)) % 256,
        delay_us <= now_us ==> index_of(now_us, delay_us)[8 + i as int] == ((now_us - delay_us) / pow(
            256,
            i,
        )) % 256,
        delay_us > now_us ==> index_of(now_us, delay_us)[8 + i as int] == 0,
{
    reveal_with_fuel(bytes::capacity, 9);
    let a = arrival(now_us, delay_us);
    bytes::le_reads_back(now_us as nat, 8);
    bytes::le_reads_back(a as nat, 8);
    bytes::le_bytes_are_digits(now_us as nat, 8, i);
    bytes::le_bytes_are_digits(a as nat, 8, i);
    lemma_pow_positive(256, i);
    assert(index_of(now_us, delay_us)[8 + i as int] == bytes::le_bytes(a as nat, 8)[i as int]);
    if delay_us > now_us {
        assert(0int / pow(256, i) == 0) by (nonlinear_arith)
            requires
                pow(256, i) > 0,
        ;
    }
}

/// An average times the number of packets comes as near to the sum as whole numbers can, from
/// below; over no packets it is the sum itself.
pub proof fn average_is_rounded_down(sum: u64, packets: u64)
    ensures
        packets == 0 ==> average(sum, packets) == sum,
        packets > 0 ==> average(sum, packets) * packets <= sum < (average(sum, packets) + 1)
            * packets,
{
    if packets > 0 {
        let n = packets as int;
        lemma_fundamental_div_mod(sum as int, n);
        let q = average(sum, packets);
        assert((q + 1) * n == q * n + n) by (nonlinear_arith);
        assert(q * n == n * q) by (nonlinear_arith);
    }
}

/// Time that has passed and the earlier time add up to now; a clock that runs backwards shows none.
pub proof fn since_is_what_has_passed(earlier: u64, now: u64)
    ensures
        earlier <= now ==> earlier + since(earlier, now) == now,
        earlier > now ==> since(earlier, now) == 0,
{
}

/// A file is opened exactly where recording is asked for and none is open, and closed exactly where
/// recording is not asked for and one is open: following an edge leaves a file open exactly where
/// recording is asked for.
pub proof fn edges_follow_the_request(recording: bool, open: bool)
    ensures
        edge_of(recording, open) == Edge::Start <==> recording && !open,
        edge_of(recording, open) == Edge::Stop <==> !recording && open,
        ({
            let after = match edge_of(recording, open) {
                Edge::Start => true,
                Edge::Stop => false,
                Edge::Keep => open,
            };
            &&& after == recording
            &&& edge_of(recording, after) == Edge::Keep
        }),
{
}

/// The bytes of a run of packets are all of the bytes of each packet, in their order.
pub proof fn joined_is_all_bytes(packets: Seq<Seq<u8>>)
    ensures
        joined(packets) == packets.flatten(),
    decreases packets.len(),
{
    packets.lemma_flatten_and_flatten_alt_are_equivalent();
    if packets.len() > 0 {
        let init = packets.drop_last();
        joined_is_all_bytes(init);
        init.lemma_flatten_and_flatten_alt_are_equivalent();
        assert(packets.flatten_alt() == init.flatten_alt() + packets.last());
    } else {
        assert(joined(packets) =~= packets.flatten());
    }
}

/// The payloads of chunks are their bytes, chunk by chunk.
pub proof fn payloads_are_the_bytes(chunks: Seq<Chunk>)
    ensures
        payloads(chunks).len() == chunks.len(),
        forall|i: int| 0 <= i < chunks.len() ==> #[trigger] payloads(chunks)[i] == chunks[i].1,
        joined(payloads(chunks)) == payloads(chunks).flatten(),
{
    joined_is_all_bytes(payloads(chunks));
}

/// A message is sent exactly where there is a record, and then holds all of them.
pub proof fn message_is_all_records(records: Seq<u8>)
    ensures
        message(records) is None <==> records.len() == 0,
        message(records) matches Some(m) ==> m == records,
{
}

} // verus!
