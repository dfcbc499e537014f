//! Offline replay: raw recordings decoded again and published at the pace of the sensor.

use vstd::prelude::*;

use crate::bytes;
use crate::decoder;
use crate::events;

use crate::decoder::DecodedPacket;
use crate::decoder::Decoder;
use crate::events::DvsEvent;
use crate::events::TriggerEvent;
use crate::events::DVS_EVENT_SIZE;
use crate::events::TRIGGER_EVENT_SIZE;

verus! {

/// Serialises a DVS event, as the live pipeline does.
pub fn dvs_to_bytes(t: u64, x: u16, y: u16, on: u8) -> (b: [u8; DVS_EVENT_SIZE])
    ensures
        b@ == events::dvs_record(DvsEvent { t, x, y, on }),
{
    DvsEvent { t, x, y, on }.to_bytes()
}

/// Serialises a trigger event, as the live pipeline does.
pub fn trigger_to_bytes(
    system_time: u64,
    system_timestamp: u64,
    t: u64,
    id: u8,
    rising: u8,
) -> (b: [u8; TRIGGER_EVENT_SIZE])
    ensures
        b@ == events::trigger_record(
            TriggerEvent { system_time, system_timestamp, t, id, rising },
        ),
{
    TriggerEvent { system_time, system_timestamp, t, id, rising }.to_bytes()
}

// ---------------------------------------------------------------------------
// Pacing
// ---------------------------------------------------------------------------
/// The mapping between sensor time and wall-clock time. Wall-clock times are nanoseconds since a
/// fixed origin.
#[derive(Clone, Copy, Debug, PartialEq, Eq, Structural)]
pub struct Pacer {
    /// The wall-clock time that corresponds to `sensor_origin_us`.
    pub wall_origin_ns: u64,
    /// The sensor time, in microseconds, of the first event seen.
    pub sensor_origin_us: u64,
}

/// How far into the recording a sensor time is, in microseconds. There is nothing to wait for at
/// the start of pacing and before it.
pub open spec fn delta_of(p: Pacer, sensor_ts_us: u64) -> Option<u64> {
    if sensor_ts_us <= p.sensor_origin_us {
        None
    } else {
        Some((sensor_ts_us - p.sensor_origin_us) as u64)
    }
}

/// The wall-clock time at which a packet is released that is due `wall_target_us` after the start
/// of pacing: when it is due, or at once where that has passed.
pub open spec fn release_time(p: Pacer, wall_target_us: u64, now_ns: u64) -> int {
    let due = p.wall_origin_ns + wall_target_us * 1000;
    if due > now_ns {
        due
    } else {
        now_ns as int
    }
}

impl Pacer {
    /// Starts pacing: the sensor time is taken to be now.
    pub fn new(first_sensor_us: u64, now_ns: u64) -> (p: Self)
        ensures
            p == (Pacer { wall_origin_ns: now_ns, sensor_origin_us: first_sensor_us }),
    {
        Pacer { wall_origin_ns: now_ns, sensor_origin_us: first_sensor_us }
    }

    /// How far into the recording a sensor time is, in microseconds.
    pub fn sensor_delta(&self, sensor_ts_us: u64) -> (r: Option<u64>)
        ensures
            r == delta_of(*self, sensor_ts_us),
    {
        if sensor_ts_us <= self.sensor_origin_us {
            None
        } else {
            Some(sensor_ts_us - self.sensor_origin_us)
        }
    }

    /// How long to sleep, in nanoseconds, until the wall clock is `wall_target_us` after the start
    /// of pacing. A replay that is behind does not sleep.
    pub fn wait_until(&self, wall_target_us: u64, now_ns: u64) -> (r: u128)
        ensures
            r == release_time(*self, wall_target_us, now_ns) - now_ns,
    {
        let due: u128 = self.wall_origin_ns as u128 + wall_target_us as u128 * 1000;
        let now: u128 = now_ns as u128;
        if due > now {
            due - now
        } else {
            0
        }
    }
}

/// At real-time speed two packets that are not late are released as far apart as their sensor
/// times are.
pub proof fn pacing_keeps_sensor_time(p: Pacer, first: u64, second: u64, now_1: u64, now_2: u64)
    requires
        p.sensor_origin_us < first <= second,
        now_1 <= p.wall_origin_ns + (first - p.sensor_origin_us) * 1000,
        now_2 <= p.wall_origin_ns + (second - p.sensor_origin_us) * 1000,
    ensures
        release_time(p, delta_of(p, second)->0, now_2) - release_time(
            p,
            delta_of(p, first)->0,
            now_1,
        ) == (second - first) * 1000,
{
}

/// A later wall-clock target never gives an earlier release.
pub proof fn later_targets_are_not_released_earlier(p: Pacer, a: u64, b: u64, now_ns: u64)
    requires
        a <= b,
    ensures
        release_time(p, a, now_ns) <= release_time(p, b, now_ns),
{
}

/// How long a stretch of sensor time takes at a speed of `num / den`, in whole microseconds, as far
/// as 64 bits can hold it. This is the exact quotient; the program divides in floating point, where
/// the quotient of large numbers is rounded, and hands the result to `sleep_before`.
pub open spec fn target_at(delta_us: u64, num: nat, den: nat) -> u64 {
    let target = delta_us as nat * den / num;
    if target > u64::MAX {
        u64::MAX
    } else {
        target as u64
    }
}

/// At any speed a later sensor time never gives an earlier target, nor an earlier release. Targets
/// depend on nothing but the sensor time, the start of pacing and the speed: being late once does
/// not shift what follows.
pub proof fn later_sensor_times_are_not_due_earlier(
    p: Pacer,
    first: u64,
    second: u64,
    num: nat,
    den: nat,
    now_ns: u64,
)
    requires
        p.sensor_origin_us < first <= second,
        num > 0,
        den > 0,
    ensures
        ({
            let a = target_at(delta_of(p, first)->0, num, den);
            let b = target_at(delta_of(p, second)->0, num, den);
            &&& a <= b
            &&& release_time(p, a, now_ns) <= release_time(p, b, now_ns)
        }),
{
    let x = (first - p.sensor_origin_us) * den;
    let y = (second - p.sensor_origin_us) * den;
    assert(x <= y) by (nonlinear_arith)
        requires
            x == (first - p.sensor_origin_us) * den,
            y == (second - p.sensor_origin_us) * den,
            first <= second,
    ;
    vstd::arithmetic::div_mod::lemma_div_is_ordered(x, y, num as int);
}

/// No packet is released before it is due, and a late one is released at once.
pub proof fn pacing_is_never_early(p: Pacer, wall_target_us: u64, now_ns: u64)
    ensures
        release_time(p, wall_target_us, now_ns) >= p.wall_origin_ns + wall_target_us * 1000,
        release_time(p, wall_target_us, now_ns) >= now_ns,
        now_ns >= p.wall_origin_ns + wall_target_us * 1000 ==> release_time(
            p,
            wall_target_us,
            now_ns,
        ) == now_ns,
{
}

// ---------------------------------------------------------------------------
// Replaying
// ---------------------------------------------------------------------------
/// How publishing a chunk goes on.
#[derive(Clone, Copy, Debug, PartialEq, Eq, Structural)]
pub enum Publishing {
    /// Send the DVS events.
    SendEvents,
    /// Send the trigger events.
    SendTriggers,
    /// The chunk is published.
    Done,
    /// A client is gone: the replay stops.
    Stop,
}

/// What follows the DVS events: the trigger events, if there are any and somebody takes them.
pub open spec fn after_events(triggers: Seq<u8>, trigger_client: bool) -> Publishing {
    if triggers.len() > 0 && trigger_client {
        Publishing::SendTriggers
    } else {
        Publishing::Done
    }
}

/// Decides what to send first. Nothing is sent where there is no event.
pub fn publish_start(p: &DecodedPacket, trigger_client: bool) -> (r: Publishing)
    ensures
        r == (if p.events@.len() > 0 {
            Publishing::SendEvents
        } else {
            after_events(p.triggers@, trigger_client)
        }),
{
    if p.events.len() > 0 {
        Publishing::SendEvents
    } else if p.triggers.len() > 0 && trigger_client {
        Publishing::SendTriggers
    } else {
        Publishing::Done
    }
}

/// Decides what to do after a message was sent, or could not be.
pub fn publish_step(
    sent: Publishing,
    delivered: bool,
    p: &DecodedPacket,
    trigger_client: bool,
) -> (r: Publishing)
    ensures
        !delivered ==> r == Publishing::Stop,
        delivered && sent == Publishing::SendEvents ==> r == after_events(
            p.triggers@,
            trigger_client,
        ),
        delivered && sent != Publishing::SendEvents ==> r == Publishing::Done,
{
    if !delivered {
        Publishing::Stop
    } else {
        match sent {
            Publishing::SendEvents => {
                if p.triggers.len() > 0 && trigger_client {
                    Publishing::SendTriggers
                } else {
                    Publishing::Done
                }
            },
            _ => Publishing::Done,
        }
    }
}

/// A replay in progress.
pub struct Replay {
    decoder: Decoder,
    pending: Option<u8>,
    pacer: Option<Pacer>,
    chunk_count: u64,
    total_dvs: u64,
    total_triggers: u64,
    bytes_read: Ghost<Seq<u8>>,
    events_out: Ghost<Seq<u8>>,
    triggers_out: Ghost<Seq<u8>>,
}

/// The sensor's width.
pub const SENSOR_WIDTH: u16 = 1280;

/// The sensor's height.
pub const SENSOR_HEIGHT: u16 = 720;

impl Replay {
    /// The width and height of the sensor.
    pub closed spec fn sensor(self) -> (u16, u16) {
        (self.decoder.width(), self.decoder.height())
    }

    /// The words of the recording that were decoded so far.
    pub closed spec fn consumed(self) -> Seq<u8> {
        self.decoder.fed()
    }

    /// The bytes of the recording that were read so far.
    pub closed spec fn bytes_read(self) -> Seq<u8> {
        self.bytes_read@
    }

    /// The first byte of a word whose second byte is not read yet, if there is one.
    pub closed spec fn pending(self) -> Seq<u8> {
        match self.pending {
            Some(b) => seq![b],
            None => seq![],
        }
    }

    /// The DVS records produced so far.
    pub closed spec fn events_out(self) -> Seq<u8> {
        self.events_out@
    }

    /// The trigger records produced so far.
    pub closed spec fn triggers_out(self) -> Seq<u8> {
        self.triggers_out@
    }

    /// The mapping between sensor time and wall-clock time, once there was an event.
    pub closed spec fn pacing(self) -> Option<Pacer> {
        self.pacer
    }

    /// Chunks read, DVS events published and trigger events published.
    pub closed spec fn counts(self) -> (u64, u64, u64) {
        (self.chunk_count, self.total_dvs, self.total_triggers)
    }

    /// The words among the bytes read so far are decoded, what was produced is what they give in one
    /// piece, and there were no more timestamp wraps than words.
    pub open spec fn wf(self) -> bool {
        let d = decoder::evt3_decoded(1280, 720, seq![], self.consumed());
        &&& self.sensor() == (1280u16, 720u16)
        &&& self.consumed() == decoder::whole_words(self.bytes_read())
        &&& self.consumed() + self.pending() == self.bytes_read()
        &&& decoder::evt3_wraps(1280, 720, self.consumed()) <= self.consumed().len() / 2
        &&& self.events_out() == events::dvs_stream(d.0)
        &&& self.triggers_out() == events::trigger_stream(decoder::stamped_all(d.1, 0, 0))
    }

    /// A replay that has read nothing.
    pub fn new() -> (r: Self)
        ensures
            r.wf(),
            r.sensor() == (1280u16, 720u16),
            r.bytes_read() == Seq::<u8>::empty(),
            r.pending() == Seq::<u8>::empty(),
            r.consumed() == Seq::<u8>::empty(),
            r.events_out() == Seq::<u8>::empty(),
            r.triggers_out() == Seq::<u8>::empty(),
            r.pacing() is None,
            r.counts() == (0u64, 0u64, 0u64),
    {
        let r = Replay {
            decoder: Decoder::new(SENSOR_WIDTH, SENSOR_HEIGHT),
            pending: None,
            pacer: None,
            chunk_count: 0,
            total_dvs: 0,
            total_triggers: 0,
            bytes_read: Ghost(Seq::empty()),
            events_out: Ghost(Seq::empty()),
            triggers_out: Ghost(Seq::empty()),
        };
        assert(r.decoder.fed() =~= seq![]);
        assert(decoder::stamped_all(Seq::empty(), 0, 0) =~= Seq::empty());
        assert(decoder::whole_words(Seq::<u8>::empty()) =~= Seq::<u8>::empty());
        assert(r.consumed() + r.pending() =~= r.bytes_read());
        r
    }

    /// Decodes one chunk of the recording. A word that is cut by the end of the chunk is decoded
    /// with the next one. Trigger events carry no system times. `None`, with nothing read, exactly
    /// where the decoder's count of timestamp wraps has no room for the chunk; that never happens
    /// within the first 8 GiB of a recording.
    pub fn next_chunk(&mut self, chunk: &[u8]) -> (r: Option<DecodedPacket>)
        ensures
            old(self).wf() ==> final(self).wf(),
            final(self).sensor() == old(self).sensor(),
            final(self).pacing() == old(self).pacing(),
            r is Some <==> decoder::has_room(
                old(self).sensor().0,
                old(self).sensor().1,
                old(self).consumed(),
                old(self).pending() + chunk@,
            ),
            old(self).wf() && old(self).bytes_read().len() + chunk@.len() <= 0x1_ffff_ffff
                ==> r is Some,
            r is None ==> {
                &&& final(self).bytes_read() == old(self).bytes_read()
                &&& final(self).consumed() == old(self).consumed()
                &&& final(self).pending() == old(self).pending()
                &&& final(self).events_out() == old(self).events_out()
                &&& final(self).triggers_out() == old(self).triggers_out()
                &&& final(self).counts() == old(self).counts()
            },
            r matches Some(p) ==> {
                let data = old(self).pending() + chunk@;
                let d = decoder::evt3_decoded(
                    old(self).sensor().0,
                    old(self).sensor().1,
                    old(self).consumed(),
                    data,
                );
                &&& final(self).bytes_read() == old(self).bytes_read() + chunk@
                &&& final(self).consumed() == old(self).consumed() + decoder::whole_words(data)
                &&& decoder::whole_words(data) + final(self).pending() == data
                &&& final(self).events_out() == old(self).events_out() + p.events@
                &&& final(self).triggers_out() == old(self).triggers_out() + p.triggers@
                &&& final(self).counts() == (
                    old(self).counts().0.wrapping_add(1),
                    old(self).counts().1,
                    old(self).counts().2,
                )
                &&& decoder::packet_holds(p, d.0, d.1, 0, 0)
                &&& decoder::is_earliest(p.first_t, d.0, d.1)
                &&& decoder::is_latest(p.last_t, d.0, d.1)
            },
    {
        let ghost fed = self.decoder.fed();
        let ghost (w, h) = (self.decoder.width(), self.decoder.height());
        let ghost read = self.bytes_read@;
        let ghost pending = self.pending();
        let mut data: Vec<u8> = Vec::new();
        if let Some(b) = self.pending {
            data.push(b);
        }
        bytes::append_bytes(&mut data, chunk);
        assert(data@ =~= pending + chunk@);
        let p = match self.decoder.decode_packet(data.as_slice(), 0, 0) {
            Some(p) => p,
            None => {
                return None;
            },
        };
        self.chunk_count = self.chunk_count.wrapping_add(1);
        self.pending = if data.len() % 2 == 1 {
            Some(data[data.len() - 1])
        } else {
            None
        };
        self.bytes_read = Ghost(read + chunk@);
        proof {
            let words = decoder::whole_words(data@);
            assert(words + self.pending() =~= data@);
            if fed == decoder::whole_words(read) && fed + pending == read {
                assert(fed + data@ =~= read + chunk@);
                assert(fed + words =~= decoder::whole_words(read + chunk@));
                assert((fed + words) + self.pending() =~= read + chunk@);
            }
            let none = Seq::<u8>::empty();
            assert(none + fed =~= fed);
            if fed.len() % 2 == 0 && w == 1280 && h == 720 {
                assert(decoder::decodes_in_pieces(1280, 720, none, fed, data@));
            }
            let first = decoder::evt3_decoded(1280, 720, none, fed);
            let second = decoder::evt3_decoded(1280, 720, fed, data@);
            events::dvs_stream_concat(first.0, second.0);
            assert(decoder::stamped_all(first.1 + second.1, 0, 0) =~= decoder::stamped_all(
                first.1,
                0,
                0,
            ) + decoder::stamped_all(second.1, 0, 0));
            events::trigger_stream_concat(
                decoder::stamped_all(first.1, 0, 0),
                decoder::stamped_all(second.1, 0, 0),
            );
        }
        self.events_out = Ghost(self.events_out@ + p.events@);
        self.triggers_out = Ghost(self.triggers_out@ + p.triggers@);
        Some(p)
    }

    /// Takes the latest time of a chunk as the pace target and gives how far it is into the
    /// recording. Pacing starts with the first event seen.
    pub fn pace(
        &mut self,
        first_t: Option<u64>,
        last_t: Option<u64>,
        now_ns: u64,
    ) -> (r: Option<u64>)
        ensures
            old(self).wf() ==> final(self).wf(),
            final(self).sensor() == old(self).sensor(),
            final(self).consumed() == old(self).consumed(),
            final(self).events_out() == old(self).events_out(),
            final(self).triggers_out() == old(self).triggers_out(),
            final(self).counts() == old(self).counts(),
            final(self).bytes_read() == old(self).bytes_read(),
            final(self).pending() == old(self).pending(),
            final(self).pacing() == (match (old(self).pacing(), first_t) {
                (None, Some(first)) => Some(
                    Pacer { wall_origin_ns: now_ns, sensor_origin_us: first },
                ),
                (current, _) => current,
            }),
            r == (match (final(self).pacing(), last_t) {
                (Some(p), Some(last)) => delta_of(p, last),
                _ => None,
            }),
            r matches Some(delta) ==> final(self).pacing() matches Some(p) && last_t == Some(
                (p.sensor_origin_us + delta) as u64,
            ),
    {
        if self.pacer.is_none() {
            if let Some(first) = first_t {
                self.pacer = Some(Pacer::new(first, now_ns));
            }
        }
        match (self.pacer, last_t) {
            (Some(p), Some(last)) => p.sensor_delta(last),
            _ => None,
        }
    }

    /// How long to sleep, in nanoseconds, before a chunk is released that is due `wall_target_us`
    /// after the start of pacing.
    pub fn sleep_before(&self, wall_target_us: u64, now_ns: u64) -> (r: u128)
        ensures
            r == (match self.pacing() {
                Some(p) => release_time(p, wall_target_us, now_ns) - now_ns,
                None => 0,
            }),
    {
        match self.pacer {
            Some(p) => p.wait_until(wall_target_us, now_ns),
            None => 0,
        }
    }

    /// Counts a chunk that was published.
    pub fn count(&mut self, p: &DecodedPacket) -> (r: (u64, u64, u64))
        ensures
            old(self).wf() ==> final(self).wf(),
            final(self).sensor() == old(self).sensor(),
            final(self).consumed() == old(self).consumed(),
            final(self).bytes_read() == old(self).bytes_read(),
            final(self).pending() == old(self).pending(),
            final(self).events_out() == old(self).events_out(),
            final(self).triggers_out() == old(self).triggers_out(),
            final(self).pacing() == old(self).pacing(),
            final(self).counts() == (
                old(self).counts().0,
                old(self).counts().1.wrapping_add(p.dvs_count),
                old(self).counts().2.wrapping_add(p.trigger_count),
            ),
            r == final(self).counts(),
    {
        self.total_dvs = self.total_dvs.wrapping_add(p.dvs_count);
        self.total_triggers = self.total_triggers.wrapping_add(p.trigger_count);
        (self.chunk_count, self.total_dvs, self.total_triggers)
    }

    /// Chunks read, DVS events published and trigger events published.
    pub fn totals(&self) -> (r: (u64, u64, u64))
        ensures
            r == self.counts(),
    {
        (self.chunk_count, self.total_dvs, self.total_triggers)
    }
}

/// The chunk size affects only how often a replay paces and publishes: two replays that have
/// read the same bytes have produced the same records, wherever the bytes were cut into chunks.
pub proof fn chunking_does_not_matter(a: Replay, b: Replay)
    requires
        a.wf(),
        b.wf(),
        a.bytes_read() == b.bytes_read(),
    ensures
        a.events_out() == b.events_out(),
        a.triggers_out() == b.triggers_out(),
{
}

/// The delta and the start of pacing add up to the sensor time; there is none at the start and
/// before it.
pub proof fn delta_is_time_since_the_start(p: Pacer, sensor_ts_us: u64)
    ensures
        delta_of(p, sensor_ts_us) is None <==> sensor_ts_us <= p.sensor_origin_us,
        delta_of(p, sensor_ts_us) matches Some(d) ==> d > 0 && p.sensor_origin_us + d
            == sensor_ts_us,
{
}

/// A packet is released at the later of two times: now, and its target behind the start of pacing.
pub proof fn release_is_now_or_when_due(p: Pacer, wall_target_us: u64, now_ns: u64)
    ensures
        ({
            let r = release_time(p, wall_target_us, now_ns);
            let due = p.wall_origin_ns + wall_target_us * 1000;
            &&& r == now_ns || r == due
            &&& r >= now_ns
            &&& r >= due
        }),
{
}

/// Trigger events are sent exactly where there is one and somebody takes them.
pub proof fn triggers_are_sent_where_taken(triggers: Seq<u8>, trigger_client: bool)
    ensures
        after_events(triggers, trigger_client) == Publishing::SendTriggers <==> triggers.len() >= 1
            && trigger_client,
        after_events(triggers, trigger_client) != Publishing::SendTriggers ==> after_events(
            triggers,
            trigger_client,
        ) == Publishing::Done,
{
}

/// What a replay has produced so far is, event by event, what the words read so far give when they
/// are decoded in one piece; its trigger events carry no system times.
pub proof fn replay_produces_the_recording(r: Replay)
    requires
        r.wf(),
    ensures
        ({
            let read = r.bytes_read();
            let d = decoder::evt3_decoded(
                1280,
                720,
                Seq::<u8>::empty(),
                read.take(read.len() - read.len() % 2),
            );
            let edges = events::trigger_events(r.triggers_out());
            &&& events::dvs_events(r.events_out()) == d.0
            &&& r.events_out().len() == 13 * d.0.len()
            &&& r.triggers_out().len() == 26 * d.1.len()
            &&& edges.len() == d.1.len()
            &&& forall|j: int|
                0 <= j < d.1.len() ==> {
                    &&& (#[trigger] edges[j]).t == d.1[j].t
                    &&& edges[j].id == d.1[j].id
                    &&& edges[j].rising == d.1[j].rising
                    &&& edges[j].system_time == 0
                    &&& edges[j].system_timestamp == 0
                }
        }),
{
    let read = r.bytes_read();
    decoder::words_are_all_but_an_odd_byte(read);
    assert(r.consumed() =~= read.take(read.len() - read.len() % 2));
    let d = decoder::evt3_decoded(1280, 720, Seq::<u8>::empty(), r.consumed());
    let all = decoder::stamped_all(d.1, 0, 0);
    events::dvs_stream_reads_back(d.0);
    events::trigger_stream_reads_back(all);
}

} // verus!
