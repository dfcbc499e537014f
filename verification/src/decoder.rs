//! Decoding of raw EVT3 data and serialisation of what it holds.

use vstd::prelude::*;

use neuromorphic_drivers::adapters::evt3::Adapter;

use crate::events;

use crate::events::DvsEvent;
use crate::events::TriggerEvent;

verus! {

/// The decoder of the camera driver.
#[verifier::external_type_specification]
#[verifier::external_body]
pub struct ExAdapter(neuromorphic_drivers::adapters::evt3::Adapter);

/// An edge on a trigger line, as it is decoded from raw data.
#[derive(Clone, Copy, Debug, PartialEq, Eq, Structural)]
pub struct TriggerEdge {
    /// Sensor timestamp in microseconds.
    pub t: u64,
    /// Trigger channel.
    pub id: u8,
    /// 1 for a rising edge, 0 for a falling one.
    pub rising: u8,
}

/// What `Adapter::convert` hands to its two callbacks, in order, for a sensor of the given size:
/// the events in `slice` after the 16-bit words in `fed` were decoded from the start.
pub uninterp spec fn evt3_decoded(width: u16, height: u16, fed: Seq<u8>, slice: Seq<u8>) -> (
    Seq<DvsEvent>,
    Seq<TriggerEdge>,
);

/// How often the timestamp of `Adapter` has wrapped, for a sensor of the given size, after the
/// 16-bit words in `fed` were decoded from the start: its field `overflows`.
pub uninterp spec fn evt3_wraps(width: u16, height: u16, fed: Seq<u8>) -> nat;

/// Whether the decoder's 32-bit count of timestamp wraps has room for a slice, even where every
/// word of it is a wrap.
pub open spec fn has_room(width: u16, height: u16, fed: Seq<u8>, slice: Seq<u8>) -> bool {
    evt3_wraps(width, height, fed) + slice.len() / 2 <= u32::MAX
}

/// The whole 16-bit words of a slice: all of it, but for an odd byte at its end.
pub open spec fn whole_words(slice: Seq<u8>) -> Seq<u8> {
    slice.take(2 * (slice.len() as int / 2))
}

/// A stateful decoder together with what it has decoded so far.
pub struct Decoder {
    adapter: Adapter,
    width: u16,
    height: u16,
    fed: Ghost<Seq<u8>>,
}

fn push_dvs(v: &mut Vec<DvsEvent>, t: u64, x: u16, y: u16, on: u8)
    ensures
        final(v)@ == old(v)@.push(DvsEvent { t, x, y, on }),
{
    v.push(DvsEvent { t, x, y, on });
}

fn push_edge(v: &mut Vec<TriggerEdge>, t: u64, id: u8, rising: u8)
    ensures
        final(v)@ == old(v)@.push(TriggerEdge { t, id, rising }),
{
    v.push(TriggerEdge { t, id, rising });
}

impl Decoder {
    /// The sensor's width.
    pub closed spec fn width(self) -> u16 {
        self.width
    }

    /// The sensor's height.
    pub closed spec fn height(self) -> u16 {
        self.height
    }

    /// The words decoded so far.
    pub closed spec fn fed(self) -> Seq<u8> {
        self.fed@
    }

    /// Calls `Adapter::from_dimensions`. It is trusted to give a decoder that has decoded nothing,
    /// that has seen no wrap, and that finds no event in no data.
    #[verifier::external_body]
    fn from_dimensions(width: u16, height: u16) -> (d: Decoder)
        ensures
            d.width() == width,
            d.height() == height,
            d.fed() == Seq::<u8>::empty(),
            evt3_wraps(width, height, d.fed()) == 0,
            evt3_decoded(width, height, d.fed(), Seq::<u8>::empty()) == (
                Seq::<DvsEvent>::empty(),
                Seq::<TriggerEdge>::empty(),
            ),
    {
        let adapter = Adapter::from_dimensions(width, height);
        Decoder { adapter, width, height, fed: Ghost(Seq::empty()) }
    }

    /// Reads the field `overflows` of `Adapter::state`. It is trusted to be the count of wraps.
    #[verifier::external_body]
    fn wraps(&self) -> (n: u32)
        ensures
            n == evt3_wraps(self.width(), self.height(), self.fed()),
    {
        self.adapter.state().overflows
    }

    /// Calls `Adapter::convert` and collects what it hands to its callbacks. It is trusted to be a
    /// function of the sensor's size, of the words decoded before and of the slice; to take the
    /// slice word by word, leaving out an odd byte at its end, so that data cut between two words
    /// decodes to the same events as in one piece; to give only events within the sensor, with
    /// polarities 0 and 1 and channels below 16; and to give them with timestamps that never
    /// decrease. A word adds at most one to its count of timestamp wraps; that count must not go
    /// beyond 32 bits, where the call may panic.
    #[verifier::external_body]
    fn convert(&mut self, slice: &[u8]) -> (r: (Vec<DvsEvent>, Vec<TriggerEdge>))
        requires
            has_room(old(self).width(), old(self).height(), old(self).fed(), slice@),
        ensures
            evt3_wraps(final(self).width(), final(self).height(), final(self).fed()) <= evt3_wraps(
                old(self).width(),
                old(self).height(),
                old(self).fed(),
            ) + slice@.len() / 2,
            final(self).width() == old(self).width(),
            final(self).height() == old(self).height(),
            final(self).fed() == old(self).fed() + whole_words(slice@),
            (r.0@, r.1@) == evt3_decoded(
                old(self).width(),
                old(self).height(),
                old(self).fed(),
                slice@,
            ),
            forall|base: Seq<u8>, part: Seq<u8>|
                base.len() % 2 == 0 && part.len() % 2 == 0 && base + part == old(self).fed()
                    ==> #[trigger] evt3_decoded(
                    old(self).width(),
                    old(self).height(),
                    base,
                    part + whole_words(slice@),
                ) == (
                    evt3_decoded(old(self).width(), old(self).height(), base, part).0 + r.0@,
                    evt3_decoded(old(self).width(), old(self).height(), base, part).1 + r.1@,
                ),
            forall|i: int|
                0 <= i < r.0@.len() ==> (#[trigger] r.0@[i]).x < old(self).width() && r.0@[i].y
                    < old(self).height() && r.0@[i].on <= 1,
            forall|i: int|
                0 <= i < r.1@.len() ==> (#[trigger] r.1@[i]).id < 16 && r.1@[i].rising <= 1,
            forall|i: int, j: int|
                0 <= i <= j < r.0@.len() ==> (#[trigger] r.0@[i]).t <= (#[trigger] r.0@[j]).t,
            forall|i: int, j: int|
                0 <= i <= j < r.1@.len() ==> (#[trigger] r.1@[i]).t <= (#[trigger] r.1@[j]).t,
    {
        let (mut dvs, mut edges) = (Vec::new(), Vec::new());
        self.adapter.convert(
            slice,
            |e| push_dvs(&mut dvs, e.t, e.x, e.y, e.polarity as u8),
            |e| push_edge(&mut edges, e.t, e.id, e.polarity as u8),
        );
        self.fed = Ghost(self.fed@ + whole_words(slice@));
        (dvs, edges)
    }
}

// ---------------------------------------------------------------------------
// Serialisation of decoded packets
// ---------------------------------------------------------------------------
/// A trigger edge with the times of the packet it came in.
pub open spec fn stamped(e: TriggerEdge, system_time: u64, system_timestamp: u64) -> TriggerEvent {
    TriggerEvent { system_time, system_timestamp, t: e.t, id: e.id, rising: e.rising }
}

/// Trigger edges with the times of the packet they came in.
pub open spec fn stamped_all(
    edges: Seq<TriggerEdge>,
    system_time: u64,
    system_timestamp: u64,
) -> Seq<TriggerEvent> {
    edges.map_values(|e: TriggerEdge| stamped(e, system_time, system_timestamp))
}

/// The later of two times, where there is any.
pub open spec fn later(a: Option<u64>, b: Option<u64>) -> Option<u64> {
    match (a, b) {
        (Some(x), Some(y)) => Some(
            if x < y {
                y
            } else {
                x
            },
        ),
        (Some(x), None) => Some(x),
        (None, _) => b,
    }
}

/// The earlier of two times, where there is any.
pub open spec fn earlier(a: Option<u64>, b: Option<u64>) -> Option<u64> {
    match (a, b) {
        (Some(x), Some(y)) => Some(
            if y < x {
                y
            } else {
                x
            },
        ),
        (Some(x), None) => Some(x),
        (None, _) => b,
    }
}

/// The time of the first DVS event.
pub open spec fn first_dvs_time(dvs: Seq<DvsEvent>) -> Option<u64> {
    if dvs.len() == 0 {
        None
    } else {
        Some(dvs[0].t)
    }
}

/// The time of the first trigger edge.
pub open spec fn first_edge_time(edges: Seq<TriggerEdge>) -> Option<u64> {
    if edges.len() == 0 {
        None
    } else {
        Some(edges[0].t)
    }
}

/// The time of the last DVS event.
pub open spec fn last_dvs_time(dvs: Seq<DvsEvent>) -> Option<u64> {
    if dvs.len() == 0 {
        None
    } else {
        Some(dvs.last().t)
    }
}

/// The time of the last trigger edge.
pub open spec fn last_edge_time(edges: Seq<TriggerEdge>) -> Option<u64> {
    if edges.len() == 0 {
        None
    } else {
        Some(edges.last().t)
    }
}

/// A decoded packet, ready to be published.
#[derive(Debug)]
pub struct DecodedPacket {
    /// The records of its DVS events.
    pub events: Vec<u8>,
    /// The records of its trigger events.
    pub triggers: Vec<u8>,
    /// The number of DVS events.
    pub dvs_count: u64,
    /// The number of trigger events.
    pub trigger_count: u64,
    /// The timestamp of the first event in the packet.
    pub first_t: Option<u64>,
    /// The latest timestamp in the packet.
    pub last_t: Option<u64>,
}

/// Whether a packet is the serialisation of decoded events.
pub open spec fn packet_holds(
    p: DecodedPacket,
    dvs: Seq<DvsEvent>,
    edges: Seq<TriggerEdge>,
    system_time: u64,
    system_timestamp: u64,
) -> bool {
    &&& p.events@ == events::dvs_stream(dvs)
    &&& p.triggers@ == events::trigger_stream(stamped_all(edges, system_time, system_timestamp))
    &&& p.dvs_count == dvs.len()
    &&& p.trigger_count == edges.len()
    &&& p.first_t == earlier(first_dvs_time(dvs), first_edge_time(edges))
    &&& p.last_t == later(last_dvs_time(dvs), last_edge_time(edges))
}

/// Serialises decoded events.
pub fn encode_packet(
    dvs: &Vec<DvsEvent>,
    edges: &Vec<TriggerEdge>,
    system_time: u64,
    system_timestamp: u64,
) -> (p: DecodedPacket)
    ensures
        packet_holds(p, dvs@, edges@, system_time, system_timestamp),
{
    let mut triggers: Vec<TriggerEvent> = Vec::new();
    let mut i: usize = 0;
    while i < edges.len()
        invariant
            i <= edges@.len(),
            triggers@ == stamped_all(edges@.take(i as int), system_time, system_timestamp),
        decreases edges@.len() - i,
    {
        let e = edges[i];
        triggers.push(
            TriggerEvent { system_time, system_timestamp, t: e.t, id: e.id, rising: e.rising },
        );
        assert(triggers@ =~= stamped_all(edges@.take(i + 1), system_time, system_timestamp));
        i += 1;
    }
    assert(edges@.take(i as int) =~= edges@);
    let dvs_first: Option<u64> = if dvs.len() == 0 {
        None
    } else {
        Some(dvs[0].t)
    };
    let edge_first: Option<u64> = if edges.len() == 0 {
        None
    } else {
        Some(edges[0].t)
    };
    let first_t = match (dvs_first, edge_first) {
        (Some(x), Some(y)) => Some(
            if y < x {
                y
            } else {
                x
            },
        ),
        (Some(x), None) => Some(x),
        (None, b) => b,
    };
    let dvs_last: Option<u64> = if dvs.len() == 0 {
        None
    } else {
        Some(dvs[dvs.len() - 1].t)
    };
    let edge_last: Option<u64> = if edges.len() == 0 {
        None
    } else {
        Some(edges[edges.len() - 1].t)
    };
    let last_t = match (dvs_last, edge_last) {
        (Some(x), Some(y)) => Some(
            if x < y {
                y
            } else {
                x
            },
        ),
        (Some(x), None) => Some(x),
        (None, b) => b,
    };
    DecodedPacket {
        events: events::encode_dvs(dvs),
        triggers: events::encode_triggers(&triggers),
        dvs_count: dvs.len() as u64,
        trigger_count: edges.len() as u64,
        first_t,
        last_t,
    }
}

/// Whether a time is the earliest among decoded events.
pub open spec fn is_earliest(
    first_t: Option<u64>,
    dvs: Seq<DvsEvent>,
    edges: Seq<TriggerEdge>,
) -> bool {
    &&& first_t is None <==> dvs.len() == 0 && edges.len() == 0
    &&& first_t matches Some(t) ==> {
        &&& forall|i: int| 0 <= i < dvs.len() ==> t <= (#[trigger] dvs[i]).t
        &&& forall|i: int| 0 <= i < edges.len() ==> t <= (#[trigger] edges[i]).t
        &&& (exists|i: int| 0 <= i < dvs.len() && (#[trigger] dvs[i]).t == t) || (exists|i: int|
            0 <= i < edges.len() && (#[trigger] edges[i]).t == t)
    }
}

/// Whether a time is the latest among decoded events.
pub open spec fn is_latest(
    last_t: Option<u64>,
    dvs: Seq<DvsEvent>,
    edges: Seq<TriggerEdge>,
) -> bool {
    &&& last_t is None <==> dvs.len() == 0 && edges.len() == 0
    &&& last_t matches Some(t) ==> {
        &&& forall|i: int| 0 <= i < dvs.len() ==> (#[trigger] dvs[i]).t <= t
        &&& forall|i: int| 0 <= i < edges.len() ==> (#[trigger] edges[i]).t <= t
        &&& (exists|i: int| 0 <= i < dvs.len() && (#[trigger] dvs[i]).t == t) || (exists|i: int|
            0 <= i < edges.len() && (#[trigger] edges[i]).t == t)
    }
}

/// Whether decoding `part` and then `slice` gives what decoding the words of both in one piece
/// gives, after the words in `base`.
pub open spec fn decodes_in_pieces(
    width: u16,
    height: u16,
    base: Seq<u8>,
    part: Seq<u8>,
    slice: Seq<u8>,
) -> bool {
    let whole = evt3_decoded(width, height, base, part + whole_words(slice));
    let first = evt3_decoded(width, height, base, part);
    let second = evt3_decoded(width, height, base + part, slice);
    whole == (first.0 + second.0, first.1 + second.1)
}

impl Decoder {
    /// A decoder for a sensor of the given size that has decoded nothing.
    pub fn new(width: u16, height: u16) -> (d: Decoder)
        ensures
            d.width() == width,
            d.height() == height,
            d.fed() == Seq::<u8>::empty(),
            evt3_wraps(width, height, Seq::<u8>::empty()) == 0,
            evt3_decoded(width, height, Seq::<u8>::empty(), Seq::<u8>::empty()) == (
                Seq::<DvsEvent>::empty(),
                Seq::<TriggerEdge>::empty(),
            ),
    {
        Decoder::from_dimensions(width, height)
    }

    /// Forgets what was decoded: the device starts again.
    pub fn restart(&mut self)
        ensures
            final(self).width() == old(self).width(),
            final(self).height() == old(self).height(),
            final(self).fed() == Seq::<u8>::empty(),
            evt3_wraps(old(self).width(), old(self).height(), final(self).fed()) == 0,
    {
        *self = Decoder::from_dimensions(self.width, self.height);
    }

    /// Decodes a packet and serialises its events. The packet's times are the earliest and the
    /// latest among them. It does not matter where the words decoded so far were cut: they decode as
    /// in one piece. `None`, with nothing decoded, exactly where the count of timestamp wraps has no
    /// room for the packet.
    pub fn decode_packet(
        &mut self,
        raw: &[u8],
        system_time: u64,
        system_timestamp: u64,
    ) -> (r: Option<DecodedPacket>)
        ensures
            final(self).width() == old(self).width(),
            final(self).height() == old(self).height(),
            r is Some <==> has_room(old(self).width(), old(self).height(), old(self).fed(), raw@),
            r is None ==> final(self).fed() == old(self).fed(),
            r matches Some(p) ==> {
                let d = evt3_decoded(
                    old(self).width(),
                    old(self).height(),
                    old(self).fed(),
                    raw@,
                );
                &&& final(self).fed() == old(self).fed() + whole_words(raw@)
                &&& packet_holds(p, d.0, d.1, system_time, system_timestamp)
                &&& is_earliest(p.first_t, d.0, d.1)
                &&& is_latest(p.last_t, d.0, d.1)
                &&& forall|i: int|
                    0 <= i < d.0.len() ==> (#[trigger] d.0[i]).x < old(self).width() && d.0[i].y
                        < old(self).height()
                &&& forall|base: Seq<u8>, part: Seq<u8>|
                    base.len() % 2 == 0 && part.len() % 2 == 0 && base + part == old(self).fed()
                        ==> #[trigger] decodes_in_pieces(
                        old(self).width(),
                        old(self).height(),
                        base,
                        part,
                        raw@,
                    )
            },
            evt3_wraps(old(self).width(), old(self).height(), final(self).fed()) <= evt3_wraps(
                old(self).width(),
                old(self).height(),
                old(self).fed(),
            ) + raw@.len() / 2,
    {
        let words: u64 = (raw.len() / 2) as u64;
        if self.wraps() as u64 + words > u32::MAX as u64 {
            return None;
        }
        let (dvs, edges) = self.convert(raw);
        let p = encode_packet(&dvs, &edges, system_time, system_timestamp);
        proof {
            if let Some(t) = p.first_t {
                if dvs@.len() > 0 && dvs@[0].t == t {
                    assert(dvs@[0].t == t);
                } else {
                    assert(edges@[0].t == t);
                }
            }
            if let Some(t) = p.last_t {
                if dvs@.len() > 0 && dvs@.last().t == t {
                    assert(dvs@[dvs@.len() - 1].t == t);
                } else {
                    assert(edges@[edges@.len() - 1].t == t);
                }
            }
        }
        Some(p)
    }
}

// ---------------------------------------------------------------------------
// Laws
// ---------------------------------------------------------------------------
/// A reader of a packet's trigger records gets every edge, in order, with its time, channel and
/// direction, and with the packet's two system times.
pub proof fn packet_tells_its_edges(
    p: DecodedPacket,
    dvs: Seq<DvsEvent>,
    edges: Seq<TriggerEdge>,
    system_time: u64,
    system_timestamp: u64,
)
    requires
        packet_holds(p, dvs, edges, system_time, system_timestamp),
    ensures
        p.trigger_count == edges.len(),
        p.triggers@.len() == 26 * edges.len(),
        events::trigger_events(p.triggers@).len() == edges.len(),
        forall|i: int|
            0 <= i < edges.len() ==> {
                let r = #[trigger] events::trigger_events(p.triggers@)[i];
                &&& r.t == edges[i].t
                &&& r.id == edges[i].id
                &&& r.rising == edges[i].rising
                &&& r.system_time == system_time
                &&& r.system_timestamp == system_timestamp
                &&& p.triggers@[26 * i + 24] == edges[i].id
                &&& p.triggers@[26 * i + 25] == edges[i].rising
            },
{
    let all = stamped_all(edges, system_time, system_timestamp);
    events::trigger_stream_reads_back(all);
    assert forall|i: int| 0 <= i < edges.len() implies {
        let r = #[trigger] events::trigger_events(p.triggers@)[i];
        &&& r.t == edges[i].t
        &&& r.id == edges[i].id
        &&& r.rising == edges[i].rising
        &&& r.system_time == system_time
        &&& r.system_timestamp == system_timestamp
        &&& p.triggers@[26 * i + 24] == edges[i].id
        &&& p.triggers@[26 * i + 25] == edges[i].rising
    } by {
        events::trigger_stream_is_records(all, i);
        events::trigger_layout(all[i]);
        let record = p.triggers@.subrange(26 * i, 26 * i + 26);
        assert(record[24] == p.triggers@[26 * i + 24]);
        assert(record[25] == p.triggers@[26 * i + 25]);
    }
}

/// A reader of a packet's DVS records gets every event, in order, with its time, pixel and polarity.
pub proof fn packet_tells_its_events(
    p: DecodedPacket,
    dvs: Seq<DvsEvent>,
    edges: Seq<TriggerEdge>,
    system_time: u64,
    system_timestamp: u64,
)
    requires
        packet_holds(p, dvs, edges, system_time, system_timestamp),
    ensures
        p.dvs_count == dvs.len(),
        p.events@.len() == 13 * dvs.len(),
        events::dvs_events(p.events@).len() == dvs.len(),
        forall|i: int|
            0 <= i < dvs.len() ==> {
                let r = #[trigger] events::dvs_events(p.events@)[i];
                &&& r.t == dvs[i].t
                &&& r.x == dvs[i].x
                &&& r.y == dvs[i].y
                &&& r.on == dvs[i].on
                &&& p.events@[13 * i + 12] == dvs[i].on
            },
{
    events::dvs_stream_reads_back(dvs);
    assert forall|i: int| 0 <= i < dvs.len() implies {
        let r = #[trigger] events::dvs_events(p.events@)[i];
        &&& r.t == dvs[i].t
        &&& r.x == dvs[i].x
        &&& r.y == dvs[i].y
        &&& r.on == dvs[i].on
        &&& p.events@[13 * i + 12] == dvs[i].on
    } by {
        events::dvs_stream_is_records(dvs, i);
        events::dvs_layout(dvs[i]);
        let record = p.events@.subrange(13 * i, 13 * i + 13);
        assert(record[12] == p.events@[13 * i + 12]);
    }
}

/// A packet's times lie at the ends: its first time is that of the first DVS event or of the first
/// edge, whichever is earlier; its last time is that of the last DVS event or of the last edge,
/// whichever is later. There are none where there is no event.
pub proof fn packet_times_are_at_the_ends(
    p: DecodedPacket,
    dvs: Seq<DvsEvent>,
    edges: Seq<TriggerEdge>,
    system_time: u64,
    system_timestamp: u64,
)
    requires
        packet_holds(p, dvs, edges, system_time, system_timestamp),
    ensures
        p.first_t is None <==> dvs.len() == 0 && edges.len() == 0,
        p.last_t is None <==> dvs.len() == 0 && edges.len() == 0,
        p.first_t matches Some(t) ==> {
            &&& dvs.len() > 0 ==> t <= dvs[0].t
            &&& edges.len() > 0 ==> t <= edges[0].t
            &&& (dvs.len() > 0 && t == dvs[0].t) || (edges.len() > 0 && t == edges[0].t)
        },
        p.last_t matches Some(t) ==> {
            &&& dvs.len() > 0 ==> dvs[dvs.len() - 1].t <= t
            &&& edges.len() > 0 ==> edges[edges.len() - 1].t <= t
            &&& (dvs.len() > 0 && t == dvs[dvs.len() - 1].t) || (edges.len() > 0 && t
                == edges[edges.len() - 1].t)
        },
{
}

/// All bytes of a slice are words, but for an odd one at its end.
pub proof fn words_are_all_but_an_odd_byte(slice: Seq<u8>)
    ensures
        ({
            let w = whole_words(slice);
            &&& w.len() % 2 == 0
            &&& w.len() <= slice.len() <= w.len() + 1
            &&& forall|i: int| 0 <= i < w.len() ==> #[trigger] w[i] == slice[i]
        }),
{
}

/// There is room for a slice exactly while the wraps so far and its words together are below 2^32.
pub proof fn room_is_what_32_bits_hold(width: u16, height: u16, fed: Seq<u8>, slice: Seq<u8>)
    ensures
        has_room(width, height, fed, slice) <==> 2 * evt3_wraps(width, height, fed) + slice.len()
            < 0x2_0000_0000,
{
}

} // verus!
