//! A bounded history of raw packets, kept so that a recording can begin before it was asked for.

use std::collections::VecDeque;

use vstd::prelude::*;

verus! {

/// A buffered packet in the model: when it arrived, in nanoseconds, and its bytes.
pub type Chunk = (u64, Seq<u8>);

/// The number of bytes in a run of chunks.
pub open spec fn total(s: Seq<Chunk>) -> nat
    decreases s.len(),
{
    if s.len() == 0 {
        0
    } else {
        s[0].1.len() + total(s.drop_first())
    }
}

/// Whether a chunk is older than the cap on the age.
pub open spec fn too_old(arrived: u64, now: u64, max_age: u128) -> bool {
    arrived + max_age < now
}

/// Whether a history respects both caps: it is empty, or its oldest chunk is not too old and its
/// total size is within the cap.
pub open spec fn fits(s: Seq<Chunk>, now: u64, max_age: u128, max_bytes: usize) -> bool {
    s.len() == 0 || (!too_old(s[0].0, now, max_age) && total(s) <= max_bytes)
}

/// What eviction leaves: the longest end of the history that respects both caps.
pub open spec fn evicted(s: Seq<Chunk>, now: u64, max_age: u128, max_bytes: usize) -> Seq<Chunk>
    decreases s.len(),
{
    if fits(s, now, max_age, max_bytes) {
        s
    } else {
        evicted(s.drop_first(), now, max_age, max_bytes)
    }
}

/// Whether chunks stand in the order of their arrival.
pub open spec fn in_order(s: Seq<Chunk>) -> bool {
    forall|i: int, j: int| 0 <= i <= j < s.len() ==> (#[trigger] s[i]).0 <= (#[trigger] s[j]).0
}

/// Recent raw packets. Every packet is appended; eviction enforces both caps at once.
#[derive(Debug)]
pub struct CircularBuffer {
    pub chunks: VecDeque<(u64, Vec<u8>)>,
    pub total_bytes: usize,
}

impl View for CircularBuffer {
    type V = Seq<Chunk>;

    open spec fn view(&self) -> Seq<Chunk> {
        self.chunks@.map_values(|c: (u64, Vec<u8>)| (c.0, c.1@))
    }
}

impl CircularBuffer {
    /// Whether the byte count is the number of bytes held.
    pub open spec fn wf(self) -> bool {
        self.total_bytes == total(self@)
    }

    /// An empty buffer.
    pub fn new() -> (b: Self)
        ensures
            b.wf(),
            b@ == Seq::<Chunk>::empty(),
    {
        let b = CircularBuffer { chunks: VecDeque::new(), total_bytes: 0 };
        assert(b@ =~= Seq::<Chunk>::empty());
        b
    }

    /// Appends a packet that arrived at `now`.
    pub fn push(&mut self, now: u64, data: Vec<u8>)
        requires
            old(self).wf(),
            total(old(self)@) + data@.len() <= usize::MAX,
        ensures
            final(self).wf(),
            final(self)@ == old(self)@.push((now, data@)),
    {
        let ghost before = self@;
        self.total_bytes = self.total_bytes + data.len();
        proof {
            total_push(before, (now, data@));
        }
        let ghost added = data@;
        self.chunks.push_back((now, data));
        assert(self@ =~= before.push((now, added)));
    }

    /// Drops the oldest packets until none is older than `max_age` and the total size is at most
    /// `max_bytes`. Times are in nanoseconds.
    pub fn evict(&mut self, now: u64, max_age: u128, max_bytes: usize)
        requires
            old(self).wf(),
        ensures
            final(self).wf(),
            final(self)@ == evicted(old(self)@, now, max_age, max_bytes),
    {
        while self.chunks.len() > 0
            invariant
                self.wf(),
                evicted(self@, now, max_age, max_bytes) == evicted(
                    old(self)@,
                    now,
                    max_age,
                    max_bytes,
                ),
            ensures
                self.wf(),
                self@ == evicted(old(self)@, now, max_age, max_bytes),
            decreases self.chunks@.len(),
        {
            let ghost before = self@;
            let arrived: u64 = self.chunks[0].0;
            let size: usize = self.chunks[0].1.len();
            let stale = now as u128 >= max_age && (arrived as u128) < now as u128 - max_age;
            assert(before[0] == (arrived, self.chunks@[0].1@));
            if !stale && self.total_bytes <= max_bytes {
                break;
            }
            let _ = self.chunks.pop_front();
            self.total_bytes = self.total_bytes - size;
            assert(self@ =~= before.drop_first());
        }
    }

    /// The bytes of the buffered packets, oldest first: what a recording that starts now begins
    /// with.
    pub fn preroll(&self) -> (r: Vec<&Vec<u8>>)
        ensures
            r@.len() == self@.len(),
            forall|i: int| 0 <= i < r@.len() ==> (#[trigger] r@[i])@ == self@[i].1,
    {
        let mut r: Vec<&Vec<u8>> = Vec::new();
        let mut i: usize = 0;
        while i < self.chunks.len()
            invariant
                i <= self.chunks@.len(),
                r@.len() == i,
                forall|k: int| 0 <= k < i ==> (#[trigger] r@[k])@ == self@[k].1,
            decreases self.chunks@.len() - i,
        {
            r.push(&self.chunks[i].1);
            i += 1;
        }
        r
    }
}

// ---------------------------------------------------------------------------
// Laws
// ---------------------------------------------------------------------------
/// Appending a chunk adds its size.
pub proof fn total_push(s: Seq<Chunk>, c: Chunk)
    ensures
        total(s.push(c)) == total(s) + c.1.len(),
    decreases s.len(),
{
    reveal_with_fuel(total, 2);
    if s.len() == 0 {
        assert(s.push(c).drop_first() =~= Seq::<Chunk>::empty());
    } else {
        total_push(s.drop_first(), c);
        assert(s.push(c).drop_first() =~= s.drop_first().push(c));
    }
}

/// Eviction leaves an end of the history that respects both caps, and no longer end does.
pub proof fn evicted_is_longest_end(s: Seq<Chunk>, now: u64, max_age: u128, max_bytes: usize)
    ensures
        ({
            let r = evicted(s, now, max_age, max_bytes);
            &&& r.len() <= s.len()
            &&& r == s.skip(s.len() - r.len())
            &&& fits(r, now, max_age, max_bytes)
            &&& total(r) <= max_bytes
            &&& forall|k: int|
                0 <= k < s.len() - r.len() ==> !fits(#[trigger] s.skip(k), now, max_age, max_bytes)
        }),
    decreases s.len(),
{
    let r = evicted(s, now, max_age, max_bytes);
    if fits(s, now, max_age, max_bytes) {
        assert(s.skip(0) =~= s);
    } else {
        evicted_is_longest_end(s.drop_first(), now, max_age, max_bytes);
        let t = s.drop_first();
        assert(t.skip(t.len() - r.len()) =~= s.skip(s.len() - r.len()));
        assert forall|k: int| 0 <= k < s.len() - r.len() implies !fits(
            #[trigger] s.skip(k),
            now,
            max_age,
            max_bytes,
        ) by {
            if k == 0 {
                assert(s.skip(0) =~= s);
            } else {
                assert(t.skip(k - 1) =~= s.skip(k));
            }
        }
    }
}

/// Appending a chunk that arrived no earlier than the others keeps the order of arrival.
pub proof fn push_keeps_order(s: Seq<Chunk>, c: Chunk)
    requires
        in_order(s),
        s.len() > 0 ==> s.last().0 <= c.0,
    ensures
        in_order(s.push(c)),
{
    let r = s.push(c);
    assert forall|i: int, j: int| 0 <= i <= j < r.len() implies (#[trigger] r[i]).0 <= (
    #[trigger] r[j]).0 by {
        if i < s.len() {
            assert(s[i].0 <= s[s.len() - 1].0);
        }
    }
}

/// Where chunks stand in the order of their arrival, none of those left is too old, and they still
/// stand in order.
pub proof fn evicted_are_all_recent(s: Seq<Chunk>, now: u64, max_age: u128, max_bytes: usize)
    requires
        in_order(s),
    ensures
        in_order(evicted(s, now, max_age, max_bytes)),
        forall|i: int|
            0 <= i < evicted(s, now, max_age, max_bytes).len() ==> !too_old(
                (#[trigger] evicted(s, now, max_age, max_bytes)[i]).0,
                now,
                max_age,
            ),
{
    let r = evicted(s, now, max_age, max_bytes);
    evicted_is_longest_end(s, now, max_age, max_bytes);
    let d = s.len() - r.len();
    assert(forall|i: int| 0 <= i < r.len() ==> r[i] == s[i + d]);
    assert forall|i: int| 0 <= i < r.len() implies !too_old((#[trigger] r[i]).0, now, max_age) by {
        assert(r[0].0 <= r[i].0);
    }
}

/// A cap of no bytes leaves no bytes, and a cap of no age leaves nothing that arrived before now:
/// either one turns the buffer off.
pub proof fn zero_cap_turns_buffer_off(s: Seq<Chunk>, now: u64, cap: u128, max_bytes: usize)
    ensures
        total(evicted(s, now, cap, 0)) == 0,
        (forall|i: int| 0 <= i < s.len() ==> (#[trigger] s[i]).0 < now) ==> evicted(
            s,
            now,
            0,
            max_bytes,
        ).len() == 0,
{
    evicted_is_longest_end(s, now, cap, 0);
    evicted_is_longest_end(s, now, 0, max_bytes);
    let r = evicted(s, now, 0, max_bytes);
    if r.len() > 0 && (forall|i: int| 0 <= i < s.len() ==> (#[trigger] s[i]).0 < now) {
        assert(r[0] == s[s.len() - r.len()]);
    }
}

/// A packet that is by itself within both caps survives its own eviction.
pub proof fn newest_is_kept(s: Seq<Chunk>, c: Chunk, now: u64, max_age: u128, max_bytes: usize)
    requires
        !too_old(c.0, now, max_age),
        c.1.len() <= max_bytes,
    ensures
        evicted(s.push(c), now, max_age, max_bytes).len() > 0,
        evicted(s.push(c), now, max_age, max_bytes).last() == c,
{
    let all = s.push(c);
    let r = evicted(all, now, max_age, max_bytes);
    evicted_is_longest_end(all, now, max_age, max_bytes);
    if r.len() == 0 {
        let end = all.skip(all.len() - 1);
        assert(end =~= seq![c]);
        reveal_with_fuel(total, 2);
        assert(end.drop_first() =~= Seq::<Chunk>::empty());
        assert(fits(end, now, max_age, max_bytes));
        assert(false);
    }
    assert(r.last() == all[all.len() - 1]);
}

/// Evicting twice under the same caps at the same time is evicting once.
pub proof fn evict_is_idempotent(s: Seq<Chunk>, now: u64, max_age: u128, max_bytes: usize)
    ensures
        evicted(evicted(s, now, max_age, max_bytes), now, max_age, max_bytes) == evicted(
            s,
            now,
            max_age,
            max_bytes,
        ),
{
    evicted_is_longest_end(s, now, max_age, max_bytes);
}

/// The bytes of a run of chunks, one after another.
pub open spec fn contents(s: Seq<Chunk>) -> Seq<u8> {
    s.map_values(|c: Chunk| c.1).flatten()
}

/// The total size is the number of bytes that the chunks have together.
pub proof fn total_counts_bytes(s: Seq<Chunk>)
    ensures
        total(s) == contents(s).len(),
    decreases s.len(),
{
    let f = |c: Chunk| c.1;
    if s.len() > 0 {
        total_counts_bytes(s.drop_first());
        assert(s.map_values(f).drop_first() =~= s.drop_first().map_values(f));
    }
}

/// A packet is dropped only where it has to be: it arrived more than the cap on the age ago, or the
/// bytes from it to the newest packet are more than the cap on the size. What is left is the rest,
/// unchanged, and it respects both caps.
pub proof fn only_old_or_excess_is_dropped(
    s: Seq<Chunk>,
    now: u64,
    max_age: u128,
    max_bytes: usize,
)
    ensures
        ({
            let r = evicted(s, now, max_age, max_bytes);
            let dropped = s.len() - r.len();
            &&& dropped >= 0
            &&& r == s.skip(dropped)
            &&& forall|k: int|
                0 <= k < dropped ==> (#[trigger] s[k]).0 + max_age < now || contents(
                    s.skip(k),
                ).len() > max_bytes
            &&& r.len() > 0 ==> now <= r[0].0 + max_age
            &&& contents(r).len() <= max_bytes
        }),
{
    let r = evicted(s, now, max_age, max_bytes);
    evicted_is_longest_end(s, now, max_age, max_bytes);
    assert forall|k: int| 0 <= k < s.len() - r.len() implies (#[trigger] s[k]).0 + max_age < now
        || contents(s.skip(k)).len() > max_bytes by {
        assert(!fits(s.skip(k), now, max_age, max_bytes));
        total_counts_bytes(s.skip(k));
    }
    total_counts_bytes(r);
}

/// Where no packet is older than the cap on the age and all of them together are within the cap on
/// the size, nothing is dropped.
pub proof fn within_caps_all_are_kept(s: Seq<Chunk>, now: u64, max_age: u128, max_bytes: usize)
    requires
        forall|i: int| 0 <= i < s.len() ==> now <= (#[trigger] s[i]).0 + max_age,
        contents(s).len() <= max_bytes,
    ensures
        evicted(s, now, max_age, max_bytes) == s,
{
    total_counts_bytes(s);
    if s.len() > 0 {
        assert(now <= s[0].0 + max_age);
    }
}

/// A higher cap never keeps less.
pub proof fn higher_caps_keep_more(
    s: Seq<Chunk>,
    now: u64,
    age_a: u128,
    bytes_a: usize,
    age_b: u128,
    bytes_b: usize,
)
    requires
        age_a <= age_b,
        bytes_a <= bytes_b,
    ensures
        evicted(s, now, age_a, bytes_a).len() <= evicted(s, now, age_b, bytes_b).len(),
{
    let a = evicted(s, now, age_a, bytes_a);
    let b = evicted(s, now, age_b, bytes_b);
    evicted_is_longest_end(s, now, age_a, bytes_a);
    evicted_is_longest_end(s, now, age_b, bytes_b);
    if a.len() > b.len() {
        let k = s.len() - a.len();
        assert(fits(s.skip(k), now, age_b, bytes_b));
    }
}

} // verus!
