//! Length-prefixed messages on a byte stream.

use vstd::prelude::*;

use crate::bytes;
use crate::events;

use crate::events::DvsEvent;
use crate::events::TriggerEvent;

verus! {

/// A message on the wire: the length of the payload in four bytes, lowest first, then the payload.
/// The length is cut to 32 bits.
pub open spec fn framed(payload: Seq<u8>) -> Seq<u8> {
    bytes::le_bytes(payload.len() % 0x1_0000_0000, 4) + payload
}

/// The first message of a stream and what follows it, where the message is complete.
pub open spec fn unframed(s: Seq<u8>) -> Option<(Seq<u8>, Seq<u8>)> {
    if s.len() < 4 {
        None
    } else {
        let n = bytes::le_value(s.take(4)) as int;
        if s.len() < 4 + n {
            None
        } else {
            Some((s.subrange(4, 4 + n), s.skip(4 + n)))
        }
    }
}

/// The prefix of a message.
pub fn frame_prefix(payload: &[u8]) -> (r: [u8; 4])
    ensures
        framed(payload@) == r@ + payload@,
        r@ == bytes::le_bytes(payload@.len() % 0x1_0000_0000, 4),
{
    let n: u64 = payload.len() as u64;
    assert(n as u32 == n % 0x1_0000_0000) by (bit_vector);
    bytes::le32(#[verifier::truncate] (n as u32))
}

/// The length that a prefix gives.
pub fn payload_len(prefix: &[u8; 4]) -> (r: u32)
    ensures
        r == bytes::le_value(prefix@),
{
    assert(prefix@.subrange(0, 4) =~= prefix@);
    bytes::read_u32(prefix.as_slice(), 0)
}

/// How receiving a fixed number of bytes goes on.
#[derive(Clone, Copy, Debug, PartialEq, Eq, Structural)]
pub enum Receiving {
    /// Read again, behind this many bytes.
    More(usize),
    /// All bytes are there.
    Full,
    /// The other side closed the stream too early.
    Closed,
}

/// How to begin receiving `wanted` bytes.
pub fn recv_start(wanted: usize) -> (r: Receiving)
    ensures
        wanted == 0 ==> r == Receiving::Full,
        wanted > 0 ==> r == Receiving::More(0),
{
    if wanted == 0 {
        Receiving::Full
    } else {
        Receiving::More(0)
    }
}

/// How to go on after a read gave `n` bytes behind the first `received`.
pub fn recv_step(received: usize, wanted: usize, n: usize) -> (r: Receiving)
    requires
        received + n <= wanted,
    ensures
        n == 0 ==> r == Receiving::Closed,
        n > 0 && received + n == wanted ==> r == Receiving::Full,
        n > 0 && received + n < wanted ==> r == Receiving::More((received + n) as usize),
{
    if n == 0 {
        Receiving::Closed
    } else if received + n == wanted {
        Receiving::Full
    } else {
        Receiving::More(received + n)
    }
}

/// A message of less than 4 GiB at the head of a stream is read back, and the stream goes on
/// behind it.
pub proof fn frame_reads_back(payload: Seq<u8>, rest: Seq<u8>)
    requires
        payload.len() < 0x1_0000_0000,
    ensures
        unframed(framed(payload) + rest) == Some((payload, rest)),
{
    reveal_with_fuel(bytes::capacity, 5);
    let n = payload.len();
    bytes::le_reads_back(n, 4);
    let s = framed(payload) + rest;
    assert(s.take(4) =~= bytes::le_bytes(n, 4));
    assert(s.subrange(4, 4 + n as int) =~= payload);
    assert(s.skip(4 + n as int) =~= rest);
}

/// What the pipeline publishes is what a client of the events socket sees: a message of less than
/// 4 GiB that holds DVS events is read back as those events.
pub proof fn published_events_are_seen(es: Seq<DvsEvent>, rest: Seq<u8>)
    requires
        13 * es.len() < 0x1_0000_0000,
    ensures
        unframed(framed(events::dvs_stream(es)) + rest) matches Some((payload, next)) && {
            &&& events::dvs_events(payload) == es
            &&& next == rest
        },
{
    events::dvs_stream_reads_back(es);
    frame_reads_back(events::dvs_stream(es), rest);
}

/// The same for a client of the triggers socket.
pub proof fn published_triggers_are_seen(es: Seq<TriggerEvent>, rest: Seq<u8>)
    requires
        26 * es.len() < 0x1_0000_0000,
    ensures
        unframed(framed(events::trigger_stream(es)) + rest) matches Some((payload, next)) && {
            &&& events::trigger_events(payload) == es
            &&& next == rest
        },
{
    events::trigger_stream_reads_back(es);
    frame_reads_back(events::trigger_stream(es), rest);
}

/// A message begins with four bytes that give the length of its payload, lowest first, as far as 32
/// bits hold it; the payload follows as it is.
pub proof fn frame_layout(payload: Seq<u8>, i: nat)
    requires
        i < 4,
    ensures
        framed(payload).len() == 4 + payload.len(),
        framed(payload)[i as int] as int == (payload.len() as int / vstd::arithmetic::power::pow(
            256,
            i,
        )) % 256,
        framed(payload).skip(4) == payload,
{
    let n = payload.len();
    let cut = n % 0x1_0000_0000;
    bytes::le_bytes_are_digits(cut, 4, i);
    assert(framed(payload).skip(4) =~= payload);
    cut_keeps_low_bytes(n, i);
}

proof fn cut_keeps_low_bytes(n: nat, i: nat)
    requires
        i < 4,
    ensures
        ((n % 0x1_0000_0000) as int / vstd::arithmetic::power::pow(256, i)) % 256 == (n as int
            / vstd::arithmetic::power::pow(256, i)) % 256,
{
    powers_of_a_byte();
    cut_keeps_low_digits(n as int);
}

proof fn powers_of_a_byte()
    ensures
        vstd::arithmetic::power::pow(256, 0) == 1,
        vstd::arithmetic::power::pow(256, 1) == 256,
        vstd::arithmetic::power::pow(256, 2) == 65536,
        vstd::arithmetic::power::pow(256, 3) == 16777216,
{
    reveal_with_fuel(vstd::arithmetic::power::pow, 5);
}

proof fn cut_keeps_low_digits(x: int)
    requires
        x >= 0,
    ensures
        ({
            let y = x % 0x1_0000_0000;
            &&& (y / 1) % 256 == (x / 1) % 256
            &&& (y / 256) % 256 == (x / 256) % 256
            &&& (y / 65536) % 256 == (x / 65536) % 256
            &&& (y / 16777216) % 256 == (x / 16777216) % 256
        }),
{
    let k = x / 0x1_0000_0000;
    let y = x % 0x1_0000_0000;
    higher_digits_do_not_matter(x, y, 16777216 * k, 1);
    higher_digits_do_not_matter(x, y, 65536 * k, 256);
    higher_digits_do_not_matter(x, y, 256 * k, 65536);
    higher_digits_do_not_matter(x, y, k, 16777216);
}

proof fn higher_digits_do_not_matter(x: int, y: int, k: int, unit: nat)
    requires
        unit > 0,
        x == y + (256 * k) * unit,
    ensures
        (y / unit as int) % 256 == (x / unit as int) % 256,
{
    vstd::arithmetic::div_mod::lemma_hoist_over_denominator(y, 256 * k, unit);
    vstd::arithmetic::div_mod::lemma_mod_multiples_vanish(k, y / unit as int, 256);
}

/// A message is read only where all of it is there: what is read and what follows it make up the
/// stream behind the four bytes of the length, and the length is that of what is read.
pub proof fn unframed_is_a_message(s: Seq<u8>)
    ensures
        unframed(s) matches Some((payload, rest)) ==> {
            &&& s == framed(payload) + rest
            &&& payload.len() < 0x1_0000_0000
        },
        unframed(s) is None <==> s.len() < 4 || s.len() < 4 + s[0] + 256 * s[1] + 65536 * s[2]
            + 16777216 * s[3],
{
    if s.len() >= 4 {
        let h = s.take(4);
        reveal_with_fuel(bytes::le_value, 5);
        assert(h.drop_first().drop_first().drop_first().drop_first().len() == 0);
        assert(bytes::le_value(h) == s[0] + 256 * s[1] + 65536 * s[2] + 16777216 * s[3]);
        if unframed(s) is Some {
            let (payload, rest) = unframed(s)->0;
            let n = payload.len();
            assert(payload.len() < 0x1_0000_0000);
            bytes::le_writes_back(h);
            assert(s =~= framed(payload) + rest);
        }
    }
}

} // verus!
