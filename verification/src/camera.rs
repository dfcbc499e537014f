//! Camera settings: biases and the hardware event-rate limiter.

use vstd::prelude::*;

use crate::text;

verus! {

/// The sensor's bias currents.
#[derive(Clone, Copy, Debug, PartialEq, Eq, Structural)]
pub struct Biases {
    pub pr: u8,
    pub fo: u8,
    pub hpf: u8,
    pub diff_on: u8,
    pub diff: u8,
    pub diff_off: u8,
    pub inv: u8,
    pub refr: u8,
    pub reqpuy: u8,
    pub reqpux: u8,
    pub sendreqpdy: u8,
    pub unknown_1: u8,
    pub unknown_2: u8,
}

/// A hardware limit: at most so many events per reference period.
#[derive(Clone, Copy, Debug, PartialEq, Eq, Structural)]
pub struct RateLimiter {
    pub reference_period_us: u16,
    pub maximum_events_per_period: u32,
}

/// The device settings that can be changed at runtime.
#[derive(Clone, Copy, Debug, PartialEq, Eq, Structural)]
pub struct Configuration {
    pub biases: Biases,
    pub rate_limiter: Option<RateLimiter>,
}

/// A change of some of the biases.
#[derive(Clone, Copy, Debug, PartialEq, Eq, Structural)]
pub struct BiasesPatch {
    pub diff: Option<u8>,
    pub diff_on: Option<u8>,
    pub diff_off: Option<u8>,
    pub hpf: Option<u8>,
    pub refr: Option<u8>,
    pub pr: Option<u8>,
    pub fo: Option<u8>,
    pub inv: Option<u8>,
}

/// The supplied value, or else the current one.
pub open spec fn patched(current: u8, supplied: Option<u8>) -> u8 {
    match supplied {
        Some(v) => v,
        None => current,
    }
}

/// The biases after a patch: each supplied bias takes its new value, the others stay.
pub open spec fn patched_biases(b: Biases, p: BiasesPatch) -> Biases {
    Biases {
        pr: patched(b.pr, p.pr),
        fo: patched(b.fo, p.fo),
        hpf: patched(b.hpf, p.hpf),
        diff_on: patched(b.diff_on, p.diff_on),
        diff: patched(b.diff, p.diff),
        diff_off: patched(b.diff_off, p.diff_off),
        inv: patched(b.inv, p.inv),
        refr: patched(b.refr, p.refr),
        reqpuy: b.reqpuy,
        reqpux: b.reqpux,
        sendreqpdy: b.sendreqpdy,
        unknown_1: b.unknown_1,
        unknown_2: b.unknown_2,
    }
}

fn or_current(current: u8, supplied: Option<u8>) -> (v: u8)
    ensures
        v == patched(current, supplied),
{
    match supplied {
        Some(v) => v,
        None => current,
    }
}

impl Biases {
    /// Applies a patch: only the supplied biases change.
    pub fn patch(&mut self, p: &BiasesPatch)
        ensures
            *final(self) == patched_biases(*old(self), *p),
    {
        self.diff = or_current(self.diff, p.diff);
        self.diff_on = or_current(self.diff_on, p.diff_on);
        self.diff_off = or_current(self.diff_off, p.diff_off);
        self.hpf = or_current(self.hpf, p.hpf);
        self.refr = or_current(self.refr, p.refr);
        self.pr = or_current(self.pr, p.pr);
        self.fo = or_current(self.fo, p.fo);
        self.inv = or_current(self.inv, p.inv);
    }
}

/// The biases as a JSON object, in the order of the driver's fields.
pub open spec fn biases_text(b: Biases) -> Seq<char> {
    "{\"pr\":"@ + text::dec(b.pr as nat) + ",\"fo\":"@ + text::dec(b.fo as nat) + ",\"hpf\":"@
        + text::dec(b.hpf as nat) + ",\"diff_on\":"@ + text::dec(b.diff_on as nat) + ",\"diff\":"@
        + text::dec(b.diff as nat) + ",\"diff_off\":"@ + text::dec(b.diff_off as nat)
        + ",\"inv\":"@ + text::dec(b.inv as nat) + ",\"refr\":"@ + text::dec(b.refr as nat)
        + ",\"reqpuy\":"@ + text::dec(b.reqpuy as nat) + ",\"reqpux\":"@ + text::dec(
        b.reqpux as nat,
    ) + ",\"sendreqpdy\":"@ + text::dec(b.sendreqpdy as nat) + ",\"unknown_1\":"@ + text::dec(
        b.unknown_1 as nat,
    ) + ",\"unknown_2\":"@ + text::dec(b.unknown_2 as nat) + "}"@
}

/// Calls `serde_json::to_string` on the driver's `prophesee_evk4::Biases`. It is trusted to give
/// the JSON object of the driver's fields, in the order of their declaration, each with its value
/// in decimal and without white space.
#[verifier::external_body]
pub(crate) fn biases_json(b: &Biases) -> (r: String)
    ensures
        r@ == biases_text(*b),
{
    let Biases { pr, fo, hpf, diff_on, diff, diff_off, inv, refr, .. } = *b;
    let Biases { reqpuy, reqpux, sendreqpdy, unknown_1, unknown_2, .. } = *b;
    serde_json::to_string(&neuromorphic_drivers::prophesee_evk4::Biases {
        pr, fo, hpf, diff_on, diff, diff_off, inv, refr,
        reqpuy, reqpux, sendreqpdy, unknown_1, unknown_2,
    }).unwrap()
}

/// The reference period of the limiter in microseconds: one millisecond.
pub const REFERENCE_PERIOD_US: u16 = 1000;

/// Events per reference period for a limit in events per second: at least one. The product with
/// the period wraps at 64 bits and the quotient is cut to 32 bits.
pub open spec fn events_per_period(events_per_second: u64) -> u32 {
    let quotient = (events_per_second * 1000) % 0x1_0000_0000_0000_0000 / 1_000_000;
    ((if quotient < 1 {
        1
    } else {
        quotient
    }) % 0x1_0000_0000) as u32
}

/// The limiter for a limit in events per second; 0 means no limit.
pub open spec fn limiter_for(events_per_second: u64) -> Option<RateLimiter> {
    if events_per_second == 0 {
        None
    } else {
        Some(
            RateLimiter {
                reference_period_us: 1000,
                maximum_events_per_period: events_per_period(events_per_second),
            },
        )
    }
}

/// Builds the hardware rate limiter for a limit in events per second. 0 means unlimited.
pub fn make_rate_limiter(events_per_second: u64) -> (r: Option<RateLimiter>)
    ensures
        r == limiter_for(events_per_second),
{
    if events_per_second == 0 {
        return None;
    }
    let product: u64 = events_per_second.wrapping_mul(REFERENCE_PERIOD_US as u64);
    let quotient: u64 = product / 1_000_000;
    let events: u64 = if quotient < 1 {
        1
    } else {
        quotient
    };
    assert(events as u32 == events % 0x1_0000_0000) by (bit_vector);
    Some(
        RateLimiter {
            reference_period_us: REFERENCE_PERIOD_US,
            maximum_events_per_period: #[verifier::truncate] (events as u32),
        },
    )
}

/// Below 2^32 events per millisecond nothing wraps: the limiter allows one event per millisecond
/// or the requested rate rounded down to whole events per millisecond, whichever is more.
pub proof fn limiter_is_rate_per_millisecond(events_per_second: u64)
    requires
        events_per_second < 4_294_967_296_000,
    ensures
        events_per_period(events_per_second) as int == (if events_per_second < 1000 {
            1int
        } else {
            events_per_second as int / 1000
        }),
{
    assert((events_per_second * 1000) / 1_000_000 == events_per_second as int / 1000);
}

/// A higher limit never allows fewer events per period, as long as nothing wraps.
pub proof fn limiter_is_monotone(a: u64, b: u64)
    requires
        a <= b < 4_294_967_296_000,
    ensures
        events_per_period(a) <= events_per_period(b),
        events_per_period(a) >= 1,
{
    limiter_is_rate_per_millisecond(a);
    limiter_is_rate_per_millisecond(b);
}

/// A patch sets each bias that it supplies to the supplied value and leaves every other as it is.
pub proof fn patch_sets_supplied_biases(b: Biases, p: BiasesPatch)
    ensures
        ({
            let r = patched_biases(b, p);
            &&& p.diff matches Some(v) ==> r.diff == v
            &&& p.diff is None ==> r.diff == b.diff
            &&& p.diff_on matches Some(v) ==> r.diff_on == v
            &&& p.diff_on is None ==> r.diff_on == b.diff_on
            &&& p.diff_off matches Some(v) ==> r.diff_off == v
            &&& p.diff_off is None ==> r.diff_off == b.diff_off
            &&& p.hpf matches Some(v) ==> r.hpf == v
            &&& p.hpf is None ==> r.hpf == b.hpf
            &&& p.refr matches Some(v) ==> r.refr == v
            &&& p.refr is None ==> r.refr == b.refr
            &&& p.pr matches Some(v) ==> r.pr == v
            &&& p.pr is None ==> r.pr == b.pr
            &&& p.fo matches Some(v) ==> r.fo == v
            &&& p.fo is None ==> r.fo == b.fo
            &&& p.inv matches Some(v) ==> r.inv == v
            &&& p.inv is None ==> r.inv == b.inv
            &&& r.reqpuy == b.reqpuy
            &&& r.reqpux == b.reqpux
            &&& r.sendreqpdy == b.sendreqpdy
            &&& r.unknown_1 == b.unknown_1
            &&& r.unknown_2 == b.unknown_2
        }),
{
}

/// There is a limiter exactly where there is a limit. Over its period of a millisecond it allows the
/// requested rate, rounded down to whole events, but never less than one event.
pub proof fn limiter_allows_the_rate(events_per_second: u64)
    ensures
        limiter_for(events_per_second) is None <==> events_per_second == 0,
        limiter_for(events_per_second) matches Some(l) ==> {
            &&& l.reference_period_us == 1000
            &&& events_per_second < 1000 ==> l.maximum_events_per_period == 1
            &&& 1000 <= events_per_second < 4_294_967_296_000 ==> {
                &&& l.maximum_events_per_period * 1000 <= events_per_second
                &&& events_per_second < l.maximum_events_per_period * 1000 + 1000
            }
        },
{
    if 0 < events_per_second < 4_294_967_296_000 {
        limiter_is_rate_per_millisecond(events_per_second);
    }
}

/// Whatever the limit, the product of the rate with the period is taken up to whole turns of 64 bits,
/// and the events per period, its millionth part, up to whole turns of 32 bits.
pub proof fn limiter_wraps(events_per_second: u64)
    ensures
        exists|product: int, turns: int, more: int|
            #![trigger turns * 0x1_0000_0000_0000_0000 + product, more * 0x1_0000_0000]
            events_per_second * 1000 == turns * 0x1_0000_0000_0000_0000 + product && 0 <= product
                < 0x1_0000_0000_0000_0000 && 0 <= more && {
                let events = events_per_period(events_per_second) + more * 0x1_0000_0000;
                if product < 1_000_000 {
                    events == 1
                } else {
                    events * 1_000_000 <= product < (events + 1) * 1_000_000
                }
            },
{
    let whole = events_per_second * 1000;
    let turns = whole / 0x1_0000_0000_0000_0000;
    let product = whole % 0x1_0000_0000_0000_0000;
    let quotient = product / 1_000_000;
    let least = if quotient < 1 {
        1int
    } else {
        quotient
    };
    let more = least / 0x1_0000_0000;
    assert(whole == turns * 0x1_0000_0000_0000_0000 + product);
    assert(least == events_per_period(events_per_second) + more * 0x1_0000_0000);
}

} // verus!
