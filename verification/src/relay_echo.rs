//! The relay echo measurement: rounds of one payload, and the round-trip
//! times they took.

use crate::text::concat;
use crate::text::decimal;
use crate::text::decimal_string;
use vstd::prelude::*;
use vstd::string::*;

verus! {

pub const ALPN: &'static str = "/iroh-relay-ws-spike/echo/1";

/// How many rounds are measured.
pub const ECHOES: u32 = 50;

/// How long the payload of a round is.
pub const PAYLOAD: usize = 512;

/// The byte that a round's payload repeats.
pub const FILL: u8 = 0xa5;

/// The relay that both endpoints use.
pub const RELAY_URL: &'static str = "http://127.0.0.1:3340";

/// The payload of a round.
pub fn payload() -> (bytes: Vec<u8>)
    ensures
        bytes@ == Seq::new(PAYLOAD as nat, |i: int| FILL),
{
    let mut bytes: Vec<u8> = Vec::new();
    let mut i: usize = 0;
    while i < PAYLOAD
        invariant
            i <= PAYLOAD,
            bytes@ == Seq::new(i as nat, |i: int| FILL),
        decreases PAYLOAD - i,
    {
        bytes.push(FILL);
        i = i + 1;
        assert(bytes@ =~= Seq::new(i as nat, |i: int| FILL));
    }
    bytes
}

/// No time is larger than one behind it.
pub open spec fn is_sorted(s: Seq<u64>) -> bool {
    forall|i: int, j: int| 0 <= i <= j < s.len() ==> s[i] <= s[j]
}

/// Insert `x` into a sorted list where it belongs.
fn insert_sorted(list: &mut Vec<u64>, x: u64)
    requires
        is_sorted(old(list)@),
    ensures
        is_sorted(final(list)@),
        final(list)@.to_multiset() == old(list)@.to_multiset().insert(x),
{
    let mut at: usize = list.len();
    while at > 0 && list[at - 1] > x
        invariant
            at <= list@.len(),
            list@ == old(list)@,
            is_sorted(list@),
            forall|j: int| at <= j < list@.len() ==> list@[j] > x,
        decreases at,
    {
        at = at - 1;
    }
    list.insert(at, x);
    proof {
        vstd::seq_lib::to_multiset_insert(old(list)@, at as int, x);
        let s = list@;
        let t = old(list)@;
        assert forall|i: int, j: int| 0 <= i <= j < s.len() implies s[i] <= s[j] by {
            if i < at && j > at {
                assert(t[i] <= t[j - 1]);
            } else if i < at && j == at {
                assert(t[i] <= t[at - 1]);
            } else if i < at {
                assert(t[i] <= t[j]);
            } else if i > at {
                assert(t[i - 1] <= t[j - 1]);
            }
        }
    }
}

/// The times in ascending order.
pub fn sorted(times: &Vec<u64>) -> (list: Vec<u64>)
    ensures
        is_sorted(list@),
        list@.to_multiset() == times@.to_multiset(),
        list@.len() == times@.len(),
{
    let mut list: Vec<u64> = Vec::new();
    let mut i: usize = 0;
    proof {
        assert(times@.take(0) =~= Seq::<u64>::empty());
        assert(list@ =~= Seq::<u64>::empty());
    }
    while i < times.len()
        invariant
            i <= times@.len(),
            is_sorted(list@),
            list@.to_multiset() == times@.take(i as int).to_multiset(),
        decreases times@.len() - i,
    {
        insert_sorted(&mut list, times[i]);
        proof {
            let seen = times@.take(i as int);
            assert(times@.take(i + 1) =~= seen.push(times@[i as int]));
            vstd::seq_lib::to_multiset_build(seen, times@[i as int]);
        }
        i = i + 1;
    }
    proof {
        assert(times@.take(i as int) =~= times@);
        vstd::seq_lib::to_multiset_len(list@);
        vstd::seq_lib::to_multiset_len(times@);
    }
    list
}

/// What the rounds took, in microseconds.
#[derive(Clone, Copy, PartialEq, Eq, Structural)]
pub struct Summary {
    pub p50: u64,
    pub p90: u64,
    pub max: u64,
}

/// `summary` describes the sorted times `s`: the median, the ninth decile
/// (both rounded down to a measured time) and the longest.
pub open spec fn describes(s: Seq<u64>, summary: Summary) -> bool {
    let last = s.len() - 1;
    summary.p50 == s[last / 2] && summary.p90 == s[last * 9 / 10] && summary.max == s[last]
}

/// Summarize the measured times.
pub fn summarize(times: &Vec<u64>) -> (summary: Summary)
    requires
        0 < times@.len() <= ECHOES,
    ensures
        exists|s: Seq<u64>|
            is_sorted(s) && s.to_multiset() == times@.to_multiset() && s.len() == times@.len()
                && #[trigger] describes(s, summary),
{
    let list: Vec<u64> = sorted(times);
    let last: usize = list.len() - 1;
    let summary = Summary { p50: list[last / 2], p90: list[last * 9 / 10], max: list[last] };
    assert(describes(list@, summary));
    summary
}

/// The summary is ordered, and nothing took longer than its maximum.
pub proof fn summaries_are_ordered(s: Seq<u64>, summary: Summary)
    requires
        s.len() > 0,
        is_sorted(s),
        describes(s, summary),
    ensures
        summary.p50 <= summary.p90 <= summary.max,
        forall|i: int| 0 <= i < s.len() ==> s[i] <= summary.max,
{
    let last = s.len() - 1;
    assert(last / 2 <= last * 9 / 10 <= last);
}

/// The line that reports the measurement.
pub fn summary_line(summary: &Summary) -> (line: String)
    ensures
        line@ == "guest: echo rtt over relay: p50="@ + decimal(summary.p50 as nat) + "us p90="@
            + decimal(summary.p90 as nat) + "us max="@ + decimal(summary.max as nat) + "us ("@
            + decimal(ECHOES as nat) + " rounds, "@ + decimal(PAYLOAD as nat) + " byte payload)"@,
{
    let p50: String = decimal_string(summary.p50);
    let mut line: String = concat("guest: echo rtt over relay: p50=", p50.as_str());
    line.append("us p90=");
    let p90: String = decimal_string(summary.p90);
    line.append(p90.as_str());
    line.append("us max=");
    let max: String = decimal_string(summary.max);
    line.append(max.as_str());
    line.append("us (");
    let rounds: String = decimal_string(ECHOES as u64);
    line.append(rounds.as_str());
    line.append(" rounds, ");
    let bytes: String = decimal_string(PAYLOAD as u64);
    line.append(bytes.as_str());
    line.append(" byte payload)");
    line
}

/// The median, the ninth decile and the longest are measured times: the
/// median's place is half of the last one's, the decile's nine tenths of it,
/// both rounded down.
pub proof fn summaries_are_measured_times(s: Seq<u64>, summary: Summary, k: int, d: int)
    requires
        s.len() > 0,
        describes(s, summary),
        2 * k <= s.len() - 1 < 2 * k + 2,
        10 * d <= 9 * (s.len() - 1) < 10 * d + 10,
    ensures
        summary.p50 == s[k],
        summary.p90 == s[d],
        summary.max == s[s.len() - 1],
{
    let last = s.len() - 1;
    assert(last / 2 == k);
    assert(last * 9 / 10 == d);
}

/// Sorted times ascend.
pub proof fn sorted_times_ascend(s: Seq<u64>, i: int)
    requires
        is_sorted(s),
        0 <= i < s.len() - 1,
    ensures
        s[i] <= s[i + 1],
{
}

/// What is measured: fifty rounds of 512 bytes.
pub proof fn numbers_of_the_measurement()
    ensures
        ECHOES == 50,
        PAYLOAD == 512,
        FILL == 0xa5,
        RELAY_URL@ == "http://127.0.0.1:3340"@,
        ALPN@ == "/iroh-relay-ws-spike/echo/1"@,
{
}

} // verus!
