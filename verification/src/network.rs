//! Network traffic: byte counters summed over interfaces and their growth
//! between two readings.
use vstd::prelude::*;

verus! {

/// Bytes received and transmitted.
pub struct NetworkInfo {
    pub received: u64,
    pub transmitted: u64,
}

/// Bytes received over the interfaces `ifs[0..n]`.
pub open spec fn received_sum(ifs: Seq<NetworkInfo>, n: int) -> int
    decreases n,
{
    if n <= 0 {
        0
    } else {
        received_sum(ifs, n - 1) + ifs[n - 1].received
    }
}

/// Bytes transmitted over the interfaces `ifs[0..n]`.
pub open spec fn transmitted_sum(ifs: Seq<NetworkInfo>, n: int) -> int
    decreases n,
{
    if n <= 0 {
        0
    } else {
        transmitted_sum(ifs, n - 1) + ifs[n - 1].transmitted
    }
}

proof fn lemma_sums_grow(ifs: Seq<NetworkInfo>, k: int, n: int)
    requires
        0 <= k <= n,
    ensures
        0 <= received_sum(ifs, k) <= received_sum(ifs, n),
        0 <= transmitted_sum(ifs, k) <= transmitted_sum(ifs, n),
    decreases n,
{
    if k < n {
        lemma_sums_grow(ifs, k, n - 1);
    } else if n > 0 {
        lemma_sums_grow(ifs, n - 1, n - 1);
    }
}

/// The machine's traffic so far: the counters of all interfaces added up;
/// `None` when a sum does not fit in 64 bits.
pub fn total_traffic(interfaces: &Vec<NetworkInfo>) -> (r: Option<NetworkInfo>)
    ensures
        r is None <==> (received_sum(interfaces@, interfaces@.len() as int) > u64::MAX
            || transmitted_sum(interfaces@, interfaces@.len() as int) > u64::MAX),
        r matches Some(t) ==> t.received == received_sum(interfaces@, interfaces@.len() as int)
            && t.transmitted == transmitted_sum(interfaces@, interfaces@.len() as int),
{
    let n = interfaces.len();
    let mut received: u64 = 0;
    let mut transmitted: u64 = 0;
    let mut i: usize = 0;
    while i < n
        invariant
            n == interfaces@.len(),
            i <= n,
            received == received_sum(interfaces@, i as int),
            transmitted == transmitted_sum(interfaces@, i as int),
        decreases n - i,
    {
        proof {
            lemma_sums_grow(interfaces@, i + 1, n as int);
        }
        let rx = received.checked_add(interfaces[i].received);
        let tx = transmitted.checked_add(interfaces[i].transmitted);
        match (rx, tx) {
            (Some(a), Some(b)) => {
                received = a;
                transmitted = b;
            },
            _ => {
                return None;
            },
        }
        i = i + 1;
    }
    Some(NetworkInfo { received, transmitted })
}

/// The growth of a counter from `last` to `now`: none when the counter went
/// back (an interface disappeared or wrapped).
pub open spec fn growth(last: u64, now: u64) -> Option<u64> {
    if now >= last {
        Some((now - last) as u64)
    } else {
        None
    }
}

/// The traffic totals of the previous reading.
pub struct TrafficCounters {
    pub last_received: u64,
    pub last_transmitted: u64,
}

/// The bytes moved since the previous reading, in each direction.
pub struct TrafficDelta {
    pub received: Option<u64>,
    pub transmitted: Option<u64>,
}

impl TrafficCounters {
    /// Starts from the first reading of the totals.
    pub fn new(initial: NetworkInfo) -> (r: Self)
        ensures
            r.last_received == initial.received,
            r.last_transmitted == initial.transmitted,
    {
        TrafficCounters { last_received: initial.received, last_transmitted: initial.transmitted }
    }

    /// Takes a new reading of the totals: gives how much each grew since the
    /// previous one and remembers the new totals.
    pub fn advance(&mut self, now: NetworkInfo) -> (r: TrafficDelta)
        ensures
            r.received == growth(old(self).last_received, now.received),
            r.transmitted == growth(old(self).last_transmitted, now.transmitted),
            final(self).last_received == now.received,
            final(self).last_transmitted == now.transmitted,
    {
        let received = now.received.checked_sub(self.last_received);
        let transmitted = now.transmitted.checked_sub(self.last_transmitted);
        self.last_received = now.received;
        self.last_transmitted = now.transmitted;
        TrafficDelta { received, transmitted }
    }
}

/// The growth a reading reports is exactly the difference of the two
/// totals: added to the previous total it gives the new one, for every pair
/// of 64-bit counters; a counter that went back reports no growth.
pub proof fn law_growth_is_the_difference(last: u64, now: u64)
    ensures
        last <= now ==> (growth(last, now) matches Some(d) && last + d == now),
        now < last ==> growth(last, now) is None,
{
}

/// Two readings in a row account for the whole growth: what the first and
/// the second report adds up to what a single reading across both would.
pub proof fn law_growth_adds_up(a: u64, b: u64, c: u64)
    requires
        a <= b <= c,
    ensures
        growth(a, b) matches Some(x) && growth(b, c) matches Some(y) && growth(a, c) matches Some(z)
            && x + y == z,
{
}

} // verus!
