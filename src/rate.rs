use vstd::prelude::*;

use crate::snapshot::{NetworkMetrics, SystemMetrics};

verus! {

/// Growth of a cumulative counter between two samples. A counter that went
/// down was reset, so its current value is the growth since the reset.
pub open spec fn counter_delta(prev: int, curr: int) -> int {
    if curr >= prev {
        curr - prev
    } else {
        curr
    }
}

/// Bytes per second over `elapsed_ms` milliseconds; nothing over no elapsed time.
pub open spec fn spec_rate(prev: int, curr: int, elapsed_ms: int) -> int {
    if elapsed_ms <= 0 {
        0
    } else {
        counter_delta(prev, curr) * 1000 / elapsed_ms
    }
}

/// `spec_rate` as carried in a `u64` (saturating).
pub open spec fn spec_throughput(prev: u64, curr: u64, elapsed_ms: int) -> u64 {
    let r = spec_rate(prev as int, curr as int, elapsed_ms);
    if r > u64::MAX as int {
        u64::MAX
    } else {
        r as u64
    }
}

/// Throughput of a cumulative counter that went from `prev` to `curr` in
/// `elapsed_ms` milliseconds, treating a decrease as a reset to zero.
pub fn throughput(prev: u64, curr: u64, elapsed_ms: u64) -> (r: u64)
    ensures
        r == spec_throughput(prev, curr, elapsed_ms as int),
{
    if elapsed_ms == 0 {
        return 0;
    }
    let delta: u64 = if curr >= prev {
        curr - prev
    } else {
        curr
    };
    let scaled: u128 = delta as u128 * 1000;
    let rate: u128 = scaled / (elapsed_ms as u128);
    if rate > u64::MAX as u128 {
        u64::MAX
    } else {
        rate as u64
    }
}

/// `curr` with its throughput derived against `prev` (zero on the first
/// observation of a host or when no time went by).
pub open spec fn spec_with_rates(prev: Option<SystemMetrics>, curr: SystemMetrics) -> SystemMetrics {
    let (rx, tx) = match prev {
        None => (0u64, 0u64),
        Some(p) => {
            let elapsed = curr.timestamp - p.timestamp;
            (
                spec_throughput(p.network.total_rx, curr.network.total_rx, elapsed),
                spec_throughput(p.network.total_tx, curr.network.total_tx, elapsed),
            )
        },
    };
    SystemMetrics {
        network: NetworkMetrics { rx_speed: rx, tx_speed: tx, ..curr.network },
        ..curr
    }
}

/// Folds the throughput derived from the previous snapshot of the same host
/// into the network block of the current one.
pub fn apply_rates(prev: Option<&SystemMetrics>, curr: &mut SystemMetrics)
    ensures
        *final(curr) == spec_with_rates(
            match prev {
                Some(p) => Some(*p),
                None => None,
            },
            *old(curr),
        ),
{
    match prev {
        None => {
            curr.network.rx_speed = 0;
            curr.network.tx_speed = 0;
        },
        Some(p) => {
            let elapsed: u64 = if curr.timestamp > p.timestamp {
                (curr.timestamp as i128 - p.timestamp as i128) as u64
            } else {
                0
            };
            let rx = throughput(p.network.total_rx, curr.network.total_rx, elapsed);
            let tx = throughput(p.network.total_tx, curr.network.total_tx, elapsed);
            curr.network.rx_speed = rx;
            curr.network.tx_speed = tx;
        },
    }
}

/// Over any sequence of counter samples, resets included, every derived
/// throughput is non-negative, and one taken across a decrease is the current
/// value over the elapsed time.
pub proof fn lemma_rate_never_negative(counters: Seq<nat>, times: Seq<int>)
    requires
        counters.len() == times.len(),
    ensures
        forall|i: int|
            0 < i < counters.len() ==> spec_rate(
                #[trigger] counters[i - 1] as int,
                counters[i] as int,
                times[i] - times[i - 1],
            ) >= 0,
        forall|i: int|
            0 < i < counters.len() && #[trigger] counters[i] < counters[i - 1] && times[i]
                > times[i - 1] ==> spec_rate(
                counters[i - 1] as int,
                counters[i] as int,
                times[i] - times[i - 1],
            ) == (counters[i] as int) * 1000 / (times[i] - times[i - 1]),
{
    assert forall|i: int| 0 < i < counters.len() implies spec_rate(
        #[trigger] counters[i - 1] as int,
        counters[i] as int,
        times[i] - times[i - 1],
    ) >= 0 by {
        let e = times[i] - times[i - 1];
        let d = counter_delta(counters[i - 1] as int, counters[i] as int);
        if e > 0 {
            assert(d * 1000 >= 0) by (nonlinear_arith)
                requires
                    d >= 0,
            ;
            assert(d * 1000 / e >= 0) by (nonlinear_arith)
                requires
                    d * 1000 >= 0,
                    e > 0,
            ;
        }
    }
}

} // verus!
