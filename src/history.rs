use vstd::prelude::*;

use crate::snapshot::{PingMetrics, PingTarget, SystemMetrics};
use crate::text::chars_of;

verus! {

/// One bucketed sample of a host: `timestamp` in epoch seconds, usages in
/// hundredths of a percent, cumulative byte counters, and the latency of the
/// first reachability target in microseconds when it answered.
#[derive(Debug, Clone, Copy)]
pub struct HistoryPoint {
    pub timestamp: i64,
    pub cpu: u32,
    pub memory: u32,
    pub disk: u32,
    pub net_rx: u64,
    pub net_tx: u64,
    pub ping_us: Option<u64>,
}

/// One latency sample of a reachability target.
#[derive(Debug, Clone)]
pub struct PingHistoryPoint {
    pub timestamp: i64,
    pub latency_us: Option<u64>,
    pub status: String,
}

/// The series of one reachability target.
#[derive(Debug, Clone)]
pub struct PingHistoryTarget {
    pub name: String,
    pub host: String,
    pub data: Vec<PingHistoryPoint>,
}

/// A history query: the span to return, such as "24h".
#[derive(Debug, Clone)]
pub struct HistoryQuery {
    pub range: String,
}

/// The answer to a history query.
#[derive(Debug, Clone)]
pub struct HistoryResponse {
    pub server_id: String,
    pub range: String,
    pub data: Vec<HistoryPoint>,
    pub ping_targets: Vec<PingHistoryTarget>,
}

/// The span a query covers when it names none.
pub fn default_range() -> (r: String)
    ensures
        r@ == "24h"@,
{
    "24h".to_string()
}

pub open spec fn is_digit(c: char) -> bool {
    '0' <= c && c <= '9'
}

/// The number written by decimal digits `s`.
pub open spec fn digits_value(s: Seq<char>) -> nat
    decreases s.len(),
{
    if s.len() == 0 {
        0
    } else {
        digits_value(s.drop_last()) * 10 + ((s.last() as int - '0' as int) as nat)
    }
}

/// Seconds in one unit of a range: `h` hours, `d` days.
pub open spec fn unit_seconds(c: char) -> nat {
    if c == 'h' {
        3600
    } else if c == 'd' {
        86400
    } else {
        0
    }
}

/// The span, in seconds, of a range written as decimal digits followed by
/// `h` or `d`; `None` for any other text.
pub open spec fn range_seconds(s: Seq<char>) -> Option<nat> {
    if s.len() >= 2 && (s.last() == 'h' || s.last() == 'd') && (forall|i: int|
        0 <= i < s.len() - 1 ==> is_digit(#[trigger] s[i])) {
        Some(digits_value(s.drop_last()) * unit_seconds(s.last()))
    } else {
        None
    }
}

proof fn lemma_digits_monotone(s: Seq<char>, k: int)
    requires
        0 <= k <= s.len(),
        forall|i: int| 0 <= i < s.len() ==> is_digit(#[trigger] s[i]),
    ensures
        digits_value(s.take(k)) <= digits_value(s),
    decreases s.len() - k,
{
    if k < s.len() {
        lemma_digits_monotone(s, k + 1);
        assert(s.take(k + 1).drop_last() =~= s.take(k));
    } else {
        assert(s.take(k) =~= s);
    }
}

/// Parses a range such as "24h" or "7d" into seconds; `None` when the text
/// is not of that form or the span does not fit in a `u64`.
pub fn parse_range(text: &str) -> (r: Option<u64>)
    ensures
        match r {
            Some(v) => range_seconds(text@) == Some(v as nat),
            None => range_seconds(text@) is None || range_seconds(text@)->0 > u64::MAX,
        },
{
    let s = chars_of(text);
    let n = s.len();
    if n < 2 {
        return None;
    }
    let unit = s[n - 1];
    let per: u64 = if unit == 'h' {
        3600
    } else if unit == 'd' {
        86400
    } else {
        return None;
    };
    let ghost body = s@.drop_last();
    let mut value: u64 = 0;
    let mut i: usize = 0;
    while i < n - 1
        invariant
            n == s@.len(),
            s@ == text@,
            n >= 2,
            per == unit_seconds(s@.last()),
            i <= n - 1,
            body == s@.drop_last(),
            forall|t: int| 0 <= t < i ==> is_digit(#[trigger] s@[t]),
            value as nat == digits_value(body.take(i as int)),
        decreases n - 1 - i,
    {
        let c = s[i];
        if !('0' <= c && c <= '9') {
            proof {
                assert(!is_digit(text@[i as int]));
                assert(range_seconds(text@) is None);
            }
            return None;
        }
        proof {
            assert(body.take(i as int + 1).drop_last() =~= body.take(i as int));
            assert(body.take(i as int + 1).last() == c);
        }
        let d: u64 = (c as u32 - '0' as u32) as u64;
        if value > (u64::MAX - d) / 10 {
            proof {
                assert(digits_value(body.take(i as int + 1)) > u64::MAX) by (nonlinear_arith)
                    requires
                        digits_value(body.take(i as int + 1)) == value * 10 + d,
                        value > (u64::MAX - d) / 10,
                        d <= 9,
                ;
                if range_seconds(text@) is Some {
                    assert forall|t: int| 0 <= t < body.len() implies is_digit(#[trigger] body[t]) by {
                        assert(body[t] == text@[t]);
                        assert(is_digit(text@[t]));
                    }
                    lemma_digits_monotone(body, i as int + 1);
                    assert(digits_value(body) * unit_seconds(s@.last()) >= digits_value(body))
                        by (nonlinear_arith)
                        requires
                            unit_seconds(s@.last()) >= 1,
                    ;
                }
            }
            return None;
        }
        value = value * 10 + d;
        i = i + 1;
    }
    proof {
        assert(body.take(body.len() as int) =~= body);
        assert forall|t: int| 0 <= t < s@.len() - 1 implies is_digit(#[trigger] s@[t]) by {}
    }
    if value > u64::MAX / per {
        proof {
            assert(value * per > u64::MAX) by (nonlinear_arith)
                requires
                    value > u64::MAX / per,
                    per > 0,
            ;
        }
        return None;
    }
    proof {
        assert(value * per <= u64::MAX) by (nonlinear_arith)
            requires
                value <= u64::MAX / per,
                per > 0,
        ;
    }
    Some(value * per)
}

/// The history point recorded for a snapshot.
pub open spec fn spec_history_point(s: SystemMetrics) -> HistoryPoint {
    HistoryPoint {
        timestamp: (s.timestamp / 1000) as i64,
        cpu: s.cpu.usage,
        memory: s.memory.usage_percent,
        disk: if s.disks@.len() > 0 {
            s.disks@[0].usage_percent
        } else {
            0
        },
        net_rx: s.network.total_rx,
        net_tx: s.network.total_tx,
        ping_us: match s.ping {
            Some(p) => if p.targets@.len() > 0 {
                p.targets@[0].latency_us
            } else {
                None
            },
            None => None,
        },
    }
}

/// Whole seconds of an epoch-milliseconds instant, rounded toward the past.
fn seconds_of(ms: i64) -> (r: i64)
    ensures
        r == ms / 1000,
{
    let t: i128 = ms as i128;
    let q: i128 = if t >= 0 {
        t / 1000
    } else {
        -((-t + 999) / 1000)
    };
    proof {
        if t < 0 {
            let a = -t + 999;
            assert(-(a / 1000) == t / 1000) by (nonlinear_arith)
                requires
                    a == -t + 999,
                    t < 0,
            ;
        }
        assert(i64::MIN <= t / 1000 <= i64::MAX) by (nonlinear_arith)
            requires
                i64::MIN <= t <= i64::MAX,
        ;
    }
    q as i64
}

/// The history point of a snapshot: its second, usages (first disk only),
/// cumulative counters and first target's latency.
pub fn history_point(s: &SystemMetrics) -> (r: HistoryPoint)
    ensures
        r == spec_history_point(*s),
{
    let disk = if s.disks.len() > 0 {
        s.disks[0].usage_percent
    } else {
        0
    };
    let ping_us = match &s.ping {
        Some(p) => if p.targets.len() > 0 {
            p.targets[0].latency_us
        } else {
            None
        },
        None => None,
    };
    HistoryPoint {
        timestamp: seconds_of(s.timestamp),
        cpu: s.cpu.usage,
        memory: s.memory.usage_percent,
        disk,
        net_rx: s.network.total_rx,
        net_tx: s.network.total_tx,
        ping_us,
    }
}

/// The points of `s` whose timestamp lies in `[from, to]`, in their order.
pub open spec fn points_between(s: Seq<HistoryPoint>, from: int, to: int) -> Seq<HistoryPoint>
    decreases s.len(),
{
    if s.len() == 0 {
        s
    } else if from <= s.last().timestamp <= to {
        points_between(s.drop_last(), from, to).push(s.last())
    } else {
        points_between(s.drop_last(), from, to)
    }
}

/// Range query: the retained points within the last `span_secs` seconds up
/// to `now`, in their order; gaps stay gaps.
pub fn points_in_range(points: &Vec<HistoryPoint>, now: i64, span_secs: u64) -> (r: Vec<HistoryPoint>)
    ensures
        r@ == points_between(points@, now - span_secs, now as int),
{
    let from: i128 = now as i128 - span_secs as i128;
    let mut out: Vec<HistoryPoint> = Vec::new();
    let mut i: usize = 0;
    proof {
        assert(points@.take(0) =~= Seq::<HistoryPoint>::empty());
    }
    while i < points.len()
        invariant
            i <= points@.len(),
            from == now - span_secs,
            out@ == points_between(points@.take(i as int), now - span_secs, now as int),
        decreases points@.len() - i,
    {
        let p = points[i];
        proof {
            assert(points@.take(i as int + 1).drop_last() =~= points@.take(i as int));
            assert(points@.take(i as int + 1).last() == p);
        }
        if from <= p.timestamp as i128 && p.timestamp <= now {
            out.push(p);
        }
        i = i + 1;
    }
    proof {
        assert(points@.take(points@.len() as int) =~= points@);
    }
    out
}

/// A latency sample as the contracts see it: second, latency, status.
pub type PingPointView = (i64, Option<u64>, Seq<char>);

/// A target's series as the contracts see it: name, host, samples.
pub type PingSeriesView = (Seq<char>, Seq<char>, Seq<PingPointView>);

pub open spec fn ping_point_view(p: PingHistoryPoint) -> PingPointView {
    (p.timestamp, p.latency_us, p.status@)
}

pub open spec fn ping_series_view(t: PingHistoryTarget) -> PingSeriesView {
    (t.name@, t.host@, t.data@.map_values(|p: PingHistoryPoint| ping_point_view(p)))
}

pub open spec fn ping_history_view(v: Seq<PingHistoryTarget>) -> Seq<PingSeriesView> {
    v.map_values(|t: PingHistoryTarget| ping_series_view(t))
}

/// `i` is the first series named `name`.
pub open spec fn first_named(s: Seq<PingSeriesView>, name: Seq<char>, i: int) -> bool {
    0 <= i < s.len() && s[i].0 == name && forall|t: int| 0 <= t < i ==> #[trigger] s[t].0 != name
}

/// Index of the first series named `name`, or -1.
pub open spec fn series_index(s: Seq<PingSeriesView>, name: Seq<char>) -> int {
    if exists|i: int| first_named(s, name, i) {
        choose|i: int| first_named(s, name, i)
    } else {
        -1
    }
}

/// The series after one sample of target `t` at second `ts`: appended to
/// the target's series, or a new series when the target is new.
pub open spec fn add_ping_sample(s: Seq<PingSeriesView>, ts: i64, t: PingTarget) -> Seq<PingSeriesView> {
    let p = (ts, t.latency_us, t.status@);
    let i = series_index(s, t.name@);
    if i >= 0 {
        s.update(i, (s[i].0, s[i].1, s[i].2.push(p)))
    } else {
        s.push((t.name@, t.host@, seq![p]))
    }
}

/// The series after one sample of each target, in order.
pub open spec fn add_ping_samples(s: Seq<PingSeriesView>, ts: i64, samples: Seq<PingTarget>) -> Seq<PingSeriesView>
    decreases samples.len(),
{
    if samples.len() == 0 {
        s
    } else {
        add_ping_sample(add_ping_samples(s, ts, samples.drop_last()), ts, samples.last())
    }
}

fn series_position(targets: &Vec<PingHistoryTarget>, name: &String) -> (r: Option<usize>)
    ensures
        match r {
            Some(j) => j < targets@.len() && series_index(ping_history_view(targets@), name@) == j,
            None => series_index(ping_history_view(targets@), name@) == -1,
        },
{
    let ghost v = ping_history_view(targets@);
    let mut j: usize = 0;
    while j < targets.len()
        invariant
            j <= targets@.len(),
            v == ping_history_view(targets@),
            forall|t: int| 0 <= t < j ==> #[trigger] v[t].0 != name@,
        decreases targets@.len() - j,
    {
        if targets[j].name == *name {
            proof {
                assert(first_named(v, name@, j as int));
                let k = choose|i: int| first_named(v, name@, i);
                assert(k == j) by {
                    if k < j {
                        assert(v[k].0 != name@);
                    } else if k > j {
                        assert(v[j as int].0 != name@);
                    }
                }
            }
            return Some(j);
        }
        j = j + 1;
    }
    proof {
        assert(!exists|i: int| first_named(v, name@, i)) by {
            if exists|i: int| first_named(v, name@, i) {
                let k = choose|i: int| first_named(v, name@, i);
                assert(v[k].0 != name@);
            }
        }
    }
    None
}

/// Appends one latency sample per probe target, at second `timestamp`, to
/// that target's series (a new series for a target not seen before).
pub fn record_ping(targets: &mut Vec<PingHistoryTarget>, timestamp: i64, ping: &PingMetrics)
    ensures
        ping_history_view(final(targets)@) == add_ping_samples(
            ping_history_view(old(targets)@),
            timestamp,
            ping.targets@,
        ),
{
    let ghost start = ping_history_view(targets@);
    let mut i: usize = 0;
    proof {
        assert(ping.targets@.take(0) =~= Seq::<PingTarget>::empty());
    }
    while i < ping.targets.len()
        invariant
            i <= ping.targets@.len(),
            ping_history_view(targets@) == add_ping_samples(start, timestamp, ping.targets@.take(i as int)),
        decreases ping.targets@.len() - i,
    {
        let t = &ping.targets[i];
        proof {
            assert(ping.targets@.take(i as int + 1).drop_last() =~= ping.targets@.take(i as int));
            assert(ping.targets@.take(i as int + 1).last() == *t);
        }
        let point = PingHistoryPoint {
            timestamp,
            latency_us: t.latency_us,
            status: t.status.clone(),
        };
        let ghost before = targets@;
        match series_position(targets, &t.name) {
            Some(j) => {
                let mut series = targets.remove(j);
                let ghost old_data = series.data@;
                series.data.push(point);
                proof {
                    assert(series.data@.map_values(|p: PingHistoryPoint| ping_point_view(p))
                        =~= old_data.map_values(|p: PingHistoryPoint| ping_point_view(p)).push(
                        ping_point_view(point),
                    ));
                }
                targets.insert(j, series);
                proof {
                    assert(targets@ =~= before.update(j as int, series));
                    assert(ping_history_view(targets@) =~= ping_history_view(before).update(
                        j as int,
                        ping_series_view(series),
                    ));
                }
            },
            None => {
                let mut data: Vec<PingHistoryPoint> = Vec::new();
                data.push(point);
                let series = PingHistoryTarget { name: t.name.clone(), host: t.host.clone(), data };
                proof {
                    assert(series.data@.map_values(|p: PingHistoryPoint| ping_point_view(p))
                        =~= seq![ping_point_view(point)]);
                }
                targets.push(series);
                proof {
                    assert(ping_history_view(targets@) =~= ping_history_view(before).push(
                        ping_series_view(series),
                    ));
                }
            },
        }
        i = i + 1;
    }
    proof {
        assert(ping.targets@.take(ping.targets@.len() as int) =~= ping.targets@);
    }
}

/// Records a snapshot's reachability block, if any, at the snapshot's second.
pub fn record_snapshot_ping(targets: &mut Vec<PingHistoryTarget>, s: &SystemMetrics)
    ensures
        ping_history_view(final(targets)@) == match s.ping {
            Some(p) => add_ping_samples(
                ping_history_view(old(targets)@),
                (s.timestamp / 1000) as i64,
                p.targets@,
            ),
            None => ping_history_view(old(targets)@),
        },
{
    match &s.ping {
        Some(p) => record_ping(targets, seconds_of(s.timestamp), p),
        None => {},
    }
}

} // verus!
