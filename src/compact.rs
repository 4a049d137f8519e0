use vstd::prelude::*;

use crate::snapshot::SystemMetrics;

verus! {

/// Whole percent nearest to `hp` hundredths of a percent, ties to even.
pub open spec fn round_half_even(hp: nat) -> nat {
    let q = hp / 100;
    let r = hp % 100;
    if r > 50 || (r == 50 && q % 2 == 1) {
        q + 1
    } else {
        q
    }
}

/// The rounded percentage as carried in the compact form (saturating at 255).
pub open spec fn pct_byte(hp: nat) -> u8 {
    if round_half_even(hp) > 255 {
        255u8
    } else {
        round_half_even(hp) as u8
    }
}

/// Rounds hundredths of a percent to a whole percent, ties to even.
pub fn round_percent(hp: u32) -> (r: u8)
    ensures
        r == pct_byte(hp as nat),
{
    let q: u32 = hp / 100;
    let rem: u32 = hp % 100;
    let rounded: u32 = if rem > 50 || (rem == 50 && q % 2 == 1) {
        q + 1
    } else {
        q
    };
    if rounded > 255 {
        255
    } else {
        rounded as u8
    }
}

/// Reduced, rounded projection of a snapshot. Every field is optional so that
/// "not present" stays distinct from zero.
#[derive(Debug, Clone, Copy, PartialEq, Eq, Structural)]
pub struct CompactMetrics {
    /// CPU usage, whole percent.
    pub c: Option<u8>,
    /// Memory usage, whole percent.
    pub m: Option<u8>,
    /// Usage of the first disk, whole percent.
    pub d: Option<u8>,
    /// Receive throughput, bytes per second.
    pub rx: Option<u64>,
    /// Transmit throughput, bytes per second.
    pub tx: Option<u64>,
    /// Uptime, seconds.
    pub up: Option<u64>,
}

/// The compact projection of a snapshot.
pub open spec fn spec_compact(s: SystemMetrics) -> CompactMetrics {
    CompactMetrics {
        c: Some(pct_byte(s.cpu.usage as nat)),
        m: Some(pct_byte(s.memory.usage_percent as nat)),
        d: if s.disks@.len() > 0 {
            Some(pct_byte(s.disks@[0].usage_percent as nat))
        } else {
            None
        },
        rx: Some(s.network.rx_speed),
        tx: Some(s.network.tx_speed),
        up: Some(s.uptime),
    }
}

/// `cur` where it differs from `prev`, else nothing.
pub open spec fn changed_field<T>(cur: Option<T>, prev: Option<T>) -> Option<T> {
    if cur != prev {
        cur
    } else {
        None
    }
}

/// The fields of `cur` that differ from `prev`; uptime is never carried.
pub open spec fn spec_diff(cur: CompactMetrics, prev: CompactMetrics) -> CompactMetrics {
    CompactMetrics {
        c: changed_field(cur.c, prev.c),
        m: changed_field(cur.m, prev.m),
        d: changed_field(cur.d, prev.d),
        rx: changed_field(cur.rx, prev.rx),
        tx: changed_field(cur.tx, prev.tx),
        up: None,
    }
}

impl CompactMetrics {
    /// True when any compared field differs; uptime is not compared.
    pub open spec fn spec_has_changed(self, other: CompactMetrics) -> bool {
        self.c != other.c || self.m != other.m || self.d != other.d || self.rx != other.rx
            || self.tx != other.tx
    }

    pub open spec fn spec_is_empty(self) -> bool {
        self.c is None && self.m is None && self.d is None && self.rx is None && self.tx is None
            && self.up is None
    }

    /// The compact form with no field present.
    pub open spec fn spec_empty() -> CompactMetrics {
        CompactMetrics { c: None, m: None, d: None, rx: None, tx: None, up: None }
    }

    /// Projects a snapshot: rounded cpu and memory usage, the first disk's
    /// rounded usage (absent without disks), throughput and uptime.
    pub fn from_system_metrics(m: &SystemMetrics) -> (r: CompactMetrics)
        ensures
            r == spec_compact(*m),
    {
        let d = if m.disks.len() > 0 {
            Some(round_percent(m.disks[0].usage_percent))
        } else {
            None
        };
        CompactMetrics {
            c: Some(round_percent(m.cpu.usage)),
            m: Some(round_percent(m.memory.usage_percent)),
            d,
            rx: Some(m.network.rx_speed),
            tx: Some(m.network.tx_speed),
            up: Some(m.uptime),
        }
    }

    /// Whether any of cpu, memory, disk, rx or tx differs from `other`.
    pub fn has_changed(&self, other: &CompactMetrics) -> (r: bool)
        ensures
            r == self.spec_has_changed(*other),
    {
        self.c != other.c || self.m != other.m || self.d != other.d || self.rx != other.rx
            || self.tx != other.tx
    }

    /// Only the fields that differ from `prev`, uptime left out.
    pub fn diff(&self, prev: &CompactMetrics) -> (r: CompactMetrics)
        ensures
            r == spec_diff(*self, *prev),
    {
        CompactMetrics {
            c: if self.c != prev.c { self.c } else { None },
            m: if self.m != prev.m { self.m } else { None },
            d: if self.d != prev.d { self.d } else { None },
            rx: if self.rx != prev.rx { self.rx } else { None },
            tx: if self.tx != prev.tx { self.tx } else { None },
            up: None,
        }
    }

    /// Whether no field is present.
    pub fn is_empty(&self) -> (r: bool)
        ensures
            r == self.spec_is_empty(),
    {
        self.c.is_none() && self.m.is_none() && self.d.is_none() && self.rx.is_none()
            && self.tx.is_none() && self.up.is_none()
    }
}

impl Default for CompactMetrics {
    fn default() -> (r: CompactMetrics)
        ensures
            r == CompactMetrics::spec_empty(),
    {
        CompactMetrics { c: None, m: None, d: None, rx: None, tx: None, up: None }
    }
}

/// Rounding is idempotent: a whole percent, rounded again, is unchanged.
pub proof fn lemma_round_idempotent(hp: nat)
    ensures
        pct_byte(100 * pct_byte(hp) as nat) == pct_byte(hp),
{
    let p = pct_byte(hp) as nat;
    assert((100 * p) / 100 == p && (100 * p) % 100 == 0) by (nonlinear_arith);
}

/// Compacting is idempotent: a snapshot whose percentages are the whole
/// percentages of another's compact form, with the same throughput, uptime and
/// disk count, compacts to the same value.
pub proof fn lemma_compact_idempotent(s: SystemMetrics, t: SystemMetrics)
    requires
        t.cpu.usage == 100 * pct_byte(s.cpu.usage as nat),
        t.memory.usage_percent == 100 * pct_byte(s.memory.usage_percent as nat),
        t.disks@.len() == s.disks@.len(),
        s.disks@.len() > 0 ==> t.disks@[0].usage_percent == 100 * pct_byte(
            s.disks@[0].usage_percent as nat,
        ),
        t.network.rx_speed == s.network.rx_speed,
        t.network.tx_speed == s.network.tx_speed,
        t.uptime == s.uptime,
    ensures
        spec_compact(t) == spec_compact(s),
{
    lemma_round_idempotent(s.cpu.usage as nat);
    lemma_round_idempotent(s.memory.usage_percent as nat);
    if s.disks@.len() > 0 {
        lemma_round_idempotent(s.disks@[0].usage_percent as nat);
    }
}

/// The delta of `cur` against `prev` holds a field exactly when that field
/// differs, with `cur`'s value, and never holds uptime. (A field that `cur`
/// lacks and `prev` has cannot be carried, so such pairs are left out.)
pub proof fn lemma_diff_exact(cur: CompactMetrics, prev: CompactMetrics)
    requires
        cur.c is None ==> prev.c is None,
        cur.m is None ==> prev.m is None,
        cur.d is None ==> prev.d is None,
        cur.rx is None ==> prev.rx is None,
        cur.tx is None ==> prev.tx is None,
    ensures
        (spec_diff(cur, prev).c is Some <==> cur.c != prev.c),
        (spec_diff(cur, prev).m is Some <==> cur.m != prev.m),
        (spec_diff(cur, prev).d is Some <==> cur.d != prev.d),
        (spec_diff(cur, prev).rx is Some <==> cur.rx != prev.rx),
        (spec_diff(cur, prev).tx is Some <==> cur.tx != prev.tx),
        spec_diff(cur, prev).c is Some ==> spec_diff(cur, prev).c == cur.c,
        spec_diff(cur, prev).m is Some ==> spec_diff(cur, prev).m == cur.m,
        spec_diff(cur, prev).d is Some ==> spec_diff(cur, prev).d == cur.d,
        spec_diff(cur, prev).rx is Some ==> spec_diff(cur, prev).rx == cur.rx,
        spec_diff(cur, prev).tx is Some ==> spec_diff(cur, prev).tx == cur.tx,
        spec_diff(cur, prev).up is None,
{
}

} // verus!
