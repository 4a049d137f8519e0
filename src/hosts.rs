use vstd::prelude::*;

use crate::rate::{apply_rates, spec_with_rates};
use crate::snapshot::SystemMetrics;
use crate::tracker::{distinct_ids, ServerMetricsUpdate};

verus! {

/// Host `h` after a fresh snapshot: online, with the snapshot's throughput
/// derived against the one it held.
pub open spec fn with_snapshot(h: ServerMetricsUpdate, snap: SystemMetrics) -> ServerMetricsUpdate {
    ServerMetricsUpdate { online: true, metrics: Some(spec_with_rates(h.metrics, snap)), ..h }
}

/// The table of known hosts, keyed by identifier: latest snapshot and online
/// flag of each, in registration order.
pub struct HostTable {
    hosts: Vec<ServerMetricsUpdate>,
}

impl View for HostTable {
    type V = Seq<ServerMetricsUpdate>;

    closed spec fn view(&self) -> Seq<ServerMetricsUpdate> {
        self.hosts@
    }
}

impl HostTable {
    /// No two hosts share an identifier.
    pub closed spec fn wf(&self) -> bool {
        distinct_ids(self.hosts@)
    }

    /// A table with no host.
    pub fn new() -> (r: HostTable)
        ensures
            r.wf(),
            r@ == Seq::<ServerMetricsUpdate>::empty(),
    {
        HostTable { hosts: Vec::new() }
    }

    /// Every known host, in order.
    pub fn hosts(&self) -> (r: &Vec<ServerMetricsUpdate>)
        requires
            self.wf(),
        ensures
            r@ == self@,
            distinct_ids(r@),
    {
        &self.hosts
    }

    /// Index of host `id`, if known.
    pub fn position(&self, id: &String) -> (r: Option<usize>)
        requires
            self.wf(),
        ensures
            match r {
                Some(j) => j < self@.len() && self@[j as int].server_id@ == id@,
                None => forall|j: int| 0 <= j < self@.len() ==> #[trigger] self@[j].server_id@ != id@,
            },
    {
        let mut j: usize = 0;
        while j < self.hosts.len()
            invariant
                j <= self.hosts@.len(),
                forall|t: int| 0 <= t < j ==> #[trigger] self.hosts@[t].server_id@ != id@,
            decreases self.hosts@.len() - j,
        {
            if self.hosts[j].server_id == *id {
                return Some(j);
            }
            j = j + 1;
        }
        None
    }

    /// Adds a host, or replaces the entry with its identifier.
    pub fn register(&mut self, host: ServerMetricsUpdate)
        requires
            old(self).wf(),
        ensures
            final(self).wf(),
            (exists|j: int|
                0 <= j < old(self)@.len() && #[trigger] old(self)@[j].server_id@ == host.server_id@
                    && final(self)@ == old(self)@.update(j, host)) || ((forall|j: int|
                0 <= j < old(self)@.len() ==> #[trigger] old(self)@[j].server_id@
                    != host.server_id@) && final(self)@ == old(self)@.push(host)),
    {
        match self.position(&host.server_id) {
            Some(j) => {
                let ghost id = host.server_id@;
                self.hosts[j] = host;
                proof {
                    assert forall|a: int, b: int|
                        0 <= a < self.hosts@.len() && 0 <= b < self.hosts@.len() && a != b implies #[trigger] self.hosts@[a].server_id@
                        != #[trigger] self.hosts@[b].server_id@ by {
                        if a != j && b != j {
                            assert(old(self).hosts@[a] == self.hosts@[a]);
                            assert(old(self).hosts@[b] == self.hosts@[b]);
                        } else if a == j {
                            assert(old(self).hosts@[b] == self.hosts@[b]);
                            assert(old(self).hosts@[j as int].server_id@ == id);
                        } else {
                            assert(old(self).hosts@[a] == self.hosts@[a]);
                            assert(old(self).hosts@[j as int].server_id@ == id);
                        }
                    }
                }
            },
            None => {
                self.hosts.push(host);
                proof {
                    assert forall|a: int, b: int|
                        0 <= a < self.hosts@.len() && 0 <= b < self.hosts@.len() && a != b implies #[trigger] self.hosts@[a].server_id@
                        != #[trigger] self.hosts@[b].server_id@ by {
                        if a < old(self).hosts@.len() as int {
                            assert(old(self).hosts@[a] == self.hosts@[a]);
                        }
                        if b < old(self).hosts@.len() as int {
                            assert(old(self).hosts@[b] == self.hosts@[b]);
                        }
                    }
                }
            },
        }
    }

    /// Records a fresh snapshot of host `id`: its throughput is derived
    /// against the snapshot held before, and the host becomes online. An
    /// unknown host changes nothing and yields `false`.
    pub fn receive_snapshot(&mut self, id: &String, snap: SystemMetrics) -> (r: bool)
        requires
            old(self).wf(),
        ensures
            final(self).wf(),
            r == exists|j: int| 0 <= j < old(self)@.len() && #[trigger] old(self)@[j].server_id@ == id@,
            r ==> exists|j: int|
                0 <= j < old(self)@.len() && #[trigger] old(self)@[j].server_id@ == id@
                    && final(self)@ == old(self)@.update(j, with_snapshot(old(self)@[j], snap)),
            !r ==> final(self)@ == old(self)@,
    {
        match self.position(id) {
            Some(j) => {
                let mut snap = snap;
                let mut h = self.hosts.remove(j);
                apply_rates(h.metrics.as_ref(), &mut snap);
                h.online = true;
                h.metrics = Some(snap);
                self.hosts.insert(j, h);
                proof {
                    assert(self.hosts@ =~= old(self)@.update(j as int, with_snapshot(old(self)@[j as int], snap)));
                    assert forall|a: int, b: int|
                        0 <= a < self.hosts@.len() && 0 <= b < self.hosts@.len() && a != b implies #[trigger] self.hosts@[a].server_id@
                        != #[trigger] self.hosts@[b].server_id@ by {
                        assert(old(self).hosts@[a].server_id@ == self.hosts@[a].server_id@);
                        assert(old(self).hosts@[b].server_id@ == self.hosts@[b].server_id@);
                    }
                }
                true
            },
            None => false,
        }
    }

    /// Marks host `id` offline (connection closed or liveness timeout); its
    /// last snapshot is kept. An unknown host changes nothing and yields `false`.
    pub fn mark_offline(&mut self, id: &String) -> (r: bool)
        requires
            old(self).wf(),
        ensures
            final(self).wf(),
            r == exists|j: int| 0 <= j < old(self)@.len() && #[trigger] old(self)@[j].server_id@ == id@,
            r ==> exists|j: int|
                0 <= j < old(self)@.len() && #[trigger] old(self)@[j].server_id@ == id@
                    && final(self)@ == old(self)@.update(j, ServerMetricsUpdate { online: false, ..old(self)@[j] }),
            !r ==> final(self)@ == old(self)@,
    {
        match self.position(id) {
            Some(j) => {
                let mut h = self.hosts.remove(j);
                h.online = false;
                self.hosts.insert(j, h);
                proof {
                    assert(self.hosts@ =~= old(self)@.update(j as int, ServerMetricsUpdate { online: false, ..old(self)@[j as int] }));
                    assert forall|a: int, b: int|
                        0 <= a < self.hosts@.len() && 0 <= b < self.hosts@.len() && a != b implies #[trigger] self.hosts@[a].server_id@
                        != #[trigger] self.hosts@[b].server_id@ by {
                        assert(old(self).hosts@[a].server_id@ == self.hosts@[a].server_id@);
                        assert(old(self).hosts@[b].server_id@ == self.hosts@[b].server_id@);
                    }
                }
                true
            },
            None => false,
        }
    }
}

} // verus!
