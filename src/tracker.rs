use vstd::prelude::*;

use crate::compact::{spec_compact, spec_diff, CompactMetrics};
use crate::snapshot::SystemMetrics;

verus! {

/// What an observer last received about one host: its online flag and the
/// compact metrics sent.
pub type Baseline = Map<Seq<char>, (bool, CompactMetrics)>;

/// One host's update as the contracts see it: identifier, online flag (only
/// when it flipped) and the changed compact fields (only when some changed).
pub type UpdateView = (Seq<char>, Option<bool>, Option<CompactMetrics>);

/// Everything known about one host: identity, display metadata, online flag
/// and its latest full snapshot, if any.
#[derive(Debug, Clone)]
pub struct ServerMetricsUpdate {
    pub server_id: String,
    pub server_name: String,
    pub location: String,
    pub provider: String,
    pub tag: String,
    pub version: String,
    pub ip: String,
    pub online: bool,
    pub metrics: Option<SystemMetrics>,
}

/// One host's entry in a delta message.
#[derive(Debug, Clone)]
pub struct CompactServerUpdate {
    /// Host identifier.
    pub id: String,
    /// Online flag, present only when it changed.
    pub on: Option<bool>,
    /// Changed compact fields, present only when some changed.
    pub m: Option<CompactMetrics>,
}

/// The per-tick message: changed hosts only, under one pipeline timestamp.
#[derive(Debug, Clone)]
pub struct DeltaMessage {
    pub msg_type: String,
    pub ts: i64,
    pub d: Vec<CompactServerUpdate>,
}

/// The message a newly connected observer receives: every known host in full.
#[derive(Debug, Clone)]
pub struct DashboardMessage {
    pub msg_type: String,
    pub servers: Vec<ServerMetricsUpdate>,
}

pub open spec fn update_view(u: CompactServerUpdate) -> UpdateView {
    (u.id@, u.on, u.m)
}

pub open spec fn updates_view(v: Seq<CompactServerUpdate>) -> Seq<UpdateView> {
    v.map_values(|u: CompactServerUpdate| update_view(u))
}

/// The compact form of a host's latest snapshot; no field when it has none.
pub open spec fn host_compact(h: ServerMetricsUpdate) -> CompactMetrics {
    match h.metrics {
        Some(m) => spec_compact(m),
        None => CompactMetrics::spec_empty(),
    }
}

/// No two hosts share an identifier.
pub open spec fn distinct_ids(s: Seq<ServerMetricsUpdate>) -> bool {
    forall|i: int, j: int|
        0 <= i < s.len() && 0 <= j < s.len() && i != j ==> #[trigger] s[i].server_id@
            != #[trigger] s[j].server_id@
}

/// The update owed for host `h` against what was last sent about it (`None`
/// for a host never sent). The online flag goes out when it flipped (always,
/// for a new host); the differing fields go out when any compared field changed.
pub open spec fn spec_host_update(prev: Option<(bool, CompactMetrics)>, h: ServerMetricsUpdate) -> Option<UpdateView> {
    let cur = host_compact(h);
    let (on, pm) = match prev {
        Some((o, pm)) => (if o == h.online { None } else { Some(h.online) }, pm),
        None => (Some(h.online), CompactMetrics::spec_empty()),
    };
    let m = if cur.spec_has_changed(pm) {
        Some(spec_diff(cur, pm))
    } else {
        None
    };
    if on is Some || m is Some {
        Some((h.server_id@, on, m))
    } else {
        None
    }
}

pub open spec fn lookup(base: Baseline, k: Seq<char>) -> Option<(bool, CompactMetrics)> {
    if base.contains_key(k) {
        Some(base[k])
    } else {
        None
    }
}

/// Host `h` is recorded with its current online flag and compared fields.
pub open spec fn host_quiet(base: Baseline, h: ServerMetricsUpdate) -> bool {
    match lookup(base, h.server_id@) {
        Some((o, pm)) => o == h.online && !host_compact(h).spec_has_changed(pm),
        None => false,
    }
}

/// The updates of one tick, in host order, against baseline `base`.
pub open spec fn tick_updates(base: Baseline, hosts: Seq<ServerMetricsUpdate>) -> Seq<UpdateView>
    decreases hosts.len(),
{
    if hosts.len() == 0 {
        Seq::empty()
    } else {
        let prefix = tick_updates(base, hosts.drop_last());
        let h = hosts.last();
        match spec_host_update(lookup(base, h.server_id@), h) {
            Some(u) => prefix.push(u),
            None => prefix,
        }
    }
}

/// The baseline after one tick: each host that got an update is recorded as sent.
pub open spec fn tick_baseline(base: Baseline, hosts: Seq<ServerMetricsUpdate>) -> Baseline
    decreases hosts.len(),
{
    if hosts.len() == 0 {
        base
    } else {
        let b = tick_baseline(base, hosts.drop_last());
        let h = hosts.last();
        if spec_host_update(lookup(base, h.server_id@), h) is Some {
            b.insert(h.server_id@, (h.online, host_compact(h)))
        } else {
            b
        }
    }
}

/// The baseline of an observer that was just sent every host in full.
pub open spec fn full_baseline(hosts: Seq<ServerMetricsUpdate>) -> Baseline
    decreases hosts.len(),
{
    if hosts.len() == 0 {
        Map::empty()
    } else {
        let h = hosts.last();
        full_baseline(hosts.drop_last()).insert(h.server_id@, (h.online, host_compact(h)))
    }
}

/// Compact form of a host's latest snapshot (no field present without one).
pub fn compact_of_host(h: &ServerMetricsUpdate) -> (r: CompactMetrics)
    ensures
        r == host_compact(*h),
{
    match &h.metrics {
        Some(m) => CompactMetrics::from_system_metrics(m),
        None => CompactMetrics { c: None, m: None, d: None, rx: None, tx: None, up: None },
    }
}

/// The update owed for one host against what was last sent about it.
pub fn host_update(prev: Option<(bool, CompactMetrics)>, h: &ServerMetricsUpdate) -> (r: Option<CompactServerUpdate>)
    ensures
        match r {
            Some(u) => spec_host_update(prev, *h) == Some(update_view(u)),
            None => spec_host_update(prev, *h) is None,
        },
{
    let cur = compact_of_host(h);
    let (on, pm) = match prev {
        Some((o, pm)) => (if o == h.online { None } else { Some(h.online) }, pm),
        None => (Some(h.online), CompactMetrics { c: None, m: None, d: None, rx: None, tx: None, up: None }),
    };
    let m = if cur.has_changed(&pm) {
        Some(cur.diff(&pm))
    } else {
        None
    };
    if on.is_some() || m.is_some() {
        Some(CompactServerUpdate { id: h.server_id.clone(), on, m })
    } else {
        None
    }
}


/// Per-observer record of what was last sent about each host. Owned by one
/// observer connection and dropped with it.
pub struct LastSentState {
    servers: Vec<(String, bool, CompactMetrics)>,
    model: Ghost<Baseline>,
}

impl View for LastSentState {
    type V = Baseline;

    closed spec fn view(&self) -> Baseline {
        self.model@
    }
}

impl LastSentState {
    /// Entries have distinct identifiers and are exactly the view.
    pub closed spec fn wf(&self) -> bool {
        &&& forall|i: int, j: int|
            0 <= i < self.servers@.len() && 0 <= j < self.servers@.len() && i != j
                ==> #[trigger] self.servers@[i].0@ != #[trigger] self.servers@[j].0@
        &&& forall|i: int|
            0 <= i < self.servers@.len() ==> self.model@.contains_key(
                #[trigger] self.servers@[i].0@,
            ) && self.model@[self.servers@[i].0@] == (self.servers@[i].1, self.servers@[i].2)
        &&& forall|k: Seq<char>|
            #[trigger] self.model@.contains_key(k) ==> exists|i: int|
                0 <= i < self.servers@.len() && #[trigger] self.servers@[i].0@ == k
    }

    /// An observer that was sent nothing yet.
    pub fn new() -> (r: LastSentState)
        ensures
            r.wf(),
            r@ == Map::<Seq<char>, (bool, CompactMetrics)>::empty(),
    {
        LastSentState { servers: Vec::new(), model: Ghost(Map::empty()) }
    }

    /// Number of hosts recorded.
    pub fn len(&self) -> (r: usize)
        requires
            self.wf(),
        ensures
            r == self@.dom().len(),
    {
        proof {
            self.lemma_dom_len();
        }
        self.servers.len()
    }

    proof fn lemma_dom_len(&self)
        requires
            self.wf(),
        ensures
            self@.dom().len() == self.servers@.len(),
            self@.dom().finite(),
        decreases self.servers@.len(),
    {
        let keys = self.servers@.map_values(|e: (String, bool, CompactMetrics)| e.0@);
        assert(keys.no_duplicates()) by {
            assert forall|i: int, j: int|
                0 <= i < keys.len() && 0 <= j < keys.len() && i != j implies keys[i] != keys[j] by {
                assert(self.servers@[i].0@ != self.servers@[j].0@);
            }
        }
        assert(self@.dom() =~= keys.to_set()) by {
            assert forall|k: Seq<char>| self@.dom().contains(k) implies keys.to_set().contains(k) by {
                let i = choose|i: int| 0 <= i < self.servers@.len() && #[trigger] self.servers@[i].0@ == k;
                assert(keys[i] == k);
            }
            assert forall|k: Seq<char>| keys.to_set().contains(k) implies self@.dom().contains(k) by {
                let i = choose|i: int| 0 <= i < keys.len() && keys[i] == k;
                assert(self.servers@[i].0@ == k);
            }
        }
        keys.unique_seq_to_set();
    }

    fn find(&self, id: &String) -> (r: Option<usize>)
        requires
            self.wf(),
        ensures
            match r {
                Some(j) => j < self.servers@.len() && self.servers@[j as int].0@ == id@,
                None => !self@.contains_key(id@),
            },
    {
        let mut j: usize = 0;
        while j < self.servers.len()
            invariant
                self.wf(),
                j <= self.servers@.len(),
                forall|t: int| 0 <= t < j ==> self.servers@[t].0@ != id@,
            decreases self.servers@.len() - j,
        {
            if self.servers[j].0 == *id {
                return Some(j);
            }
            j = j + 1;
        }
        None
    }

    /// What was last sent about host `id`, if anything.
    pub fn get(&self, id: &String) -> (r: Option<(bool, CompactMetrics)>)
        requires
            self.wf(),
        ensures
            r == lookup(self@, id@),
    {
        match self.find(id) {
            Some(j) => Some((self.servers[j].1, self.servers[j].2)),
            None => None,
        }
    }

    /// Records that `m` and online flag `online` were sent about host `id`.
    pub fn record(&mut self, id: &String, online: bool, m: CompactMetrics)
        requires
            old(self).wf(),
        ensures
            final(self).wf(),
            final(self)@ == old(self)@.insert(id@, (online, m)),
    {
        let ghost old_servers = self.servers@;
        let ghost mut pos: int = 0;
        match self.find(id) {
            Some(j) => {
                self.servers[j] = (id.clone(), online, m);
                proof {
                    pos = j as int;
                    assert forall|t: int| 0 <= t < self.servers@.len() && t != j implies self.servers@[t] == old_servers[t] by {}
                }
            },
            None => {
                self.servers.push((id.clone(), online, m));
                proof {
                    pos = old_servers.len() as int;
                }
            },
        }
        self.model = Ghost(self.model@.insert(id@, (online, m)));
        proof {
            assert forall|k: Seq<char>| #[trigger] self.model@.contains_key(k) implies exists|i: int|
                0 <= i < self.servers@.len() && #[trigger] self.servers@[i].0@ == k by {
                if k != id@ {
                    let i = choose|i: int| 0 <= i < old_servers.len() && #[trigger] old_servers[i].0@ == k;
                    assert(self.servers@[i].0@ == k);
                } else {
                    assert(self.servers@[pos].0@ == id@);
                }
            }
        }
    }
}

impl Default for LastSentState {
    fn default() -> (r: LastSentState)
        ensures
            r.wf(),
            r@ == Map::<Seq<char>, (bool, CompactMetrics)>::empty(),
    {
        LastSentState::new()
    }
}

impl LastSentState {
    /// Runs one tick for this observer: the update owed for each host, in
    /// host order, and each host that got one recorded as sent.
    pub fn compute_updates(&mut self, hosts: &Vec<ServerMetricsUpdate>) -> (r: Vec<CompactServerUpdate>)
        requires
            old(self).wf(),
            distinct_ids(hosts@),
        ensures
            final(self).wf(),
            updates_view(r@) == tick_updates(old(self)@, hosts@),
            final(self)@ == tick_baseline(old(self)@, hosts@),
    {
        let ghost base = self@;
        let mut out: Vec<CompactServerUpdate> = Vec::new();
        let mut i: usize = 0;
        proof {
            assert(hosts@.take(0) =~= Seq::<ServerMetricsUpdate>::empty());
            assert(updates_view(out@) =~= Seq::<UpdateView>::empty());
        }
        while i < hosts.len()
            invariant
                self.wf(),
                i <= hosts@.len(),
                distinct_ids(hosts@),
                self@ == tick_baseline(base, hosts@.take(i as int)),
                updates_view(out@) == tick_updates(base, hosts@.take(i as int)),
            decreases hosts@.len() - i,
        {
            let h = &hosts[i];
            proof {
                let pre = hosts@.take(i as int);
                assert forall|j: int| 0 <= j < pre.len() implies #[trigger] pre[j].server_id@
                    != h.server_id@ by {
                    assert(pre[j] == hosts@[j]);
                }
                lemma_baseline_frame(base, pre, h.server_id@);
                assert(hosts@.take(i as int + 1).drop_last() =~= pre);
                assert(hosts@.take(i as int + 1).last() == *h);
            }
            let prev = self.get(&h.server_id);
            match host_update(prev, h) {
                Some(u) => {
                    let cur = compact_of_host(h);
                    self.record(&h.server_id, h.online, cur);
                    let ghost before = out@;
                    out.push(u);
                    proof {
                        assert(updates_view(out@) =~= updates_view(before).push(update_view(u)));
                    }
                },
                None => {},
            }
            i = i + 1;
        }
        proof {
            assert(hosts@.take(hosts@.len() as int) =~= hosts@);
        }
        out
    }

    /// One tick for this observer: `None` when no host changed (nothing is
    /// sent), else one delta message carrying every changed host.
    pub fn tick(&mut self, ts: i64, hosts: &Vec<ServerMetricsUpdate>) -> (r: Option<DeltaMessage>)
        requires
            old(self).wf(),
            distinct_ids(hosts@),
        ensures
            final(self).wf(),
            final(self)@ == tick_baseline(old(self)@, hosts@),
            r is None <==> tick_updates(old(self)@, hosts@).len() == 0,
            match r {
                Some(msg) => msg.msg_type@ == "delta"@ && msg.ts == ts && updates_view(msg.d@)
                    == tick_updates(old(self)@, hosts@),
                None => true,
            },
    {
        let d = self.compute_updates(hosts);
        if d.len() == 0 {
            None
        } else {
            Some(DeltaMessage { msg_type: "delta".to_string(), ts, d })
        }
    }

    /// The baseline of an observer that was just sent `hosts` in full.
    pub fn from_servers(hosts: &Vec<ServerMetricsUpdate>) -> (r: LastSentState)
        requires
            distinct_ids(hosts@),
        ensures
            r.wf(),
            r@ == full_baseline(hosts@),
    {
        let mut st = LastSentState::new();
        let mut i: usize = 0;
        proof {
            assert(hosts@.take(0) =~= Seq::<ServerMetricsUpdate>::empty());
        }
        while i < hosts.len()
            invariant
                st.wf(),
                i <= hosts@.len(),
                st@ == full_baseline(hosts@.take(i as int)),
            decreases hosts@.len() - i,
        {
            let h = &hosts[i];
            let cur = compact_of_host(h);
            st.record(&h.server_id, h.online, cur);
            proof {
                assert(hosts@.take(i as int + 1).drop_last() =~= hosts@.take(i as int));
                assert(hosts@.take(i as int + 1).last() == *h);
            }
            i = i + 1;
        }
        proof {
            assert(hosts@.take(hosts@.len() as int) =~= hosts@);
        }
        st
    }
}

/// A newly connected observer: the full-state message carrying every host,
/// and that observer's baseline set to exactly what the message carries.
pub fn connect_observer(hosts: Vec<ServerMetricsUpdate>) -> (r: (DashboardMessage, LastSentState))
    requires
        distinct_ids(hosts@),
    ensures
        r.0.msg_type@ == "full"@,
        r.0.servers@ == hosts@,
        r.1.wf(),
        r.1@ == full_baseline(hosts@),
{
    let st = LastSentState::from_servers(&hosts);
    (DashboardMessage { msg_type: "full".to_string(), servers: hosts }, st)
}

/// A tick changes nothing recorded about hosts outside the ones it visits.
pub proof fn lemma_baseline_frame(base: Baseline, hosts: Seq<ServerMetricsUpdate>, k: Seq<char>)
    requires
        forall|j: int| 0 <= j < hosts.len() ==> #[trigger] hosts[j].server_id@ != k,
    ensures
        lookup(tick_baseline(base, hosts), k) == lookup(base, k),
    decreases hosts.len(),
{
    if hosts.len() > 0 {
        let pre = hosts.drop_last();
        assert forall|j: int| 0 <= j < pre.len() implies #[trigger] pre[j].server_id@ != k by {
            assert(pre[j] == hosts[j]);
        }
        lemma_baseline_frame(base, pre, k);
        assert(hosts.last() == hosts[hosts.len() - 1]);
    }
}

/// Right after the full-state message, the baseline holds each host's
/// online flag and compact form.
pub proof fn lemma_full_baseline_lookup(hosts: Seq<ServerMetricsUpdate>, i: int)
    requires
        distinct_ids(hosts),
        0 <= i < hosts.len(),
    ensures
        lookup(full_baseline(hosts), hosts[i].server_id@) == Some(
            (hosts[i].online, host_compact(hosts[i])),
        ),
    decreases hosts.len(),
{
    let n = hosts.len() - 1;
    if i < n {
        let pre = hosts.drop_last();
        assert(pre[i] == hosts[i]);
        assert(distinct_ids(pre)) by {
            assert forall|a: int, b: int|
                0 <= a < pre.len() && 0 <= b < pre.len() && a != b implies #[trigger] pre[a].server_id@
                != #[trigger] pre[b].server_id@ by {
                assert(pre[a] == hosts[a] && pre[b] == hosts[b]);
            }
        }
        lemma_full_baseline_lookup(pre, i);
        assert(hosts[i].server_id@ != hosts[n].server_id@);
    }
}

/// A tick in which every host kept its online flag and compared compact
/// fields against what was last sent produces no update, so no message.
pub proof fn lemma_quiet_tick(base: Baseline, hosts: Seq<ServerMetricsUpdate>)
    requires
        forall|i: int|
            0 <= i < hosts.len() ==> #[trigger] host_quiet(base, hosts[i]),
    ensures
        tick_updates(base, hosts) == Seq::<UpdateView>::empty(),
    decreases hosts.len(),
{
    if hosts.len() > 0 {
        let pre = hosts.drop_last();
        assert forall|i: int| 0 <= i < pre.len() implies #[trigger] host_quiet(base, pre[i]) by {
            assert(pre[i] == hosts[i]);
            }
        lemma_quiet_tick(base, pre);
        let n = hosts.len() - 1;
        assert(hosts.last() == hosts[n]);
        assert(host_quiet(base, hosts[n]));
    }
}

/// An observer that connects at any point gets the full state and then, on
/// a tick over the same hosts, no delta: nothing already in the full
/// message is sent again.
pub proof fn lemma_connect_then_tick_silent(hosts: Seq<ServerMetricsUpdate>)
    requires
        distinct_ids(hosts),
    ensures
        tick_updates(full_baseline(hosts), hosts) == Seq::<UpdateView>::empty(),
{
    assert forall|i: int| 0 <= i < hosts.len() implies #[trigger] host_quiet(
        full_baseline(hosts),
        hosts[i],
    ) by {
        lemma_full_baseline_lookup(hosts, i);
    }
    lemma_quiet_tick(full_baseline(hosts), hosts);
}

} // verus!
