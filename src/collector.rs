use vstd::prelude::*;

use crate::snapshot::{
    CpuMetrics, DiskMetrics, LoadAverage, MemoryMetrics, NetworkInterface,
    NetworkMetrics, OsInfo, SystemMetrics,
};
use crate::text::{chars_of, eq_chars, has_prefix, starts_with_chars};

verus! {

/// What `str::to_lowercase` makes of a string.
pub uninterp spec fn lower_of(s: Seq<char>) -> Seq<char>;

/// Relies on str::to_lowercase (std): the lowercase form of `s`, which
/// depends on its characters alone.
#[verifier::external_body]
fn lowercase(s: &str) -> (r: String)
    ensures
        r@ == lower_of(s@),
{
    s.to_lowercase()
}

/// An interface name (already lowercased) that counts toward physical
/// connectivity: not loopback and not a virtual, bridge or tunnel interface.
pub open spec fn is_physical_name(n: Seq<char>) -> bool {
    &&& n != seq!['l', 'o']
    &&& n != seq!['l', 'o', '0']
    &&& !has_prefix(n, seq!['v', 'e', 't', 'h'])
    &&& !has_prefix(n, seq!['d', 'o', 'c', 'k', 'e', 'r'])
    &&& !has_prefix(n, seq!['b', 'r', '-'])
    &&& !has_prefix(n, seq!['v', 'i', 'r', 'b', 'r'])
    &&& !has_prefix(n, seq!['u', 't', 'u', 'n'])
    &&& !has_prefix(n, seq!['a', 'w', 'd', 'l'])
    &&& !has_prefix(n, seq!['l', 'l', 'w'])
}

/// Whether a lowercased interface name is kept.
pub fn is_physical_name_chars(n: &Vec<char>) -> (r: bool)
    ensures
        r == is_physical_name(n@),
{
    let lo = vec!['l', 'o'];
    let lo0 = vec!['l', 'o', '0'];
    let veth = vec!['v', 'e', 't', 'h'];
    let docker = vec!['d', 'o', 'c', 'k', 'e', 'r'];
    let br = vec!['b', 'r', '-'];
    let virbr = vec!['v', 'i', 'r', 'b', 'r'];
    let utun = vec!['u', 't', 'u', 'n'];
    let awdl = vec!['a', 'w', 'd', 'l'];
    let llw = vec!['l', 'l', 'w'];
    !eq_chars(n, &lo) && !eq_chars(n, &lo0) && !starts_with_chars(n, &veth) && !starts_with_chars(
        n,
        &docker,
    ) && !starts_with_chars(n, &br) && !starts_with_chars(n, &virbr) && !starts_with_chars(n, &utun)
        && !starts_with_chars(n, &awdl) && !starts_with_chars(n, &llw)
}

/// Whether interface `name` is kept, judged on its lowercase form.
pub fn is_physical_interface(name: &str) -> (r: bool)
    ensures
        r == is_physical_name(lower_of(name@)),
{
    let lowered = lowercase(name);
    let n = chars_of(lowered.as_str());
    is_physical_name_chars(&n)
}

/// A mount point of the primary system volume: `/`, or a drive `C:`.
pub open spec fn is_system_mount(m: Seq<char>) -> bool {
    m == seq!['/'] || has_prefix(m, seq!['C', ':'])
}

/// Whether a disk mounted at `mount` is the primary system volume.
pub fn is_system_mount_point(mount: &str) -> (r: bool)
    ensures
        r == is_system_mount(mount@),
{
    let m = chars_of(mount);
    let root = vec!['/'];
    let drive = vec!['C', ':'];
    proof {
        assert(root@ =~= seq!['/']);
        assert(drive@ =~= seq!['C', ':']);
    }
    eq_chars(&m, &root) || starts_with_chars(&m, &drive)
}

/// `used` as hundredths of a percent of `total`, clamped to 100%; zero when
/// the total is zero.
pub open spec fn spec_usage(used: nat, total: nat) -> nat {
    if total == 0 {
        0
    } else if used * 10000 / total > 10000 {
        10000
    } else {
        used * 10000 / total
    }
}

/// Usage in hundredths of a percent (`used` out of `total`).
pub fn usage_hundredths(used: u64, total: u64) -> (r: u32)
    ensures
        r == spec_usage(used as nat, total as nat),
{
    if total == 0 {
        return 0;
    }
    let q: u128 = (used as u128 * 10000) / (total as u128);
    if q > 10000 {
        10000
    } else {
        q as u32
    }
}

pub open spec fn sum_u32(s: Seq<u32>) -> nat
    decreases s.len(),
{
    if s.len() == 0 {
        0
    } else {
        sum_u32(s.drop_last()) + s.last() as nat
    }
}

/// Mean of the per-core usages (rounded down); zero without cores.
pub open spec fn spec_average(s: Seq<u32>) -> nat {
    if s.len() == 0 {
        0
    } else {
        sum_u32(s) / s.len()
    }
}

proof fn lemma_sum_bound(s: Seq<u32>)
    ensures
        sum_u32(s) <= s.len() * (u32::MAX as nat),
    decreases s.len(),
{
    if s.len() > 0 {
        lemma_sum_bound(s.drop_last());
        assert((s.len() - 1) * (u32::MAX as nat) + u32::MAX as nat == s.len() * (u32::MAX as nat))
            by (nonlinear_arith);
    }
}

/// Aggregate CPU usage: the mean of the per-core usages.
pub fn average_usage(per_core: &Vec<u32>) -> (r: u32)
    ensures
        r == spec_average(per_core@),
{
    if per_core.len() == 0 {
        return 0;
    }
    let mut sum: u128 = 0;
    let mut i: usize = 0;
    while i < per_core.len()
        invariant
            i <= per_core@.len(),
            sum == sum_u32(per_core@.take(i as int)),
        decreases per_core@.len() - i,
    {
        proof {
            assert(per_core@.take(i as int + 1).drop_last() =~= per_core@.take(i as int));
            lemma_sum_bound(per_core@.take(i as int));
            assert(i * (u32::MAX as nat) <= (usize::MAX as nat) * (u32::MAX as nat))
                by (nonlinear_arith)
                requires
                    i <= usize::MAX,
            ;
        }
        sum = sum + per_core[i] as u128;
        i = i + 1;
    }
    proof {
        assert(per_core@.take(per_core@.len() as int) =~= per_core@);
        lemma_sum_bound(per_core@);
        assert(sum_u32(per_core@) / per_core@.len() <= u32::MAX as nat) by (nonlinear_arith)
            requires
                sum_u32(per_core@) <= per_core@.len() * (u32::MAX as nat),
                per_core@.len() > 0,
        ;
    }
    (sum / (per_core.len() as u128)) as u32
}

/// One disk as read from the host.
#[derive(Debug, Clone)]
pub struct RawDisk {
    pub name: String,
    pub mount_point: String,
    pub total: u64,
    pub available: u64,
}

/// One network interface's cumulative counters as read from the host.
#[derive(Debug, Clone)]
pub struct RawInterface {
    pub name: String,
    pub rx_bytes: u64,
    pub tx_bytes: u64,
    pub rx_packets: u64,
    pub tx_packets: u64,
}

/// One fresh read of a host's counters; absent facets are `None` or empty.
/// CPU usages are in hundredths of a percent.
#[derive(Debug, Clone)]
pub struct HostReading {
    pub timestamp: i64,
    pub hostname: Option<String>,
    pub os_name: Option<String>,
    pub os_version: Option<String>,
    pub kernel_version: Option<String>,
    pub arch: String,
    pub cpu_brand: Option<String>,
    pub cpu_frequency: Option<u64>,
    pub per_core: Vec<u32>,
    pub total_memory: u64,
    pub used_memory: u64,
    pub available_memory: u64,
    pub total_swap: u64,
    pub used_swap: u64,
    pub disks: Vec<RawDisk>,
    pub interfaces: Vec<RawInterface>,
    pub uptime: u64,
    pub load_average: LoadAverage,
}

/// The disks kept: those of the system volume, in order.
pub open spec fn kept_disks(s: Seq<RawDisk>) -> Seq<RawDisk>
    decreases s.len(),
{
    if s.len() == 0 {
        s
    } else if is_system_mount(s.last().mount_point@) {
        kept_disks(s.drop_last()).push(s.last())
    } else {
        kept_disks(s.drop_last())
    }
}

/// The interfaces kept: the physical ones, in order.
pub open spec fn kept_interfaces(s: Seq<RawInterface>) -> Seq<RawInterface>
    decreases s.len(),
{
    if s.len() == 0 {
        s
    } else if is_physical_name(lower_of(s.last().name@)) {
        kept_interfaces(s.drop_last()).push(s.last())
    } else {
        kept_interfaces(s.drop_last())
    }
}

/// `d` describes raw disk `r`: used space is what is not available.
pub open spec fn disk_of(r: RawDisk, d: DiskMetrics) -> bool {
    let used = if r.available <= r.total {
        (r.total - r.available) as u64
    } else {
        0u64
    };
    &&& d.name@ == r.name@
    &&& d.total == r.total
    &&& d.used == used
    &&& d.usage_percent == spec_usage(used as nat, r.total as nat)
    &&& d.mount_points@.len() == 1
    &&& d.mount_points@[0]@ == r.mount_point@
    &&& d.model is None
    &&& d.serial is None
}

/// `n` carries the counters of raw interface `r`.
pub open spec fn interface_of(r: RawInterface, n: NetworkInterface) -> bool {
    &&& n.name@ == r.name@
    &&& n.mac is None
    &&& n.speed is None
    &&& n.rx_bytes == r.rx_bytes
    &&& n.tx_bytes == r.tx_bytes
    &&& n.rx_packets == r.rx_packets
    &&& n.tx_packets == r.tx_packets
}

pub open spec fn sum_rx(s: Seq<RawInterface>) -> nat
    decreases s.len(),
{
    if s.len() == 0 {
        0
    } else {
        sum_rx(s.drop_last()) + s.last().rx_bytes as nat
    }
}

pub open spec fn sum_tx(s: Seq<RawInterface>) -> nat
    decreases s.len(),
{
    if s.len() == 0 {
        0
    } else {
        sum_tx(s.drop_last()) + s.last().tx_bytes as nat
    }
}

/// A total as carried in a `u64` (saturating).
pub open spec fn saturate(n: nat) -> u64 {
    if n > u64::MAX as nat {
        u64::MAX
    } else {
        n as u64
    }
}

/// The name given, or "Unknown" when the facet is unavailable.
pub open spec fn or_unknown(s: Option<String>) -> Seq<char> {
    match s {
        Some(x) => x@,
        None => "Unknown"@,
    }
}

fn unknown_default(s: Option<String>) -> (r: String)
    ensures
        r@ == or_unknown(s),
{
    match s {
        Some(x) => x,
        None => "Unknown".to_string(),
    }
}

fn saturating_sum(a: u64, b: u64) -> (r: u64)
    ensures
        r == saturate(a as nat + b as nat),
{
    if a as u128 + b as u128 > u64::MAX as u128 {
        u64::MAX
    } else {
        a + b
    }
}

/// The system-volume disks of a reading, described.
pub fn collect_disks(raw: &Vec<RawDisk>) -> (r: Vec<DiskMetrics>)
    ensures
        r@.len() == kept_disks(raw@).len(),
        forall|i: int| 0 <= i < r@.len() ==> disk_of(kept_disks(raw@)[i], #[trigger] r@[i]),
{
    let mut out: Vec<DiskMetrics> = Vec::new();
    let mut i: usize = 0;
    proof {
        assert(raw@.take(0) =~= Seq::<RawDisk>::empty());
    }
    while i < raw.len()
        invariant
            i <= raw@.len(),
            out@.len() == kept_disks(raw@.take(i as int)).len(),
            forall|t: int|
                0 <= t < out@.len() ==> disk_of(kept_disks(raw@.take(i as int))[t], #[trigger] out@[t]),
        decreases raw@.len() - i,
    {
        let d = &raw[i];
        proof {
            assert(raw@.take(i as int + 1).drop_last() =~= raw@.take(i as int));
            assert(raw@.take(i as int + 1).last() == *d);
        }
        if is_system_mount_point(d.mount_point.as_str()) {
            let used: u64 = if d.available <= d.total {
                d.total - d.available
            } else {
                0
            };
            let mut mounts: Vec<String> = Vec::new();
            mounts.push(d.mount_point.clone());
            out.push(
                DiskMetrics {
                    name: d.name.clone(),
                    model: None,
                    serial: None,
                    total: d.total,
                    disk_type: Some("SSD".to_string()),
                    mount_points: mounts,
                    usage_percent: usage_hundredths(used, d.total),
                    used,
                },
            );
        }
        i = i + 1;
    }
    proof {
        assert(raw@.take(raw@.len() as int) =~= raw@);
    }
    out
}

/// The physical interfaces of a reading, with their summed counters
/// (receive, transmit; saturating).
pub fn collect_interfaces(raw: &Vec<RawInterface>) -> (r: (Vec<NetworkInterface>, u64, u64))
    ensures
        r.0@.len() == kept_interfaces(raw@).len(),
        forall|i: int|
            0 <= i < r.0@.len() ==> interface_of(kept_interfaces(raw@)[i], #[trigger] r.0@[i]),
        r.1 == saturate(sum_rx(kept_interfaces(raw@))),
        r.2 == saturate(sum_tx(kept_interfaces(raw@))),
{
    let mut out: Vec<NetworkInterface> = Vec::new();
    let mut total_rx: u64 = 0;
    let mut total_tx: u64 = 0;
    let mut i: usize = 0;
    proof {
        assert(raw@.take(0) =~= Seq::<RawInterface>::empty());
    }
    while i < raw.len()
        invariant
            i <= raw@.len(),
            out@.len() == kept_interfaces(raw@.take(i as int)).len(),
            forall|t: int|
                0 <= t < out@.len() ==> interface_of(
                    kept_interfaces(raw@.take(i as int))[t],
                    #[trigger] out@[t],
                ),
            total_rx == saturate(sum_rx(kept_interfaces(raw@.take(i as int)))),
            total_tx == saturate(sum_tx(kept_interfaces(raw@.take(i as int)))),
        decreases raw@.len() - i,
    {
        let n = &raw[i];
        proof {
            assert(raw@.take(i as int + 1).drop_last() =~= raw@.take(i as int));
            assert(raw@.take(i as int + 1).last() == *n);
        }
        if is_physical_interface(n.name.as_str()) {
            proof {
                let k = kept_interfaces(raw@.take(i as int + 1));
                assert(k.drop_last() == kept_interfaces(raw@.take(i as int)));
                assert(k.last() == *n);
            }
            total_rx = saturating_sum(total_rx, n.rx_bytes);
            total_tx = saturating_sum(total_tx, n.tx_bytes);
            out.push(
                NetworkInterface {
                    name: n.name.clone(),
                    mac: None,
                    speed: None,
                    rx_bytes: n.rx_bytes,
                    tx_bytes: n.tx_bytes,
                    rx_packets: n.rx_packets,
                    tx_packets: n.tx_packets,
                },
            );
        }
        i = i + 1;
    }
    proof {
        assert(raw@.take(raw@.len() as int) =~= raw@);
    }
    (out, total_rx, total_tx)
}

/// Turns one read of a host's counters into a canonical snapshot. Missing
/// facets get the documented defaults ("Unknown", 0, empty); only system-volume
/// disks and physical interfaces are kept; throughput starts at zero (it is
/// derived later against the previous snapshot).
pub fn build_snapshot(r: HostReading) -> (s: SystemMetrics)
    ensures
        s.timestamp == r.timestamp,
        s.hostname@ == or_unknown(r.hostname),
        s.os.name@ == or_unknown(r.os_name),
        s.os.version@ == or_unknown(r.os_version),
        s.os.kernel@ == or_unknown(r.kernel_version),
        s.os.arch@ == r.arch@,
        s.cpu.brand@ == or_unknown(r.cpu_brand),
        s.cpu.cores == r.per_core@.len(),
        s.cpu.usage == spec_average(r.per_core@),
        s.cpu.frequency == (match r.cpu_frequency {
            Some(f) => f,
            None => 0u64,
        }),
        s.cpu.per_core@ == r.per_core@,
        s.memory.total == r.total_memory,
        s.memory.used == r.used_memory,
        s.memory.available == r.available_memory,
        s.memory.swap_total == r.total_swap,
        s.memory.swap_used == r.used_swap,
        s.memory.usage_percent == spec_usage(r.used_memory as nat, r.total_memory as nat),
        s.memory.modules@.len() == 0,
        s.disks@.len() == kept_disks(r.disks@).len(),
        forall|i: int| 0 <= i < s.disks@.len() ==> disk_of(kept_disks(r.disks@)[i], #[trigger] s.disks@[i]),
        s.network.interfaces@.len() == kept_interfaces(r.interfaces@).len(),
        forall|i: int|
            0 <= i < s.network.interfaces@.len() ==> interface_of(
                kept_interfaces(r.interfaces@)[i],
                #[trigger] s.network.interfaces@[i],
            ),
        s.network.total_rx == saturate(sum_rx(kept_interfaces(r.interfaces@))),
        s.network.total_tx == saturate(sum_tx(kept_interfaces(r.interfaces@))),
        s.network.rx_speed == 0,
        s.network.tx_speed == 0,
        s.uptime == r.uptime,
        s.load_average == r.load_average,
        s.ping is None,
        s.version is None,
        s.ip_addresses is None,
{
    let usage = average_usage(&r.per_core);
    let cores = r.per_core.len();
    let disks = collect_disks(&r.disks);
    let (interfaces, total_rx, total_tx) = collect_interfaces(&r.interfaces);
    let frequency = match r.cpu_frequency {
        Some(f) => f,
        None => 0,
    };
    let mem_usage = usage_hundredths(r.used_memory, r.total_memory);
    SystemMetrics {
        timestamp: r.timestamp,
        hostname: unknown_default(r.hostname),
        os: OsInfo {
            name: unknown_default(r.os_name),
            version: unknown_default(r.os_version),
            kernel: unknown_default(r.kernel_version),
            arch: r.arch,
        },
        cpu: CpuMetrics {
            brand: unknown_default(r.cpu_brand),
            cores,
            usage,
            frequency,
            per_core: r.per_core,
        },
        memory: MemoryMetrics {
            total: r.total_memory,
            used: r.used_memory,
            available: r.available_memory,
            swap_total: r.total_swap,
            swap_used: r.used_swap,
            usage_percent: mem_usage,
            modules: Vec::new(),
        },
        disks,
        network: NetworkMetrics { interfaces, total_rx, total_tx, rx_speed: 0, tx_speed: 0 },
        uptime: r.uptime,
        load_average: r.load_average,
        ping: None,
        version: None,
        ip_addresses: None,
    }
}

} // verus!
