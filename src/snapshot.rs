use vstd::prelude::*;

verus! {

/// Identity of the operating system a snapshot was taken on.
#[derive(Debug, Clone)]
pub struct OsInfo {
    pub name: String,
    pub version: String,
    pub kernel: String,
    pub arch: String,
}

/// Processor facet. `usage` and each `per_core` entry are in hundredths of a percent.
#[derive(Debug, Clone)]
pub struct CpuMetrics {
    pub brand: String,
    pub cores: usize,
    pub usage: u32,
    pub frequency: u64,
    pub per_core: Vec<u32>,
}

/// Memory facet; sizes in bytes, `usage_percent` in hundredths of a percent.
#[derive(Debug, Clone)]
pub struct MemoryMetrics {
    pub total: u64,
    pub used: u64,
    pub available: u64,
    pub swap_total: u64,
    pub swap_used: u64,
    pub usage_percent: u32,
    pub modules: Vec<MemoryModule>,
}

/// Optional detail about one installed memory module.
#[derive(Debug, Clone)]
pub struct MemoryModule {
    pub slot: Option<String>,
    pub size: u64,
    pub mem_type: Option<String>,
    pub speed: Option<u32>,
    pub manufacturer: Option<String>,
}

/// One disk; sizes in bytes, `usage_percent` in hundredths of a percent.
#[derive(Debug, Clone)]
pub struct DiskMetrics {
    pub name: String,
    pub model: Option<String>,
    pub serial: Option<String>,
    pub total: u64,
    pub disk_type: Option<String>,
    pub mount_points: Vec<String>,
    pub usage_percent: u32,
    pub used: u64,
}

/// Network facet: physical interfaces, their summed cumulative counters and
/// the derived throughput in bytes per second.
#[derive(Debug, Clone)]
pub struct NetworkMetrics {
    pub interfaces: Vec<NetworkInterface>,
    pub total_rx: u64,
    pub total_tx: u64,
    pub rx_speed: u64,
    pub tx_speed: u64,
}

/// Cumulative counters of one network interface.
#[derive(Debug, Clone)]
pub struct NetworkInterface {
    pub name: String,
    pub mac: Option<String>,
    pub speed: Option<u32>,
    pub rx_bytes: u64,
    pub tx_bytes: u64,
    pub rx_packets: u64,
    pub tx_packets: u64,
}

/// Load averages over 1, 5 and 15 minutes, in hundredths.
#[derive(Debug, Clone, Copy)]
pub struct LoadAverage {
    pub one: u64,
    pub five: u64,
    pub fifteen: u64,
}

/// Reachability block: the probe targets of a host.
#[derive(Debug, Clone)]
pub struct PingMetrics {
    pub targets: Vec<PingTarget>,
}

/// One probe target: latency in microseconds (absent when unanswered) and
/// packet loss in hundredths of a percent.
#[derive(Debug, Clone)]
pub struct PingTarget {
    pub name: String,
    pub host: String,
    pub latency_us: Option<u64>,
    pub packet_loss: u32,
    pub status: String,
}

/// One complete measurement of a host at one instant (`timestamp` in epoch
/// milliseconds, `uptime` in seconds).
#[derive(Debug, Clone)]
pub struct SystemMetrics {
    pub timestamp: i64,
    pub hostname: String,
    pub os: OsInfo,
    pub cpu: CpuMetrics,
    pub memory: MemoryMetrics,
    pub disks: Vec<DiskMetrics>,
    pub network: NetworkMetrics,
    pub uptime: u64,
    pub load_average: LoadAverage,
    pub ping: Option<PingMetrics>,
    pub version: Option<String>,
    pub ip_addresses: Option<Vec<String>>,
}

} // verus!
