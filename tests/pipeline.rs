use server_monitor::{
    apply_rates, average_usage, build_snapshot, connect_observer, default_range, history_point,
    is_physical_interface, is_system_mount_point, parse_range, points_in_range, round_percent,
    record_snapshot_ping, throughput, usage_hundredths, CompactMetrics, CpuMetrics, DiskMetrics, HistoryPoint,
    HostReading, HostTable, LastSentState, LoadAverage, MemoryMetrics, NetworkMetrics, OsInfo,
    PingHistoryTarget, PingMetrics, PingTarget, RawDisk, RawInterface, ServerMetricsUpdate, SystemMetrics,
};

fn snapshot(ts: i64, cpu: u32, mem: u32, disks: &[u32], rx: u64, tx: u64, uptime: u64) -> SystemMetrics {
    SystemMetrics {
        timestamp: ts,
        hostname: "host".to_string(),
        os: OsInfo {
            name: "Linux".to_string(),
            version: "1".to_string(),
            kernel: "6".to_string(),
            arch: "x86_64".to_string(),
        },
        cpu: CpuMetrics { brand: "cpu".to_string(), cores: 1, usage: cpu, frequency: 0, per_core: vec![cpu] },
        memory: MemoryMetrics {
            total: 100,
            used: 50,
            available: 50,
            swap_total: 0,
            swap_used: 0,
            usage_percent: mem,
            modules: Vec::new(),
        },
        disks: disks
            .iter()
            .map(|d| DiskMetrics {
                name: "sda".to_string(),
                model: None,
                serial: None,
                total: 100,
                disk_type: None,
                mount_points: vec!["/".to_string()],
                usage_percent: *d,
                used: 0,
            })
            .collect(),
        network: NetworkMetrics { interfaces: Vec::new(), total_rx: rx, total_tx: tx, rx_speed: 0, tx_speed: 0 },
        uptime,
        load_average: LoadAverage { one: 0, five: 0, fifteen: 0 },
        ping: None,
        version: None,
        ip_addresses: None,
    }
}

fn host(id: &str, online: bool, metrics: Option<SystemMetrics>) -> ServerMetricsUpdate {
    ServerMetricsUpdate {
        server_id: id.to_string(),
        server_name: id.to_string(),
        location: String::new(),
        provider: String::new(),
        tag: String::new(),
        version: String::new(),
        ip: String::new(),
        online,
        metrics,
    }
}

fn compact(c: Option<u8>, m: Option<u8>, d: Option<u8>, rx: Option<u64>, tx: Option<u64>, up: Option<u64>) -> CompactMetrics {
    CompactMetrics { c, m, d, rx, tx, up }
}

#[test]
fn rounding_ties_to_even() {
    assert_eq!(round_percent(4240), 42);
    assert_eq!(round_percent(4260), 43);
    assert_eq!(round_percent(4250), 42);
    assert_eq!(round_percent(4350), 44);
    assert_eq!(round_percent(4251), 43);
    assert_eq!(round_percent(0), 0);
    assert_eq!(round_percent(10000), 100);
    assert_eq!(round_percent(30000), 255);
}

#[test]
fn compact_projection_fields() {
    let mut s = snapshot(0, 4240, 5060, &[7749, 1000], 0, 0, 99);
    s.network.rx_speed = 10;
    s.network.tx_speed = 20;
    let c = CompactMetrics::from_system_metrics(&s);
    assert_eq!(c, compact(Some(42), Some(51), Some(77), Some(10), Some(20), Some(99)));
}

#[test]
fn compact_without_disks_has_no_disk_field() {
    let s = snapshot(0, 0, 0, &[], 0, 0, 0);
    let c = CompactMetrics::from_system_metrics(&s);
    assert_eq!(c.d, None);
    assert_eq!(c.c, Some(0));
}

#[test]
fn compacting_twice_is_compacting_once() {
    let s = snapshot(0, 4250, 9951, &[3349], 5, 6, 7);
    let c = CompactMetrics::from_system_metrics(&s);
    let t = snapshot(
        0,
        c.c.unwrap() as u32 * 100,
        c.m.unwrap() as u32 * 100,
        &[c.d.unwrap() as u32 * 100],
        5,
        6,
        7,
    );
    assert_eq!(CompactMetrics::from_system_metrics(&t), c);
}

#[test]
fn diff_keeps_only_changed_fields_and_never_uptime() {
    let prev = compact(Some(42), Some(50), Some(70), Some(100), Some(200), Some(10));
    let cur = compact(Some(43), Some(50), Some(71), Some(100), Some(300), Some(11));
    let d = cur.diff(&prev);
    assert_eq!(d, compact(Some(43), None, Some(71), None, Some(300), None));
    assert!(cur.has_changed(&prev));
    assert!(!d.is_empty());
}

#[test]
fn uptime_alone_is_no_change() {
    let prev = compact(Some(1), Some(2), None, Some(3), Some(4), Some(10));
    let cur = compact(Some(1), Some(2), None, Some(3), Some(4), Some(500));
    assert!(!cur.has_changed(&prev));
    assert!(cur.diff(&prev).is_empty());
    assert!(CompactMetrics::default().is_empty());
}

#[test]
fn delta_carries_rounded_change_and_omits_unchanged_host() {
    let before = vec![
        host("a", true, Some(snapshot(0, 4240, 1000, &[500], 0, 0, 1))),
        host("b", true, Some(snapshot(0, 1010, 1000, &[500], 0, 0, 1))),
    ];
    let (_msg, mut state) = connect_observer(before);
    let after = vec![
        host("a", true, Some(snapshot(1000, 4260, 1000, &[500], 0, 0, 2))),
        host("b", true, Some(snapshot(1000, 1040, 1000, &[500], 0, 0, 2))),
    ];
    let msg = state.tick(77, &after).expect("host a changed");
    assert_eq!(msg.msg_type, "delta");
    assert_eq!(msg.ts, 77);
    assert_eq!(msg.d.len(), 1);
    assert_eq!(msg.d[0].id, "a");
    assert_eq!(msg.d[0].on, None);
    assert_eq!(msg.d[0].m, Some(compact(Some(43), None, None, None, None, None)));
}

#[test]
fn reset_counter_rate_uses_current_value() {
    assert_eq!(throughput(1_000_000, 500_000, 30_000), 500_000 / 30);
    let prev = snapshot(0, 0, 0, &[], 1_000_000, 0, 0);
    let mut cur = snapshot(30_000, 0, 0, &[], 500_000, 0, 0);
    apply_rates(Some(&prev), &mut cur);
    assert_eq!(cur.network.rx_speed, 16_666);
    assert_eq!(cur.network.tx_speed, 0);
}

#[test]
fn rate_of_growing_counter() {
    assert_eq!(throughput(1_000, 4_000, 2_000), 1_500);
    assert_eq!(throughput(5, 5, 1_000), 0);
}

#[test]
fn rate_is_zero_without_elapsed_time() {
    assert_eq!(throughput(0, 1_000, 0), 0);
    let prev = snapshot(5_000, 0, 0, &[], 0, 0, 0);
    let mut cur = snapshot(4_000, 0, 0, &[], 1_000, 1_000, 0);
    apply_rates(Some(&prev), &mut cur);
    assert_eq!(cur.network.rx_speed, 0);
    assert_eq!(cur.network.tx_speed, 0);
}

#[test]
fn first_observation_has_zero_rate() {
    let mut cur = snapshot(4_000, 0, 0, &[], 1_000, 1_000, 0);
    cur.network.rx_speed = 9;
    apply_rates(None, &mut cur);
    assert_eq!(cur.network.rx_speed, 0);
    assert_eq!(cur.network.tx_speed, 0);
}

#[test]
fn rate_saturates_at_u64_max() {
    assert_eq!(throughput(0, u64::MAX, 1), u64::MAX);
}

#[test]
fn connecting_observer_gets_full_state_then_no_delta() {
    let mut table = HostTable::new();
    table.register(host("a", false, None));
    table.register(host("b", false, None));
    for t in 0..5i64 {
        table.receive_snapshot(&"a".to_string(), snapshot(t * 1000, 1000 + t as u32 * 100, 0, &[], 0, 0, 0));
    }
    let (msg, mut state) = connect_observer(table.hosts().clone());
    assert_eq!(msg.msg_type, "full");
    assert_eq!(msg.servers.len(), 2);
    assert_eq!(msg.servers[0].metrics.as_ref().unwrap().cpu.usage, 1400);
    assert!(msg.servers[0].online);
    assert!(!msg.servers[1].online);
    assert_eq!(state.len(), 2);
    assert!(state.tick(1, table.hosts()).is_none());
}

#[test]
fn quiet_tick_sends_nothing() {
    let hosts = vec![host("a", true, Some(snapshot(0, 500, 500, &[500], 1, 1, 1)))];
    let mut state = LastSentState::from_servers(&hosts);
    let same = vec![host("a", true, Some(snapshot(9, 510, 490, &[520], 1, 1, 50)))];
    assert!(state.tick(2, &same).is_none());
}

#[test]
fn online_flip_is_forced_change() {
    let mut table = HostTable::new();
    table.register(host("a", true, Some(snapshot(0, 500, 500, &[], 1, 1, 1))));
    let (_m, mut state) = connect_observer(table.hosts().clone());
    assert!(table.mark_offline(&"a".to_string()));
    assert!(!table.mark_offline(&"zz".to_string()));
    let msg = state.tick(3, table.hosts()).expect("flag flipped");
    assert_eq!(msg.d.len(), 1);
    assert_eq!(msg.d[0].on, Some(false));
    assert_eq!(msg.d[0].m, None);
    assert!(state.tick(4, table.hosts()).is_none());
}

#[test]
fn new_host_after_connect_is_sent_with_its_fields() {
    let (_m, mut state) = connect_observer(Vec::new());
    let hosts = vec![host("n", true, Some(snapshot(0, 1000, 2000, &[], 3, 4, 5)))];
    let msg = state.tick(1, &hosts).unwrap();
    assert_eq!(msg.d[0].on, Some(true));
    assert_eq!(msg.d[0].m, Some(compact(Some(10), Some(20), None, Some(0), Some(0), None)));
    assert_eq!(state.get(&"n".to_string()).map(|p| p.0), Some(true));
}

#[test]
fn receive_snapshot_derives_rates_against_previous() {
    let mut table = HostTable::new();
    table.register(host("a", false, None));
    assert!(table.receive_snapshot(&"a".to_string(), snapshot(0, 0, 0, &[], 1_000, 0, 0)));
    assert!(table.receive_snapshot(&"a".to_string(), snapshot(10_000, 0, 0, &[], 11_000, 500, 0)));
    assert!(!table.receive_snapshot(&"b".to_string(), snapshot(0, 0, 0, &[], 0, 0, 0)));
    let h = &table.hosts()[0];
    assert!(h.online);
    assert_eq!(h.metrics.as_ref().unwrap().network.rx_speed, 1_000);
    assert_eq!(h.metrics.as_ref().unwrap().network.tx_speed, 50);
    assert_eq!(table.position(&"a".to_string()), Some(0));
}

#[test]
fn interface_filter_is_case_insensitive() {
    assert!(is_physical_interface("eth0"));
    assert!(is_physical_interface("en0"));
    assert!(is_physical_interface("lo1"));
    assert!(!is_physical_interface("lo"));
    assert!(!is_physical_interface("LO0"));
    assert!(!is_physical_interface("Docker0"));
    assert!(!is_physical_interface("VETH12ab"));
    assert!(!is_physical_interface("br-1234"));
    assert!(!is_physical_interface("virbr0"));
    assert!(!is_physical_interface("utun3"));
    assert!(!is_physical_interface("awdl0"));
    assert!(!is_physical_interface("llw0"));
}

#[test]
fn system_mount_points() {
    assert!(is_system_mount_point("/"));
    assert!(is_system_mount_point("C:\\"));
    assert!(!is_system_mount_point("/home"));
    assert!(!is_system_mount_point("D:\\"));
    assert!(!is_system_mount_point(""));
}

#[test]
fn usage_and_average() {
    assert_eq!(usage_hundredths(50, 200), 2500);
    assert_eq!(usage_hundredths(1, 3), 3333);
    assert_eq!(usage_hundredths(5, 0), 0);
    assert_eq!(usage_hundredths(300, 200), 10000);
    assert_eq!(average_usage(&vec![1000, 3000, 2001]), 2000);
    assert_eq!(average_usage(&Vec::new()), 0);
}

#[test]
fn snapshot_from_reading_applies_defaults_and_filters() {
    let r = HostReading {
        timestamp: 1234,
        hostname: None,
        os_name: Some("Linux".to_string()),
        os_version: None,
        kernel_version: None,
        arch: "aarch64".to_string(),
        cpu_brand: None,
        cpu_frequency: None,
        per_core: vec![1000, 2000],
        total_memory: 1000,
        used_memory: 250,
        available_memory: 750,
        total_swap: 0,
        used_swap: 0,
        disks: vec![
            RawDisk { name: "sdb".to_string(), mount_point: "/data".to_string(), total: 10, available: 5 },
            RawDisk { name: "sda".to_string(), mount_point: "/".to_string(), total: 200, available: 150 },
        ],
        interfaces: vec![
            RawInterface { name: "lo".to_string(), rx_bytes: 99, tx_bytes: 99, rx_packets: 1, tx_packets: 1 },
            RawInterface { name: "eth0".to_string(), rx_bytes: 10, tx_bytes: 20, rx_packets: 1, tx_packets: 2 },
            RawInterface { name: "wlan0".to_string(), rx_bytes: 5, tx_bytes: 6, rx_packets: 3, tx_packets: 4 },
        ],
        uptime: 77,
        load_average: LoadAverage { one: 10, five: 20, fifteen: 30 },
    };
    let s = build_snapshot(r);
    assert_eq!(s.hostname, "Unknown");
    assert_eq!(s.os.name, "Linux");
    assert_eq!(s.os.version, "Unknown");
    assert_eq!(s.cpu.brand, "Unknown");
    assert_eq!(s.cpu.frequency, 0);
    assert_eq!(s.cpu.cores, 2);
    assert_eq!(s.cpu.usage, 1500);
    assert_eq!(s.memory.usage_percent, 2500);
    assert_eq!(s.disks.len(), 1);
    assert_eq!(s.disks[0].name, "sda");
    assert_eq!(s.disks[0].used, 50);
    assert_eq!(s.disks[0].usage_percent, 2500);
    assert_eq!(s.disks[0].mount_points, vec!["/".to_string()]);
    assert_eq!(s.network.interfaces.len(), 2);
    assert_eq!(s.network.total_rx, 15);
    assert_eq!(s.network.total_tx, 26);
    assert_eq!(s.network.rx_speed, 0);
    assert_eq!(s.uptime, 77);
}

#[test]
fn ranges_parse_to_seconds() {
    assert_eq!(default_range(), "24h");
    assert_eq!(parse_range(&default_range()), Some(86_400));
    assert_eq!(parse_range("7d"), Some(604_800));
    assert_eq!(parse_range("1h"), Some(3_600));
    assert_eq!(parse_range("h"), None);
    assert_eq!(parse_range("24"), None);
    assert_eq!(parse_range("2x4h"), None);
    assert_eq!(parse_range("99999999999999999999h"), None);
    assert_eq!(parse_range("6000000000000000h"), None);
}

#[test]
fn history_point_of_snapshot() {
    let mut s = snapshot(1_700_000_123_456, 1234, 5678, &[4321, 1], 10, 20, 0);
    s.ping = Some(PingMetrics {
        targets: vec![PingTarget {
            name: "dns".to_string(),
            host: "1.1.1.1".to_string(),
            latency_us: Some(8_500),
            packet_loss: 0,
            status: "ok".to_string(),
        }],
    });
    let p = history_point(&s);
    assert_eq!(p.timestamp, 1_700_000_123);
    assert_eq!((p.cpu, p.memory, p.disk), (1234, 5678, 4321));
    assert_eq!((p.net_rx, p.net_tx), (10, 20));
    assert_eq!(p.ping_us, Some(8_500));
    let q = history_point(&snapshot(-1, 0, 0, &[], 0, 0, 0));
    assert_eq!(q.timestamp, -1);
    assert_eq!(q.disk, 0);
    assert_eq!(q.ping_us, None);
}

#[test]
fn range_query_keeps_order_and_gaps() {
    let pt = |t: i64| HistoryPoint { timestamp: t, cpu: 0, memory: 0, disk: 0, net_rx: 0, net_tx: 0, ping_us: None };
    let points = vec![pt(10), pt(100), pt(150), pt(400), pt(500), pt(900)];
    let r = points_in_range(&points, 500, 400);
    let ts: Vec<i64> = r.iter().map(|p| p.timestamp).collect();
    assert_eq!(ts, vec![100, 150, 400, 500]);
    assert!(points_in_range(&Vec::new(), 0, 10).is_empty());
}

fn target(name: &str, latency: Option<u64>, status: &str) -> PingTarget {
    PingTarget {
        name: name.to_string(),
        host: format!("{}.example", name),
        latency_us: latency,
        packet_loss: 0,
        status: status.to_string(),
    }
}

#[test]
fn reachability_series_per_target() {
    let mut series: Vec<PingHistoryTarget> = Vec::new();
    let mut s = snapshot(5_000, 0, 0, &[], 0, 0, 0);
    s.ping = Some(PingMetrics { targets: vec![target("a", Some(100), "ok"), target("b", None, "unreachable")] });
    record_snapshot_ping(&mut series, &s);
    let mut s2 = snapshot(65_000, 0, 0, &[], 0, 0, 0);
    s2.ping = Some(PingMetrics { targets: vec![target("b", Some(300), "ok"), target("c", Some(7), "ok")] });
    record_snapshot_ping(&mut series, &s2);
    record_snapshot_ping(&mut series, &snapshot(99_000, 0, 0, &[], 0, 0, 0));
    let names: Vec<&str> = series.iter().map(|t| t.name.as_str()).collect();
    assert_eq!(names, vec!["a", "b", "c"]);
    assert_eq!(series[0].data.len(), 1);
    assert_eq!(series[1].data.len(), 2);
    assert_eq!(series[1].host, "b.example");
    assert_eq!(series[1].data[0].timestamp, 5);
    assert_eq!(series[1].data[0].latency_us, None);
    assert_eq!(series[1].data[0].status, "unreachable");
    assert_eq!(series[1].data[1].timestamp, 65);
    assert_eq!(series[1].data[1].latency_us, Some(300));
    assert_eq!(series[2].data[0].latency_us, Some(7));
}

#[test]
fn fresh_observer_state_is_empty() {
    let st = LastSentState::default();
    assert_eq!(st.len(), 0);
    assert_eq!(st.get(&"a".to_string()), None);
}
