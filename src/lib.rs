//! Telemetry pipeline core for a multi-host monitoring dashboard: canonical
//! host snapshots, counter-to-rate derivation, the compact projection sent to
//! dashboard observers, per-observer delta tracking and history bucketing.
//!
//! Percentages are carried as hundredths of a percent (`4240` is 42.40%),
//! byte counters and rates in bytes, timestamps as epoch integers.

mod snapshot;
mod compact;
mod rate;
mod tracker;
mod text;
mod collector;
mod history;
mod messages;
mod hosts;

pub use snapshot::{
    CpuMetrics, DiskMetrics, LoadAverage, MemoryMetrics, MemoryModule, NetworkInterface,
    NetworkMetrics, OsInfo, PingMetrics, PingTarget, SystemMetrics,
};
pub use compact::{
    lemma_compact_idempotent, lemma_diff_exact, lemma_round_idempotent, pct_byte,
    round_half_even, round_percent, spec_compact, spec_diff, CompactMetrics,
};
pub use rate::{
    apply_rates, counter_delta, lemma_rate_never_negative, spec_rate, spec_throughput,
    spec_with_rates, throughput,
};
pub use tracker::{
    compact_of_host, connect_observer, distinct_ids, full_baseline, host_compact, host_quiet,
    host_update, lemma_baseline_frame, lemma_connect_then_tick_silent, lemma_full_baseline_lookup,
    lemma_quiet_tick, lookup, spec_host_update, tick_baseline, tick_updates, update_view,
    updates_view, Baseline, CompactServerUpdate, DashboardMessage, DeltaMessage, LastSentState,
    ServerMetricsUpdate, UpdateView,
};
pub use text::{chars_of, eq_chars, has_prefix, starts_with_chars};
pub use collector::{
    average_usage, build_snapshot, collect_disks, collect_interfaces, disk_of, interface_of,
    is_physical_interface, is_physical_name, is_physical_name_chars, is_system_mount,
    is_system_mount_point, kept_disks, kept_interfaces, lower_of, or_unknown, saturate,
    spec_average, spec_usage, sum_rx, sum_tx, sum_u32, usage_hundredths, HostReading, RawDisk,
    RawInterface,
};
pub use history::{
    add_ping_sample, add_ping_samples, default_range, digits_value, first_named, history_point,
    is_digit, parse_range, ping_history_view, ping_point_view, ping_series_view, points_between,
    points_in_range, range_seconds, record_ping, record_snapshot_ping, series_index,
    spec_history_point, unit_seconds, HistoryPoint, HistoryQuery, HistoryResponse,
    PingHistoryPoint, PingHistoryTarget, PingPointView, PingSeriesView,
};
pub use messages::{
    AddServerRequest, AgentCommand, AgentMessage, AgentMetricsData, AgentRegisterRequest,
    AgentRegisterResponse, ChangePasswordRequest, Claims, InstallCommand, LoginRequest,
    LoginResponse, UpdateAgentRequest, UpdateAgentResponse, UpdateServerRequest,
};
pub use hosts::{with_snapshot, HostTable};
