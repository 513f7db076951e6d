//! The telemetry aggregator: all rolling state, mutated through
//! `ingest` alone and read through `snapshot`. A ghost model and a pure
//! transition function pin down exactly what one ingested record does.

use vstd::prelude::*;
use vstd::map::*;
use crate::record::{PacketRecord, ThreatLevel, level_rank, spec_max_level, spec_preferred_port};
use crate::ring::{Ring, suffix_within};
use crate::countmap::{StrCountMap, PortCountMap, FlowMap, bumped, port_bumped};
use crate::strutil::{spec_decimal, spec_lex_le, u64_string};

verus! {

/// One rolling bandwidth sample, computed from the cumulative totals.
#[derive(Clone, Copy, Debug, PartialEq, Eq, Structural)]
pub struct BandwidthPoint {
    pub timestamp_millis: u64,
    pub bytes_per_sec: u64,
    pub packets_per_sec: u64,
}

/// One recorded alert: when, a human-readable message, and the level.
#[derive(Debug)]
pub struct ThreatAlert {
    pub timestamp_millis: u64,
    pub message: String,
    pub level: ThreatLevel,
}

impl ThreatAlert {
    /// A field-for-field copy.
    pub fn clone_alert(&self) -> (r: ThreatAlert)
        ensures
            r == *self,
    {
        ThreatAlert {
            timestamp_millis: self.timestamp_millis,
            message: self.message.clone(),
            level: self.level,
        }
    }
}

/// Aggregated view of all records sharing one flow key. Counts only
/// increase, `last_seen` follows the latest record, and the threat
/// level only escalates.
#[derive(Debug)]
pub struct ConnectionFlow {
    pub src_ip: String,
    pub dst_ip: String,
    pub src_port: Option<u16>,
    pub dst_port: Option<u16>,
    pub protocol: String,
    pub packet_count: u64,
    pub total_bytes: u64,
    pub first_seen: u64,
    pub last_seen: u64,
    pub threat_level: ThreatLevel,
}

impl ConnectionFlow {
    /// A field-for-field copy.
    pub fn clone_flow(&self) -> (r: ConnectionFlow)
        ensures
            r == *self,
    {
        ConnectionFlow {
            src_ip: self.src_ip.clone(),
            dst_ip: self.dst_ip.clone(),
            src_port: self.src_port,
            dst_port: self.dst_port,
            protocol: self.protocol.clone(),
            packet_count: self.packet_count,
            total_bytes: self.total_bytes,
            first_seen: self.first_seen,
            last_seen: self.last_seen,
            threat_level: self.threat_level,
        }
    }
}

/// The mathematical value of one flow.
#[verifier::ext_equal]
pub ghost struct FlowModel {
    pub src_ip: Seq<char>,
    pub dst_ip: Seq<char>,
    pub src_port: Option<u16>,
    pub dst_port: Option<u16>,
    pub protocol: Seq<char>,
    pub packet_count: int,
    pub total_bytes: int,
    pub first_seen: int,
    pub last_seen: int,
    pub threat_level: ThreatLevel,
}

/// The mathematical value of one alert.
#[verifier::ext_equal]
pub ghost struct AlertModel {
    pub timestamp_millis: int,
    pub message: Seq<char>,
    pub level: ThreatLevel,
}

/// The mathematical value of one bandwidth sample.
#[verifier::ext_equal]
pub ghost struct BwModel {
    pub timestamp_millis: int,
    pub bytes_per_sec: int,
    pub packets_per_sec: int,
}

/// The mathematical value of the whole aggregate.
#[verifier::ext_equal]
pub ghost struct StatsModel {
    pub total_packets: int,
    pub total_bytes: int,
    pub start_millis: int,
    pub protocol_counts: Map<Seq<char>, int>,
    pub top_talkers: Map<Seq<char>, int>,
    pub port_activity: Map<u16, int>,
    pub packet_sizes: Seq<int>,
    pub bandwidth_history: Seq<BwModel>,
    pub threat_alerts: Seq<AlertModel>,
    pub connections: Map<Seq<char>, FlowModel>,
    pub current_connections: int,
    pub peak_bandwidth: int,
    pub peak_packets_per_sec: int,
}

/// The value of a flow as the model sees it.
pub open spec fn flow_model(f: ConnectionFlow) -> FlowModel {
    FlowModel {
        src_ip: f.src_ip@,
        dst_ip: f.dst_ip@,
        src_port: f.src_port,
        dst_port: f.dst_port,
        protocol: f.protocol@,
        packet_count: f.packet_count as int,
        total_bytes: f.total_bytes as int,
        first_seen: f.first_seen as int,
        last_seen: f.last_seen as int,
        threat_level: f.threat_level,
    }
}

/// The value of an alert as the model sees it.
pub open spec fn alert_model(a: ThreatAlert) -> AlertModel {
    AlertModel { timestamp_millis: a.timestamp_millis as int, message: a.message@, level: a.level }
}

/// The value of a bandwidth sample as the model sees it.
pub open spec fn bw_model(p: BandwidthPoint) -> BwModel {
    BwModel {
        timestamp_millis: p.timestamp_millis as int,
        bytes_per_sec: p.bytes_per_sec as int,
        packets_per_sec: p.packets_per_sec as int,
    }
}

/// A flow table as the model sees it.
pub open spec fn flows_model(v: Map<Seq<char>, ConnectionFlow>) -> Map<Seq<char>, FlowModel> {
    Map::new(|k: Seq<char>| v.contains_key(k), |k: Seq<char>| flow_model(v[k]))
}

/// Whether a record carries both addresses and so belongs to a flow.
pub open spec fn spec_has_flow(r: PacketRecord) -> bool {
    r.src_ip is Some && r.dst_ip is Some
}

/// A port, with zero standing in for an absent one, as the flow key
/// renders it.
pub open spec fn spec_port_or_zero(p: Option<u16>) -> int {
    match p {
        Some(x) => x as int,
        None => 0,
    }
}

/// Whether the source endpoint comes first in the flow key's canonical
/// order: endpoints are ordered by address text, ties by port, so that
/// both directions of a conversation share one key.
pub open spec fn spec_src_first(r: PacketRecord) -> bool
    recommends
        spec_has_flow(r),
{
    if r.src_ip->Some_0@ == r.dst_ip->Some_0@ {
        spec_port_or_zero(r.src_port) <= spec_port_or_zero(r.dst_port)
    } else {
        spec_lex_le(r.src_ip->Some_0@, r.dst_ip->Some_0@)
    }
}

/// The flow key text: the unordered endpoint pair and the protocol,
/// written `ip:port-ip:port/protocol` with the endpoints in canonical
/// order.
pub open spec fn spec_flow_key(r: PacketRecord) -> Seq<char>
    recommends
        spec_has_flow(r),
{
    (if spec_src_first(r) {
        r.src_ip->Some_0@ + ":"@ + spec_decimal(spec_port_or_zero(r.src_port)) + "-"@
            + r.dst_ip->Some_0@ + ":"@ + spec_decimal(spec_port_or_zero(r.dst_port))
    } else {
        r.dst_ip->Some_0@ + ":"@ + spec_decimal(spec_port_or_zero(r.dst_port)) + "-"@
            + r.src_ip->Some_0@ + ":"@ + spec_decimal(spec_port_or_zero(r.src_port))
    }) + "/"@ + r.protocol@
}

/// The alert message text for one suspicious record.
pub open spec fn spec_alert_message(r: PacketRecord) -> Seq<char> {
    "Suspicious "@ + r.protocol@ + " traffic from "@ + (match r.src_ip {
        Some(ip) => ip@,
        None => "unknown"@,
    }) + " to "@ + (match r.dst_ip {
        Some(ip) => ip@,
        None => "unknown"@,
    })
}

/// A sequence pushed into a bounded FIFO of capacity `cap`.
pub open spec fn bounded_push<T>(s: Seq<T>, x: T, cap: int) -> Seq<T> {
    suffix_within(s.push(x), cap)
}

/// Elapsed whole seconds between the aggregate's start and a record's
/// timestamp; zero when the record predates the start.
pub open spec fn spec_elapsed(m: StatsModel, r: PacketRecord) -> int {
    if r.timestamp_millis as int >= m.start_millis {
        (r.timestamp_millis as int - m.start_millis) / 1000
    } else {
        0
    }
}

/// The flow created by the first record of a key.
pub open spec fn spec_new_flow(r: PacketRecord) -> FlowModel {
    FlowModel {
        src_ip: r.src_ip->Some_0@,
        dst_ip: r.dst_ip->Some_0@,
        src_port: r.src_port,
        dst_port: r.dst_port,
        protocol: r.protocol@,
        packet_count: 1,
        total_bytes: r.packet_size as int,
        first_seen: r.timestamp_millis as int,
        last_seen: r.timestamp_millis as int,
        threat_level: r.threat_level,
    }
}

/// A flow after one more record: counts rise, `last_seen` follows, and
/// the threat level is the maximum of the old level and the record's.
pub open spec fn spec_updated_flow(f: FlowModel, r: PacketRecord) -> FlowModel {
    FlowModel {
        src_ip: f.src_ip,
        dst_ip: f.dst_ip,
        src_port: f.src_port,
        dst_port: f.dst_port,
        protocol: f.protocol,
        packet_count: f.packet_count + 1,
        total_bytes: f.total_bytes + r.packet_size as int,
        first_seen: f.first_seen,
        last_seen: r.timestamp_millis as int,
        threat_level: spec_max_level(r.threat_level, f.threat_level),
    }
}

/// The connection table after one record.
pub open spec fn spec_connections_after(
    m: StatsModel,
    r: PacketRecord,
) -> Map<Seq<char>, FlowModel> {
    if spec_has_flow(r) {
        let k = spec_flow_key(r);
        if m.connections.contains_key(k) {
            m.connections.insert(k, spec_updated_flow(m.connections[k], r))
        } else {
            m.connections.insert(k, spec_new_flow(r))
        }
    } else {
        m.connections
    }
}

/// The connection count after one record.
pub open spec fn spec_current_connections_after(m: StatsModel, r: PacketRecord) -> int {
    if spec_has_flow(r) && !m.connections.contains_key(spec_flow_key(r)) {
        m.current_connections + 1
    } else {
        m.current_connections
    }
}

/// Whether ingesting `r` into `m` takes a bandwidth sample: only after
/// the first elapsed second, and only when the new packet total is a
/// multiple of one hundred.
pub open spec fn spec_samples(m: StatsModel, r: PacketRecord) -> bool {
    spec_elapsed(m, r) > 0 && (m.total_packets + 1) % 100 == 0
}

/// The bandwidth sample ingesting `r` into `m` would take.
pub open spec fn spec_sample_point(m: StatsModel, r: PacketRecord) -> BwModel {
    BwModel {
        timestamp_millis: r.timestamp_millis as int,
        bytes_per_sec: (m.total_bytes + r.packet_size as int) / spec_elapsed(m, r),
        packets_per_sec: (m.total_packets + 1) / spec_elapsed(m, r),
    }
}

/// What one call of `ingest` does: the whole logical update for one
/// record, applied to the model.
pub open spec fn spec_ingest(m: StatsModel, r: PacketRecord) -> StatsModel {
    let sampled = spec_samples(m, r);
    let point = spec_sample_point(m, r);
    StatsModel {
        total_packets: m.total_packets + 1,
        total_bytes: m.total_bytes + r.packet_size as int,
        start_millis: m.start_millis,
        protocol_counts: bumped(m.protocol_counts, r.protocol@),
        top_talkers: match r.src_ip {
            Some(ip) => bumped(m.top_talkers, ip@),
            None => m.top_talkers,
        },
        port_activity: match spec_preferred_port(r) {
            Some(p) => port_bumped(m.port_activity, p),
            None => m.port_activity,
        },
        packet_sizes: bounded_push(m.packet_sizes, r.packet_size as int, 1000),
        bandwidth_history: if sampled {
            bounded_push(m.bandwidth_history, point, 100)
        } else {
            m.bandwidth_history
        },
        threat_alerts: if level_rank(r.threat_level) > 0 {
            bounded_push(
                m.threat_alerts,
                AlertModel {
                    timestamp_millis: r.timestamp_millis as int,
                    message: spec_alert_message(r),
                    level: r.threat_level,
                },
                100,
            )
        } else {
            m.threat_alerts
        },
        connections: spec_connections_after(m, r),
        current_connections: spec_current_connections_after(m, r),
        peak_bandwidth: if sampled && point.bytes_per_sec > m.peak_bandwidth {
            point.bytes_per_sec
        } else {
            m.peak_bandwidth
        },
        peak_packets_per_sec: if sampled && point.packets_per_sec > m.peak_packets_per_sec {
            point.packets_per_sec
        } else {
            m.peak_packets_per_sec
        },
    }
}

/// The bounds a reachable model obeys: every per-key count stays within
/// the totals, and the bounded histories stay within their capacities
/// (1000 sizes, 100 bandwidth samples, 100 alerts).
pub open spec fn model_wf(m: StatsModel) -> bool {
    &&& m.total_packets >= 0
    &&& m.total_bytes >= 0
    &&& m.start_millis >= 0
    &&& m.current_connections >= 0
    &&& forall|k: Seq<char>|
        m.protocol_counts.contains_key(k) ==> 1 <= #[trigger] m.protocol_counts[k]
            <= m.total_packets
    &&& forall|k: Seq<char>|
        m.top_talkers.contains_key(k) ==> 1 <= #[trigger] m.top_talkers[k] <= m.total_packets
    &&& forall|k: u16|
        m.port_activity.contains_key(k) ==> 1 <= #[trigger] m.port_activity[k] <= m.total_packets
    &&& forall|k: Seq<char>|
        m.connections.contains_key(k) ==> 1 <= (#[trigger] m.connections[k]).packet_count
            <= m.total_packets && 0 <= m.connections[k].total_bytes <= m.total_bytes
    &&& m.packet_sizes.len() <= 1000
    &&& m.bandwidth_history.len() <= 100
    &&& m.threat_alerts.len() <= 100
}

/// One ingested record keeps the model within its bounds.
pub proof fn lemma_ingest_preserves_wf(m: StatsModel, r: PacketRecord)
    requires
        model_wf(m),
    ensures
        model_wf(spec_ingest(m, r)),
{
    let m2 = spec_ingest(m, r);
    assert(m2.packet_sizes.len() <= 1000);
    assert(m2.bandwidth_history.len() <= 100);
    assert(m2.threat_alerts.len() <= 100);
}

/// The aggregator's rolling state. Created empty at capture start;
/// mutated exclusively through `ingest`; read through `snapshot` or the
/// borrowing accessors.
pub struct NetworkStats {
    total_packets: u64,
    total_bytes: u64,
    start_millis: u64,
    protocol_counts: StrCountMap,
    top_talkers: StrCountMap,
    port_activity: PortCountMap,
    packet_sizes: Ring<usize>,
    bandwidth_history: Ring<BandwidthPoint>,
    threat_alerts: Ring<ThreatAlert>,
    connections: FlowMap,
    current_connections: usize,
    peak_bandwidth: u64,
    peak_packets_per_sec: u64,
}

impl NetworkStats {
    /// The mathematical value of the aggregate.
    pub closed spec fn model(&self) -> StatsModel {
        StatsModel {
            total_packets: self.total_packets as int,
            total_bytes: self.total_bytes as int,
            start_millis: self.start_millis as int,
            protocol_counts: self.protocol_counts@,
            top_talkers: self.top_talkers@,
            port_activity: self.port_activity@,
            packet_sizes: self.packet_sizes@.map_values(|s: usize| s as int),
            bandwidth_history: self.bandwidth_history@.map_values(|p: BandwidthPoint| bw_model(p)),
            threat_alerts: self.threat_alerts@.map_values(|a: ThreatAlert| alert_model(a)),
            connections: flows_model(self.connections@),
            current_connections: self.current_connections as int,
            peak_bandwidth: self.peak_bandwidth as int,
            peak_packets_per_sec: self.peak_packets_per_sec as int,
        }
    }

    /// Internal consistency: unique keys in every table, the fixed ring
    /// capacities, the connection count, and the model bounds.
    pub closed spec fn wf(&self) -> bool {
        &&& self.protocol_counts.wf()
        &&& self.top_talkers.wf()
        &&& self.port_activity.wf()
        &&& self.connections.wf()
        &&& self.packet_sizes.wf()
        &&& self.packet_sizes.cap() == 1000
        &&& self.bandwidth_history.wf()
        &&& self.bandwidth_history.cap() == 100
        &&& self.threat_alerts.wf()
        &&& self.threat_alerts.cap() == 100
        &&& self.current_connections as int == self.connections.entry_seq().len()
        &&& model_wf(self.model())
    }

    /// The empty aggregate at capture start.
    pub fn new(start_millis: u64) -> (r: NetworkStats)
        ensures
            r.wf(),
            r.model() == empty_model(start_millis as int),
    {
        let r = NetworkStats {
            total_packets: 0,
            total_bytes: 0,
            start_millis,
            protocol_counts: StrCountMap::new(),
            top_talkers: StrCountMap::new(),
            port_activity: PortCountMap::new(),
            packet_sizes: Ring::new(1000),
            bandwidth_history: Ring::new(100),
            threat_alerts: Ring::new(100),
            connections: FlowMap::new(),
            current_connections: 0,
            peak_bandwidth: 0,
            peak_packets_per_sec: 0,
        };
        proof {
                assert(r.model().packet_sizes =~= Seq::<int>::empty());
            assert(r.model().bandwidth_history =~= Seq::<BwModel>::empty());
            assert(r.model().threat_alerts =~= Seq::<AlertModel>::empty());
            assert(r.model().connections =~= Map::<Seq<char>, FlowModel>::empty());
            assert(r.model() =~~= empty_model(start_millis as int));
        }
        r
    }

    /// Applies one record to the aggregate: the whole logical update of
    /// `spec_ingest`, atomically from the caller's point of view.
    /// Cannot fail; the bounds in `requires` are machine limits on the
    /// cumulative totals.
    pub fn ingest(&mut self, r: &PacketRecord)
        requires
            old(self).wf(),
            old(self).model().total_packets < u64::MAX as int,
            old(self).model().total_bytes + r.packet_size as int <= u64::MAX as int,
        ensures
            final(self).wf(),
            final(self).model() == spec_ingest(old(self).model(), *r),
    {
        let ghost m0 = self.model();

        // Totals.
        self.total_packets = self.total_packets + 1;
        self.total_bytes = self.total_bytes + (r.packet_size as u64);

        // Per-protocol count.
        proof {
            if self.protocol_counts@.contains_key(r.protocol@) {
                assert(m0.protocol_counts[r.protocol@] <= m0.total_packets);
            }
        }
        self.protocol_counts.increment(r.protocol.as_str());

        // Size history.
        self.packet_sizes.push(r.packet_size);
        proof {
            assert(self.packet_sizes@.map_values(|s: usize| s as int) =~= bounded_push(
                m0.packet_sizes,
                r.packet_size as int,
                1000,
            ));
        }

        // Port activity, preferring the destination port.
        match r.preferred_port() {
            Some(p) => {
                proof {
                    if self.port_activity@.contains_key(p) {
                        assert(m0.port_activity[p] <= m0.total_packets);
                    }
                }
                self.port_activity.increment(p);
            },
            None => {},
        }

        // Top talkers by source address.
        match &r.src_ip {
            Some(ip) => {
                proof {
                    if self.top_talkers@.contains_key(ip@) {
                        assert(m0.top_talkers[ip@] <= m0.total_packets);
                    }
                }
                self.top_talkers.increment(ip.as_str());
            },
            None => {},
        }

        // Threat alerts for anything above Safe.
        if r.threat_level.rank() > 0 {
            let message = alert_message(r);
            let alert = ThreatAlert {
                timestamp_millis: r.timestamp_millis,
                message,
                level: r.threat_level,
            };
            proof {
                assert(alert_model(alert).message == spec_alert_message(*r));
            }
            self.threat_alerts.push(alert);
            proof {
                assert(self.threat_alerts@.map_values(|a: ThreatAlert| alert_model(a))
                    =~= bounded_push(
                    m0.threat_alerts,
                    AlertModel {
                        timestamp_millis: r.timestamp_millis as int,
                        message: spec_alert_message(*r),
                        level: r.threat_level,
                    },
                    100,
                ));
            }
        }

        // The connection table.
        if r.src_ip.is_some() && r.dst_ip.is_some() {
            let key = flow_key(r);
            match self.connections.lookup(key.as_str()) {
                Some(flow) => {
                    proof {
                        assert(m0.connections.contains_key(key@));
                        assert(m0.connections[key@] == flow_model(flow));
                        assert(flow.packet_count as int <= m0.total_packets);
                        assert(flow.total_bytes as int <= m0.total_bytes);
                    }
                    let updated = ConnectionFlow {
                        src_ip: flow.src_ip,
                        dst_ip: flow.dst_ip,
                        src_port: flow.src_port,
                        dst_port: flow.dst_port,
                        protocol: flow.protocol,
                        packet_count: flow.packet_count + 1,
                        total_bytes: flow.total_bytes + (r.packet_size as u64),
                        first_seen: flow.first_seen,
                        last_seen: r.timestamp_millis,
                        threat_level: r.threat_level.max_with(flow.threat_level),
                    };
                    self.connections.store(key.as_str(), updated);
                },
                None => {
                    let created = ConnectionFlow {
                        src_ip: r.src_ip.as_ref().unwrap().clone(),
                        dst_ip: r.dst_ip.as_ref().unwrap().clone(),
                        src_port: r.src_port,
                        dst_port: r.dst_port,
                        protocol: r.protocol.clone(),
                        packet_count: 1,
                        total_bytes: r.packet_size as u64,
                        first_seen: r.timestamp_millis,
                        last_seen: r.timestamp_millis,
                        threat_level: r.threat_level,
                    };
                    self.connections.store(key.as_str(), created);
                },
            }
            proof {
                assert(flows_model(self.connections@) =~= spec_connections_after(m0, *r));
            }
        }

        // Bandwidth sampling.
        let elapsed = if r.timestamp_millis >= self.start_millis {
            (r.timestamp_millis - self.start_millis) / 1000
        } else {
            0
        };
        if elapsed > 0 && self.total_packets % 100 == 0 {
            let bytes_per_sec = self.total_bytes / elapsed;
            let packets_per_sec = self.total_packets / elapsed;
            let point = BandwidthPoint {
                timestamp_millis: r.timestamp_millis,
                bytes_per_sec,
                packets_per_sec,
            };
            proof {
                assert(bw_model(point) == spec_sample_point(m0, *r));
            }
            self.bandwidth_history.push(point);
            proof {
                assert(self.bandwidth_history@.map_values(|p: BandwidthPoint| bw_model(p))
                    =~= bounded_push(m0.bandwidth_history, spec_sample_point(m0, *r), 100));
            }
            if bytes_per_sec > self.peak_bandwidth {
                self.peak_bandwidth = bytes_per_sec;
            }
            if packets_per_sec > self.peak_packets_per_sec {
                self.peak_packets_per_sec = packets_per_sec;
            }
        }

        // The connection count follows the table.
        self.current_connections = self.connections.len();

        proof {
            lemma_ingest_preserves_wf(m0, *r);
            assert(self.model() =~~= spec_ingest(m0, *r));
        }
    }
}

/// A consistent, point-in-time, read-only copy of the aggregate,
/// sufficient for rendering.
pub struct StatsSnapshot {
    pub total_packets: u64,
    pub total_bytes: u64,
    pub start_millis: u64,
    pub protocol_counts: Vec<(String, u64)>,
    pub top_talkers: Vec<(String, u64)>,
    pub port_activity: Vec<(u16, u64)>,
    pub packet_sizes: Vec<usize>,
    pub bandwidth_history: Vec<BandwidthPoint>,
    pub threat_alerts: Vec<ThreatAlert>,
    pub connections: Vec<(String, ConnectionFlow)>,
    pub current_connections: usize,
    pub peak_bandwidth: u64,
    pub peak_packets_per_sec: u64,
}

impl NetworkStats {
    /// The protocol table's entries, in first-appearance order.
    pub closed spec fn protocol_entry_seq(&self) -> Seq<(String, u64)> {
        self.protocol_counts.entry_seq()
    }

    /// The talker table's entries, in first-appearance order.
    pub closed spec fn talker_entry_seq(&self) -> Seq<(String, u64)> {
        self.top_talkers.entry_seq()
    }

    /// The port table's entries, in first-appearance order.
    pub closed spec fn port_entry_seq(&self) -> Seq<(u16, u64)> {
        self.port_activity.entry_seq()
    }

    /// The connection table's entries, in first-appearance order.
    pub closed spec fn connection_entry_seq(&self) -> Seq<(String, ConnectionFlow)> {
        self.connections.entry_seq()
    }

    /// How many packets have been ingested.
    pub fn total_packets(&self) -> (n: u64)
        ensures
            n as int == self.model().total_packets,
    {
        self.total_packets
    }

    /// How many bytes have been ingested.
    pub fn total_bytes(&self) -> (n: u64)
        ensures
            n as int == self.model().total_bytes,
    {
        self.total_bytes
    }

    /// The capture start time in milliseconds since the epoch.
    pub fn start_millis(&self) -> (n: u64)
        ensures
            n as int == self.model().start_millis,
    {
        self.start_millis
    }

    /// The highest sampled byte rate so far.
    pub fn peak_bandwidth(&self) -> (n: u64)
        ensures
            n as int == self.model().peak_bandwidth,
    {
        self.peak_bandwidth
    }

    /// The highest sampled packet rate so far.
    pub fn peak_packets_per_sec(&self) -> (n: u64)
        ensures
            n as int == self.model().peak_packets_per_sec,
    {
        self.peak_packets_per_sec
    }

    /// The size of the connection table.
    pub fn current_connections(&self) -> (n: usize)
        ensures
            n as int == self.model().current_connections,
    {
        self.current_connections
    }

    /// The protocol counts, in first-appearance order.
    pub fn protocol_entries(&self) -> (r: &Vec<(String, u64)>)
        ensures
            r@ == self.protocol_entry_seq(),
    {
        self.protocol_counts.entries()
    }

    /// The per-source counts, in first-appearance order.
    pub fn talker_entries(&self) -> (r: &Vec<(String, u64)>)
        ensures
            r@ == self.talker_entry_seq(),
    {
        self.top_talkers.entries()
    }

    /// The per-port counts, in first-appearance order.
    pub fn port_entries(&self) -> (r: &Vec<(u16, u64)>)
        ensures
            r@ == self.port_entry_seq(),
    {
        self.port_activity.entries()
    }

    /// The connection table's entries, in first-appearance order.
    pub fn connection_entries(&self) -> (r: &Vec<(String, ConnectionFlow)>)
        ensures
            r@ == self.connection_entry_seq(),
    {
        self.connections.entries()
    }

    /// The retained packet sizes, oldest first.
    pub fn packet_sizes(&self) -> (r: &Vec<usize>)
        ensures
            r@.map_values(|s: usize| s as int) == self.model().packet_sizes,
    {
        self.packet_sizes.entries()
    }

    /// The retained bandwidth samples, oldest first.
    pub fn bandwidth_points(&self) -> (r: &Vec<BandwidthPoint>)
        ensures
            r@.map_values(|p: BandwidthPoint| bw_model(p)) == self.model().bandwidth_history,
    {
        self.bandwidth_history.entries()
    }

    /// The retained alerts, oldest first.
    pub fn alerts(&self) -> (r: &Vec<ThreatAlert>)
        ensures
            r@.map_values(|a: ThreatAlert| alert_model(a)) == self.model().threat_alerts,
    {
        self.threat_alerts.entries()
    }

    /// The connection counter always equals the size of the connection
    /// table.
    pub proof fn lemma_connection_count_matches_table(&self)
        requires
            self.wf(),
        ensures
            self.model().current_connections == self.connection_entry_seq().len(),
    {
    }

    /// A consistent, point-in-time copy of the whole aggregate: every
    /// counter, table and history equals the aggregate's at the moment
    /// of the call.
    pub fn snapshot(&self) -> (s: StatsSnapshot)
        ensures
            s.total_packets as int == self.model().total_packets,
            s.total_bytes as int == self.model().total_bytes,
            s.start_millis as int == self.model().start_millis,
            s.protocol_counts@ == self.protocol_entry_seq(),
            s.top_talkers@ == self.talker_entry_seq(),
            s.port_activity@ == self.port_entry_seq(),
            s.packet_sizes@.map_values(|v: usize| v as int) == self.model().packet_sizes,
            s.bandwidth_history@.map_values(|p: BandwidthPoint| bw_model(p)) == self.model(
            ).bandwidth_history,
            s.threat_alerts@.map_values(|a: ThreatAlert| alert_model(a)) == self.model(
            ).threat_alerts,
            s.connections@ == self.connection_entry_seq(),
            s.current_connections as int == self.model().current_connections,
            s.peak_bandwidth as int == self.model().peak_bandwidth,
            s.peak_packets_per_sec as int == self.model().peak_packets_per_sec,
    {
        StatsSnapshot {
            total_packets: self.total_packets,
            total_bytes: self.total_bytes,
            start_millis: self.start_millis,
            protocol_counts: copy_count_entries(self.protocol_counts.entries()),
            top_talkers: copy_count_entries(self.top_talkers.entries()),
            port_activity: copy_port_entries(self.port_activity.entries()),
            packet_sizes: copy_sizes(self.packet_sizes.entries()),
            bandwidth_history: copy_points(self.bandwidth_history.entries()),
            threat_alerts: copy_alerts(self.threat_alerts.entries()),
            connections: copy_flow_entries(self.connections.entries()),
            current_connections: self.current_connections,
            peak_bandwidth: self.peak_bandwidth,
            peak_packets_per_sec: self.peak_packets_per_sec,
        }
    }
}

fn copy_count_entries(v: &Vec<(String, u64)>) -> (r: Vec<(String, u64)>)
    ensures
        r@ == v@,
{
    let mut r: Vec<(String, u64)> = Vec::new();
    let n = v.len();
    let mut i: usize = 0;
    while i < n
        invariant
            i <= n,
            n == v@.len(),
            r@ == v@.take(i as int),
        decreases n - i,
    {
        r.push((v[i].0.clone(), v[i].1));
        proof {
            assert(r@ =~= v@.take(i + 1));
        }
        i = i + 1;
    }
    proof {
        assert(v@.take(n as int) =~= v@);
    }
    r
}

fn copy_port_entries(v: &Vec<(u16, u64)>) -> (r: Vec<(u16, u64)>)
    ensures
        r@ == v@,
{
    let mut r: Vec<(u16, u64)> = Vec::new();
    let n = v.len();
    let mut i: usize = 0;
    while i < n
        invariant
            i <= n,
            n == v@.len(),
            r@ == v@.take(i as int),
        decreases n - i,
    {
        r.push((v[i].0, v[i].1));
        proof {
            assert(r@ =~= v@.take(i + 1));
        }
        i = i + 1;
    }
    proof {
        assert(v@.take(n as int) =~= v@);
    }
    r
}

fn copy_sizes(v: &Vec<usize>) -> (r: Vec<usize>)
    ensures
        r@ == v@,
{
    let mut r: Vec<usize> = Vec::new();
    let n = v.len();
    let mut i: usize = 0;
    while i < n
        invariant
            i <= n,
            n == v@.len(),
            r@ == v@.take(i as int),
        decreases n - i,
    {
        r.push(v[i]);
        proof {
            assert(r@ =~= v@.take(i + 1));
        }
        i = i + 1;
    }
    proof {
        assert(v@.take(n as int) =~= v@);
    }
    r
}

fn copy_points(v: &Vec<BandwidthPoint>) -> (r: Vec<BandwidthPoint>)
    ensures
        r@ == v@,
{
    let mut r: Vec<BandwidthPoint> = Vec::new();
    let n = v.len();
    let mut i: usize = 0;
    while i < n
        invariant
            i <= n,
            n == v@.len(),
            r@ == v@.take(i as int),
        decreases n - i,
    {
        r.push(v[i]);
        proof {
            assert(r@ =~= v@.take(i + 1));
        }
        i = i + 1;
    }
    proof {
        assert(v@.take(n as int) =~= v@);
    }
    r
}

fn copy_alerts(v: &Vec<ThreatAlert>) -> (r: Vec<ThreatAlert>)
    ensures
        r@ == v@,
{
    let mut r: Vec<ThreatAlert> = Vec::new();
    let n = v.len();
    let mut i: usize = 0;
    while i < n
        invariant
            i <= n,
            n == v@.len(),
            r@ == v@.take(i as int),
        decreases n - i,
    {
        r.push(v[i].clone_alert());
        proof {
            assert(r@ =~= v@.take(i + 1));
        }
        i = i + 1;
    }
    proof {
        assert(v@.take(n as int) =~= v@);
    }
    r
}

fn copy_flow_entries(v: &Vec<(String, ConnectionFlow)>) -> (r: Vec<(String, ConnectionFlow)>)
    ensures
        r@ == v@,
{
    let mut r: Vec<(String, ConnectionFlow)> = Vec::new();
    let n = v.len();
    let mut i: usize = 0;
    while i < n
        invariant
            i <= n,
            n == v@.len(),
            r@ == v@.take(i as int),
        decreases n - i,
    {
        r.push((v[i].0.clone(), v[i].1.clone_flow()));
        proof {
            assert(r@ =~= v@.take(i + 1));
        }
        i = i + 1;
    }
    proof {
        assert(v@.take(n as int) =~= v@);
    }
    r
}

/// The empty aggregate: everything zero or empty but the start time.
pub open spec fn empty_model(start_millis: int) -> StatsModel {
    StatsModel {
        total_packets: 0,
        total_bytes: 0,
        start_millis: start_millis,
        protocol_counts: Map::empty(),
        top_talkers: Map::empty(),
        port_activity: Map::empty(),
        packet_sizes: Seq::empty(),
        bandwidth_history: Seq::empty(),
        threat_alerts: Seq::empty(),
        connections: Map::empty(),
        current_connections: 0,
        peak_bandwidth: 0,
        peak_packets_per_sec: 0,
    }
}

/// Builds the flow key text for a record: the unordered endpoint pair
/// in canonical order, then the protocol.
pub fn flow_key(r: &PacketRecord) -> (key: String)
    requires
        r.src_ip is Some,
        r.dst_ip is Some,
    ensures
        key@ == spec_flow_key(*r),
{
    let src_ip = r.src_ip.as_ref().unwrap();
    let dst_ip = r.dst_ip.as_ref().unwrap();
    let sport = match r.src_port {
        Some(p) => p,
        None => 0,
    };
    let dport = match r.dst_port {
        Some(p) => p,
        None => 0,
    };
    let src_first = if crate::strutil::str_eq(src_ip.as_str(), dst_ip.as_str()) {
        sport <= dport
    } else {
        crate::strutil::str_lex_le(src_ip.as_str(), dst_ip.as_str())
    };
    let mut key = if src_first {
        src_ip.clone()
    } else {
        dst_ip.clone()
    };
    key.append(":");
    let first_port_text = u64_string(if src_first {
        sport as u64
    } else {
        dport as u64
    });
    key.append(first_port_text.as_str());
    key.append("-");
    if src_first {
        key.append(dst_ip.as_str());
    } else {
        key.append(src_ip.as_str());
    }
    key.append(":");
    let second_port_text = u64_string(if src_first {
        dport as u64
    } else {
        sport as u64
    });
    key.append(second_port_text.as_str());
    key.append("/");
    key.append(r.protocol.as_str());
    proof {
        assert(key@ =~= spec_flow_key(*r));
    }
    key
}

/// Builds the alert message for a suspicious record.
pub fn alert_message(r: &PacketRecord) -> (msg: String)
    ensures
        msg@ == spec_alert_message(*r),
{
    let mut msg = "Suspicious ".to_owned();
    msg.append(r.protocol.as_str());
    msg.append(" traffic from ");
    match &r.src_ip {
        Some(ip) => msg.append(ip.as_str()),
        None => msg.append("unknown"),
    }
    msg.append(" to ");
    match &r.dst_ip {
        Some(ip) => msg.append(ip.as_str()),
        None => msg.append("unknown"),
    }
    proof {
        assert(msg@ =~= spec_alert_message(*r));
    }
    msg
}

/// The aggregate after a whole sequence of records, in order.
pub open spec fn spec_ingest_all(m: StatsModel, rs: Seq<PacketRecord>) -> StatsModel
    decreases rs.len(),
{
    if rs.len() == 0 {
        m
    } else {
        spec_ingest(spec_ingest_all(m, rs.drop_last()), rs.last())
    }
}

/// The sum of the sizes of a sequence of records.
pub open spec fn spec_sum_sizes(rs: Seq<PacketRecord>) -> int
    decreases rs.len(),
{
    if rs.len() == 0 {
        0
    } else {
        spec_sum_sizes(rs.drop_last()) + rs.last().packet_size as int
    }
}

/// After N ingested records, `total_packets` has risen by exactly N and
/// `total_bytes` by exactly the sum of the records' sizes.
pub proof fn lemma_totals_count_every_record(m: StatsModel, rs: Seq<PacketRecord>)
    ensures
        spec_ingest_all(m, rs).total_packets == m.total_packets + rs.len(),
        spec_ingest_all(m, rs).total_bytes == m.total_bytes + spec_sum_sizes(rs),
    decreases rs.len(),
{
    if rs.len() > 0 {
        lemma_totals_count_every_record(m, rs.drop_last());
    }
}

/// The highest threat rank among the records of `rs` that map to flow
/// key `k`; minus one when none does.
pub open spec fn spec_max_threat(rs: Seq<PacketRecord>, k: Seq<char>) -> int
    decreases rs.len(),
{
    if rs.len() == 0 {
        -1
    } else {
        let rest = spec_max_threat(rs.drop_last(), k);
        let r = rs.last();
        if spec_has_flow(r) && spec_flow_key(r) == k {
            if level_rank(r.threat_level) > rest {
                level_rank(r.threat_level)
            } else {
                rest
            }
        } else {
            rest
        }
    }
}

/// A flow's threat level is the maximum level among all records ever
/// mapped to its key: it escalates and never falls back. Starting from
/// an aggregate without the key, the flow exists after `rs` exactly
/// when some record of `rs` maps to the key, and its level's rank is
/// then the maximum rank among those records.
pub proof fn lemma_flow_threat_is_running_max(m: StatsModel, rs: Seq<PacketRecord>, k: Seq<char>)
    requires
        !m.connections.contains_key(k),
    ensures
        spec_ingest_all(m, rs).connections.contains_key(k) <==> spec_max_threat(rs, k) >= 0,
        spec_ingest_all(m, rs).connections.contains_key(k) ==> level_rank(
            spec_ingest_all(m, rs).connections[k].threat_level,
        ) == spec_max_threat(rs, k),
    decreases rs.len(),
{
    if rs.len() > 0 {
        lemma_flow_threat_is_running_max(m, rs.drop_last(), k);
    }
}

/// The bounded histories never exceed their capacities, however many
/// records are ingested: the sizes stay within 1000 entries and the
/// bandwidth samples and alerts within 100 each.
pub proof fn lemma_histories_stay_bounded(m: StatsModel, rs: Seq<PacketRecord>)
    requires
        model_wf(m),
    ensures
        model_wf(spec_ingest_all(m, rs)),
        spec_ingest_all(m, rs).packet_sizes.len() <= 1000,
        spec_ingest_all(m, rs).bandwidth_history.len() <= 100,
        spec_ingest_all(m, rs).threat_alerts.len() <= 100,
    decreases rs.len(),
{
    if rs.len() > 0 {
        lemma_histories_stay_bounded(m, rs.drop_last());
        lemma_ingest_preserves_wf(spec_ingest_all(m, rs.drop_last()), rs.last());
    }
}

/// Whether a record belongs to flow key `k`.
pub open spec fn spec_maps_to_key(r: PacketRecord, k: Seq<char>) -> bool {
    spec_has_flow(r) && spec_flow_key(r) == k
}

/// How many records of a sequence map to flow key `k`.
pub open spec fn spec_count_key(rs: Seq<PacketRecord>, k: Seq<char>) -> int
    decreases rs.len(),
{
    if rs.len() == 0 {
        0
    } else {
        spec_count_key(rs.drop_last(), k) + if spec_maps_to_key(rs.last(), k) {
            1int
        } else {
            0int
        }
    }
}

/// The summed sizes of the records of a sequence that map to flow key
/// `k`.
pub open spec fn spec_sum_bytes_key(rs: Seq<PacketRecord>, k: Seq<char>) -> int
    decreases rs.len(),
{
    if rs.len() == 0 {
        0
    } else {
        spec_sum_bytes_key(rs.drop_last(), k) + if spec_maps_to_key(rs.last(), k) {
            rs.last().packet_size as int
        } else {
            0int
        }
    }
}

/// The timestamp of the first record mapping to flow key `k`; zero when
/// none does.
pub open spec fn spec_first_seen_key(rs: Seq<PacketRecord>, k: Seq<char>) -> int
    decreases rs.len(),
{
    if rs.len() == 0 {
        0
    } else if spec_count_key(rs.drop_last(), k) > 0 {
        spec_first_seen_key(rs.drop_last(), k)
    } else if spec_maps_to_key(rs.last(), k) {
        rs.last().timestamp_millis as int
    } else {
        0
    }
}

/// The timestamp of the last record mapping to flow key `k`; zero when
/// none does.
pub open spec fn spec_last_seen_key(rs: Seq<PacketRecord>, k: Seq<char>) -> int
    decreases rs.len(),
{
    if rs.len() == 0 {
        0
    } else if spec_maps_to_key(rs.last(), k) {
        rs.last().timestamp_millis as int
    } else {
        spec_last_seen_key(rs.drop_last(), k)
    }
}

proof fn lemma_count_key_nonneg(rs: Seq<PacketRecord>, k: Seq<char>)
    ensures
        0 <= spec_count_key(rs, k) <= rs.len(),
    decreases rs.len(),
{
    if rs.len() > 0 {
        lemma_count_key_nonneg(rs.drop_last(), k);
    }
}

proof fn lemma_sum_bytes_key_zero(rs: Seq<PacketRecord>, k: Seq<char>)
    requires
        spec_count_key(rs, k) == 0,
    ensures
        spec_sum_bytes_key(rs, k) == 0,
    decreases rs.len(),
{
    if rs.len() > 0 {
        lemma_count_key_nonneg(rs.drop_last(), k);
        lemma_sum_bytes_key_zero(rs.drop_last(), k);
    }
}

/// A flow aggregates exactly the records ever mapped to its key, and
/// flows are never deleted. Starting from an aggregate without the key,
/// the flow exists after `rs` exactly when some record of `rs` maps to
/// the key; its packet count is then the number of those records, its
/// byte total their summed sizes, and its first and last timestamps the
/// first and last such record's.
pub proof fn lemma_flow_aggregates_its_records(m: StatsModel, rs: Seq<PacketRecord>, k: Seq<char>)
    requires
        !m.connections.contains_key(k),
    ensures
        spec_ingest_all(m, rs).connections.contains_key(k) <==> spec_count_key(rs, k) > 0,
        spec_ingest_all(m, rs).connections.contains_key(k) ==> {
            &&& spec_ingest_all(m, rs).connections[k].packet_count == spec_count_key(rs, k)
            &&& spec_ingest_all(m, rs).connections[k].total_bytes == spec_sum_bytes_key(rs, k)
            &&& spec_ingest_all(m, rs).connections[k].first_seen == spec_first_seen_key(rs, k)
            &&& spec_ingest_all(m, rs).connections[k].last_seen == spec_last_seen_key(rs, k)
        },
    decreases rs.len(),
{
    if rs.len() > 0 {
        lemma_flow_aggregates_its_records(m, rs.drop_last(), k);
        lemma_count_key_nonneg(rs.drop_last(), k);
        let m1 = spec_ingest_all(m, rs.drop_last());
        let r = rs.last();
        let m2 = spec_ingest(m1, r);
        if spec_maps_to_key(r, k) {
            if m1.connections.contains_key(k) {
                assert(m2.connections[k] == spec_updated_flow(m1.connections[k], r));
            } else {
                assert(m2.connections[k] == spec_new_flow(r));
                assert(spec_count_key(rs.drop_last(), k) == 0);
                lemma_sum_bytes_key_zero(rs.drop_last(), k);
            }
        } else {
            if spec_has_flow(r) {
                assert(spec_flow_key(r) != k);
                assert(m2.connections.contains_key(k) == m1.connections.contains_key(k));
                if m1.connections.contains_key(k) {
                    assert(m2.connections[k] == m1.connections[k]);
                }
            } else {
                assert(m2.connections == m1.connections);
            }
        }
    }
}

/// Flows are never deleted: every key of the table survives any further
/// ingested record.
pub proof fn lemma_flows_never_deleted(m: StatsModel, r: PacketRecord, k: Seq<char>)
    requires
        m.connections.contains_key(k),
    ensures
        spec_ingest(m, r).connections.contains_key(k),
{
}

/// The sizes of a record sequence, in order.
pub open spec fn spec_sizes_of(rs: Seq<PacketRecord>) -> Seq<int> {
    rs.map_values(|r: PacketRecord| r.packet_size as int)
}

/// Starting from the empty aggregate, the size history after any record
/// sequence is exactly the most recent thousand ingested sizes, in
/// insertion order.
pub proof fn lemma_size_history_is_recent_suffix(start: int, rs: Seq<PacketRecord>)
    ensures
        spec_ingest_all(empty_model(start), rs).packet_sizes == suffix_within(
            spec_sizes_of(rs),
            1000,
        ),
    decreases rs.len(),
{
    if rs.len() > 0 {
        lemma_size_history_is_recent_suffix(start, rs.drop_last());
        let prior = spec_sizes_of(rs.drop_last());
        assert(spec_sizes_of(rs).drop_last() =~= prior);
        assert(spec_sizes_of(rs).last() == rs.last().packet_size as int);
        assert(spec_sizes_of(rs) =~= prior.push(rs.last().packet_size as int));
        assert(bounded_push(suffix_within(prior, 1000), rs.last().packet_size as int, 1000)
            =~= suffix_within(prior.push(rs.last().packet_size as int), 1000));
    }
}

/// Bandwidth sampling happens exactly when the packet total reaches a
/// multiple of one hundred after the first elapsed second: no sample is
/// taken at elapsed zero or off the hundred boundary, and exactly one
/// sample is appended (within the bounded history) otherwise. Peaks
/// move only when a sample is taken.
pub proof fn lemma_bandwidth_sampling(m: StatsModel, r: PacketRecord)
    ensures
        !spec_samples(m, r) ==> spec_ingest(m, r).bandwidth_history == m.bandwidth_history
            && spec_ingest(m, r).peak_bandwidth == m.peak_bandwidth && spec_ingest(
            m,
            r,
        ).peak_packets_per_sec == m.peak_packets_per_sec,
        spec_elapsed(m, r) == 0 ==> !spec_samples(m, r),
        (m.total_packets + 1) % 100 != 0 ==> !spec_samples(m, r),
        spec_samples(m, r) ==> spec_ingest(m, r).bandwidth_history == bounded_push(
            m.bandwidth_history,
            spec_sample_point(m, r),
            100,
        ),
{
}

} // verus!
