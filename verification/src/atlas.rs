//! Measurement-platform data: metadata records, DNS answers and
//! traceroute details, held as plain values.
//!
//! These are the shapes the pipeline reads from measurement archives.
//! Serialization lives outside this crate; here the records are ordinary
//! structs with owned strings.

use vstd::prelude::*;

verus! {

/// Lifecycle state of a measurement.
#[derive(Copy, Clone, Debug, PartialEq, Eq, Structural)]
pub enum Status {
    Specified,
    Scheduled,
    Ongoing,
    Stopped,
    ForcedToStop,
    NoSuitableProbes,
    Failed,
    Archived,
}

/// The numeric code of each measurement status.
pub open spec fn status_code(s: Status) -> u8 {
    match s {
        Status::Specified => 0,
        Status::Scheduled => 1,
        Status::Ongoing => 2,
        Status::Stopped => 4,
        Status::ForcedToStop => 5,
        Status::NoSuitableProbes => 6,
        Status::Failed => 7,
        Status::Archived => 8,
    }
}

/// The status carried by a numeric code, if any (the value three is
/// unassigned).
pub open spec fn status_from_code(x: u8) -> Option<Status> {
    match x {
        0 => Some(Status::Specified),
        1 => Some(Status::Scheduled),
        2 => Some(Status::Ongoing),
        4 => Some(Status::Stopped),
        5 => Some(Status::ForcedToStop),
        6 => Some(Status::NoSuitableProbes),
        7 => Some(Status::Failed),
        8 => Some(Status::Archived),
        _ => None,
    }
}

impl Status {
    /// The numeric code of this status.
    pub fn code(&self) -> (r: u8)
        ensures
            r == status_code(*self),
    {
        match *self {
            Status::Specified => 0,
            Status::Scheduled => 1,
            Status::Ongoing => 2,
            Status::Stopped => 4,
            Status::ForcedToStop => 5,
            Status::NoSuitableProbes => 6,
            Status::Failed => 7,
            Status::Archived => 8,
        }
    }

    /// Reads a numeric code back into a status.
    pub fn from_code(x: u8) -> (r: Option<Status>)
        ensures
            r == status_from_code(x),
    {
        match x {
            0 => Some(Status::Specified),
            1 => Some(Status::Scheduled),
            2 => Some(Status::Ongoing),
            4 => Some(Status::Stopped),
            5 => Some(Status::ForcedToStop),
            6 => Some(Status::NoSuitableProbes),
            7 => Some(Status::Failed),
            8 => Some(Status::Archived),
            _ => None,
        }
    }
}

/// Every status code reads back to its status.
pub proof fn lemma_status_roundtrip(s: Status)
    ensures
        status_from_code(status_code(s)) == Some(s),
{
}

/// A status together with its human-readable description.
#[derive(Clone, Debug)]
pub struct MeasurementStatus {
    /// Numeric ID of this status.
    pub id: Status,
    /// Human-readable description of this status.
    pub name: String,
    /// When the measurement entered this status (not available for every
    /// status).
    pub when: Option<u64>,
}

/// One probe taking part in a measurement.
#[derive(Clone, Debug, Default)]
pub struct Probe {
    /// ID of this probe.
    pub id: i64,
    /// The URL that contains the details of this probe.
    pub url: String,
}

/// A request for probes by selector.
#[derive(Clone, Debug, Default)]
pub struct ProbeSource {
    /// Number of probes that have to be added or removed.
    pub requested: u64,
    /// Probe selector: an area, an AS, a country, another measurement, a
    /// prefix, or explicit probe IDs.
    pub kind: String,
    /// Value for the given selector kind.
    pub value: String,
    /// Tags a probe must all carry to be selected.
    pub tags_include: String,
    /// Tags that exclude a probe when any is carried.
    pub tags_exclude: String,
}

/// A participation request applied to a measurement.
#[derive(Clone, Debug, Default)]
pub struct ParticipationRequest {
    pub details: ProbeSource,
    /// The action applied: adding or removing probes.
    pub action: String,
    /// The unique ID of this request.
    pub id: i64,
    /// When the request was created.
    pub created_at: String,
    /// The direct URL of this request.
    pub self_url: String,
}

/// Metadata of one measurement.
#[derive(Clone, Debug)]
pub struct Measurement {
    pub is_public: bool,
    pub description: Option<String>,
    pub id: i64,
    pub result: String,
    pub group_id: Option<i64>,
    pub af: Option<u8>,
    pub is_oneoff: bool,
    pub spread: Option<u64>,
    pub resolve_on_probe: bool,
    pub start_time: u64,
    pub stop_time: Option<u64>,
    pub kind: String,
    pub status: MeasurementStatus,
    pub is_all_scheduled: bool,
    pub participant_count: Option<u64>,
    pub target_asn: Option<i64>,
    pub target_prefix: Option<String>,
    pub target_ip: Option<String>,
    pub creation_time: u64,
    pub in_wifi_group: bool,
    pub resolved_ips: Option<Vec<String>>,
    pub probes_requested: Option<i64>,
    pub probes_scheduled: Option<i64>,
    pub group: Option<String>,
    pub probes: Vec<Probe>,
    pub estimated_results_per_day: i64,
    pub credits_per_result: i64,
    pub probe_sources: Vec<ProbeSource>,
    pub participation_requests: Vec<ParticipationRequest>,
    pub tags: Vec<String>,
    pub port: Option<u16>,
    pub packets: Option<u8>,
    pub first_hop: Option<u64>,
    pub max_hops: Option<u64>,
    pub paris: Option<u8>,
    pub size: Option<u16>,
    pub protocol: Option<String>,
    pub response_timeout: Option<u64>,
    pub duplicate_timeout: Option<u64>,
    pub hop_by_hop_option_size: Option<u64>,
    pub destination_option_size: Option<u64>,
    pub dont_fragment: Option<bool>,
    pub traffic_class: Option<i64>,
    pub target: String,
    pub interval: u64,
}

/// Whether a flag is false — the guard used when a false flag need not be
/// recorded.
pub fn is_false(x: &bool) -> (r: bool)
    ensures
        r == !*x,
{
    !*x
}

/// Whether the time-to-live of a triggering packet may be left out of a
/// record: it may exactly when it holds the default value.
pub fn omit_icmp_ttl(ttl: &i64) -> (r: bool)
    ensures
        r == (*ttl == 1),
{
    *ttl == 1
}

/// The default time-to-live assumed when a record leaves it out.
pub fn icmp_default_ttl() -> (r: i64)
    ensures
        r == 1,
{
    1
}

/// A decoded DNS record: the first answers a probe decodes itself.
#[derive(Clone, Debug)]
pub enum DNSRecord {
    TXT { name: String, rdata: Vec<String> },
    SOA { mname: String, name: String, rname: String, serial: i64, ttl: i64 },
}

/// Why a DNS lookup failed.
#[derive(Clone, Debug)]
pub enum DNSLookupError {
    /// The lookup timed out, after this many seconds.
    Timeout { timeout: u64 },
    /// Any other error, as reported key-value detail.
    Other { err_map: Vec<(String, String)> },
}

/// Extra ICMP header information found in a reply.
#[derive(Clone, Debug)]
pub struct ICMPHeaderInfo {
    /// Extension version.
    pub version: i64,
    /// One when a length indication is present, zero otherwise.
    pub rfc4884: u8,
    /// Elements of the extension object.
    pub obj: Vec<ICMPObj>,
}

/// One element of an ICMP extension object.
#[derive(Clone, Debug)]
pub struct ICMPObj {
    /// Extension class.
    pub class: i64,
    /// Extension type.
    pub kind: i64,
    /// Label-switching data, shown for class one, type one.
    pub mpls: Option<Vec<MPLSData>>,
}

/// One label-switching stack entry from an ICMP extension.
#[derive(Clone, Debug)]
pub struct MPLSData {
    /// For experimental use.
    pub exp: i64,
    /// The label.
    pub label: i64,
    /// Bottom of stack flag.
    pub s: i64,
    /// Time-to-live value.
    pub ttl: i64,
}

/// An error ICMP annotation on a traceroute reply.
#[derive(Clone, Debug)]
pub enum ErrorTypes {
    /// A numeric error code.
    Code(i32),
    /// A named ICMP error.
    Icmp(ICMPError),
}

/// The named ICMP errors a reply can carry.
#[derive(Clone, Debug, PartialEq, Eq, Structural)]
pub enum ICMPError {
    NetworkUnreachable,
    DestinationUnreachable,
    AdministrativelyProhibited,
    ProtocolUnreachable,
    PortUnreachable,
}

/// A run of timed-out hops, by count.
pub struct Timeout(pub u32);

} // verus!
