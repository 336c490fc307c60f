use std::sync::atomic::Ordering;
use std::time::Duration;

use fetch_cache::atomic_cell::AtomicDuration;

use fetch_cache::atlas::icmp_default_ttl;
use fetch_cache::atlas::is_false;
use fetch_cache::atlas::omit_icmp_ttl;
use fetch_cache::atlas::Status;
use fetch_cache::attribute::AddressFamilyNumber;
use fetch_cache::attribute::SubsequentAddressFamilyIdentifiers;
use fetch_cache::bench::BenchMark;
use fetch_cache::bench::ProgressCounter;
use fetch_cache::graphviz::GraphConfig;
use fetch_cache::graphviz::NodeAttributes;
use fetch_cache::rate_limit::UsageLimiter;
use fetch_cache::util::HumanBytes;
use fetch_cache::util::HumanReadableBytes;

#[test]
fn limiter_budget_and_rollover() {
    let mut limiter = UsageLimiter::new((), 2, 1000);
    assert!(limiter.try_acquire());
    assert!(limiter.try_acquire());
    // the budget is spent
    assert!(!limiter.try_acquire());
    limiter.complete();
    limiter.complete();
    // before the period ends nothing changes
    assert_eq!(limiter.period_end(), 0);
    let end = limiter.update_period_end(5_000);
    assert_eq!(end, 6_000);
    assert_eq!(limiter.period_end(), 6_000);
    // the completed operations were given back
    assert!(limiter.try_acquire());
    // not yet due: the second rollover is a no-op
    assert_eq!(limiter.update_period_end(5_500), 6_000);
}

#[test]
fn bench_counters_run() {
    let bench = BenchMark::new();
    let value = bench.on(|| 21 * 2);
    assert_eq!(value, 42);
    bench.append_time(Duration::from_millis(1));

    let progress = ProgressCounter::new(2);
    let mut fired = 0u64;
    progress.periodic(|_| fired = 1);
    assert_eq!(fired, 0, "first count of two is not due");
    let mut at = 0u64;
    progress.periodic(|c| at = c);
    assert_eq!(at, 2, "second count of two fires");
    assert_eq!(progress.count(), 2);
}

#[test]
fn status_codes_round_trip() {
    assert_eq!(Status::Stopped.code(), 4);
    assert_eq!(Status::from_code(4), Some(Status::Stopped));
    assert_eq!(Status::from_code(3), None);
    assert_eq!(Status::from_code(8), Some(Status::Archived));
}

#[test]
fn serde_guards() {
    assert!(is_false(&false));
    assert!(!is_false(&true));
    assert!(omit_icmp_ttl(&1));
    assert!(!omit_icmp_ttl(&64));
    assert_eq!(icmp_default_ttl(), 1);
}

#[test]
fn address_family_codes() {
    assert_eq!(AddressFamilyNumber::IPv6.code(), 2);
    assert_eq!(AddressFamilyNumber::from_code(16388), Some(AddressFamilyNumber::BgpLs));
    assert_eq!(AddressFamilyNumber::from_code(40000), None);
    assert_eq!(SubsequentAddressFamilyIdentifiers::VPLS.code(), 65);
    assert_eq!(
        SubsequentAddressFamilyIdentifiers::from_code(1),
        Some(SubsequentAddressFamilyIdentifiers::NlriUnicastForwarding)
    );
    assert_eq!(SubsequentAddressFamilyIdentifiers::from_code(0), None);
}

#[test]
fn node_attribute_lines() {
    let mut out: Vec<u8> = Vec::new();
    NodeAttributes::new(String::from("plain")).write(&mut out);
    assert_eq!(out, b"", "no attributes, no line");

    let mut out = Vec::new();
    NodeAttributes::new(String::from("n1"))
        .label(String::from("Probe 7"))
        .write(&mut out);
    assert_eq!(out, b"\"n1\" [label=\"Probe 7\"];\n");

    let mut out = Vec::new();
    NodeAttributes::new(String::from("n2"))
        .style(String::from("filled"))
        .color(String::from("lightblue"))
        .write(&mut out);
    assert_eq!(out, b"\"n2\" [style=\"filled\" color=\"lightblue\"];\n");

    // quotes and backslashes in names are escaped
    let mut out = Vec::new();
    NodeAttributes::new(String::from("a\"b"))
        .label(String::from("x\\y"))
        .write(&mut out);
    assert_eq!(out, b"\"a\\\"b\" [label=\"x\\\\y\"];\n");
}

#[test]
fn human_readable_byte_counts() {
    assert_eq!(HumanBytes(0).render(), "0.000B");
    assert_eq!(HumanBytes(1023).render(), "1023.000B");
    assert_eq!(HumanBytes(1536).render(), "1.500KB");
    assert_eq!(HumanBytes(10 * 1024 * 1024).render(), "10.000MB");
    assert_eq!(HumanReadableBytes(3 * 1024 * 1024 * 1024 / 2).render(), "1.500GB");
    // the fraction truncates
    assert_eq!(HumanBytes(1025).render(), "1.000KB");
}

#[test]
fn atomic_cells_hold_durations() {
    let cell = AtomicDuration::new(Duration::from_millis(5));
    assert_eq!(cell.load(Ordering::SeqCst), Duration::from_millis(5));
    let old = cell.swap(Duration::from_millis(7), Ordering::SeqCst);
    assert_eq!(old, Duration::from_millis(5));
    let res = cell.compare_exchange(
        Duration::from_millis(7),
        Duration::from_millis(9),
        Ordering::SeqCst,
        Ordering::SeqCst,
    );
    assert_eq!(res, Ok(Duration::from_millis(7)));
    cell.store(Duration::from_millis(1), Ordering::SeqCst);
    let prev = cell.fetch_add(Duration::from_millis(2), Ordering::SeqCst);
    assert_eq!(prev, Duration::from_millis(1));
    assert_eq!(cell.load(Ordering::SeqCst), Duration::from_millis(3));
}

#[test]
fn graph_config_defaults() {
    let config = GraphConfig::default();
    assert_eq!(config.probe_color.as_deref(), Some("lightblue"));
    assert!(config.destination_color.is_none());
    assert!(config.omit_timeouts);
    assert!(config.cluster_asn);
    assert!(!config.weighted_edges);
    assert!(!config.outbound_weighted_edges);
}

#[test]
fn autonomous_systems_compare_by_number() {
    let a = fetch_cache::asn::AutonomousSystem {
        num: 64512,
        country_code: None,
        name: String::from("EXAMPLE-ONE"),
    };
    let b = fetch_cache::asn::AutonomousSystem {
        num: 64512,
        country_code: Some(String::from("DE")),
        name: String::from("EXAMPLE-TWO"),
    };
    let c = fetch_cache::asn::AutonomousSystem {
        num: 64513,
        country_code: None,
        name: String::from("EXAMPLE-THREE"),
    };
    assert!(a == b, "records with one number are the same system");
    assert!(a != c);
    assert!(a < c);
}
