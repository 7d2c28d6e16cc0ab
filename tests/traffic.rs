use relay::traffic::{estimate_tokens, record_traffic, ContextUsageStats, TrafficDirection, TrafficMeter};

#[test]
fn token_estimate_rounds_up() {
    assert_eq!(estimate_tokens(0), 0);
    assert_eq!(estimate_tokens(1), 1);
    assert_eq!(estimate_tokens(4), 1);
    assert_eq!(estimate_tokens(5), 2);
    assert_eq!(estimate_tokens(40), 10);
    assert_eq!(estimate_tokens(80), 20);
}

#[test]
fn one_line_each_way() {
    let mut meter = TrafficMeter::new();
    let out_line = "a".repeat(40);
    let in_line = "b".repeat(80);
    meter.record("srv", TrafficDirection::Outbound, &out_line, "t1".to_string());
    let snap = meter.record("srv", TrafficDirection::Inbound, &in_line, "t2".to_string());
    assert_eq!(snap.total_bytes, 120);
    assert_eq!(snap.bytes_out, 40);
    assert_eq!(snap.bytes_in, 80);
    assert_eq!(snap.messages_out, 1);
    assert_eq!(snap.messages_in, 1);
    assert_eq!(snap.tokens_out, 10);
    assert_eq!(snap.tokens_in, 20);
    assert_eq!(snap.total_tokens, 30);
    assert_eq!(snap.updated_at, "t2");
    assert_eq!(snap.server_id, "srv");
}

#[test]
fn servers_are_counted_apart() {
    let mut meter = TrafficMeter::new();
    meter.record("a", TrafficDirection::Inbound, "xyz", "t".to_string());
    meter.record("b", TrafficDirection::Outbound, "12345", "t".to_string());
    let a = meter.usage_of("a").unwrap();
    let b = meter.usage_of("b").unwrap();
    assert_eq!(a.bytes_in, 3);
    assert_eq!(a.messages_out, 0);
    assert_eq!(b.bytes_out, 5);
    assert_eq!(b.tokens_out, 2);
    assert!(meter.usage_of("c").is_none());
    assert_eq!(meter.entries.len(), 2);
}

#[test]
fn counters_saturate() {
    let mut stats = ContextUsageStats::new("s", "t".to_string());
    stats.bytes_in = u64::MAX - 1;
    stats.count(TrafficDirection::Inbound, 10, "u".to_string());
    assert_eq!(stats.bytes_in, u64::MAX);
    assert_eq!(stats.total_bytes, u64::MAX);
    assert_eq!(stats.messages_in, 1);
}

#[test]
fn record_traffic_stamps_time() {
    let mut meter = TrafficMeter::new();
    let snap = record_traffic(&mut meter, "s", TrafficDirection::Outbound, "{\"jsonrpc\":\"2.0\"}");
    assert_eq!(snap.bytes_out, 17);
    assert_eq!(snap.messages_out, 1);
    assert!(!snap.updated_at.is_empty());
}
