use windows_agent::models::{
    delta_to_json, session_to_json, status_to_json, DeviceStatus, NetworkDelta, UsageBatch,
    UsageSession, DEFAULT_CHUNK_BYTE_LIMIT, DEFAULT_CHUNK_SESSION_LIMIT, MAX_PAYLOAD_BYTES,
};
use windows_agent::storage::UsageBatchStore;

fn session(pkg: &str, start: i64) -> UsageSession {
    UsageSession {
        package: pkg.to_string(),
        window_start: start,
        window_end: start + 5_000,
        total_ms: 5_000,
        foreground: true,
    }
}

fn status(battery: Option<u8>) -> DeviceStatus {
    DeviceStatus {
        usage_access: true,
        accessibility: false,
        overlay: true,
        vpn: false,
        battery_percent: battery,
        time_zone_id: "Pacific Standard Time".to_string(),
    }
}

fn delta() -> NetworkDelta {
    NetworkDelta { package: "iface::eth".to_string(), sampled_at: 0, wifi_bytes: 10, cellular_bytes: 0 }
}

fn batch(n: usize) -> UsageBatch {
    UsageBatch {
        device_id: 0x0123_4567_89ab_cdef_0123_4567_89ab_cdef,
        sent_at: 1_700_000_000_000,
        sessions: (0..n).map(|i| session("app.exe", i as i64 * 10_000)).collect(),
        network_deltas: vec![delta()],
        status: Some(status(Some(57))),
    }
}

#[test]
fn session_wire_form() {
    let j = session_to_json(&session("a", 0)).unwrap();
    assert_eq!(
        j,
        "{\"package\":\"a\",\"windowStart\":\"1970-01-01T00:00:00.000Z\",\"windowEnd\":\"1970-01-01T00:00:05.000Z\",\"totalMs\":5000,\"fg\":true}"
    );
}

#[test]
fn package_names_are_escaped() {
    let j = session_to_json(&session("we\"ird\\app", 0)).unwrap();
    assert!(j.starts_with("{\"package\":\"we\\\"ird\\\\app\","));
}

#[test]
fn control_characters_are_escaped() {
    let j = session_to_json(&session("a\u{1}b\tc\u{1f}é", 0)).unwrap();
    assert!(j.starts_with("{\"package\":\"a\\u0001b\\tc\\u001fé\","));
}

#[test]
fn delta_wire_form() {
    let d = NetworkDelta {
        package: "iface::eth".to_string(),
        sampled_at: 1_000,
        wifi_bytes: 123,
        cellular_bytes: 4,
    };
    assert_eq!(
        delta_to_json(&d).unwrap(),
        "{\"package\":\"iface::eth\",\"sampled_at\":\"1970-01-01T00:00:01.000Z\",\"wifi_bytes\":123,\"cell_bytes\":4}"
    );
}

#[test]
fn status_wire_form_and_battery_fractions() {
    assert_eq!(
        status_to_json(&status(Some(57))).unwrap(),
        "{\"usage_access\":true,\"accessibility\":false,\"overlay\":true,\"vpn\":false,\"battery_pct\":0.57,\"tz\":\"Pacific Standard Time\"}"
    );
    let b = |p: Option<u8>| {
        let j = status_to_json(&status(p)).unwrap();
        let start = j.find("\"battery_pct\":").unwrap() + "\"battery_pct\":".len();
        let end = j[start..].find(',').unwrap() + start;
        j[start..end].to_string()
    };
    assert_eq!(b(None), "-1.0");
    assert_eq!(b(Some(100)), "1.0");
    assert_eq!(b(Some(0)), "0.0");
    assert_eq!(b(Some(50)), "0.5");
    assert_eq!(b(Some(5)), "0.05");
    assert_eq!(b(Some(99)), "0.99");
}

#[test]
fn batch_wire_form() {
    let b = UsageBatch {
        device_id: 0x0123_4567_89ab_cdef_0123_4567_89ab_cdef,
        sent_at: 0,
        sessions: vec![session("a", 0)],
        network_deltas: Vec::new(),
        status: None,
    };
    assert_eq!(
        b.to_json_string().unwrap(),
        "{\"device_id\":\"01234567-89ab-cdef-0123-456789abcdef\",\"sent_at\":\"1970-01-01T00:00:00.000Z\",\"sessions\":[{\"package\":\"a\",\"windowStart\":\"1970-01-01T00:00:00.000Z\",\"windowEnd\":\"1970-01-01T00:00:05.000Z\",\"totalMs\":5000,\"fg\":true}],\"net_deltas\":[]}"
    );
    let with_status = UsageBatch { status: Some(status(None)), ..b.clone() };
    let j = with_status.to_json_string().unwrap();
    assert!(j.ends_with(",\"status\":{\"usage_access\":true,\"accessibility\":false,\"overlay\":true,\"vpn\":false,\"battery_pct\":-1.0,\"tz\":\"Pacific Standard Time\"}}"));
    assert_eq!(with_status.json_len().unwrap(), j.len());
}

#[test]
fn out_of_range_instant_fails_to_serialize() {
    let mut b = batch(1);
    b.sent_at = i64::MAX;
    assert!(b.to_json_string().is_err());
    assert!(!b.size_fits());
    assert!(b.chunked(10, 1_000).is_err());
}

#[test]
fn chunk_split_preserves_metadata_placement() {
    let b = batch(250);
    let chunks = b.chunked(100, 1_000_000_000).unwrap();
    assert_eq!(chunks.len(), 3);
    assert_eq!(chunks[0].sessions.len(), 100);
    assert_eq!(chunks[1].sessions.len(), 100);
    assert_eq!(chunks[2].sessions.len(), 50);
    assert_eq!(chunks[0].network_deltas.len(), 1);
    assert!(chunks[0].status.is_some());
    for c in &chunks[1..] {
        assert!(c.network_deltas.is_empty());
        assert!(c.status.is_none());
    }
    let starts: Vec<i64> = chunks.iter().flat_map(|c| c.sessions.iter().map(|s| s.window_start)).collect();
    let expected: Vec<i64> = b.sessions.iter().map(|s| s.window_start).collect();
    assert_eq!(starts, expected);
    for c in &chunks {
        assert_eq!(c.device_id, b.device_id);
        assert_eq!(c.sent_at, b.sent_at);
    }
}

#[test]
fn chunks_shrink_to_the_byte_limit() {
    let b = batch(10);
    let one = b.chunked(1, usize::MAX).unwrap()[0].json_len().unwrap();
    let limit = one + 200;
    let chunks = b.chunked(DEFAULT_CHUNK_SESSION_LIMIT, limit).unwrap();
    assert!(chunks.len() > 1);
    let total: usize = chunks.iter().map(|c| c.sessions.len()).sum();
    assert_eq!(total, 10);
    for c in &chunks {
        assert!(c.sessions.len() == 1 || c.json_len().unwrap() <= limit);
    }
}

#[test]
fn oversized_single_session_is_admitted() {
    let b = batch(3);
    let chunks = b.chunked(DEFAULT_CHUNK_SESSION_LIMIT, 10).unwrap();
    assert_eq!(chunks.len(), 3);
    assert!(chunks.iter().all(|c| c.sessions.len() == 1));
}

#[test]
fn empty_session_list_gives_the_batch_itself() {
    let b = batch(0);
    let chunks = b.chunked(DEFAULT_CHUNK_SESSION_LIMIT, DEFAULT_CHUNK_BYTE_LIMIT).unwrap();
    assert_eq!(chunks.len(), 1);
    assert_eq!(chunks[0].network_deltas.len(), 1);
    assert!(chunks[0].status.is_some());
    assert!(chunks[0].sessions.is_empty());
}

#[test]
fn queue_rejects_oversized_batch() {
    let mut q = UsageBatchStore::new(Vec::new());
    let mut big = batch(1);
    big.sessions[0].package = "x".repeat(MAX_PAYLOAD_BYTES);
    assert!(!big.size_fits());
    assert!(!q.enqueue(big));
    assert_eq!(q.queue_size(), 0);
    assert!(!q.has_pending());
    assert!(q.enqueue(batch(2)));
    assert_eq!(q.queue_size(), 1);
    assert!(q.peek().unwrap().size_fits());
}

#[test]
fn queue_is_fifo() {
    let mut q = UsageBatchStore::new(Vec::new());
    for i in 1..=3 {
        let mut b = batch(1);
        b.sent_at = i;
        assert!(q.enqueue(b));
    }
    assert_eq!(q.peek().unwrap().sent_at, 1);
    assert_eq!(q.queue_size(), 3);
    let preview: Vec<i64> = q.queue_preview(2).iter().map(|b| b.sent_at).collect();
    assert_eq!(preview, vec![1, 2]);
    assert_eq!(q.queue_preview(10).len(), 3);
    assert_eq!(q.pop().unwrap().sent_at, 1);
    assert_eq!(q.pop().unwrap().sent_at, 2);
    assert_eq!(q.queue_size(), 1);
    q.clear_queue();
    assert!(q.pop().is_none());
    assert!(q.peek().is_none());
}
