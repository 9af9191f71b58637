use ring_core::self_data::{
    daily_key, first_today, flush_dwell_buffer, most_active_ring, record_chat_message,
    record_archive_operation, record_dwell_heartbeat, record_ring_joined, record_session_created,
    record_tool_usage, ring_counts, ring_key, CounterMap, DwellTime, RingActivity,
};

fn s(x: &str) -> String {
    x.to_string()
}

#[test]
fn test_record_tool_usage() {
    let mut tools = CounterMap::new();
    record_tool_usage(&mut tools, "search");
    record_tool_usage(&mut tools, "search");
    record_tool_usage(&mut tools, "upload");
    assert_eq!(tools.get("search"), 2);
    assert_eq!(tools.get("upload"), 1);
    assert_eq!(tools.get("other"), 0);
}

#[test]
fn test_record_dwell_heartbeat() {
    let mut d = DwellTime { views: CounterMap::new(), today: CounterMap::new() };
    record_dwell_heartbeat(&mut d, "ring_chat", 30);
    record_dwell_heartbeat(&mut d, "ring_chat", 30);
    assert_eq!(d.views.get("ring_chat"), 60);
    assert_eq!(d.today.get("ring_chat"), 60);
}

#[test]
fn counters_set_and_add() {
    let mut c = CounterMap::new();
    c.set("a", 5);
    c.set("a", 7);
    assert_eq!(c.get("a"), 7);
    assert_eq!(c.entries.len(), 1);
    c.add("a", -2);
    assert_eq!(c.get("a"), 5);
}

#[test]
fn chat_message_statistics() {
    let mut st = CounterMap::new();
    record_chat_message(&mut st, Some("r1"), "2024-01-01", 10);
    record_chat_message(&mut st, None, "2024-01-01", 5);
    assert_eq!(st.get("total_messages"), 2);
    assert_eq!(st.get("total_chars"), 15);
    assert_eq!(st.get("avg_message_length"), 7);
    assert_eq!(st.get("ring_r1"), 1);
    assert_eq!(st.get("self_messages"), 1);
    assert_eq!(st.get("daily_2024-01-01"), 2);
    assert_eq!(ring_key("r1"), "ring_r1");
    assert_eq!(daily_key("2024-01-01"), "daily_2024-01-01");
}

#[test]
fn first_visit_of_the_day() {
    assert!(first_today(None));
    assert!(first_today(Some(0)));
    assert!(!first_today(Some(3)));
}

#[test]
fn buffered_dwell_time_is_flushed() {
    let mut d = DwellTime { views: CounterMap::new(), today: CounterMap::new() };
    record_dwell_heartbeat(&mut d, "graph", 10);
    flush_dwell_buffer(&mut d, &vec![(s("graph"), 5), (s("chat"), 7), (s("graph"), 1)]);
    assert_eq!(d.views.get("graph"), 16);
    assert_eq!(d.views.get("chat"), 7);
    assert_eq!(d.today.get("graph"), 16);
}

#[test]
fn most_active_rings() {
    let stats = vec![
        (s("avg_message_length"), Some(3)),
        (s("ring_a"), Some(4)),
        (s("ring_b"), Some(9)),
        (s("ring_c"), None),
        (s("ring_d"), Some(9)),
    ];
    let counts = ring_counts(&stats);
    assert_eq!(counts, vec![(s("a"), 4), (s("b"), 9), (s("d"), 9)]);
    assert_eq!(most_active_ring(&counts), "b");
    assert_eq!(most_active_ring(&vec![]), "");
}

#[test]
fn sessions_archives_and_rings() {
    let mut st = CounterMap::new();
    record_session_created(&mut st);
    record_session_created(&mut st);
    assert_eq!(st.get("total_sessions"), 2);
    let mut p = CounterMap::new();
    record_archive_operation(&mut p, "r1");
    record_archive_operation(&mut p, "r2");
    record_archive_operation(&mut p, "r1");
    assert_eq!(p.get("total_archives"), 3);
    assert_eq!(p.get("ring_r1"), 2);
    assert_eq!(p.get("ring_r2"), 1);
    let mut a = RingActivity { total_rings: 0, rings: vec![] };
    record_ring_joined(&mut a, "r1", "Docs", "t1");
    record_ring_joined(&mut a, "r1", "Docs", "t2");
    assert_eq!(a.total_rings, 2);
    assert_eq!(a.rings.len(), 1);
    assert_eq!(a.rings[0].joined_at, "t1");
}

#[test]
fn chat_statistics_over_negative_totals() {
    let mut st = CounterMap::new();
    st.set("total_messages", -5);
    st.set("total_chars", -10);
    record_chat_message(&mut st, None, "2024-02-02", 3);
    assert_eq!(st.get("total_messages"), -4);
    assert_eq!(st.get("total_chars"), -7);
    assert_eq!(st.get("avg_message_length"), 0);
    st.set("total_messages", 1);
    record_chat_message(&mut st, None, "2024-02-02", 0);
    assert_eq!(st.get("avg_message_length"), -3);
}

#[test]
fn dwell_time_over_negative_totals() {
    let mut d = DwellTime { views: CounterMap::new(), today: CounterMap::new() };
    d.views.set("graph", -20);
    record_dwell_heartbeat(&mut d, "graph", 5);
    assert_eq!(d.views.get("graph"), -15);
    assert_eq!(d.today.get("graph"), 5);
    flush_dwell_buffer(&mut d, &vec![(s("graph"), 15), (s("graph"), 1)]);
    assert_eq!(d.views.get("graph"), 1);
}
