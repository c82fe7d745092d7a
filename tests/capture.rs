use market_capture::channels::{
    channel_name, channel_names, deribit_plan, subscribe_request, ChannelGroup, SubscriptionPlan,
};
use market_capture::clock::{capture_now, unix_time, BucketKey, CaptureTime};
use market_capture::session::{capture_line, Action, Event, RetryPolicy, Session, SessionState};
use market_capture::writer::{file_name, RotatingWriter, WritePlan};

fn strings(v: &[&str]) -> Vec<String> {
    v.iter().map(|s| s.to_string()).collect()
}

fn at(hour: u32, minute: u32, second: u32, nanos: u32) -> CaptureTime {
    CaptureTime { year: 2024, month: 5, day: 1, hour, minute, second, nanos }
}

fn writer() -> RotatingWriter {
    RotatingWriter::new("data/deribit".to_string(), "ws".to_string())
}

#[test]
fn book_template_keeps_order() {
    let names = channel_names("book.{instrument}.raw", &strings(&["btc_usd", "eth_usd"]));
    assert_eq!(names, strings(&["book.btc_usd.raw", "book.eth_usd.raw"]));
}

#[test]
fn builder_is_repeatable() {
    let inst = strings(&["btc_usd", "eth_usd", "BTC-PERPETUAL"]);
    let a = channel_names("trades.{instrument}.raw", &inst);
    let b = channel_names("trades.{instrument}.raw", &inst);
    assert_eq!(a, b);
    assert_eq!(a.len(), 3);
}

#[test]
fn template_forms() {
    assert_eq!(channel_name("{instrument}", "announcements"), "announcements");
    assert_eq!(channel_name("trades_{instrument}", "ETH"), "trades_ETH");
    assert_eq!(channel_name("a.{instrument}.{instrument}", "x"), "a.x.x");
    assert_eq!(channel_name("ticker", "x"), "ticker");
    assert_eq!(channel_name("{instrumen}.raw", "x"), "{instrumen}.raw");
    assert!(channel_names("book.{instrument}.raw", &Vec::new()).is_empty());
}

#[test]
fn request_frame_text() {
    let r = subscribe_request(2, &strings(&["book.btc_usd.raw", "book.eth_usd.raw"]));
    assert_eq!(
        r,
        "{\"jsonrpc\":\"2.0\",\"method\":\"public/subscribe\",\"id\":2,\"params\":{\"channels\":[\"book.btc_usd.raw\",\"book.eth_usd.raw\"]}}"
    );
    let empty = subscribe_request(17, &Vec::new());
    assert_eq!(
        empty,
        "{\"jsonrpc\":\"2.0\",\"method\":\"public/subscribe\",\"id\":17,\"params\":{\"channels\":[]}}"
    );
}

#[test]
fn request_frame_escapes() {
    let r = subscribe_request(1, &strings(&["a\"b\\c\n"]));
    assert!(r.ends_with("[\"a\\\"b\\\\c\\u000a\"]}}"));
}

#[test]
fn deribit_requests() {
    let plan = deribit_plan();
    let reqs = plan.requests(&strings(&["BTC-PERPETUAL"]));
    assert_eq!(reqs.len(), 8);
    assert_eq!(
        reqs[0],
        "{\"jsonrpc\":\"2.0\",\"method\":\"public/subscribe\",\"id\":1,\"params\":{\"channels\":[\"announcements\"]}}"
    );
    assert_eq!(
        reqs[1],
        "{\"jsonrpc\":\"2.0\",\"method\":\"public/subscribe\",\"id\":2,\"params\":{\"channels\":[\"book.BTC-PERPETUAL.raw\"]}}"
    );
    assert!(reqs[3].contains("\"trades.BTC-PERPETUAL.raw\""));
    assert!(reqs[4].contains("[\"deribit_price_index.btc_usd\",\"deribit_price_index.ethc_usd\"]"));
    assert!(reqs[7].contains("\"id\":8"));
}

#[test]
fn bucket_key_text() {
    let k = BucketKey { year: 2024, month: 5, day: 1, hour: 14 };
    assert_eq!(k.text(), "2024-05-01_14Z");
    assert_eq!(BucketKey { year: 12345, month: 12, day: 31, hour: 0 }.text(), "+12345-12-31_00Z");
    assert_eq!(BucketKey { year: -5, month: 1, day: 9, hour: 23 }.text(), "-0005-01-09_23Z");
    assert_eq!(BucketKey { year: 7, month: 1, day: 9, hour: 3 }.text(), "0007-01-09_03Z");
}

#[test]
fn file_name_from_key() {
    let k = BucketKey { year: 2024, month: 5, day: 1, hour: 14 };
    assert_eq!(file_name("data/deribit", "ws", &k), "data/deribit-ws-2024-05-01_14Z.log");
}

#[test]
fn stamp_forms() {
    assert_eq!(at(14, 59, 59, 900_000_000).stamp_text(), "2024-05-01T14:59:59.900Z");
    assert_eq!(at(15, 0, 0, 0).stamp_text(), "2024-05-01T15:00:00Z");
    assert_eq!(at(15, 0, 0, 123_456_000).stamp_text(), "2024-05-01T15:00:00.123456Z");
    assert_eq!(at(15, 0, 0, 1).stamp_text(), "2024-05-01T15:00:00.000000001Z");
    assert_eq!(at(23, 59, 59, 1_500_000_000).stamp_text(), "2024-05-01T23:59:60.500Z");
}

#[test]
fn line_layout() {
    let line = capture_line(&at(14, 59, 59, 900_000_000), "{\"x\":1}");
    assert_eq!(line, "2024-05-01T14:59:59.900Z, {\"x\":1}\n");
}

#[test]
fn clock_fields_in_range() {
    let t = capture_now().expect("the clock reads a representable time");
    assert!(t.year >= 2000);
    assert!((1..=12).contains(&t.month));
    assert!((1..=31).contains(&t.day));
    assert!(t.hour < 24 && t.minute < 60 && t.second < 60);
    assert!(t.nanos < 2_000_000_000);
}

fn is_append_only(p: &WritePlan) -> bool {
    !p.sync_current && p.open.is_none()
}

#[test]
fn same_hour_one_file() {
    let mut w = writer();
    let first = w.record(&at(14, 0, 0, 0), "a\n".to_string());
    assert!(!first.sync_current);
    assert_eq!(first.open.as_deref(), Some("data/deribit-ws-2024-05-01_14Z.log"));
    assert_eq!(first.payload, "a\n");
    for (i, m) in [(1u32, "b\n"), (30, "c\n"), (59, "d\n")] {
        let p = w.record(&at(14, i, 59, 999_999_999), m.to_string());
        assert!(is_append_only(&p));
        assert_eq!(p.payload, m);
    }
    assert_eq!(w.current, Some(BucketKey { year: 2024, month: 5, day: 1, hour: 14 }));
}

#[test]
fn crossing_hour_syncs_then_opens() {
    let mut w = writer();
    w.record(&at(9, 10, 0, 0), "x\n".to_string());
    let p = w.record(&at(10, 0, 0, 0), "y\n".to_string());
    assert!(p.sync_current);
    assert_eq!(p.open.as_deref(), Some("data/deribit-ws-2024-05-01_10Z.log"));
    let q = w.record(&at(10, 0, 1, 0), "z\n".to_string());
    assert!(is_append_only(&q));
}

#[test]
fn long_gap_opens_only_next_bucket() {
    let mut w = writer();
    w.record(&at(1, 0, 0, 0), "x\n".to_string());
    let p = w.record(&at(7, 30, 0, 0), "y\n".to_string());
    assert!(p.sync_current);
    assert_eq!(p.open.as_deref(), Some("data/deribit-ws-2024-05-01_07Z.log"));
}

#[test]
fn records_straddling_the_hour() {
    let mut w = writer();
    let a = w.record(&at(14, 59, 59, 900_000_000), "first\n".to_string());
    let b = w.record(&at(15, 0, 0, 100_000_000), "second\n".to_string());
    let first_file = a.open.clone().unwrap();
    let second_file = b.open.clone().unwrap();
    assert_eq!(first_file, "data/deribit-ws-2024-05-01_14Z.log");
    assert_eq!(second_file, "data/deribit-ws-2024-05-01_15Z.log");
    assert_ne!(first_file, second_file);
    assert!(!a.sync_current);
    assert!(b.sync_current);
    assert_eq!(b.payload, "second\n");
}

fn session(policy: RetryPolicy) -> Session {
    Session::new(&deribit_plan(), &strings(&["BTC-PERPETUAL", "ETH-PERPETUAL"]), writer(), policy)
}

#[test]
fn close_then_open_resubscribes() {
    let mut s = session(RetryPolicy::immediate());
    let expected = deribit_plan().requests(&strings(&["BTC-PERPETUAL", "ETH-PERPETUAL"]));
    match s.handle(Event::Opened) {
        Action::Subscribe(v) => assert_eq!(v, expected),
        _ => panic!("expected a subscription"),
    }
    let closed = s.handle(Event::Closed { code: 1006, reason: "gone".to_string() });
    assert!(matches!(closed, Action::Reconnect { delay_ms: 0 }));
    assert_eq!(s.state, SessionState::Connecting);
    match s.handle(Event::Opened) {
        Action::Subscribe(v) => assert_eq!(v, expected),
        _ => panic!("expected a subscription"),
    }
    assert_eq!(s.state, SessionState::Open);
    assert_eq!(s.attempts, 0);
}

#[test]
fn text_frame_is_persisted() {
    let mut s = session(RetryPolicy::immediate());
    s.handle(Event::Opened);
    match s.handle(Event::Text { time: at(14, 59, 59, 900_000_000), text: "{}".to_string() }) {
        Action::Persist(p) => {
            assert_eq!(p.payload, "2024-05-01T14:59:59.900Z, {}\n");
            assert_eq!(p.open.as_deref(), Some("data/deribit-ws-2024-05-01_14Z.log"));
        }
        _ => panic!("expected a write"),
    }
}

#[test]
fn anomalies_are_reported() {
    let mut s = session(RetryPolicy::immediate());
    s.handle(Event::Opened);
    assert!(matches!(s.handle(Event::NonText { description: "ping".to_string() }), Action::Report));
    assert!(matches!(s.handle(Event::Error { description: "io".to_string() }), Action::Report));
    assert_eq!(s.state, SessionState::Open);
}

#[test]
fn bounded_policy_gives_up() {
    let policy = RetryPolicy { max_attempts: Some(2), base_delay_ms: 100, max_delay_ms: 1000 };
    let mut s = session(policy);
    let close = || Event::Closed { code: 1000, reason: String::new() };
    assert!(matches!(s.handle(close()), Action::Reconnect { delay_ms: 100 }));
    assert!(matches!(s.handle(close()), Action::Reconnect { delay_ms: 200 }));
    assert!(matches!(s.handle(close()), Action::GiveUp));
    assert_eq!(s.state, SessionState::Stopped);
}

#[test]
fn backoff_doubles_to_cap() {
    let p = RetryPolicy { max_attempts: None, base_delay_ms: 100, max_delay_ms: 1000 };
    let got: Vec<u64> = (0..7).map(|n| p.backoff(n)).collect();
    assert_eq!(got, vec![100, 200, 400, 800, 1000, 1000, 1000]);
    assert_eq!(p.backoff(u64::MAX), 1000);
    let zero = RetryPolicy { max_attempts: None, base_delay_ms: 0, max_delay_ms: 5 };
    assert_eq!(zero.backoff(40), 0);
    let big = RetryPolicy { max_attempts: None, base_delay_ms: u64::MAX, max_delay_ms: u64::MAX };
    assert_eq!(big.backoff(3), u64::MAX);
}

#[test]
fn batched_plan_sends_one_request() {
    let plan = SubscriptionPlan {
        groups: vec![
            ChannelGroup { id: 1, template: "book.{instrument}.raw".to_string(), instruments: None },
            ChannelGroup {
                id: 2,
                template: "index.{instrument}".to_string(),
                instruments: Some(strings(&["btc_usd"])),
            },
        ],
        batch_id: Some(9),
    };
    let reqs = plan.requests(&strings(&["A", "B"]));
    assert_eq!(
        reqs,
        vec![
            "{\"jsonrpc\":\"2.0\",\"method\":\"public/subscribe\",\"id\":9,\"params\":{\"channels\":[\"book.A.raw\",\"book.B.raw\",\"index.btc_usd\"]}}"
                .to_string()
        ]
    );
    let single = SubscriptionPlan { groups: plan.groups, batch_id: None };
    let per_group = single.requests(&strings(&["A", "B"]));
    assert_eq!(per_group.len(), 2);
    assert!(per_group[0].contains("\"id\":1,"));
    assert!(per_group[1].ends_with("[\"index.btc_usd\"]}}"));
}

#[test]
fn unix_time_before_and_after_epoch() {
    assert_eq!(unix_time(Ok((1_714_575_600, 5))), Some((1_714_575_600, 5)));
    assert_eq!(unix_time(Err((10, 0))), Some((-10, 0)));
    assert_eq!(unix_time(Err((10, 250_000_000))), Some((-11, 750_000_000)));
    assert_eq!(unix_time(Ok((u64::MAX, 0))), None);
    assert_eq!(unix_time(Err((1u64 << 63, 0))), None);
    assert_eq!(unix_time(Err(((1u64 << 63) - 1, 1))), Some((i64::MIN, 999_999_999)));
}
