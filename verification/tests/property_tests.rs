use event_store::aggregation::{DappRadarData, IntegrationsData, HOURLY_MAX_ENTRIES};
use event_store::anonymizer::anonymize;
use event_store::api::{EventsArgs, PushEventsArgs};
use event_store::calendar::timestamp_to_date;
use event_store::decimal::u32_to_dec_string;
use event_store::http::{parse_u32, process_dapp_radar_request, str_eq};
use event_store::rng::{random_bytes, random_string, random_u128};
use event_store::state::State;
use event_store::types::{Anonymizable, IdempotentEvent, IndexedEvent};

fn indexed(index: u64, user: &str, timestamp: u64) -> IndexedEvent {
    IndexedEvent {
        index,
        name: "event".to_string(),
        timestamp,
        user: Some(user.to_string()),
        source: None,
        payload: Vec::new(),
    }
}

#[test]
fn accepted_events_get_gapless_indices_across_batches() {
    let mut state = State::new(vec![vec![1]], vec![vec![1]], vec![vec![1]], None);
    state.set_salt([1u8; 32]);

    // Three batches of different sizes; indices must come out 0..6 in push
    // order regardless of the boundaries.
    for batch in [1usize, 2, 4] {
        let events: Vec<IdempotentEvent> = (0..batch)
            .map(|_| IdempotentEvent {
                idempotency_key: random_u128(),
                name: random_string(),
                timestamp: 5,
                user: None,
                source: None,
                payload: random_bytes(),
            })
            .collect();
        state.push_events(PushEventsArgs { events }, 0);
    }

    let read = state.events_inner(EventsArgs { start: 0, length: 100 });
    assert_eq!(read.events.len(), 7);
    for (i, ev) in read.events.iter().enumerate() {
        assert_eq!(ev.index, i as u64);
    }
    assert_eq!(read.latest_event_index, Some(6));
}

#[test]
fn anonymize_is_deterministic_and_32_hex_chars() {
    let salt = [7u8; 32];
    let first = anonymize("alice", &salt);
    let second = anonymize("alice", &salt);
    assert_eq!(first, second);
    assert_eq!(first.len(), 32);
    assert!(first.chars().all(|c| c.is_ascii_hexdigit() && !c.is_ascii_uppercase()));
    // The last sixteen bytes of SHA-256("alice" followed by the salt).
    assert_eq!(first, "fda8707412f7b3f6c77320459a557a47");
    // A different value and a different salt both change the digest.
    assert_ne!(anonymize("bob", &salt), first);
    assert_ne!(anonymize("alice", &[8u8; 32]), first);
}

#[test]
fn anonymize_hashes_utf8_bytes() {
    let salt = [7u8; 32];
    assert_eq!(anonymize("h\u{e9}llo", &salt), "6204f7c17d96cf9bc74da057029d25d1");
}

#[test]
fn calendar_decomposes_timestamps() {
    assert_eq!(timestamp_to_date(0), (1970, 1, 1, 0));
    assert_eq!(timestamp_to_date(3_599_999), (1970, 1, 1, 0));
    assert_eq!(timestamp_to_date(3_600_000), (1970, 1, 1, 1));
    assert_eq!(timestamp_to_date(86_400_000), (1970, 1, 2, 0));
    assert_eq!(timestamp_to_date(1_700_000_000_000), (2023, 11, 14, 22));
}

#[test]
fn decimal_renders_exact_values() {
    assert_eq!(u32_to_dec_string(0), "0");
    assert_eq!(u32_to_dec_string(7), "7");
    assert_eq!(u32_to_dec_string(1970), "1970");
    assert_eq!(u32_to_dec_string(u32::MAX), "4294967295");
}

#[test]
fn parse_u32_accepts_exactly_digit_strings_in_range() {
    assert_eq!(parse_u32("0"), Some(0));
    assert_eq!(parse_u32("4294967295"), Some(u32::MAX));
    assert_eq!(parse_u32("4294967296"), None);
    assert_eq!(parse_u32(""), None);
    assert_eq!(parse_u32("12a"), None);
    assert_eq!(parse_u32("-1"), None);
}

#[test]
fn str_eq_compares_contents() {
    assert!(str_eq("daily", "daily"));
    assert!(!str_eq("daily", "hourly"));
    assert!(!str_eq("daily", "dailyx"));
}

#[test]
fn aggregation_counts_users_per_bucket() {
    let mut data = DappRadarData::new();
    // Three events for two users inside one hour.
    data.push_event(&indexed(0, "alice", 1_000));
    data.push_event(&indexed(1, "bob", 2_000));
    data.push_event(&indexed(2, "alice", 3_000));

    let daily = data.daily(1970, 1, 1, 1);
    assert_eq!(daily.page_count, 1);
    assert_eq!(daily.results.len(), 2);
    assert_eq!(daily.results[0].user, "alice");
    assert_eq!(daily.results[0].transactions, 2);
    assert!(daily.results[0].date_time.is_none());
    assert_eq!(daily.results[1].user, "bob");
    assert_eq!(daily.results[1].transactions, 1);

    let hourly = data.hourly(1970, 1, 1, 1);
    assert_eq!(hourly.results.len(), 2);
    assert_eq!(
        hourly.results[0].date_time.as_deref(),
        Some("1970-01-01 00:00:00")
    );

    // Page zero serves only the page count.
    let count_only = data.hourly(1970, 1, 1, 0);
    assert_eq!(count_only.page_count, 1);
    assert!(count_only.results.is_empty());

    // A day with no buckets has no pages.
    let empty = data.daily(1970, 1, 2, 1);
    assert_eq!(empty.page_count, 0);
    assert!(empty.results.is_empty());
}

#[test]
fn aggregation_ignores_out_of_order_and_repeated_delivery() {
    let mut data = DappRadarData::new();
    data.push_event(&indexed(0, "alice", 1_000));
    // A replayed event and one from the future are both ignored.
    data.push_event(&indexed(0, "alice", 1_000));
    data.push_event(&indexed(5, "alice", 1_000));
    assert_eq!(data.next_event_index(), 1);

    let daily = data.daily(1970, 1, 1, 1);
    assert_eq!(daily.results[0].transactions, 1);
}

#[test]
fn hourly_eviction_keeps_most_recent_cap_buckets() {
    let mut data = DappRadarData::new();
    let hours = (HOURLY_MAX_ENTRIES as u64) + 1;
    for i in 0..hours {
        data.push_event(&indexed(i, "alice", i * 3_600_000));
    }

    // The very first hour was evicted: its day now answers with one bucket
    // fewer than a full day.
    let first_day = data.hourly(1970, 1, 1, 1);
    assert_eq!(first_day.results.len(), 23);
    assert_eq!(
        first_day.results[0].date_time.as_deref(),
        Some("1970-01-01 01:00:00")
    );

    // The most recent hour is queryable.
    let (y, m, d, _h) = timestamp_to_date((hours - 1) * 3_600_000);
    let last_day = data.hourly(y, m, d, 1);
    assert!(!last_day.results.is_empty());

    // Daily buckets are unbounded: the first day still counts all 24 hours.
    let first_day_daily = data.daily(1970, 1, 1, 1);
    assert_eq!(first_day_daily.results.len(), 1);
    assert_eq!(first_day_daily.results[0].transactions, 24);
}

#[test]
fn pagination_splits_rows_into_thousands() {
    let mut data = DappRadarData::new();
    // 1001 distinct users in one hour make 1001 rows: two pages.
    for i in 0..1001u64 {
        data.push_event(&indexed(i, &format!("user-{i}"), 1_000));
    }
    let page0 = data.daily(1970, 1, 1, 0);
    assert_eq!(page0.page_count, 2);
    assert_eq!(page0.results.len(), 0);
    let page1 = data.daily(1970, 1, 1, 1);
    assert_eq!(page1.results.len(), 1000);
    assert_eq!(page1.results[0].user, "user-0");
    let page2 = data.daily(1970, 1, 1, 2);
    assert_eq!(page2.results.len(), 1);
    assert_eq!(page2.results[0].user, "user-1000");
    let page3 = data.daily(1970, 1, 1, 3);
    assert_eq!(page3.results.len(), 0);
}

#[test]
fn http_request_parses_route_date_and_page() {
    let mut data = DappRadarData::new();
    data.push_event(&indexed(0, "alice", 1_000));

    let segments = |g: &str| {
        vec![
            "dapp-radar".to_string(),
            "aggregated-data".to_string(),
            "1970-01-01".to_string(),
            g.to_string(),
        ]
    };
    let qs = "page=1".to_string();

    let daily = process_dapp_radar_request(&data, &segments("daily"), Some(&qs)).unwrap();
    assert_eq!(daily.results.len(), 1);
    assert_eq!(daily.results[0].user, "alice");

    let hourly = process_dapp_radar_request(&data, &segments("hourly"), Some(&qs)).unwrap();
    assert_eq!(hourly.results.len(), 1);

    // No query string means page zero: the count alone.
    let count_only = process_dapp_radar_request(&data, &segments("daily"), None).unwrap();
    assert_eq!(count_only.page_count, 1);
    assert!(count_only.results.is_empty());

    // Malformed requests are refused.
    assert!(process_dapp_radar_request(&data, &segments("weekly"), Some(&qs)).is_none());
    let bad_date = vec![
        "dapp-radar".to_string(),
        "aggregated-data".to_string(),
        "1970-01".to_string(),
        "daily".to_string(),
    ];
    assert!(process_dapp_radar_request(&data, &bad_date, Some(&qs)).is_none());
    let wrong_root = vec![
        "other".to_string(),
        "aggregated-data".to_string(),
        "1970-01-01".to_string(),
        "daily".to_string(),
    ];
    assert!(process_dapp_radar_request(&data, &wrong_root, Some(&qs)).is_none());
    let bad_page = "page=abc".to_string();
    assert!(process_dapp_radar_request(&data, &segments("daily"), Some(&bad_page)).is_none());
}

#[test]
fn populate_catches_the_aggregation_index_up() {
    let mut state = State::new(vec![vec![1]], vec![vec![1]], vec![vec![1]], None);
    state.set_salt([1u8; 32]);

    for i in 0..5u64 {
        state.push_event(
            IdempotentEvent {
                idempotency_key: random_u128(),
                name: "n".to_string(),
                timestamp: i,
                user: Some(Anonymizable::Public("alice".to_string())),
                source: None,
                payload: Vec::new(),
            },
            0,
        );
    }
    // Normal ingestion keeps the aggregation index in step.
    assert_eq!(state.integrations_data().dapp_radar.next_event_index(), 5);
    let more = state.populate_integrations_data(10);
    assert!(!more);
    assert_eq!(state.integrations_data().dapp_radar.next_event_index(), 5);
    let daily = state.integrations_data().dapp_radar.daily(1970, 1, 1, 1);
    assert_eq!(daily.results[0].transactions, 5);

    // Lose the derived data (as an interrupted upgrade would) and let the
    // catch-up job rebuild it in batches.
    *state.integrations_data_mut() = IntegrationsData::new();
    assert_eq!(state.integrations_data().dapp_radar.next_event_index(), 0);

    // A batch that stops one event short of the log's end must still report
    // work remaining: the signal goes false only once the cursor reaches the
    // end.
    let more = state.populate_integrations_data(4);
    assert!(more);
    assert_eq!(state.integrations_data().dapp_radar.next_event_index(), 4);
    let more = state.populate_integrations_data(4);
    assert!(!more);
    assert_eq!(state.integrations_data().dapp_radar.next_event_index(), 5);
    let rebuilt = state.integrations_data().dapp_radar.daily(1970, 1, 1, 1);
    assert_eq!(rebuilt.results[0].transactions, 5);
}

#[test]
fn consumer_cursor_advances_with_batches() {
    let client = event_store::consumer::EventStoreClientBuilder::new(vec![4])
        .with_batch_size(3)
        .build();
    let mut client = client;
    let args = client.next_batch_args();
    assert_eq!(args.start, 0);
    assert_eq!(args.length, 3);

    let response = event_store::api::EventsResponse {
        events: vec![indexed(0, "a", 0), indexed(1, "a", 0), indexed(2, "a", 0)],
        latest_event_index: Some(9),
        earliest_event_index_stored: Some(0),
    };
    client.record_response(&response);
    let args = client.next_batch_args();
    assert_eq!(args.start, 3);

    // An empty batch leaves the cursor where it was.
    let empty = event_store::api::EventsResponse {
        events: Vec::new(),
        latest_event_index: Some(9),
        earliest_event_index_stored: Some(0),
    };
    client.record_response(&empty);
    assert_eq!(client.next_batch_args().start, 3);
}

#[test]
fn consumer_builder_resumes_past_synced_index() {
    let client = event_store::consumer::EventStoreClientBuilder::new(vec![4])
        .set_synced_up_to(41)
        .build();
    let args = client.next_batch_args();
    assert_eq!(args.start, 42);
    assert_eq!(args.length, 1000);
}

#[test]
fn random_helpers_have_the_stated_shapes() {
    assert_eq!(random_bytes().len(), 32);
    let s = random_string();
    assert!(!s.is_empty());
    assert!(s.chars().all(|c| c.is_ascii_digit()));
    // The wrapper really consults the generator: two draws of 128 bits
    // colliding is beyond plausibility.
    assert_ne!(random_u128(), random_u128());
}

#[test]
fn event_builder_assembles_all_fields() {
    let event = event_store::types::EventBuilder::new("click".to_string(), 123)
        .with_user("alice".to_string(), true)
        .with_maybe_source(Some("web".to_string()), false)
        .with_payload(vec![9])
        .build();
    let idem = event.to_idempotent(77);
    assert_eq!(idem.idempotency_key, 77);
    assert_eq!(idem.name, "click");
    assert_eq!(idem.timestamp, 123);
    assert!(matches!(idem.user, Some(Anonymizable::Anonymize(ref u)) if u == "alice"));
    assert!(matches!(idem.source, Some(Anonymizable::Public(ref s)) if s == "web"));
    assert_eq!(idem.payload, vec![9]);
    let back = event_store::types::Event::from(idem);
    let round = back.to_idempotent(78);
    assert_eq!(round.name, "click");
}

#[test]
fn anonymizable_tags_and_reads_back() {
    let public = Anonymizable::new("alice".to_string(), false);
    assert!(public.is_public());
    assert_eq!(public.as_str(), "alice");
    let hidden = Anonymizable::new("alice".to_string(), true);
    assert!(!hidden.is_public());
    assert_eq!(hidden.as_str(), "alice");
}

#[test]
fn integrations_data_reports_lowest_cursor() {
    let mut data = IntegrationsData::new();
    assert_eq!(data.next_event_index(), Some(0));
    data.push_event(&indexed(0, "alice", 0));
    assert_eq!(data.next_event_index(), Some(1));
}

#[test]
fn deduper_reports_size_and_prunes() {
    let mut deduper = event_store::deduper::EventDeduper::new(1_000);
    assert!(deduper.is_empty());
    assert!(deduper.try_push(1, 0));
    assert!(!deduper.try_push(1, 10));
    assert!(deduper.try_push(2, 10));
    assert_eq!(deduper.len(), 2);
    // Far past the window: pruning runs and both records age out.
    assert!(deduper.try_push(1, 10_000));
    assert_eq!(deduper.len(), 1);
    assert!(!deduper.is_empty());
}

#[test]
fn interner_round_trips_strings() {
    let mut map = event_store::interner::StringToNumMap::new();
    let a = map.convert_to_num("alpha".to_string());
    let b = map.convert_to_num("beta".to_string());
    let a2 = map.convert_to_num("alpha".to_string());
    assert_eq!(a, 0);
    assert_eq!(b, 1);
    assert_eq!(a, a2);
    assert_eq!(map.convert_to_string(a).as_deref(), Some("alpha"));
    assert_eq!(map.convert_to_string(b).as_deref(), Some("beta"));
    assert_eq!(map.convert_to_string(2), None);
}

#[test]
fn is_empty_slice_checks_length() {
    assert!(event_store::types::is_empty_slice::<u8>(&[]));
    assert!(!event_store::types::is_empty_slice(&[1u8]));
}

#[test]
fn bucket_timestamp_rounds_down() {
    assert_eq!(event_store::bucket_timestamp(1001, Some(100)), 1000);
    assert_eq!(event_store::bucket_timestamp(1001, None), 1001);
    assert_eq!(event_store::bucket_timestamp(999, Some(1000)), 0);
}
