use nayok::codec::decode_encoded;
use nayok::event::{collapse_headers, Event};
use nayok::replay::{advance_cursor, plan_send, query_path, run_batch, ReplayError};
use nayok::server::{
    handle_capture, handle_query, handle_request, route, CaptureOutcome, QueryOutcome, Route,
    ServerReply,
};
use nayok::store::EventStore;
use nayok::text::{parse_u32, pct_component, u32_to_dec};
use nayok::urls::find_param;

fn header(k: &str, v: &str) -> (String, String) {
    (k.to_string(), v.to_string())
}

fn sample_event(id: u32, uri: &str, body_base64: &str) -> Event {
    Event {
        id,
        relative_uri: uri.to_string(),
        method: "POST".to_string(),
        headers: vec![header("x-test", "v1"), header("host", "captured.example")],
        body_base64: body_base64.to_string(),
        created_at: 1_000_000_000,
    }
}

#[test]
fn body_roundtrips_byte_for_byte() {
    assert_eq!(decode_encoded(b"hello"), b"hello");
    assert_eq!(decode_encoded(b""), b"");
    let all: Vec<u8> = (0u8..=255).collect();
    assert_eq!(decode_encoded(&all), all);
}

#[test]
fn parse_u32_accepts_digits_only() {
    assert_eq!(parse_u32("0"), Some(0));
    assert_eq!(parse_u32("42"), Some(42));
    assert_eq!(parse_u32("007"), Some(7));
    assert_eq!(parse_u32("4294967295"), Some(u32::MAX));
    assert_eq!(parse_u32("4294967296"), None);
    assert_eq!(parse_u32(""), None);
    assert_eq!(parse_u32("abc"), None);
    assert_eq!(parse_u32("+5"), None);
    assert_eq!(parse_u32("-1"), None);
    assert_eq!(parse_u32("1 2"), None);
}

#[test]
fn u32_renders_in_decimal() {
    assert_eq!(u32_to_dec(0), "0");
    assert_eq!(u32_to_dec(12345), "12345");
    assert_eq!(u32_to_dec(u32::MAX), "4294967295");
    assert_eq!(parse_u32(&u32_to_dec(908)), Some(908));
}

#[test]
fn percent_encoding_escapes_reserved_characters() {
    assert_eq!(pct_component("2020-06-09T23:59:59Z"), "2020-06-09T23%3A59%3A59Z");
    assert_eq!(pct_component("a b+c"), "a%20b%2Bc");
    assert_eq!(pct_component("A-z.0_~"), "A-z.0_~");
}

#[test]
fn poll_path_carries_cursor_and_date() {
    assert_eq!(
        query_path(17, "2020-06-09T23:59:59Z"),
        "/notification-results?from_date=2020-06-09T23%3A59%3A59Z&from_id=17"
    );
}

#[test]
fn find_param_takes_last_occurrence() {
    let pairs = vec![header("a", "1"), header("b", "2"), header("a", "3")];
    assert_eq!(find_param(&pairs, "a"), Some("3".to_string()));
    assert_eq!(find_param(&pairs, "b"), Some("2".to_string()));
    assert_eq!(find_param(&pairs, "c"), None);
}

#[test]
fn routes_dispatch_by_path_and_method() {
    assert!(matches!(route("/", "GET"), Route::Root));
    assert!(matches!(route("/n/abc", "POST"), Route::Capture));
    assert!(matches!(route("/n/", "PUT"), Route::Capture));
    assert!(matches!(route("/notification-results", "GET"), Route::QueryResults));
    assert!(matches!(route("/notification-results", "POST"), Route::NotFound));
    assert!(matches!(route("/nowhere", "GET"), Route::NotFound));
    assert!(matches!(route("/n", "GET"), Route::NotFound));
}

#[test]
fn capture_stores_stripped_uri_and_encoded_body() {
    // Scenario: POST /hook/abc?x=1 arrives under the capture prefix as
    // /n/abc?x=1 with one custom header and the body `hello`.
    let mut store = EventStore::new();
    let outcome = handle_capture(
        &mut store,
        "POST".to_string(),
        "/n/abc?x=1".to_string(),
        vec![header("X-Test", "v1")],
        Some(b"hello".to_vec()),
        1_000_000_000,
    );
    match outcome {
        CaptureOutcome::Saved(id) => assert_eq!(id, 1),
        _ => panic!("capture should store the event"),
    }
    assert_eq!(store.len(), 1);
    let e = store.get(0);
    assert_eq!(e.id, 1);
    assert_eq!(e.relative_uri, "/abc?x=1");
    assert_eq!(e.method, "POST");
    assert_eq!(e.headers, vec![header("X-Test", "v1")]);
    assert_eq!(e.body_base64, "aGVsbG8=");
    assert_eq!(e.created_at, 1_000_000_000);
    assert_eq!(decode_encoded(b"hello"), b"hello");
}

#[test]
fn collapse_keeps_the_last_of_each_name() {
    let collapsed = collapse_headers(&vec![
        header("a", "1"),
        header("x", "v"),
        header("a", "2"),
        header("b", "3"),
    ]);
    assert_eq!(collapsed, vec![header("x", "v"), header("a", "2"), header("b", "3")]);
    assert_eq!(collapse_headers(&vec![]), vec![]);
    let untouched = vec![header("a", "1"), header("b", "2")];
    assert_eq!(collapse_headers(&untouched), untouched);
    // Names are compared as received: different spellings both stay.
    let cased = vec![header("A", "1"), header("a", "2")];
    assert_eq!(collapse_headers(&cased), cased);
}

#[test]
fn capture_stores_one_value_per_header_name() {
    // Two headers of one name arrive; the stored event holds the last
    // occurrence alone.
    let mut store = EventStore::new();
    handle_capture(
        &mut store,
        "POST".to_string(),
        "/n/abc".to_string(),
        vec![header("x-dup", "old"), header("x-keep", "v"), header("x-dup", "new")],
        Some(b"x".to_vec()),
        0,
    );
    assert_eq!(store.get(0).headers, vec![header("x-keep", "v"), header("x-dup", "new")]);
}

#[test]
fn restore_keeps_ids_and_refuses_disorder() {
    let mut store = EventStore::new();
    assert!(store
        .restore(5, "/a".to_string(), "GET".to_string(), vec![], "".to_string(), 100)
        .is_ok());
    assert!(store
        .restore(7, "/b".to_string(), "PUT".to_string(), vec![], "".to_string(), 200)
        .is_ok());
    // An id at or below the last one, or an older stamp, is refused
    // and changes nothing.
    assert!(store
        .restore(7, "/c".to_string(), "GET".to_string(), vec![], "".to_string(), 300)
        .is_err());
    assert!(store
        .restore(9, "/d".to_string(), "GET".to_string(), vec![], "".to_string(), 150)
        .is_err());
    assert_eq!(store.len(), 2);
    assert_eq!(store.get(0).id, 5);
    assert_eq!(store.get(1).id, 7);
    // The reloaded log serves queries as before the restart.
    let ids: Vec<u32> = store.query(5, 0).iter().map(|e| e.id).collect();
    assert_eq!(ids, vec![7]);
}

#[test]
fn capture_without_body_stores_nothing() {
    let mut store = EventStore::new();
    let outcome = handle_capture(
        &mut store,
        "POST".to_string(),
        "/n/abc".to_string(),
        vec![],
        None,
        0,
    );
    assert!(matches!(outcome, CaptureOutcome::BadBody));
    assert_eq!(store.len(), 0);
}

#[test]
fn capture_clamps_timestamps_forward() {
    let mut store = EventStore::new();
    handle_capture(&mut store, "GET".to_string(), "/n/a".to_string(), vec![], Some(vec![]), 50);
    handle_capture(&mut store, "GET".to_string(), "/n/b".to_string(), vec![], Some(vec![]), 20);
    assert_eq!(store.get(0).created_at, 50);
    assert_eq!(store.get(1).created_at, 50);
}

fn store_with_three_events() -> EventStore {
    let mut store = EventStore::new();
    for name in ["/n/a", "/n/b", "/n/c"] {
        let outcome = handle_capture(
            &mut store,
            "POST".to_string(),
            name.to_string(),
            vec![],
            Some(b"x".to_vec()),
            1_000_000_000,
        );
        assert!(matches!(outcome, CaptureOutcome::Saved(_)));
    }
    store
}

#[test]
fn query_after_cursor_returns_newer_events_in_order() {
    // Scenario: ids 1,2,3 exist; from_id=1 returns exactly [2,3].
    let store = store_with_three_events();
    let events = store.query(1, 0);
    let ids: Vec<u32> = events.iter().map(|e| e.id).collect();
    assert_eq!(ids, vec![2, 3]);
}

#[test]
fn query_returns_appends_in_ascending_id_order() {
    let store = store_with_three_events();
    let events = store.query(0, 0);
    let ids: Vec<u32> = events.iter().map(|e| e.id).collect();
    assert_eq!(ids, vec![1, 2, 3]);
    assert_eq!(events[0].relative_uri, "/a");
    assert_eq!(events[2].relative_uri, "/c");
}

#[test]
fn query_is_idempotent_without_intervening_appends() {
    let store = store_with_three_events();
    let first = store.query(1, 5);
    let second = store.query(1, 5);
    assert_eq!(first.len(), second.len());
    for (a, b) in first.iter().zip(second.iter()) {
        assert_eq!(a.id, b.id);
        assert_eq!(a.relative_uri, b.relative_uri);
        assert_eq!(a.created_at, b.created_at);
    }
}

#[test]
fn query_filters_by_both_cursor_halves() {
    let store = store_with_three_events();
    assert_eq!(store.query(3, 0).len(), 0);
    assert_eq!(store.query(0, 1_000_000_000).len(), 0);
    assert_eq!(store.query(0, 999_999_999).len(), 3);
}

#[test]
fn query_endpoint_rejects_missing_or_wrong_token() {
    // Scenario: without Authorization the reply is 401 with no event
    // data, even though matching events exist.
    let store = store_with_three_events();
    let r = handle_query(&store, Some("from_id=0"), None, "secret");
    assert!(matches!(r, QueryOutcome::Unauthorized));
    let r = handle_query(&store, Some("from_id=0"), Some("wrong"), "secret");
    assert!(matches!(r, QueryOutcome::Unauthorized));
    let r = handle_query(&store, None, Some("Secret"), "secret");
    assert!(matches!(r, QueryOutcome::Unauthorized));
}

#[test]
fn query_endpoint_names_bad_from_id() {
    // Scenario: from_id=abc is answered with a client error naming the
    // parameter; no event data leaves.
    let store = store_with_three_events();
    let r = handle_query(&store, Some("from_id=abc"), Some("secret"), "secret");
    match r {
        QueryOutcome::BadRequest(msg) => {
            assert_eq!(msg, "Parameter 'from_id' should be a non-negative integer: abc");
        }
        _ => panic!("expected a client error for from_id"),
    }
}

#[test]
fn query_endpoint_names_bad_from_date() {
    let store = store_with_three_events();
    let r = handle_query(
        &store,
        Some("from_id=1&from_date=yesterday"),
        Some("secret"),
        "secret",
    );
    match r {
        QueryOutcome::BadRequest(msg) => {
            assert_eq!(msg, "Parameter 'from_date' should be an RFC 3339 date-time: yesterday");
        }
        _ => panic!("expected a client error for from_date"),
    }
}

#[test]
fn query_endpoint_lists_events_newer_than_cursor() {
    let store = store_with_three_events();
    let r = handle_query(&store, Some("from_id=1"), Some("secret"), "secret");
    match r {
        QueryOutcome::Events(events) => {
            let ids: Vec<u32> = events.iter().map(|e| e.id).collect();
            assert_eq!(ids, vec![2, 3]);
        }
        _ => panic!("expected events"),
    }
}

#[test]
fn query_endpoint_defaults_to_everything() {
    let store = store_with_three_events();
    let r = handle_query(&store, None, Some("secret"), "secret");
    match r {
        QueryOutcome::Events(events) => assert_eq!(events.len(), 3),
        _ => panic!("expected events"),
    }
}

#[test]
fn query_endpoint_decodes_percent_escapes() {
    // The stored events carry created_at = 1_000_000_000 (2001); a
    // from_date in 2000 keeps them, one in 2020 filters them out.
    let store = store_with_three_events();
    let r = handle_query(
        &store,
        Some("from_id=0&from_date=2000-01-01T00%3A00%3A00%2B00%3A00"),
        Some("secret"),
        "secret",
    );
    match r {
        QueryOutcome::Events(events) => assert_eq!(events.len(), 3),
        _ => panic!("expected events"),
    }
    let r = handle_query(
        &store,
        Some("from_id=0&from_date=2020-01-01T00%3A00%3A00Z"),
        Some("secret"),
        "secret",
    );
    match r {
        QueryOutcome::Events(events) => assert_eq!(events.len(), 0),
        _ => panic!("expected an empty listing"),
    }
}

#[test]
fn query_endpoint_takes_last_duplicate_parameter() {
    let store = store_with_three_events();
    let r = handle_query(&store, Some("from_id=0&from_id=2"), Some("secret"), "secret");
    match r {
        QueryOutcome::Events(events) => {
            let ids: Vec<u32> = events.iter().map(|e| e.id).collect();
            assert_eq!(ids, vec![3]);
        }
        _ => panic!("expected events"),
    }
}

#[test]
fn poll_path_is_read_back_by_the_endpoint() {
    // The client's own poll path, handed to the server's parameter
    // parsing, must yield the cursor the client asked for.
    let store = store_with_three_events();
    let path = query_path(1, "2000-01-01T00:00:00+00:00");
    let query = path.strip_prefix("/notification-results?").unwrap();
    let r = handle_query(&store, Some(query), Some("secret"), "secret");
    match r {
        QueryOutcome::Events(events) => {
            let ids: Vec<u32> = events.iter().map(|e| e.id).collect();
            assert_eq!(ids, vec![2, 3]);
        }
        _ => panic!("expected events"),
    }
}

#[test]
fn request_dispatch_answers_each_route() {
    let mut store = EventStore::new();
    let token = "secret";
    let r = handle_request(
        &mut store,
        "GET".to_string(),
        "/".to_string(),
        None,
        vec![],
        None,
        None,
        token,
        0,
    );
    assert_eq!(r.status_code(), 200);
    assert_eq!(r.body_text().unwrap(), "Nayok operational");

    let r = handle_request(
        &mut store,
        "POST".to_string(),
        "/n/abc".to_string(),
        Some("x=1"),
        vec![header("X-Test", "v1")],
        None,
        Some(b"hi".to_vec()),
        token,
        7,
    );
    assert!(matches!(&r, ServerReply::Captured(CaptureOutcome::Saved(1))));
    assert_eq!(r.status_code(), 200);
    assert_eq!(r.body_text().unwrap(), "OK");
    assert_eq!(store.get(0).relative_uri, "/abc?x=1");

    let r = handle_request(
        &mut store,
        "GET".to_string(),
        "/notification-results".to_string(),
        None,
        vec![],
        None,
        None,
        token,
        0,
    );
    assert_eq!(r.status_code(), 401);
    assert_eq!(r.body_text().unwrap(), "Invalid auth token");

    let r = handle_request(
        &mut store,
        "GET".to_string(),
        "/elsewhere".to_string(),
        None,
        vec![],
        None,
        None,
        token,
        0,
    );
    assert_eq!(r.status_code(), 404);

    let r = handle_request(
        &mut store,
        "POST".to_string(),
        "/n/oops".to_string(),
        None,
        vec![],
        None,
        None,
        token,
        0,
    );
    // Body read failed: a client error, nothing stored.
    assert_eq!(r.status_code(), 400);
    assert_eq!(store.len(), 1);
}

#[test]
fn replay_reconstructs_the_original_request() {
    let event = sample_event(4, "/abc?x=1", "aGVsbG8=");
    let out = plan_send(&event, "http://localhost:8080").unwrap();
    assert_eq!(out.method, "POST");
    assert_eq!(out.url, "http://localhost:8080/abc?x=1");
    assert_eq!(out.body, b"hello");
    assert_eq!(out.headers, vec![header("x-test", "v1")]);
}

#[test]
fn replay_never_forwards_a_host_header() {
    let mut event = sample_event(1, "/a", "");
    event.headers = vec![
        header("host", "a"),
        header("Host", "b"),
        header("HOST", "c"),
        header("x-keep", "d"),
        header("hostile", "kept: not a Host header"),
    ];
    let out = plan_send(&event, "http://localhost:8080").unwrap();
    assert_eq!(out.headers, vec![header("x-keep", "d"), header("hostile", "kept: not a Host header")]);
}

#[test]
fn replay_rejects_a_bad_destination_or_body() {
    let event = sample_event(1, "/a", "aGVsbG8=");
    assert!(matches!(plan_send(&event, "not a url"), Err(ReplayError::BadUrl)));
    let event = sample_event(1, "/a", "not base64!");
    assert!(matches!(plan_send(&event, "http://localhost:8080"), Err(ReplayError::BadBody)));
}

#[test]
fn cursor_advances_regardless_of_outcome() {
    // Scenario: the destination is unreachable, both sends fail, and
    // the cursor still advances to the largest id in the batch.
    let events = vec![sample_event(5, "/a", ""), sample_event(9, "/b", "")];
    let (cursor, records) = run_batch(3, &events, &vec![false, false]);
    assert_eq!(cursor, 9);
    assert_eq!(records.len(), 2);
    assert!(records.iter().all(|r| !r.success));
    assert_eq!(records[0].id, 5);
    assert_eq!(records[1].id, 9);
    assert_eq!(records[0].method, "POST");
    assert_eq!(records[0].relative_uri, "/a");

    // The same batch with every outcome flipped moves the cursor to
    // the same place.
    let (cursor_ok, _) = run_batch(3, &events, &vec![true, true]);
    assert_eq!(cursor_ok, cursor);
}

#[test]
fn captured_requests_replay_byte_for_byte() {
    // The whole pipeline: capture an inbound request, query it back,
    // reconstruct it, and find the original body, method and URI.
    let mut store = EventStore::new();
    let body: Vec<u8> = vec![0, 159, 146, 150, 13, 10, 255];
    handle_capture(
        &mut store,
        "PUT".to_string(),
        "/n/deep/path?a=b&c=%20".to_string(),
        vec![header("host", "captured.example"), header("x-keep", "v")],
        Some(body.clone()),
        1_234,
    );
    let fetched = store.query(0, 0);
    assert_eq!(fetched.len(), 1);
    let out = plan_send(&fetched[0], "https://replay.example/base/").unwrap();
    assert_eq!(out.body, body);
    assert_eq!(out.method, "PUT");
    assert_eq!(out.url, "https://replay.example/deep/path?a=b&c=%20");
    assert_eq!(out.headers, vec![header("x-keep", "v")]);
}

#[test]
fn cursor_never_moves_backwards() {
    assert_eq!(advance_cursor(7, 3), 7);
    assert_eq!(advance_cursor(3, 7), 7);
    let events = vec![sample_event(2, "/a", "")];
    let (cursor, _) = run_batch(10, &events, &vec![true]);
    assert_eq!(cursor, 10);
}
