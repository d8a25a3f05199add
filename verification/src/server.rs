//! The capture server's request handling: routing, the capture
//! handler, and the authenticated query handler.
//!
//! Transport stays outside the library: the caller hands in the
//! method, path, query string, headers and body of one inbound
//! request as plain values, and turns the returned reply into an
//! HTTP response.

use vstd::prelude::*;
use vstd::string::*;
use crate::clock::{parse_rfc3339, rfc3339_secs};
use crate::codec::{b64_encode, b64_encoding};
use crate::event::{Event, EventModel, collapse_headers, collapsed, event_models};
use crate::store::{EventStore, StoreModel, imax, query_model};
use crate::text::{all_digits, dec_value, pair_views, parse_u32, str_eq};
use crate::urls::{form_decoded, lookup_param, parse_query_pairs, find_param};

verus! {

/// A path under the reserved capture prefix `/n/`.
pub open spec fn has_capture_prefix(p: Seq<char>) -> bool {
    p.len() >= 3 && p[0] == '/' && p[1] == 'n' && p[2] == '/'
}

/// Where one inbound request is directed.
pub enum Route {
    /// The bare root path: a liveness answer.
    Root,
    /// Any request under the capture prefix: stored as an event.
    Capture,
    /// The event listing, `GET /notification-results`.
    QueryResults,
    /// Anything else.
    NotFound,
}

/// Direct a request by its path and method, as the server does:
/// the bare root answers a liveness line, anything under the capture
/// prefix is captured whatever its method, and the event listing
/// answers `GET` alone.
pub fn route(path: &str, method: &str) -> (r: Route)
    ensures
        r is Root <==> path@ == "/"@,
        r is Capture <==> has_capture_prefix(path@),
        r is QueryResults <==> (path@ == "/notification-results"@ && method@ == "GET"@ && !(
        path@ == "/"@) && !has_capture_prefix(path@)),
{
    proof {
        reveal_strlit("/");
        reveal_strlit("/notification-results");
    }
    if str_eq(path, "/") {
        return Route::Root;
    }
    let n: usize = path.unicode_len();
    if n >= 3 && path.get_char(0) == '/' && path.get_char(1) == 'n' && path.get_char(2) == '/' {
        return Route::Capture;
    }
    if str_eq(path, "/notification-results") && str_eq(method, "GET") {
        proof {
            assert(!has_capture_prefix(path@));
        }
        return Route::QueryResults;
    }
    Route::NotFound
}

/// How the capture handler answered.
pub enum CaptureOutcome {
    /// The event was stored under the returned id.
    Saved(u32),
    /// The body could not be read; nothing was stored.
    BadBody,
    /// The store refused the append; nothing was stored.
    StoreFailed,
}

/// What capturing one request does to the store and reports back:
/// a missing body is refused and stores nothing; a store failure
/// stores nothing; otherwise the log grows by exactly one event
/// holding the stripped URI, the method, the headers collapsed to one
/// value per name — the last occurrence of a duplicate name wins —
/// the text-safe encoding of the body, and a stamp never older than
/// the log's newest.
pub open spec fn capture_spec(
    pre: StoreModel,
    post: StoreModel,
    r: CaptureOutcome,
    uri: Seq<char>,
    method: Seq<char>,
    headers: Seq<(Seq<char>, Seq<char>)>,
    body: Option<Seq<u8>>,
    now: int,
) -> bool {
    &&& (body is None ==> r is BadBody && post == pre)
    &&& (body is Some && pre.next_id == u32::MAX as int ==> r is StoreFailed && post == pre)
    &&& (body is Some && pre.next_id < u32::MAX as int ==> r is Saved && r->Saved_0 as int
        == pre.next_id && post.next_id == pre.next_id + 1 && post.last_stamp == imax(
        now,
        pre.last_stamp,
    ) && post.log == pre.log.push(
        EventModel {
            id: pre.next_id,
            relative_uri: uri,
            method: method,
            headers: collapsed(headers),
            body_base64: b64_encoding(body->Some_0),
            created_at: imax(now, pre.last_stamp),
        },
    ))
}

/// Capture one inbound request as an event.
///
/// `path_and_query` is the request's path with its query string, as
/// received; the reserved two-character prefix is stripped so the
/// stored `relative_uri` is what the original caller addressed. A
/// body of `None` means the body could not be fully read; per the
/// contract nothing is stored then.
pub fn handle_capture(
    store: &mut EventStore,
    method: String,
    path_and_query: String,
    headers: Vec<(String, String)>,
    body: Option<Vec<u8>>,
    now: i64,
) -> (r: CaptureOutcome)
    requires
        old(store).wf(),
        has_capture_prefix(path_and_query@),
    ensures
        final(store).wf(),
        capture_spec(
            old(store)@,
            final(store)@,
            r,
            path_and_query@.subrange(2, path_and_query@.len() as int),
            method@,
            pair_views(headers@),
            match body {
                Some(b) => Some(b@),
                None => None,
            },
            now as int,
        ),
{
    let bytes = match body {
        Some(b) => b,
        None => {
            return CaptureOutcome::BadBody;
        },
    };
    let n: usize = path_and_query.as_str().unicode_len();
    let rel = path_and_query.as_str().substring_char(2, n).to_owned();
    let stored_headers = collapse_headers(&headers);
    let body_base64 = b64_encode(bytes.as_slice());
    match store.append_at(rel, method, stored_headers, body_base64, now) {
        Ok(id) => CaptureOutcome::Saved(id),
        Err(_) => CaptureOutcome::StoreFailed,
    }
}

/// How the query handler answered.
pub enum QueryOutcome {
    /// The shared token was absent or wrong; no event data leaves.
    Unauthorized,
    /// A parameter did not parse; the message names it and the value.
    BadRequest(String),
    /// The events newer than the requested cursor, ascending by id.
    Events(Vec<Event>),
}

/// The view of an optional string.
pub open spec fn opt_chars(o: Option<&str>) -> Option<Seq<char>> {
    match o {
        Some(s) => Some(s@),
        None => None,
    }
}

/// The decoded pairs of an optional query string: none at all when
/// the request carried no query string.
pub open spec fn request_params(q: Option<Seq<char>>) -> Seq<(Seq<char>, Seq<char>)> {
    match q {
        Some(qs) => form_decoded(qs),
        None => Seq::empty(),
    }
}

/// The last value supplied for `key`, or the default.
pub open spec fn param_or(
    pairs: Seq<(Seq<char>, Seq<char>)>,
    key: Seq<char>,
    dflt: Seq<char>,
) -> Seq<char> {
    match lookup_param(pairs, key) {
        Some(v) => v,
        None => dflt,
    }
}

/// A well-formed `from_id` value: a non-empty run of decimal digits
/// denoting a number that fits in a `u32`.
pub open spec fn valid_from_id(s: Seq<char>) -> bool {
    s.len() > 0 && all_digits(s) && dec_value(s) <= u32::MAX as int
}

/// The shared-token check: the header must be present and match the
/// configured token exactly.
pub open spec fn auth_ok(auth: Option<Seq<char>>, token: Seq<char>) -> bool {
    auth is Some && auth->Some_0 == token
}

/// The client error sent back for an unparsable `from_id`.
pub open spec fn from_id_error(v: Seq<char>) -> Seq<char> {
    "Parameter 'from_id' should be a non-negative integer: "@ + v
}

/// The client error sent back for an unparsable `from_date`.
pub open spec fn from_date_error(v: Seq<char>) -> Seq<char> {
    "Parameter 'from_date' should be an RFC 3339 date-time: "@ + v
}

/// What the query handler answers, for every input: no event data
/// without the exact token; a named client error when a supplied
/// parameter does not parse, `from_id` checked first; otherwise
/// exactly the store's events newer than the requested cursor.
/// Parameters left out fall back to id 0 and an epoch far in the
/// past.
pub open spec fn query_reply_spec(
    log: Seq<EventModel>,
    qm: Option<Seq<char>>,
    auth: Option<Seq<char>>,
    token: Seq<char>,
    r: QueryOutcome,
) -> bool {
    let pairs = request_params(qm);
    let ids = param_or(pairs, "from_id"@, "0"@);
    let ds = param_or(pairs, "from_date"@, "2000-01-01T00:00:00+00:00"@);
    &&& (!auth_ok(auth, token) ==> r is Unauthorized)
    &&& (auth_ok(auth, token) && !valid_from_id(ids) ==> r is BadRequest && r->BadRequest_0@
        == from_id_error(ids))
    &&& (auth_ok(auth, token) && valid_from_id(ids) && rfc3339_secs(ds) is None ==> r
        is BadRequest && r->BadRequest_0@ == from_date_error(ds))
    &&& (auth_ok(auth, token) && valid_from_id(ids) && rfc3339_secs(ds) is Some ==> r is Events
        && event_models(r->Events_0@) == query_model(
        log,
        dec_value(ids),
        rfc3339_secs(ds)->Some_0 as int,
    ))
}

/// Auth-gating law: whatever the cursor parameters hold, a request
/// without the exact token is answered `Unauthorized`, a reply that
/// carries no event data.
pub proof fn lemma_auth_gates(
    log: Seq<EventModel>,
    qm: Option<Seq<char>>,
    auth: Option<Seq<char>>,
    token: Seq<char>,
    r: QueryOutcome,
)
    requires
        query_reply_spec(log, qm, auth, token, r),
        !auth_ok(auth, token),
    ensures
        r is Unauthorized,
{
}

/// Glue two strings.
fn concat_str(prefix: &str, value: &str) -> (r: String)
    ensures
        r@ == prefix@ + value@,
{
    let mut s = prefix.to_owned();
    s.append(value);
    s
}

/// Answer one query request: check the token, validate the cursor
/// parameters, and list the events newer than the cursor.
pub fn handle_query(
    store: &EventStore,
    query: Option<&str>,
    auth: Option<&str>,
    token: &str,
) -> (r: QueryOutcome)
    requires
        store.wf(),
    ensures
        query_reply_spec(store@.log, opt_chars(query), opt_chars(auth), token@, r),
{
    let authed = match auth {
        Some(a) => str_eq(a, token),
        None => false,
    };
    if !authed {
        return QueryOutcome::Unauthorized;
    }
    let pairs: Vec<(String, String)> = match query {
        Some(q) => parse_query_pairs(q),
        None => Vec::new(),
    };
    proof {
        assert(pair_views(pairs@) =~= request_params(opt_chars(query)));
    }
    let id_str: String = match find_param(&pairs, "from_id") {
        Some(v) => v,
        None => "0".to_owned(),
    };
    let date_str: String = match find_param(&pairs, "from_date") {
        Some(v) => v,
        None => "2000-01-01T00:00:00+00:00".to_owned(),
    };
    let from_id: u32 = match parse_u32(id_str.as_str()) {
        Some(v) => v,
        None => {
            return QueryOutcome::BadRequest(
                concat_str(
                    "Parameter 'from_id' should be a non-negative integer: ",
                    id_str.as_str(),
                ),
            );
        },
    };
    let from_secs: i64 = match parse_rfc3339(date_str.as_str()) {
        Some(v) => v,
        None => {
            return QueryOutcome::BadRequest(
                concat_str(
                    "Parameter 'from_date' should be an RFC 3339 date-time: ",
                    date_str.as_str(),
                ),
            );
        },
    };
    QueryOutcome::Events(store.query(from_id, from_secs))
}

/// The server's answer to one inbound request.
pub enum ServerReply {
    /// The liveness line for the bare root path.
    Operational,
    /// The capture handler's answer.
    Captured(CaptureOutcome),
    /// The query handler's answer.
    Queried(QueryOutcome),
    /// No route matched.
    NotFound,
}

/// A path joined with its optional query string, as the original
/// request line carried them.
pub open spec fn path_and_query(path: Seq<char>, query: Option<Seq<char>>) -> Seq<char> {
    match query {
        Some(q) => path + seq!['?'] + q,
        None => path,
    }
}

/// Answer one inbound request: route it by path and method, and run
/// the matching handler. Only the capture route touches the store.
pub fn handle_request(
    store: &mut EventStore,
    method: String,
    path: String,
    query: Option<&str>,
    headers: Vec<(String, String)>,
    auth: Option<&str>,
    body: Option<Vec<u8>>,
    token: &str,
    now: i64,
) -> (r: ServerReply)
    requires
        old(store).wf(),
    ensures
        final(store).wf(),
        r is Operational <==> path@ == "/"@,
        r is Captured <==> has_capture_prefix(path@),
        r is Captured ==> capture_spec(
            old(store)@,
            final(store)@,
            r->Captured_0,
            path_and_query(path@, opt_chars(query)).subrange(
                2,
                path_and_query(path@, opt_chars(query)).len() as int,
            ),
            method@,
            pair_views(headers@),
            match body {
                Some(b) => Some(b@),
                None => None,
            },
            now as int,
        ),
        r is Queried <==> (path@ == "/notification-results"@ && method@ == "GET"@ && !(path@
            == "/"@) && !has_capture_prefix(path@)),
        r is Queried ==> query_reply_spec(
            old(store)@.log,
            opt_chars(query),
            opt_chars(auth),
            token@,
            r->Queried_0,
        ),
        !(r is Captured) ==> final(store)@ == old(store)@,
{
    match route(path.as_str(), method.as_str()) {
        Route::Root => ServerReply::Operational,
        Route::Capture => {
            let ghost path_view = path@;
            let mut paq = path;
            if let Some(q) = query {
                proof {
                    reveal_strlit("?");
                }
                paq.append("?");
                paq.append(q);
                proof {
                    assert("?"@ =~= seq!['?']);
                    assert(paq@ == path_view + seq!['?'] + q@);
                }
            }
            proof {
                assert(paq@ == path_and_query(path_view, opt_chars(query)));
                assert(has_capture_prefix(paq@));
            }
            let outcome = handle_capture(store, method, paq, headers, body, now);
            ServerReply::Captured(outcome)
        },
        Route::QueryResults => {
            let outcome = handle_query(store, query, auth, token);
            ServerReply::Queried(outcome)
        },
        Route::NotFound => ServerReply::NotFound,
    }
}

impl ServerReply {
    /// The HTTP status this reply travels under: 200 for the
    /// liveness line, a stored capture and an event listing; 400 for
    /// an unreadable body or a bad parameter; 401 without the token;
    /// 404 off every route; 500 when the store refuses.
    pub fn status_code(&self) -> (r: u16)
        ensures
            self is Operational ==> r == 200,
            self is Captured && self->Captured_0 is Saved ==> r == 200,
            self is Captured && self->Captured_0 is BadBody ==> r == 400,
            self is Captured && self->Captured_0 is StoreFailed ==> r == 500,
            self is Queried && self->Queried_0 is Events ==> r == 200,
            self is Queried && self->Queried_0 is BadRequest ==> r == 400,
            self is Queried && self->Queried_0 is Unauthorized ==> r == 401,
            self is NotFound ==> r == 404,
    {
        match self {
            ServerReply::Operational => 200,
            ServerReply::Captured(CaptureOutcome::Saved(_)) => 200,
            ServerReply::Captured(CaptureOutcome::BadBody) => 400,
            ServerReply::Captured(CaptureOutcome::StoreFailed) => 500,
            ServerReply::Queried(QueryOutcome::Events(_)) => 200,
            ServerReply::Queried(QueryOutcome::BadRequest(_)) => 400,
            ServerReply::Queried(QueryOutcome::Unauthorized) => 401,
            ServerReply::NotFound => 404,
        }
    }

    /// The reply's text, where it has one. An event listing returns
    /// `None`: its body is the JSON rendering of the events, which
    /// the transport layer produces.
    pub fn body_text(&self) -> (r: Option<String>)
        ensures
            self is Operational ==> r is Some && r->Some_0@ == "Nayok operational"@,
            self is Captured && self->Captured_0 is Saved ==> r is Some && r->Some_0@ == "OK"@,
            self is Captured && self->Captured_0 is BadBody ==> r is Some && r->Some_0@
                == "can't read body"@,
            self is Captured && self->Captured_0 is StoreFailed ==> r is Some && r->Some_0@
                == "cannot save event"@,
            self is Queried && self->Queried_0 is Events ==> r is None,
            self is Queried && self->Queried_0 is BadRequest ==> r is Some && r->Some_0@
                == self->Queried_0->BadRequest_0@,
            self is Queried && self->Queried_0 is Unauthorized ==> r is Some && r->Some_0@
                == "Invalid auth token"@,
            self is NotFound ==> r is Some && r->Some_0@ == Seq::<char>::empty(),
    {
        match self {
            ServerReply::Operational => Some("Nayok operational".to_owned()),
            ServerReply::Captured(CaptureOutcome::Saved(_)) => Some("OK".to_owned()),
            ServerReply::Captured(CaptureOutcome::BadBody) => Some("can't read body".to_owned()),
            ServerReply::Captured(CaptureOutcome::StoreFailed) => Some(
                "cannot save event".to_owned(),
            ),
            ServerReply::Queried(QueryOutcome::Events(_)) => None,
            ServerReply::Queried(QueryOutcome::BadRequest(m)) => Some(m.clone()),
            ServerReply::Queried(QueryOutcome::Unauthorized) => Some(
                "Invalid auth token".to_owned(),
            ),
            ServerReply::NotFound => Some(String::new()),
        }
    }
}

} // verus!
