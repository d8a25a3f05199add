//! The replay client's verified core: reconstructing a stored event
//! as an outbound request, building the poll URL, and advancing the
//! high-water cursor.
//!
//! The network itself stays outside the library. The caller fetches
//! batches, sends the reconstructed requests, and feeds each send's
//! outcome back; everything decided here — what is sent, where, and
//! how the cursor moves — is verified.

use vstd::prelude::*;
use vstd::string::*;
use crate::codec::{b64_decode, b64_decoding, b64_encoding};
use crate::event::{Event, EventModel, event_models};
use crate::store::imax;
use crate::text::{dec_chars, pair_views, pct_component, pct_encode, u32_to_dec};
use crate::urls::{join_url, joined_url};

verus! {

/// A header name that spells `Host`, in any case. The reconstructed
/// request must not carry the captured `Host`: the header has to
/// reflect the destination, which the transport fills in.
pub open spec fn is_host_name(k: Seq<char>) -> bool {
    k.len() == 4 && (k[0] == 'h' || k[0] == 'H') && (k[1] == 'o' || k[1] == 'O') && (k[2] == 's'
        || k[2] == 'S') && (k[3] == 't' || k[3] == 'T')
}

/// The headers that replay forwards: all captured pairs except any
/// spelling of `Host`, order kept.
pub open spec fn without_host(h: Seq<(Seq<char>, Seq<char>)>) -> Seq<(Seq<char>, Seq<char>)> {
    h.filter(|p: (Seq<char>, Seq<char>)| !is_host_name(p.0))
}

/// Filtering law: no pair of `without_host(h)` is named `Host`.
pub proof fn lemma_without_host_carries_no_host(h: Seq<(Seq<char>, Seq<char>)>)
    ensures
        forall|i: int| 0 <= i < without_host(h).len() ==> !is_host_name(
            #[trigger] without_host(h)[i].0,
        ),
{
    let p = |q: (Seq<char>, Seq<char>)| !is_host_name(q.0);
    assert forall|i: int| 0 <= i < without_host(h).len() implies !is_host_name(
        without_host(h)[i].0,
    ) by {
        h.lemma_filter_pred(p, i);
    }
}

fn is_host_header(k: &str) -> (r: bool)
    ensures
        r == is_host_name(k@),
{
    let n: usize = k.unicode_len();
    if n != 4 {
        return false;
    }
    let c0 = k.get_char(0);
    let c1 = k.get_char(1);
    let c2 = k.get_char(2);
    let c3 = k.get_char(3);
    (c0 == 'h' || c0 == 'H') && (c1 == 'o' || c1 == 'O') && (c2 == 's' || c2 == 'S') && (c3 == 't'
        || c3 == 'T')
}

/// Why an event could not be reconstructed as a request.
#[derive(Debug)]
pub enum ReplayError {
    /// The destination base and the event's relative URI do not join
    /// into a URL.
    BadUrl,
    /// The stored body is not a valid text-safe encoding.
    BadBody,
}

/// A fully reconstructed outbound request, ready for a transport to
/// send: the captured method, the destination URL, the captured
/// headers less `Host`, and the decoded body bytes.
#[derive(Debug)]
pub struct OutboundRequest {
    pub method: String,
    pub url: String,
    pub headers: Vec<(String, String)>,
    pub body: Vec<u8>,
}

/// Reconstruct the outbound request for one event against a
/// destination base URL.
///
/// Succeeds whenever the URLs join and the stored body is a valid
/// encoding — in particular on every event the capture path stored.
/// The result carries the event's method, the joined URL, the
/// captured headers with every spelling of `Host` dropped, and the
/// body decoded byte for byte.
pub fn plan_send(event: &Event, dst_base: &str) -> (r: Result<OutboundRequest, ReplayError>)
    ensures
        r is Err && r->Err_0 is BadUrl <==> joined_url(dst_base@, event@.relative_uri) is None,
        r is Err && r->Err_0 is BadBody <==> (joined_url(dst_base@, event@.relative_uri) is Some
            && b64_decoding(event@.body_base64) is None),
        r is Ok <==> (joined_url(dst_base@, event@.relative_uri) is Some && b64_decoding(
            event@.body_base64,
        ) is Some),
        r is Ok ==> r->Ok_0.method@ == event@.method,
        r is Ok ==> Some(r->Ok_0.url@) == joined_url(dst_base@, event@.relative_uri),
        r is Ok ==> pair_views(r->Ok_0.headers@) == without_host(event@.headers),
        r is Ok ==> r->Ok_0.body@ == b64_decoding(event@.body_base64)->Some_0,
        forall|b: Seq<u8>|
            event@.body_base64 == b64_encoding(b) && joined_url(
                dst_base@,
                event@.relative_uri,
            ) is Some ==> r is Ok && r->Ok_0.body@ == b,
{
    let url = match join_url(dst_base, event.relative_uri.as_str()) {
        Some(u) => u,
        None => {
            return Err(ReplayError::BadUrl);
        },
    };
    let body = match b64_decode(event.body_base64.as_str()) {
        Some(b) => b,
        None => {
            return Err(ReplayError::BadBody);
        },
    };
    let ghost pred = |q: (Seq<char>, Seq<char>)| !is_host_name(q.0);
    let mut headers: Vec<(String, String)> = Vec::new();
    let mut i: usize = 0;
    while i < event.headers.len()
        invariant
            0 <= i <= event.headers@.len(),
            pair_views(headers@) =~= pair_views(event.headers@).take(i as int).filter(pred),
            pred == (|q: (Seq<char>, Seq<char>)| !is_host_name(q.0)),
        decreases event.headers@.len() - i,
    {
        let ghost prefix = pair_views(event.headers@).take(i as int);
        let ghost p_model = pair_views(event.headers@)[i as int];
        proof {
            assert(pair_views(event.headers@).take(i + 1) =~= prefix + seq![p_model]);
            Seq::<(Seq<char>, Seq<char>)>::filter_distributes_over_add(
                prefix,
                seq![p_model],
                pred,
            );
            reveal_with_fuel(Seq::<_>::filter, 2);
            assert(seq![p_model].drop_last() =~= Seq::<(Seq<char>, Seq<char>)>::empty());
        }
        let ghost before = headers@;
        if !is_host_header(event.headers[i].0.as_str()) {
            let k = event.headers[i].0.clone();
            let v = event.headers[i].1.clone();
            headers.push((k, v));
            proof {
                assert(pred(p_model));
                assert(pair_views(headers@) =~= pair_views(before).push(p_model));
            }
        } else {
            proof {
                assert(!pred(p_model));
            }
        }
        proof {
            assert(pair_views(headers@) =~= pair_views(event.headers@).take(i + 1).filter(pred));
        }
        i = i + 1;
    }
    proof {
        assert(pair_views(event.headers@).take(event.headers@.len() as int) =~= pair_views(
            event.headers@,
        ));
    }
    Ok(OutboundRequest { method: event.method.clone(), url, headers, body })
}

/// The path and query string the client polls: the listing route with
/// the fixed start date and the current cursor, percent-encoded the
/// way the server's parameter parsing undoes.
pub open spec fn poll_path(from_id: int, from_date: Seq<char>) -> Seq<char> {
    "/notification-results?from_date="@ + pct_encode(from_date) + "&from_id="@ + dec_chars(from_id)
}

/// Build the poll path for the current cursor.
pub fn query_path(from_id: u32, from_date: &str) -> (r: String)
    requires
        from_date.is_ascii(),
    ensures
        r@ == poll_path(from_id as int, from_date@),
{
    let mut s = "/notification-results?from_date=".to_owned();
    s.append(pct_component(from_date).as_str());
    s.append("&from_id=");
    s.append(u32_to_dec(from_id).as_str());
    s
}

/// The cursor after seeing one event: it never moves backwards.
pub open spec fn advanced(high: int, id: int) -> int {
    imax(high, id)
}

/// Advance the high-water cursor past one event's id.
pub fn advance_cursor(high: u32, id: u32) -> (r: u32)
    ensures
        r as int == advanced(high as int, id as int),
{
    if id > high {
        id
    } else {
        high
    }
}

/// The cursor after a whole batch, oldest first.
pub open spec fn cursor_after(high: int, batch: Seq<EventModel>) -> int
    decreases batch.len(),
{
    if batch.len() == 0 {
        high
    } else {
        imax(cursor_after(high, batch.drop_last()), batch.last().id)
    }
}

/// Cursor-monotonicity law: after a batch the cursor is exactly the
/// largest id seen — it never shrinks, it bounds every id in the
/// batch, and it is attained by some event unless the batch moved
/// nothing.
pub proof fn lemma_cursor_after_is_max(high: int, batch: Seq<EventModel>)
    ensures
        cursor_after(high, batch) >= high,
        forall|i: int| 0 <= i < batch.len() ==> cursor_after(high, batch) >= (
        #[trigger] batch[i]).id,
        cursor_after(high, batch) == high || exists|i: int|
            0 <= i < batch.len() && (#[trigger] batch[i]).id == cursor_after(high, batch),
    decreases batch.len(),
{
    if batch.len() > 0 {
        lemma_cursor_after_is_max(high, batch.drop_last());
        assert forall|i: int| 0 <= i < batch.len() implies cursor_after(high, batch) >= (
        batch[i]).id by {
            if i < batch.len() - 1 {
                assert(batch.drop_last()[i] == batch[i]);
            }
        }
    }
}

/// One line of the per-event report: outcome, id, method and path,
/// enough context to resend by hand.
#[derive(Debug)]
pub struct OutcomeRecord {
    pub success: bool,
    pub id: u32,
    pub method: String,
    pub relative_uri: String,
}

/// Account for one replayed event: record the outcome and advance the
/// cursor. The cursor moves whether or not the send succeeded.
pub fn process_event(high: u32, event: &Event, delivered: bool) -> (r: (u32, OutcomeRecord))
    ensures
        r.0 as int == advanced(high as int, event@.id),
        r.1.success == delivered,
        r.1.id == event.id,
        r.1.method@ == event@.method,
        r.1.relative_uri@ == event@.relative_uri,
{
    let record = OutcomeRecord {
        success: delivered,
        id: event.id,
        method: event.method.clone(),
        relative_uri: event.relative_uri.clone(),
    };
    (advance_cursor(high, event.id), record)
}

/// Account for a whole batch: one record per event, in order, and
/// the cursor advanced to the largest id seen. `delivered[i]` is the
/// send outcome of `events[i]`; the final cursor does not depend on
/// it — a failed send moves the cursor exactly as a delivered one.
pub fn run_batch(high: u32, events: &Vec<Event>, delivered: &Vec<bool>) -> (r: (
    u32,
    Vec<OutcomeRecord>,
))
    requires
        delivered@.len() == events@.len(),
    ensures
        r.0 as int == cursor_after(high as int, event_models(events@)),
        r.1@.len() == events@.len(),
        forall|i: int|
            0 <= i < events@.len() ==> (#[trigger] r.1@[i]).success == delivered@[i] && r.1@[i].id
                as int == event_models(events@)[i].id && r.1@[i].method@ == event_models(
                events@,
            )[i].method && r.1@[i].relative_uri@ == event_models(events@)[i].relative_uri,
{
    let mut high_water: u32 = high;
    let mut records: Vec<OutcomeRecord> = Vec::new();
    let mut i: usize = 0;
    while i < events.len()
        invariant
            delivered@.len() == events@.len(),
            0 <= i <= events@.len(),
            high_water as int == cursor_after(high as int, event_models(events@).take(i as int)),
            records@.len() == i,
            forall|j: int|
                0 <= j < i ==> (#[trigger] records@[j]).success == delivered@[j] && records@[j].id
                    as int == event_models(events@)[j].id && records@[j].method@ == event_models(
                    events@,
                )[j].method && records@[j].relative_uri@ == event_models(events@)[j].relative_uri,
        decreases events@.len() - i,
    {
        proof {
            assert(event_models(events@).take(i + 1).drop_last() =~= event_models(
                events@,
            ).take(i as int));
            assert(event_models(events@).take(i + 1).last() == event_models(events@)[i as int]);
        }
        let (next, record) = process_event(high_water, &events[i], delivered[i]);
        high_water = next;
        records.push(record);
        i = i + 1;
    }
    proof {
        assert(event_models(events@).take(events@.len() as int) =~= event_models(events@));
    }
    (high_water, records)
}

} // verus!
