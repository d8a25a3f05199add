//! The event store: an append-only log with a cursor-filtered query.

use vstd::prelude::*;
use crate::event::{Event, EventModel, event_models};
use crate::text::pair_views;

verus! {

/// Why an append could not be committed. The in-memory log itself
/// cannot lose data; the one failure it can report is running out of
/// identifiers. A persistence layer wrapping this store reports its
/// own medium failures separately.
#[derive(Debug)]
pub enum StorageError {
    IdSpaceExhausted,
    /// A restored record's id or timestamp does not extend the log's
    /// order.
    OutOfOrder,
}

/// Mathematical model of the store: the log of event models in append
/// order, the next identifier to assign, and the newest timestamp
/// stamped so far.
#[verifier::ext_equal]
pub ghost struct StoreModel {
    pub log: Seq<EventModel>,
    pub next_id: int,
    pub last_stamp: int,
}

/// The cursor predicate: an event passes when it is newer than both
/// halves of the cursor.
pub open spec fn cursor_pred(min_id: int, min_date: int) -> spec_fn(EventModel) -> bool {
    |m: EventModel| m.id > min_id && m.created_at > min_date
}

/// What a query returns: the events of the log newer than the cursor,
/// in log order.
pub open spec fn query_model(log: Seq<EventModel>, min_id: int, min_date: int) -> Seq<EventModel> {
    log.filter(cursor_pred(min_id, min_date))
}

/// The store's invariant over its model: identifiers are at least 1,
/// below `next_id`, and strictly increasing along the log; timestamps
/// never exceed `last_stamp` and never decrease along the log.
pub open spec fn store_wf(m: StoreModel) -> bool {
    &&& 1 <= m.next_id <= u32::MAX as int
    &&& forall|i: int| 0 <= i < m.log.len() ==> 1 <= (#[trigger] m.log[i]).id < m.next_id
    &&& forall|i: int, j: int| 0 <= i < j < m.log.len() ==> m.log[i].id < m.log[j].id
    &&& forall|i: int| 0 <= i < m.log.len() ==> (#[trigger] m.log[i]).created_at <= m.last_stamp
    &&& forall|i: int, j: int|
        0 <= i < j < m.log.len() ==> m.log[i].created_at <= m.log[j].created_at
}

/// The larger of two integers.
pub open spec fn imax(a: int, b: int) -> int {
    if a >= b {
        a
    } else {
        b
    }
}

/// A sequence of event models whose ids strictly increase.
pub open spec fn ascending_ids(s: Seq<EventModel>) -> bool {
    forall|i: int, j: int| 0 <= i < j < s.len() ==> s[i].id < s[j].id
}

proof fn lemma_filter_keeps_ascending(s: Seq<EventModel>, p: spec_fn(EventModel) -> bool)
    requires
        ascending_ids(s),
    ensures
        ascending_ids(s.filter(p)),
    decreases s.len(),
{
    reveal(Seq::filter);
    if s.len() > 0 {
        let d = s.drop_last();
        assert(ascending_ids(d));
        lemma_filter_keeps_ascending(d, p);
        let fd = d.filter(p);
        if p(s.last()) {
            assert forall|i: int| 0 <= i < fd.len() implies fd[i].id < s.last().id by {
                assert(fd.contains(fd[i]));
                d.lemma_filter_contains_rev(p, fd[i]);
                let k = choose|k: int| 0 <= k < d.len() && d[k] == fd[i];
                assert(s[k] == d[k]);
                assert(s[k].id < s[s.len() - 1].id);
            }
            assert(s.filter(p) == fd.push(s.last()));
        } else {
            assert(s.filter(p) == fd);
        }
    }
}

proof fn lemma_filter_all_true(s: Seq<EventModel>, p: spec_fn(EventModel) -> bool)
    requires
        forall|i: int| 0 <= i < s.len() ==> p(#[trigger] s[i]),
    ensures
        s.filter(p) == s,
    decreases s.len(),
{
    reveal(Seq::filter);
    if s.len() > 0 {
        let d = s.drop_last();
        lemma_filter_all_true(d, p);
        assert(p(s.last()));
        assert(s.filter(p) =~= s);
    } else {
        assert(s.filter(p) =~= s);
    }
}

/// Ordering law: in a well-formed store, the events a query returns
/// carry strictly ascending ids, so they come back in insertion order.
pub proof fn lemma_query_ordered(m: StoreModel, min_id: int, min_date: int)
    requires
        store_wf(m),
    ensures
        ascending_ids(query_model(m.log, min_id, min_date)),
{
    lemma_filter_keeps_ascending(m.log, cursor_pred(min_id, min_date));
}

/// Completeness half of the ordering law: a query from id 0 with a
/// date older than every stored event returns the whole log, exactly
/// as it was appended.
pub proof fn lemma_query_from_start(m: StoreModel, min_date: int)
    requires
        store_wf(m),
        forall|i: int| 0 <= i < m.log.len() ==> (#[trigger] m.log[i]).created_at > min_date,
    ensures
        query_model(m.log, 0, min_date) == m.log,
{
    let p = cursor_pred(0, min_date);
    assert forall|i: int| 0 <= i < m.log.len() implies p(#[trigger] m.log[i]) by {
        assert(m.log[i].id >= 1);
    }
    lemma_filter_all_true(m.log, p);
}

/// Idempotent-resumption law: what a query returns is a function of
/// the log and the cursor alone, so two queries with the same cursor
/// against the same log — no append in between — return identical
/// results.
pub proof fn lemma_query_idempotent(m1: StoreModel, m2: StoreModel, min_id: int, min_date: int)
    requires
        m1.log == m2.log,
    ensures
        query_model(m1.log, min_id, min_date) == query_model(m2.log, min_id, min_date),
{
}

/// Ordered, queryable, append-only log of events, the store of record
/// for one process; a persistence layer around the library mirrors
/// appends onto a durable medium. Identifiers start at 1 and increase
/// by one per append; timestamps are clamped so that the log's
/// `created_at` column never decreases even if the caller's clock
/// does.
pub struct EventStore {
    events: Vec<Event>,
    next_id: u32,
    last_stamp: i64,
}

impl View for EventStore {
    type V = StoreModel;

    closed spec fn view(&self) -> StoreModel {
        StoreModel {
            log: event_models(self.events@),
            next_id: self.next_id as int,
            last_stamp: self.last_stamp as int,
        }
    }
}

impl EventStore {
    pub open spec fn wf(&self) -> bool {
        store_wf(self@)
    }

    /// An empty store: no events, identifiers from 1, and a stamp
    /// floor low enough that any clock value moves it.
    pub fn new() -> (r: EventStore)
        ensures
            r.wf(),
            r@.log == Seq::<EventModel>::empty(),
            r@.next_id == 1,
            r@.last_stamp == i64::MIN as int,
    {
        let r = EventStore { events: Vec::new(), next_id: 1, last_stamp: i64::MIN };
        proof {
            assert(r@.log =~= Seq::<EventModel>::empty());
        }
        r
    }

    /// Append one event, stamping it with `now` clamped up to the
    /// newest stamp already in the log, and return the assigned id.
    /// Fails exactly when the identifier space is exhausted, leaving
    /// the store unchanged.
    pub fn append_at(
        &mut self,
        relative_uri: String,
        method: String,
        headers: Vec<(String, String)>,
        body_base64: String,
        now: i64,
    ) -> (r: Result<u32, StorageError>)
        requires
            old(self).wf(),
        ensures
            final(self).wf(),
            old(self)@.next_id == u32::MAX as int ==> r is Err && final(self)@ == old(self)@,
            old(self)@.next_id < u32::MAX as int ==> r is Ok && r->Ok_0 as int == old(self)@.next_id
                && final(self)@.next_id == old(self)@.next_id + 1
                && final(self)@.last_stamp == imax(now as int, old(self)@.last_stamp)
                && final(self)@.log == old(self)@.log.push(
                EventModel {
                    id: old(self)@.next_id,
                    relative_uri: relative_uri@,
                    method: method@,
                    headers: pair_views(headers@),
                    body_base64: body_base64@,
                    created_at: imax(now as int, old(self)@.last_stamp),
                },
            ),
    {
        if self.next_id == u32::MAX {
            return Err(StorageError::IdSpaceExhausted);
        }
        let id: u32 = self.next_id;
        let stamp: i64 = if now >= self.last_stamp {
            now
        } else {
            self.last_stamp
        };
        let e = Event {
            id,
            relative_uri,
            method,
            headers,
            body_base64,
            created_at: stamp,
        };
        self.events.push(e);
        self.next_id = id + 1;
        self.last_stamp = stamp;
        proof {
            assert(final(self)@.log =~= old(self)@.log.push(final(self)@.log.last()));
        }
        Ok(id)
    }

    /// Re-insert one persisted event under its original id and stamp,
    /// as a startup reload from a durable mirror does. Succeeds
    /// exactly when the record extends the log's order: the id at
    /// least `next_id` and below the identifier ceiling, the stamp no
    /// older than the newest already stored. A record that does not
    /// fit is refused and the store is unchanged.
    pub fn restore(
        &mut self,
        id: u32,
        relative_uri: String,
        method: String,
        headers: Vec<(String, String)>,
        body_base64: String,
        created_at: i64,
    ) -> (r: Result<(), StorageError>)
        requires
            old(self).wf(),
        ensures
            final(self).wf(),
            !(old(self)@.next_id <= id as int && id < u32::MAX && old(self)@.last_stamp
                <= created_at as int) ==> r is Err && final(self)@ == old(self)@,
            (old(self)@.next_id <= id as int && id < u32::MAX && old(self)@.last_stamp
                <= created_at as int) ==> r is Ok && final(self)@.next_id == id as int + 1
                && final(self)@.last_stamp == created_at as int && final(self)@.log == old(
                self,
            )@.log.push(
                EventModel {
                    id: id as int,
                    relative_uri: relative_uri@,
                    method: method@,
                    headers: pair_views(headers@),
                    body_base64: body_base64@,
                    created_at: created_at as int,
                },
            ),
    {
        if !(self.next_id <= id && id < u32::MAX && self.last_stamp <= created_at) {
            return Err(StorageError::OutOfOrder);
        }
        let e = Event {
            id,
            relative_uri,
            method,
            headers,
            body_base64,
            created_at,
        };
        self.events.push(e);
        self.next_id = id + 1;
        self.last_stamp = created_at;
        proof {
            assert(final(self)@.log =~= old(self)@.log.push(final(self)@.log.last()));
        }
        Ok(())
    }

    /// How many events the log holds.
    pub fn len(&self) -> (r: usize)
        ensures
            r == self@.log.len(),
    {
        self.events.len()
    }

    /// The event at position `i` of the log, oldest first.
    pub fn get(&self, i: usize) -> (r: &Event)
        requires
            i < self@.log.len(),
        ensures
            r@ == self@.log[i as int],
    {
        &self.events[i]
    }

    /// All events newer than the cursor — `id > min_id` and
    /// `created_at > min_date` — in log order.
    pub fn query(&self, min_id: u32, min_date: i64) -> (r: Vec<Event>)
        requires
            self.wf(),
        ensures
            event_models(r@) == query_model(self@.log, min_id as int, min_date as int),
    {
        let ghost pred = cursor_pred(min_id as int, min_date as int);
        let mut out: Vec<Event> = Vec::new();
        let mut i: usize = 0;
        while i < self.events.len()
            invariant
                0 <= i <= self.events@.len(),
                event_models(out@) =~= event_models(self.events@).take(i as int).filter(pred),
                pred == cursor_pred(min_id as int, min_date as int),
            decreases self.events@.len() - i,
        {
            let ghost prefix = event_models(self.events@).take(i as int);
            let ghost e_model = event_models(self.events@)[i as int];
            proof {
                assert(event_models(self.events@).take(i + 1) =~= prefix + seq![e_model]);
                Seq::<EventModel>::filter_distributes_over_add(prefix, seq![e_model], pred);
                reveal_with_fuel(Seq::<_>::filter, 2);
                assert(seq![e_model].drop_last() =~= Seq::<EventModel>::empty());
            }
            let e = &self.events[i];
            let ghost out_before = out@;
            if e.id > min_id && e.created_at > min_date {
                out.push(e.clone());
                proof {
                    assert(pred(e_model));
                    assert(event_models(out@) =~= event_models(out_before).push(e_model));
                }
            } else {
                proof {
                    assert(!pred(e_model));
                }
            }
            proof {
                assert(event_models(out@) =~= event_models(self.events@).take(i + 1).filter(pred));
            }
            i = i + 1;
        }
        proof {
            assert(event_models(self.events@).take(self.events@.len() as int) =~= event_models(
                self.events@,
            ));
        }
        out
    }
}

} // verus!
