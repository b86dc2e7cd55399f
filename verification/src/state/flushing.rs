//! The chunk flusher: the spans of a chunk leave the store as finished
//! records, and a trace leaves with its last span.

use std::collections::HashMap;
use vstd::prelude::*;
use crate::counting::{lemma_live_bounds, lemma_live_remove};
use crate::error::Error;
use crate::flusher::{
    chunk_records, decode_chunk, finalize_span, first_missing, flush, flush_chunk, gives,
    records_view, trace_of,
};
use crate::model::{drain, drained, has_live, live_count};
use crate::native_span::{NativeSpan, Span};
use crate::state::counters::{
    lemma_counts_match_same, lemma_kept_is_retained, lowered, release_trace,
};
use crate::state::{counts_match, spans_view, traces_view, NativeSpanState};

verus! {

/// The first `n` ids of `ids`, as a set.
pub open spec fn named(ids: Seq<u64>, n: int) -> Set<u64> {
    Set::new(|q: u64| exists|j: int| 0 <= j < n && #[trigger] ids[j] == q)
}

/// Puts spans back into the map that they were taken from, so that the map
/// is as it was.
pub(super) fn put_back(
    spans: &mut HashMap<u64, NativeSpan>,
    taken: Vec<NativeSpan>,
    Ghost(whole): Ghost<Map<u64, NativeSpan>>,
    Ghost(ids): Ghost<Seq<u64>>,
)
    requires
        taken@.len() <= ids.len(),
        forall|a: int, b: int| 0 <= a < b < taken@.len() ==> ids[a] != ids[b],
        forall|j: int|
            0 <= j < taken@.len() ==> whole.contains_key(#[trigger] ids[j]) && taken@[j]
                == whole[ids[j]] && taken@[j].span.span_id == ids[j],
        old(spans)@ == whole.remove_keys(named(ids, taken@.len() as int)),
    ensures
        final(spans)@ == whole,
{
    let mut taken = taken;
    while taken.len() > 0
        invariant
            taken@.len() <= ids.len(),
            forall|a: int, b: int| 0 <= a < b < taken@.len() ==> ids[a] != ids[b],
            forall|j: int|
                0 <= j < taken@.len() ==> whole.contains_key(#[trigger] ids[j]) && taken@[j]
                    == whole[ids[j]] && taken@[j].span.span_id == ids[j],
            spans@ == whole.remove_keys(named(ids, taken@.len() as int)),
        decreases taken@.len(),
    {
        let ghost k = taken@.len() - 1;
        let ghost before = spans@;
        match taken.pop() {
            Some(span) => {
                let id: u64 = span.span.span_id;
                spans.insert(id, span);
                proof {
                    assert(id == ids[k]);
                    lemma_named_next(ids, k);
                    assert(!named(ids, k).contains(ids[k])) by {
                        if named(ids, k).contains(ids[k]) {
                            let j = choose|j: int| 0 <= j < k && #[trigger] ids[j] == ids[k];
                            assert(ids[j] != ids[k]);
                        }
                    }
                    assert(spans@ =~= whole.remove_keys(named(ids, k)));
                }
            },
            None => {},
        }
    }
    proof {
        assert(named(ids, 0) =~= Set::empty());
        assert(spans@ =~= whole);
    }
}

/// The ids of `ids` from place `n` on, as a set.
pub open spec fn named_from(ids: Seq<u64>, n: int) -> Set<u64> {
    Set::new(|q: u64| exists|j: int| n <= j < ids.len() && #[trigger] ids[j] == q)
}

/// The first `k + 1` ids are the first `k` and the id at place `k`.
proof fn lemma_named_next(ids: Seq<u64>, k: int)
    requires
        0 <= k < ids.len(),
    ensures
        named(ids, k + 1) == named(ids, k).insert(ids[k]),
{
    assert forall|q: u64| named(ids, k + 1).contains(q) <==> named(ids, k).insert(
        ids[k],
    ).contains(q) by {
        if named(ids, k + 1).contains(q) {
            let j = choose|j: int| 0 <= j < k + 1 && #[trigger] ids[j] == q;
            if j < k {
                assert(named(ids, k).contains(q));
            }
        }
        if named(ids, k).contains(q) {
            let j = choose|j: int| 0 <= j < k && #[trigger] ids[j] == q;
            assert(0 <= j < k + 1 && ids[j] == q);
        }
        if q == ids[k] {
            assert(0 <= k < k + 1 && ids[k] == q);
        }
    }
    assert(named(ids, k + 1) =~= named(ids, k).insert(ids[k]));
}

/// The ids from place `j` on are the id at place `j` and those after it.
proof fn lemma_named_from_next(ids: Seq<u64>, j: int)
    requires
        0 <= j < ids.len(),
    ensures
        named_from(ids, j) == named_from(ids, j + 1).insert(ids[j]),
{
    assert forall|q: u64| named_from(ids, j).contains(q) <==> named_from(ids, j + 1).insert(
        ids[j],
    ).contains(q) by {
        if named_from(ids, j).contains(q) {
            let k = choose|k: int| j <= k < ids.len() && #[trigger] ids[k] == q;
            if k > j {
                assert(named_from(ids, j + 1).contains(q));
            }
        }
        if named_from(ids, j + 1).contains(q) {
            let k = choose|k: int| j + 1 <= k < ids.len() && #[trigger] ids[k] == q;
            assert(j <= k < ids.len() && ids[k] == q);
        }
        if q == ids[j] {
            assert(j <= j < ids.len() && ids[j] == q);
        }
    }
    assert(named_from(ids, j) =~= named_from(ids, j + 1).insert(ids[j]));
}

/// The list in the opposite order.
pub(super) fn reversed_records(list: Vec<Span>) -> (r: Vec<Span>)
    ensures
        r@.len() == list@.len(),
        forall|k: int| 0 <= k < r@.len() ==> r@[k] == list@[list@.len() - 1 - k],
{
    let mut list = list;
    let ghost all = list@;
    let mut r: Vec<Span> = Vec::new();
    while list.len() > 0
        invariant
            list@.len() + r@.len() == all.len(),
            forall|k: int| 0 <= k < list@.len() ==> list@[k] == all[k],
            forall|k: int| 0 <= k < r@.len() ==> r@[k] == all[all.len() - 1 - k],
        decreases list@.len(),
    {
        match list.pop() {
            Some(x) => { r.push(x); },
            None => {},
        }
    }
    r
}

impl NativeSpanState {
    /// Takes the spans `ids` out of the map of spans, in their order. Where
    /// one of them is not there the spans taken before it are put back.
    pub(super) fn take_spans(&mut self, ids: &[u64]) -> (r: Result<Vec<NativeSpan>, Error>)
        requires
            old(self).wf(),
        ensures
            final(self).traces == old(self).traces,
            final(self).trace_span_counts == old(self).trace_span_counts,
            final(self).string_table == old(self).string_table,
            final(self).pid == old(self).pid,
            final(self).tracer_service == old(self).tracer_service,
            match r {
                Ok(taken) => first_missing(old(self)@.spans, ids@) is None && taken@.len()
                    == ids@.len() && (forall|j: int|
                    0 <= j < ids@.len() ==> old(self).spans@.contains_key(#[trigger] ids@[j])
                        && taken@[j] == old(self).spans@[ids@[j]]) && (forall|a: int, b: int|
                    0 <= a < b < ids@.len() ==> ids@[a] != ids@[b]) && final(self).spans@ == old(
                    self,
                ).spans@.remove_keys(named(ids@, ids@.len() as int)),
                Err(e) => first_missing(old(self)@.spans, ids@) is Some && e
                    == Error::UnknownSpanId(first_missing(old(self)@.spans, ids@)->Some_0)
                    && final(self).spans@ == old(self).spans@,
            },
    {
        let ghost whole = self.spans@;
        let n: usize = ids.len();
        let mut taken: Vec<NativeSpan> = Vec::new();
        let mut i: usize = 0;
        proof {
            assert(ids@.skip(0) =~= ids@);
            assert(named(ids@, 0) =~= Set::empty());
            assert(self.spans@ =~= whole.remove_keys(named(ids@, 0)));
        }
        while i < n
            invariant
                i <= n,
                n == ids@.len(),
                taken@.len() == i,
                self.traces == old(self).traces,
                self.trace_span_counts == old(self).trace_span_counts,
                self.string_table == old(self).string_table,
                self.pid == old(self).pid,
                self.tracer_service == old(self).tracer_service,
                whole == old(self).spans@,
                old(self).wf(),
                forall|j: int|
                    0 <= j < i ==> whole.contains_key(#[trigger] ids@[j]) && taken@[j]
                        == whole[ids@[j]],
                forall|a: int, b: int| 0 <= a < b < i ==> ids@[a] != ids@[b],
                self.spans@ == whole.remove_keys(named(ids@, i as int)),
                first_missing(spans_view(whole), ids@) == first_missing(
                    spans_view(self.spans@),
                    ids@.skip(i as int),
                ),
            decreases n - i,
        {
            let id: u64 = ids[i];
            let ghost current = spans_view(self.spans@);
            let ghost before = self.spans@;
            proof {
                assert(ids@.skip(i as int)[0] == id);
                assert(ids@.skip(i as int).drop_first() =~= ids@.skip(i as int + 1));
            }
            match self.spans.remove(&id) {
                Some(span) => {
                    proof {
                        assert(spans_view(self.spans@) =~= current.remove(id));
                        assert(before.contains_key(id));
                        assert(!named(ids@, i as int).contains(id));
                        assert forall|a: int| 0 <= a < i implies ids@[a] != id by {
                            if ids@[a] == id {
                                assert(named(ids@, i as int).contains(id));
                            }
                        }
                        lemma_named_next(ids@, i as int);
                        assert(self.spans@ =~= whole.remove_keys(named(ids@, i as int + 1)));
                    }
                    taken.push(span);
                },
                None => {
                    proof {
                        assert(self.spans@ =~= before);
                        assert(!current.contains_key(id));
                    }
                    put_back(&mut self.spans, taken, Ghost(whole), Ghost(ids@));
                    return Err(Error::UnknownSpanId(id));
                },
            }
            i += 1;
        }
        proof {
            assert(ids@.skip(n as int) =~= Seq::<u64>::empty());
        }
        Ok(taken)
    }

    /// Flushes the spans `ids` as one chunk and hands out their records, in
    /// the order of the chunk. The first span is the root of the chunk and
    /// takes the trace-wide tags; it is the local root of its trace where
    /// `first_is_local_root` says so. Each span leaves the store and no
    /// longer counts for its trace; a trace whose last span has left is
    /// evicted.
    ///
    /// Where an id names no span of the store, or comes twice, the flush
    /// fails with `UnknownSpanId` of that id and the store keeps every span.
    pub fn flush_spans(&mut self, ids: &[u64], first_is_local_root: bool) -> (r: Result<
        Vec<Span>,
        Error,
    >)
        requires
            old(self).wf(),
        ensures
            final(self).wf(),
            final(self)@ == flush(old(self)@, ids@, first_is_local_root).state,
            match flush(old(self)@, ids@, first_is_local_root).outcome {
                Ok(records) => r is Ok && records_view(r->Ok_0@) == records && forall|i: int|
                    0 <= i < r->Ok_0@.len() ==> (#[trigger] r->Ok_0@[i]).wf(),
                Err(e) => r == Err::<Vec<Span>, Error>(e),
            },
    {
        let ghost before = self@;
        let ghost whole = self.spans@;
        let ghost whole_view = spans_view(self.spans@);
        let ghost traces0 = traces_view(self.traces@);
        let ghost records = chunk_records(before, ids@, first_is_local_root);
        let mut taken = match self.take_spans(ids) {
            Ok(taken) => taken,
            Err(e) => {
                return Err(e);
            },
        };
        let n: usize = ids.len();
        let mut backwards: Vec<Span> = Vec::new();
        let mut j: usize = n;
        proof {
            assert(named_from(ids@, n as int) =~= Set::empty());
            assert(whole_view.remove_keys(named_from(ids@, n as int)) =~= whole_view);
        }
        while j > 0
            invariant
                j <= n,
                n == ids@.len(),
                taken@.len() == j,
                whole_view == spans_view(whole),
                before == old(self)@,
                traces0 == before.traces,
                whole_view == before.spans,
                records == chunk_records(before, ids@, first_is_local_root),
                whole.dom().finite(),
                forall|id: u64| #[trigger]
                    whole.contains_key(id) ==> whole[id].wf() && whole[id].span.span_id == id,
                forall|k: int|
                    0 <= k < j ==> whole.contains_key(#[trigger] ids@[k]) && taken@[k]
                        == whole[ids@[k]],
                forall|a: int, b: int| 0 <= a < b < n ==> ids@[a] != ids@[b],
                self.spans@ == whole.remove_keys(named(ids@, n as int)),
                self.pid == before.pid,
                self.tracer_service@ == before.tracer_service,
                self.string_table == old(self).string_table,
                counts_match(
                    |t: u128| live_count(whole_view.remove_keys(named_from(ids@, j as int)), t),
                    self.traces@.dom(),
                    self.trace_span_counts@,
                ),
                forall|t: u128| #[trigger] self.traces@.contains_key(t) ==> self.traces@[t].wf(),
                forall|t: u128| #[trigger]
                    self.traces@.contains_key(t) ==> traces0.contains_key(t) && self.traces@[t]@
                        == traces0[t],
                backwards@.len() == n - j,
                forall|k: int|
                    j <= k < n ==> (#[trigger] backwards@[n - 1 - k])@ == records[k]
                        && backwards@[n - 1 - k].wf(),
            decreases j,
        {
            let ghost current = whole_view.remove_keys(named_from(ids@, j as int));
            let ghost count = |t: u128| live_count(current, t);
            j -= 1;
            let ghost id = ids@[j as int];
            let ghost next = whole_view.remove_keys(named_from(ids@, j as int));
            match taken.pop() {
                Some(span) => {
                    let t: u128 = span.span.trace_id;
                    proof {
                        assert(span == whole[id]);
                        assert(!named_from(ids@, j as int + 1).contains(id)) by {
                            if named_from(ids@, j as int + 1).contains(id) {
                                let k = choose|k: int| j + 1 <= k < n && #[trigger] ids@[k] == id;
                                assert(ids@[j as int] != ids@[k]);
                            }
                        }
                        assert(current.contains_key(id) && current[id] == span@);
                        assert(current.dom().subset_of(whole.dom()));
                        vstd::set_lib::lemma_len_subset(current.dom(), whole.dom());
                        lemma_live_bounds(current, t);
                        assert(has_live(current, t));
                        assert(self.traces@.dom().contains(t));
                        lemma_named_from_next(ids@, j as int);
                        assert(next =~= current.remove(id));
                    }
                    let record = finalize_span(
                        span,
                        self.traces.get(&t),
                        j == 0 && first_is_local_root,
                        j == 0,
                        self.pid,
                        self.tracer_service.as_str(),
                    );
                    proof {
                        assert(trace_of(before, id) == Some(traces0[t]));
                        assert(record@ == records[j as int]);
                    }
                    backwards.push(record);
                    let ghost registered = self.traces@;
                    release_trace(
                        &mut self.traces,
                        &mut self.trace_span_counts,
                        t,
                        Ghost(count),
                    );
                    proof {
                        let reached = lowered(count, t);
                        let wanted = |x: u128| live_count(next, x);
                        assert forall|x: u128| #[trigger] reached(x) == wanted(x) by {
                            lemma_live_remove(current, id, x);
                        }
                        lemma_counts_match_same(
                            reached,
                            wanted,
                            self.traces@.dom(),
                            self.trace_span_counts@,
                        );
                        assert forall|x: u128| #[trigger]
                            self.traces@.contains_key(x) implies traces0.contains_key(x)
                            && self.traces@[x]@ == traces0[x] by {
                            assert(traces_view(self.traces@).contains_key(x));
                            assert(traces_view(registered).contains_key(x));
                            assert(traces_view(self.traces@)[x] == traces_view(registered)[x]);
                            assert(registered.contains_key(x));
                        }
                        assert forall|k: int| j <= k < n implies (#[trigger] backwards@[n - 1
                            - k])@ == records[k] && backwards@[n - 1 - k].wf() by {}
                    }
                },
                None => {},
            }
        }
        let out = reversed_records(backwards);
        proof {
            let spans = spans_view(self.spans@);
            assert(named_from(ids@, 0) =~= named(ids@, n as int));
            assert(ids@.to_set() =~= named(ids@, n as int));
            assert(spans =~= before.spans.remove_keys(ids@.to_set()));
            assert(spans =~= whole_view.remove_keys(named_from(ids@, 0)));
            let kept = traces_view(self.traces@);
            assert(spans.dom().subset_of(whole.dom()));
            vstd::set_lib::lemma_len_subset(spans.dom(), whole.dom());
            assert forall|t: u128| #[trigger] kept.contains_key(t) <==> has_live(spans, t) by {
                lemma_live_bounds(spans, t);
                assert(self.traces@.dom().contains(t) <==> live_count(spans, t) > 0);
            }
            lemma_kept_is_retained(before.traces, kept, spans);
            assert(records_view(out@) =~= records);
            let wanted = |t: u128| live_count(spans_view(self.spans@), t);
            let reached = |t: u128| live_count(whole_view.remove_keys(named_from(ids@, 0)), t);
            assert forall|t: u128| #[trigger] reached(t) == wanted(t) by {}
            lemma_counts_match_same(reached, wanted, self.traces@.dom(), self.trace_span_counts@);
            assert(self.spans@.dom().finite());
        }
        Ok(out)
    }

    /// Drains the change buffer and flushes the chunk that `chunk` names:
    /// `len` span ids of eight bytes each. The records come out in the order
    /// of the chunk, ready for the exporter.
    pub fn flush_chunk(
        &mut self,
        change_buffer: &mut [u8],
        len: u32,
        first_is_local_root: bool,
        chunk: &[u8],
    ) -> (r: Result<Vec<Span>, Error>)
        requires
            old(self).wf(),
        ensures
            final(self).wf(),
            drained(
                old(self)@,
                old(change_buffer)@,
                drain(old(self)@, old(change_buffer)@).state,
                final(change_buffer)@,
            ),
            final(self)@ == flush_chunk(
                old(self)@,
                old(change_buffer)@,
                len,
                first_is_local_root,
                chunk@,
            ).state,
            gives(
                r,
                flush_chunk(
                    old(self)@,
                    old(change_buffer)@,
                    len,
                    first_is_local_root,
                    chunk@,
                ).outcome,
            ),
    {
        match self.flush_change_queue(change_buffer) {
            Ok(_) => {},
            Err(e) => { return Err(e); },
        }
        let ids = match decode_chunk(chunk, len) {
            Ok(ids) => ids,
            Err(e) => { return Err(e); },
        };
        self.flush_spans(ids.as_slice(), first_is_local_root)
    }
}

} // verus!
