//! The store and the operations on it: the string table here, and in the
//! modules below it the instruction interpreter, the accessors and the
//! chunk flusher.

use std::collections::HashMap;
use vstd::prelude::*;
use crate::counting::lemma_live_bounds;
use crate::error::Error;
use crate::model::{has_live, live_count, StateView};
use crate::native_span::{NativeSpan, NativeSpanView, SpanString};
use crate::string_table::{load_from, StringTable};
use crate::trace::{Trace, TraceView};

mod accessors;
mod counters;
mod flushing;
mod interpreter;

verus! {

/// The spans of a map, each as the value that it stands for.
pub open spec fn spans_view(m: Map<u64, NativeSpan>) -> Map<u64, NativeSpanView> {
    Map::new(|id: u64| m.contains_key(id), |id: u64| m[id]@)
}

/// The traces of a map, each as the value that it stands for.
pub open spec fn traces_view(m: Map<u128, Trace>) -> Map<u128, TraceView> {
    Map::new(|t: u128| m.contains_key(t), |t: u128| m[t]@)
}

/// Whether the counters and the registered traces agree with `count`: a
/// trace is registered, and has a counter, exactly where `count` is positive,
/// and its counter holds that number.
pub open spec fn counts_match(
    count: spec_fn(u128) -> nat,
    traces: Set<u128>,
    counters: Map<u128, u64>,
) -> bool {
    &&& forall|t: u128| #[trigger] counters.contains_key(t) <==> count(t) > 0
    &&& forall|t: u128| #[trigger] traces.contains(t) <==> count(t) > 0
    &&& forall|t: u128| #[trigger] counters.contains_key(t) ==> counters[t] == count(t)
}

/// Whether every span and every trace of the maps is well formed and filed
/// under its own id, and the counters hold the live-span counts.
pub open spec fn parts_wf(
    spans: Map<u64, NativeSpan>,
    traces: Map<u128, Trace>,
    counters: Map<u128, u64>,
) -> bool {
    &&& spans.dom().finite()
    &&& forall|id: u64| #[trigger]
        spans.contains_key(id) ==> spans[id].wf() && spans[id].span.span_id == id
    &&& forall|t: u128| #[trigger] traces.contains_key(t) ==> traces[t].wf()
    &&& counts_match(|t: u128| live_count(spans_view(spans), t), traces.dom(), counters)
}

/// The store of one tracer instance: the live spans, the traces that they
/// share, the live-span counter of each trace, and the string table.
///
/// One instance has one owner. The change buffer, the bulk-load region and
/// the sampling buffer belong to the caller, who lends each to the call that
/// reads it.
pub struct NativeSpanState {
    spans: HashMap<u64, NativeSpan>,
    traces: HashMap<u128, Trace>,
    trace_span_counts: HashMap<u128, u64>,
    string_table: StringTable,
    pid: u64,
    tracer_service: String,
}

impl View for NativeSpanState {
    type V = StateView;

    closed spec fn view(&self) -> StateView {
        StateView {
            spans: spans_view(self.spans@),
            traces: traces_view(self.traces@),
            strings: self.string_table@,
            pid: self.pid,
            tracer_service: self.tracer_service@,
        }
    }
}

impl NativeSpanState {
    /// The invariant of the store: every span and trace is well formed, and
    /// each trace's counter is the number of its live spans.
    pub closed spec fn wf(&self) -> bool {
        parts_wf(self.spans@, self.traces@, self.trace_span_counts@)
    }

    /// A well-formed store stands for a value that meets the model's
    /// invariant: what the laws say of such values holds of every store.
    pub proof fn law_store_invariant(&self)
        requires
            self.wf(),
        ensures
            self@.inv(),
    {
        let spans = spans_view(self.spans@);
        assert(spans.dom() =~= self.spans@.dom());
        assert forall|t: u128| #[trigger] self@.traces.contains_key(t) <==> has_live(spans, t) by {
            lemma_live_bounds(spans, t);
            assert(self.traces@.dom().contains(t) <==> live_count(spans, t) > 0);
        }
    }

    /// An empty store for the process `pid`, given as the bit pattern of a
    /// binary64 number, whose default service is `tracer_service`.
    pub fn new(pid: u64, tracer_service: String) -> (r: Self)
        ensures
            r.wf(),
            r@ == (StateView {
                spans: Map::empty(),
                traces: Map::empty(),
                strings: Map::empty(),
                pid,
                tracer_service: tracer_service@,
            }),
    {
        let r = NativeSpanState {
            spans: HashMap::new(),
            traces: HashMap::new(),
            trace_span_counts: HashMap::new(),
            string_table: StringTable::new(),
            pid,
            tracer_service,
        };
        proof {
            assert(r@.spans =~= Map::empty());
            assert(r@.traces =~= Map::empty());
            assert forall|t: u128| live_count(spans_view(r.spans@), t) == 0 by {
                assert(crate::model::live_ids(spans_view(r.spans@), t) =~= Set::empty());
            }
        }
        r
    }

    /// Puts `val` into the string table under `key`, in place of what was
    /// there.
    pub fn string_table_insert_one(&mut self, key: u32, val: String)
        requires
            old(self).wf(),
        ensures
            final(self).wf(),
            final(self)@ == (StateView {
                strings: old(self)@.strings.insert(key, val@),
                ..old(self)@
            }),
    {
        self.string_table.insert_one(key, val);
    }

    /// Puts `count` entries of the bulk-load region `input` into the string
    /// table. An entry is a `u32` key and UTF-8 text that a zero byte ends.
    /// The first entry that is cut short or is not UTF-8 ends the load with
    /// its error; the entries before it stay in the table.
    pub fn string_table_insert_many(&mut self, input: &[u8], count: u32) -> (r: Result<(), Error>)
        requires
            old(self).wf(),
        ensures
            final(self).wf(),
            final(self)@ == (StateView {
                strings: load_from(old(self)@.strings, input@, 0, count as nat).strings,
                ..old(self)@
            }),
            match load_from(old(self)@.strings, input@, 0, count as nat).error {
                None => r is Ok,
                Some(e) => r == Err::<(), Error>(e),
            },
    {
        self.string_table.insert_many(input, count)
    }

    /// Takes `key` out of the string table; a key that is not there changes
    /// nothing.
    pub fn string_table_evict(&mut self, key: u32)
        requires
            old(self).wf(),
        ensures
            final(self).wf(),
            final(self)@ == (StateView { strings: old(self)@.strings.remove(key), ..old(self)@ }),
    {
        self.string_table.evict(key);
    }

    /// The text that a string reference stands for.
    fn get_string(&self, key: u32) -> (r: Result<SpanString, Error>)
        ensures
            match r {
                Ok(s) => self@.resolve(key) == Ok::<Seq<char>, Error>(s@),
                Err(e) => self@.resolve(key) == Err::<Seq<char>, Error>(e),
            },
    {
        self.string_table.resolve(key)
    }

    /// The live-span count of the trace `trace_id`. A trace that was never
    /// created, or whose last span has been flushed, is not there any more:
    /// `UnknownTraceId`.
    pub fn live_span_count(&self, trace_id: u128) -> (r: Result<u64, Error>)
        requires
            self.wf(),
        ensures
            match r {
                Ok(n) => self@.traces.contains_key(trace_id) && n == live_count(
                    self@.spans,
                    trace_id,
                ) && n >= 1,
                Err(e) => !self@.traces.contains_key(trace_id) && e == Error::UnknownTraceId(
                    trace_id,
                ) && live_count(self@.spans, trace_id) == 0,
            },
    {
        match self.trace_span_counts.get(&trace_id) {
            Some(n) => {
                assert(self.traces@.dom().contains(trace_id));
                Ok(*n)
            },
            None => {
                assert(!self.traces@.dom().contains(trace_id));
                Err(Error::UnknownTraceId(trace_id))
            },
        }
    }
}

} // verus!
