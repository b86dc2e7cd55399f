//! The instruction interpreter: one instruction applied to the store, and
//! the drain of a change buffer.

use vstd::prelude::*;
use crate::change_buffer::{decode_args, BufferedOperation, Instruction, Operation};
use crate::counting::{lemma_live_bounds, lemma_live_insert, lemma_live_update};
use crate::decoder::get_u64;
use crate::error::Error;
use crate::model::{drain, drain_from, drained, drained_buffer, has_live, live_count, StateView};
use crate::native_span::NativeSpan;
use crate::state::counters::{
    lemma_counts_match_same, lemma_kept_is_retained, raised, lowered, release_trace, retain_trace,
};
use crate::state::{parts_wf, spans_view, traces_view, NativeSpanState};
use crate::trace::{empty_trace, Trace};

verus! {

impl NativeSpanState {
    /// Files a new span under `span_id`, registers its trace where there was
    /// none, and counts the span for it. A span that was filed under the id
    /// before is dropped and no longer counts for its trace.
    pub(super) fn create(&mut self, span_id: u64, trace_id: u128, parent_id: u64)
        requires
            old(self).wf(),
        ensures
            final(self).wf(),
            final(self)@ == old(self)@.create(span_id, trace_id, parent_id),
    {
        let ghost before = spans_view(self.spans@);
        let ghost traces_before = traces_view(self.traces@);
        let ghost count = |t: u128| live_count(before, t);
        let span = NativeSpan::new(span_id, parent_id, trace_id);
        let ghost fresh = span@;
        let replaced = self.spans.insert(span_id, span);
        let ghost after = spans_view(self.spans@);
        proof {
            assert(before.dom() =~= old(self).spans@.dom());
            assert(after =~= before.insert(span_id, fresh));
            assert(after.dom() =~= self.spans@.dom());
            assert(vstd::std_specs::hash::spec_hash_map_len(&self.spans) == self.spans@.len());
            lemma_live_bounds(after, trace_id);
            assert forall|t: u128| true implies #[trigger] live_count(after, t) == if t == trace_id {
                if before.contains_key(span_id) && before[span_id].span.trace_id == t {
                    live_count(before, t)
                } else {
                    live_count(before, t) + 1
                }
            } else {
                if before.contains_key(span_id) && before[span_id].span.trace_id == t {
                    (live_count(before, t) - 1) as nat
                } else {
                    live_count(before, t)
                }
            } by {
                lemma_live_insert(before, span_id, fresh, t);
            }
        }
        let moved: Option<u128> = match replaced {
            Some(o) => Some(o.span.trace_id),
            None => None,
        };
        match moved {
            Some(other) => {
                if other != trace_id {
                    proof {
                        lemma_live_bounds(before, other);
                        assert(before.contains_key(span_id) && before[span_id].span.trace_id
                            == other);
                        assert(has_live(before, other));
                    }
                    retain_trace(
                        &mut self.traces,
                        &mut self.trace_span_counts,
                        trace_id,
                        Ghost(count),
                    );
                    release_trace(
                        &mut self.traces,
                        &mut self.trace_span_counts,
                        other,
                        Ghost(raised(count, trace_id)),
                    );
                    proof {
                        let reached = lowered(raised(count, trace_id), other);
                        let wanted = |t: u128| live_count(after, t);
                        assert forall|t: u128| #[trigger] reached(t) == wanted(t) by {
                            assert(live_count(after, t) == wanted(t));
                        }
                        lemma_counts_match_same(
                            reached,
                            wanted,
                            self.traces@.dom(),
                            self.trace_span_counts@,
                        );
                    }
                } else {
                    proof {
                        let wanted = |t: u128| live_count(after, t);
                        assert forall|t: u128| #[trigger] count(t) == wanted(t) by {
                            assert(live_count(after, t) == wanted(t));
                        }
                        lemma_counts_match_same(
                            count,
                            wanted,
                            self.traces@.dom(),
                            self.trace_span_counts@,
                        );
                        assert(has_live(before, trace_id));
                        lemma_live_bounds(before, trace_id);
                        assert(old(self).traces@.dom().contains(trace_id));
                    }
                }
            },
            None => {
                retain_trace(
                    &mut self.traces,
                    &mut self.trace_span_counts,
                    trace_id,
                    Ghost(count),
                );
                proof {
                    let reached = raised(count, trace_id);
                    let wanted = |t: u128| live_count(after, t);
                    assert forall|t: u128| #[trigger] reached(t) == wanted(t) by {
                        assert(live_count(after, t) == wanted(t));
                    }
                    lemma_counts_match_same(
                        reached,
                        wanted,
                        self.traces@.dom(),
                        self.trace_span_counts@,
                    );
                }
            },
        }
        proof {
            let registered = if traces_before.contains_key(trace_id) {
                traces_before
            } else {
                traces_before.insert(trace_id, empty_trace())
            };
            let kept = traces_view(self.traces@);
            assert forall|t: u128| #[trigger] kept.contains_key(t) <==> has_live(after, t) by {
                lemma_live_bounds(after, t);
                assert(self.traces@.dom().contains(t) <==> live_count(after, t) > 0);
            }
            lemma_kept_is_retained(registered, kept, after);
        }
    }

    /// Takes the span `id` out of the map of spans, to change it and put it
    /// back.
    pub(super) fn take_span(&mut self, id: u64) -> (r: Result<NativeSpan, Error>)
        ensures
            final(self).traces == old(self).traces,
            final(self).trace_span_counts == old(self).trace_span_counts,
            final(self).string_table == old(self).string_table,
            final(self).pid == old(self).pid,
            final(self).tracer_service == old(self).tracer_service,
            match r {
                Ok(span) => old(self).spans@.contains_key(id) && span == old(self).spans@[id]
                    && final(self).spans@ == old(self).spans@.remove(id),
                Err(e) => !old(self).spans@.contains_key(id) && e == Error::UnknownSpanId(id)
                    && final(self).spans@ == old(self).spans@,
            },
    {
        match self.spans.remove(&id) {
            Some(span) => Ok(span),
            None => {
                assert(self.spans@ =~= old(self).spans@);
                Err(Error::UnknownSpanId(id))
            },
        }
    }

    /// Puts back a span that `take_span` took, changed but of the same
    /// trace.
    pub(super) fn put_span(&mut self, span: NativeSpan, Ghost(whole): Ghost<Map<u64, NativeSpan>>)
        requires
            parts_wf(whole, old(self).traces@, old(self).trace_span_counts@),
            whole.contains_key(span.span.span_id),
            old(self).spans@ == whole.remove(span.span.span_id),
            span.wf(),
            span.span.trace_id == whole[span.span.span_id].span.trace_id,
        ensures
            final(self).wf(),
            final(self)@ == (StateView {
                spans: spans_view(whole).insert(span.span.span_id, span@),
                ..old(self)@
            }),
    {
        let id: u64 = span.span.span_id;
        let ghost changed = span@;
        self.spans.insert(id, span);
        proof {
            let before = spans_view(whole);
            let after = spans_view(self.spans@);
            assert(self.spans@ =~= whole.insert(id, span));
            assert(after =~= before.insert(id, changed));
            lemma_live_update(before, id, changed);
            let count = |t: u128| live_count(before, t);
            let wanted = |t: u128| live_count(after, t);
            assert forall|t: u128| #[trigger] count(t) == wanted(t) by {
                assert(crate::model::live_ids(after, t) == crate::model::live_ids(before, t));
            }
            lemma_counts_match_same(count, wanted, self.traces@.dom(), self.trace_span_counts@);
        }
    }

    /// Takes the trace of the span `id` out of the map of traces, to change
    /// it and put it back.
    pub(super) fn take_trace_of(&mut self, id: u64) -> (r: Result<(u128, Trace), Error>)
        requires
            old(self).wf(),
        ensures
            final(self).spans == old(self).spans,
            final(self).trace_span_counts == old(self).trace_span_counts,
            final(self).string_table == old(self).string_table,
            final(self).pid == old(self).pid,
            final(self).tracer_service == old(self).tracer_service,
            match r {
                Ok((t, trace)) => old(self).spans@.contains_key(id) && t == old(
                    self,
                ).spans@[id].span.trace_id && old(self).traces@.contains_key(t) && trace == old(
                    self,
                ).traces@[t] && final(self).traces@ == old(self).traces@.remove(t),
                Err(e) => final(self).traces@ == old(self).traces@ && e == (if !old(
                    self,
                ).spans@.contains_key(id) {
                    Error::UnknownSpanId(id)
                } else {
                    Error::UnknownTraceId(old(self).spans@[id].span.trace_id)
                }) && (old(self).spans@.contains_key(id) ==> !old(self).traces@.contains_key(
                    old(self).spans@[id].span.trace_id,
                )),
            },
    {
        let t: u128 = match self.spans.get(&id) {
            Some(span) => span.span.trace_id,
            None => { return Err(Error::UnknownSpanId(id)); },
        };
        match self.traces.remove(&t) {
            Some(trace) => Ok((t, trace)),
            None => {
                assert(self.traces@ =~= old(self).traces@);
                Err(Error::UnknownTraceId(t))
            },
        }
    }

    /// Puts back a trace that `take_trace_of` took.
    pub(super) fn put_trace(&mut self, t: u128, trace: Trace, Ghost(whole): Ghost<Map<u128, Trace>>)
        requires
            parts_wf(old(self).spans@, whole, old(self).trace_span_counts@),
            whole.contains_key(t),
            old(self).traces@ == whole.remove(t),
            trace.wf(),
        ensures
            final(self).wf(),
            final(self)@ == (StateView {
                traces: traces_view(whole).insert(t, trace@),
                ..old(self)@
            }),
    {
        let ghost changed = trace@;
        self.traces.insert(t, trace);
        proof {
            assert(self.traces@ =~= whole.insert(t, trace));
            assert(traces_view(self.traces@) =~= traces_view(whole).insert(t, changed));
            assert(self.traces@.dom() =~= whole.dom());
        }
    }

    /// Applies one instruction. Where it is refused the store is as it was.
    pub fn apply(&mut self, ins: &Instruction) -> (r: Result<(), Error>)
        requires
            old(self).wf(),
        ensures
            final(self).wf(),
            match old(self)@.apply(*ins) {
                Ok(s) => r is Ok && final(self)@ == s,
                Err(e) => r == Err::<(), Error>(e) && final(self)@ == old(self)@,
            },
    {
        let id: u64 = ins.span_id;
        let ghost whole = self.spans@;
        let ghost traces = self.traces@;
        match ins.operation {
            Operation::Create { trace_id, parent_id } => {
                self.create(id, trace_id, parent_id);
            },
            Operation::SetMetaAttr { name, value } => {
                let name = self.get_string(name)?;
                let value = self.get_string(value)?;
                let mut span = self.take_span(id)?;
                span.set_meta(name, value);
                self.put_span(span, Ghost(whole));
            },
            Operation::SetMetricAttr { name, value } => {
                let name = self.get_string(name)?;
                let mut span = self.take_span(id)?;
                span.set_metric(name, value);
                self.put_span(span, Ghost(whole));
            },
            Operation::SetServiceName { value } => {
                let text = self.get_string(value)?;
                let mut span = self.take_span(id)?;
                span.span.service = text;
                self.put_span(span, Ghost(whole));
            },
            Operation::SetResourceName { value } => {
                let text = self.get_string(value)?;
                let mut span = self.take_span(id)?;
                span.span.resource = text;
                self.put_span(span, Ghost(whole));
            },
            Operation::SetError { value } => {
                let mut span = self.take_span(id)?;
                span.span.error = value;
                self.put_span(span, Ghost(whole));
            },
            Operation::SetStart { value } => {
                let mut span = self.take_span(id)?;
                span.span.start = value;
                self.put_span(span, Ghost(whole));
            },
            Operation::SetDuration { value } => {
                let mut span = self.take_span(id)?;
                span.span.duration = value;
                self.put_span(span, Ghost(whole));
            },
            Operation::SetType { value } => {
                let text = self.get_string(value)?;
                let mut span = self.take_span(id)?;
                span.span.span_type = text;
                self.put_span(span, Ghost(whole));
            },
            Operation::SetName { value } => {
                let text = self.get_string(value)?;
                let mut span = self.take_span(id)?;
                span.span.name = text;
                self.put_span(span, Ghost(whole));
            },
            Operation::SetTraceMetaAttr { name, value } => {
                let name = self.get_string(name)?;
                let value = self.get_string(value)?;
                let (t, mut trace) = self.take_trace_of(id)?;
                trace.meta.insert(name, value);
                self.put_trace(t, trace, Ghost(traces));
            },
            Operation::SetTraceMetricsAttr { name, value } => {
                let name = self.get_string(name)?;
                let (t, mut trace) = self.take_trace_of(id)?;
                trace.metrics.insert(name, value);
                self.put_trace(t, trace, Ghost(traces));
            },
            Operation::SetTraceOrigin { value } => {
                let text = self.get_string(value)?;
                let (t, mut trace) = self.take_trace_of(id)?;
                trace.origin = Some(text);
                self.put_trace(t, trace, Ghost(traces));
            },
        }
        proof {
            assert(final(self)@.spans =~= old(self)@.apply(*ins)->Ok_0.spans);
            assert(final(self)@.traces =~= old(self)@.apply(*ins)->Ok_0.traces);
        }
        Ok(())
    }

    /// Reads the arguments of the operation `op` at the cursor and applies
    /// the instruction. Where the arguments are cut short or the instruction
    /// is refused, the store and the cursor are as they were.
    pub(super) fn interpret_operation(&mut self, buf: &[u8], index: &mut usize, op: &BufferedOperation) -> (r:
        Result<(), Error>)
        requires
            old(self).wf(),
        ensures
            final(self).wf(),
            match decode_args(op.opcode, buf@, *old(index) as int) {
                Err(e) => r == Err::<(), Error>(e) && final(self)@ == old(self)@ && *final(index)
                    == *old(index),
                Ok(operation) => match old(self)@.apply(
                    Instruction { span_id: op.span_id, operation },
                ) {
                    Ok(s) => r is Ok && final(self)@ == s && *final(index) == *old(index)
                        + op.opcode.args_width(),
                    Err(e) => r == Err::<(), Error>(e) && final(self)@ == old(self)@,
                },
            },
    {
        let operation = Operation::from_buf(op.opcode, buf, index)?;
        self.apply(&Instruction { span_id: op.span_id, operation })
    }

    /// Drains the change buffer: applies its pending instructions in their
    /// order and then writes zero over the count, so that the caller sees
    /// that the buffer was drained. The first instruction that does not
    /// decode or is refused ends the drain with its error: what was applied
    /// before it stays applied, and the buffer is left as it was.
    pub fn flush_change_queue(&mut self, change_buffer: &mut [u8]) -> (r: Result<bool, Error>)
        requires
            old(self).wf(),
        ensures
            final(self).wf(),
            drained(old(self)@, old(change_buffer)@, final(self)@, final(change_buffer)@),
            match drain(old(self)@, old(change_buffer)@).error {
                None => r == Ok::<bool, Error>(true),
                Some(e) => r == Err::<bool, Error>(e),
            },
    {
        let mut index: usize = 0;
        let mut count: u64 = match get_u64(change_buffer, &mut index) {
            Ok(n) => n,
            Err(e) => { return Err(e); },
        };
        while count > 0
            invariant
                self.wf(),
                change_buffer@ == old(change_buffer)@,
                drain_from(self@, change_buffer@, index as int, count as nat) == drain(
                    old(self)@,
                    old(change_buffer)@,
                ),
            decreases count,
        {
            let op = match BufferedOperation::from_buf(change_buffer, &mut index) {
                Ok(op) => op,
                Err(e) => { return Err(e); },
            };
            match self.interpret_operation(change_buffer, &mut index, &op) {
                Ok(()) => {},
                Err(e) => { return Err(e); },
            }
            count -= 1;
        }
        let mut i: usize = 0;
        while i < 8
            invariant
                i <= 8,
                change_buffer@.len() == old(change_buffer)@.len(),
                change_buffer@.len() >= 8,
                forall|j: int| 0 <= j < i ==> change_buffer@[j] == 0,
                forall|j: int| i <= j < change_buffer@.len() ==> change_buffer@[j] == old(
                    change_buffer,
                )@[j],
            decreases 8 - i,
        {
            change_buffer[i] = 0;
            i += 1;
        }
        assert(change_buffer@ =~= drained_buffer(old(change_buffer)@));
        Ok(true)
    }
}

} // verus!
