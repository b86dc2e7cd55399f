//! What holds of the store whatever the instructions and the chunks are:
//! the last write to a field wins, trace-level attributes are shared within
//! a trace and only there, a trace lives exactly as long as one of its
//! spans, only the first span of a chunk takes the trace-wide tags, and a
//! refused instruction keeps what was applied before it.

use vstd::prelude::*;
use crate::change_buffer::{decode_instruction, record_width, Instruction, Operation};
use crate::counting::{lemma_live_bounds, lemma_live_insert, lemma_live_update};
use crate::error::Error;
use crate::flusher::{chunk_records, first_missing, flush, trace_of};
use crate::model::{
    attribute, drain_from, flattened, has_live, live_count, lookup, read_span, read_trace,
    Drained, StateView,
};
use crate::native_span::NativeSpanView;
use crate::trace::TraceView;

verus! {

/// A field that an instruction can set and an accessor can read.
pub enum Field {
    Service,
    Resource,
    Name,
    Type,
    Error,
    Start,
    Duration,
    Meta(Seq<char>),
    Metric(Seq<char>),
    TraceMeta(Seq<char>),
    TraceMetric(Seq<char>),
    TraceOrigin,
}

/// What a field holds: a text, an integer, or the bit pattern of a binary64
/// number.
pub enum Value {
    Text(Seq<char>),
    Number(int),
    Bits(u64),
}

impl Field {
    /// Whether the field belongs to the trace and not to one span.
    pub open spec fn is_trace_level(self) -> bool {
        self is TraceMeta || self is TraceMetric || self is TraceOrigin
    }
}

/// An optional text as an optional value.
pub open spec fn as_text(v: Option<Seq<char>>) -> Option<Value> {
    match v {
        Some(t) => Some(Value::Text(t)),
        None => None,
    }
}

/// An optional bit pattern as an optional value.
pub open spec fn as_bits(v: Option<u64>) -> Option<Value> {
    match v {
        Some(b) => Some(Value::Bits(b)),
        None => None,
    }
}

impl Operation {
    /// The field that the operation sets and the value that it sets it to,
    /// its strings resolved in `strings`. `Create` sets no field.
    pub open spec fn assignment(self, strings: Map<u32, Seq<char>>) -> Option<(Field, Value)> {
        match self {
            Operation::Create { .. } => None,
            Operation::SetMetaAttr { name, value } => Some(
                (Field::Meta(strings[name]), Value::Text(strings[value])),
            ),
            Operation::SetMetricAttr { name, value } => Some(
                (Field::Metric(strings[name]), Value::Bits(value)),
            ),
            Operation::SetServiceName { value } => Some((Field::Service, Value::Text(strings[value]))),
            Operation::SetResourceName { value } => Some(
                (Field::Resource, Value::Text(strings[value])),
            ),
            Operation::SetError { value } => Some((Field::Error, Value::Number(value as int))),
            Operation::SetStart { value } => Some((Field::Start, Value::Number(value as int))),
            Operation::SetDuration { value } => Some((Field::Duration, Value::Number(value as int))),
            Operation::SetType { value } => Some((Field::Type, Value::Text(strings[value]))),
            Operation::SetName { value } => Some((Field::Name, Value::Text(strings[value]))),
            Operation::SetTraceMetaAttr { name, value } => Some(
                (Field::TraceMeta(strings[name]), Value::Text(strings[value])),
            ),
            Operation::SetTraceMetricsAttr { name, value } => Some(
                (Field::TraceMetric(strings[name]), Value::Bits(value)),
            ),
            Operation::SetTraceOrigin { value } => Some(
                (Field::TraceOrigin, Value::Text(strings[value])),
            ),
        }
    }
}

impl StateView {
    /// What is read of `field` through the live span `id`: the value of the
    /// field, or `None` for an attribute or an origin that is not set. A
    /// trace-level field is read in the trace of the span.
    pub open spec fn read(self, id: u64, field: Field) -> Option<Value> {
        let span = self.spans[id].span;
        let trace = self.traces[span.trace_id];
        match field {
            Field::Service => Some(Value::Text(span.service)),
            Field::Resource => Some(Value::Text(span.resource)),
            Field::Name => Some(Value::Text(span.name)),
            Field::Type => Some(Value::Text(span.span_type)),
            Field::Error => Some(Value::Number(span.error as int)),
            Field::Start => Some(Value::Number(span.start as int)),
            Field::Duration => Some(Value::Number(span.duration as int)),
            Field::Meta(name) => as_text(lookup(span.meta, name)),
            Field::Metric(name) => as_bits(lookup(span.metrics, name)),
            Field::TraceMeta(name) => as_text(lookup(trace.meta, name)),
            Field::TraceMetric(name) => as_bits(lookup(trace.metrics, name)),
            Field::TraceOrigin => as_text(trace.origin),
        }
    }

    /// Whether the instruction `ins` sets the field `field` as it is read
    /// through the live span `id`: a span-level field of that span, or a
    /// trace-level field through any live span of the same trace.
    pub open spec fn sets(self, ins: Instruction, id: u64, field: Field) -> bool {
        &&& ins.operation.assignment(self.strings) is Some
        &&& ins.operation.assignment(self.strings)->Some_0.0 == field
        &&& if field.is_trace_level() {
            self.spans.contains_key(ins.span_id) && self.spans[ins.span_id].span.trace_id
                == self.spans[id].span.trace_id
        } else {
            ins.span_id == id
        }
    }

    /// Whether the instruction `ins` can change what is read of `field`
    /// through the span `id`: it sets the field, or it creates the span
    /// anew.
    pub open spec fn disturbs(self, ins: Instruction, id: u64, field: Field) -> bool {
        self.sets(ins, id, field) || (ins.operation is Create && ins.span_id == id)
    }

    /// The store after the instructions `instrs`, applied in their order up
    /// to the first that is refused: that one and those after it are not
    /// applied, and its failure is kept.
    pub open spec fn run(self, instrs: Seq<Instruction>) -> Drained
        decreases instrs.len(),
    {
        if instrs.len() == 0 {
            Drained { state: self, error: None }
        } else {
            let d = self.run(instrs.drop_last());
            if d.error is Some {
                d
            } else {
                match d.state.apply(instrs.last()) {
                    Ok(s) => Drained { state: s, error: None },
                    Err(e) => Drained { state: d.state, error: Some(e) },
                }
            }
        }
    }
}

/// The instructions of `remaining` records, the first at `pos`, up to the
/// first record that does not decode.
pub open spec fn pending(bytes: Seq<u8>, pos: int, remaining: nat) -> Seq<Instruction>
    decreases remaining,
{
    if remaining == 0 {
        Seq::empty()
    } else {
        match decode_instruction(bytes, pos) {
            Err(_) => Seq::empty(),
            Ok(ins) => seq![ins] + pending(
                bytes,
                pos + record_width(bytes, pos),
                (remaining - 1) as nat,
            ),
        }
    }
}

/// Why the first of `remaining` records, the first at `pos`, that does not
/// decode does not, where there is such a record.
pub open spec fn decode_failure(bytes: Seq<u8>, pos: int, remaining: nat) -> Option<Error>
    decreases remaining,
{
    if remaining == 0 {
        None
    } else {
        match decode_instruction(bytes, pos) {
            Err(e) => Some(e),
            Ok(_) => decode_failure(bytes, pos + record_width(bytes, pos), (remaining - 1) as nat),
        }
    }
}

/// An instruction that is applied keeps the invariant of the store.
pub proof fn law_apply_keeps_invariant(s: StateView, ins: Instruction)
    requires
        s.inv(),
        s.apply(ins) is Ok,
    ensures
        s.apply(ins)->Ok_0.inv(),
{
    let after = s.apply(ins)->Ok_0;
    let id = ins.span_id;
    match ins.operation {
        Operation::Create { trace_id, parent_id } => {
            assert forall|t: u128| #[trigger] after.traces.contains_key(t) <==> has_live(
                after.spans,
                t,
            ) by {
                if has_live(after.spans, t) && t != trace_id {
                    let w = choose|w: u64|
                        after.spans.contains_key(w) && (#[trigger] after.spans[w]).span.trace_id
                            == t;
                    assert(w != id);
                    assert(s.spans.contains_key(w) && s.spans[w].span.trace_id == t);
                    assert(has_live(s.spans, t));
                    assert(s.traces.contains_key(t));
                }
            }
        },
        op => {
            if op.is_trace_level() {
                let t = s.spans[id].span.trace_id;
                assert(after.traces.dom() =~= s.traces.dom());
            } else {
                lemma_live_update(s.spans, id, op.on_span(s.spans[id], s.strings));
            }
        },
    }
}

/// An instruction that is applied changes neither the string table nor the
/// facts about the process.
pub proof fn law_apply_keeps_strings(s: StateView, ins: Instruction)
    requires
        s.apply(ins) is Ok,
    ensures
        s.apply(ins)->Ok_0.strings == s.strings,
        s.apply(ins)->Ok_0.pid == s.pid,
        s.apply(ins)->Ok_0.tracer_service == s.tracer_service,
{
}

/// Write, then read: after an instruction that sets a field, the accessor
/// of that field gives the value that was set.
pub proof fn law_read_after_write(s: StateView, ins: Instruction, id: u64, field: Field)
    requires
        s.inv(),
        s.spans.contains_key(id),
        s.apply(ins) is Ok,
        s.sets(ins, id, field),
    ensures
        s.apply(ins)->Ok_0.spans.contains_key(id),
        s.apply(ins)->Ok_0.spans[id].span.trace_id == s.spans[id].span.trace_id,
        s.apply(ins)->Ok_0.read(id, field) == Some(
            ins.operation.assignment(s.strings)->Some_0.1,
        ),
{
}

/// An instruction that does not disturb a field leaves what is read of it.
pub proof fn law_read_unchanged(s: StateView, ins: Instruction, id: u64, field: Field)
    requires
        s.inv(),
        s.spans.contains_key(id),
        s.apply(ins) is Ok,
        !s.disturbs(ins, id, field),
    ensures
        s.apply(ins)->Ok_0.spans.contains_key(id),
        s.apply(ins)->Ok_0.spans[id].span.trace_id == s.spans[id].span.trace_id,
        s.apply(ins)->Ok_0.read(id, field) == s.read(id, field),
{
    let after = s.apply(ins)->Ok_0;
    let t = s.spans[id].span.trace_id;
    assert(has_live(s.spans, t));
    match ins.operation {
        Operation::Create { trace_id, parent_id } => {
            assert(after.spans.contains_key(id) && after.spans[id].span.trace_id == t);
            assert(has_live(after.spans, t));
        },
        _ => {},
    }
}

/// The accessors read the fields that the laws speak of. After a drain
/// that applied everything, each accessor gives for a live span what
/// `read` gives for its field. An attribute that is set is given with its
/// value, and one that is not set is refused with `UnknownAttribute`; the
/// origin is given where it is set.
pub proof fn law_accessors_read_fields(d: Drained, id: u64, name: Seq<char>)
    requires
        d.error is None,
        d.state.inv(),
        d.state.spans.contains_key(id),
    ensures
        read_span(d, id, |s: NativeSpanView| s.span.service) == Ok::<Seq<char>, Error>(
            d.state.spans[id].span.service,
        ) && d.state.read(id, Field::Service) == Some(Value::Text(d.state.spans[id].span.service)),
        read_span(d, id, |s: NativeSpanView| s.span.resource) == Ok::<Seq<char>, Error>(
            d.state.spans[id].span.resource,
        ) && d.state.read(id, Field::Resource) == Some(
            Value::Text(d.state.spans[id].span.resource),
        ),
        read_span(d, id, |s: NativeSpanView| s.span.name) == Ok::<Seq<char>, Error>(
            d.state.spans[id].span.name,
        ) && d.state.read(id, Field::Name) == Some(Value::Text(d.state.spans[id].span.name)),
        read_span(d, id, |s: NativeSpanView| s.span.span_type) == Ok::<Seq<char>, Error>(
            d.state.spans[id].span.span_type,
        ) && d.state.read(id, Field::Type) == Some(Value::Text(d.state.spans[id].span.span_type)),
        read_span(d, id, |s: NativeSpanView| s.span.error) == Ok::<i32, Error>(
            d.state.spans[id].span.error,
        ) && d.state.read(id, Field::Error) == Some(
            Value::Number(d.state.spans[id].span.error as int),
        ),
        read_span(d, id, |s: NativeSpanView| s.span.start) == Ok::<i64, Error>(
            d.state.spans[id].span.start,
        ) && d.state.read(id, Field::Start) == Some(
            Value::Number(d.state.spans[id].span.start as int),
        ),
        read_span(d, id, |s: NativeSpanView| s.span.duration) == Ok::<i64, Error>(
            d.state.spans[id].span.duration,
        ) && d.state.read(id, Field::Duration) == Some(
            Value::Number(d.state.spans[id].span.duration as int),
        ),
        flattened(read_span(d, id, |s: NativeSpanView| attribute(s.span.meta, name)))
            == attribute(d.state.spans[id].span.meta, name) && d.state.read(id, Field::Meta(name))
            == as_text(lookup(d.state.spans[id].span.meta, name)),
        flattened(read_span(d, id, |s: NativeSpanView| attribute(s.span.metrics, name)))
            == attribute(d.state.spans[id].span.metrics, name) && d.state.read(
            id,
            Field::Metric(name),
        ) == as_bits(lookup(d.state.spans[id].span.metrics, name)),
        flattened(read_trace(d, id, |t: TraceView| attribute(t.meta, name))) == attribute(
            d.state.traces[d.state.spans[id].span.trace_id].meta,
            name,
        ) && d.state.read(id, Field::TraceMeta(name)) == as_text(
            lookup(d.state.traces[d.state.spans[id].span.trace_id].meta, name),
        ),
        flattened(read_trace(d, id, |t: TraceView| attribute(t.metrics, name))) == attribute(
            d.state.traces[d.state.spans[id].span.trace_id].metrics,
            name,
        ) && d.state.read(id, Field::TraceMetric(name)) == as_bits(
            lookup(d.state.traces[d.state.spans[id].span.trace_id].metrics, name),
        ),
        read_trace(d, id, |t: TraceView| t.origin) is Ok && d.state.read(id, Field::TraceOrigin)
            == as_text(read_trace(d, id, |t: TraceView| t.origin)->Ok_0),
{
    assert(has_live(d.state.spans, d.state.spans[id].span.trace_id));
}

/// Running a list one instruction further.
pub proof fn lemma_run_step(s: StateView, instrs: Seq<Instruction>, k: int)
    requires
        0 <= k < instrs.len(),
    ensures
        s.run(instrs.take(k + 1)) == ({
            let d = s.run(instrs.take(k));
            if d.error is Some {
                d
            } else {
                match d.state.apply(instrs[k]) {
                    Ok(n) => Drained { state: n, error: None },
                    Err(e) => Drained { state: d.state, error: Some(e) },
                }
            }
        }),
{
    assert(instrs.take(k + 1).drop_last() =~= instrs.take(k));
    assert(instrs.take(k + 1).last() == instrs[k]);
}

/// Where a whole list is applied, so is each of its beginnings, and each
/// keeps the invariant and the string table.
pub proof fn lemma_run_prefix(s: StateView, instrs: Seq<Instruction>, k: int)
    requires
        s.inv(),
        s.run(instrs).error is None,
        0 <= k <= instrs.len(),
    ensures
        s.run(instrs.take(k)).error is None,
        s.run(instrs.take(k)).state.inv(),
        s.run(instrs.take(k)).state.strings == s.strings,
    decreases instrs.len(),
{
    if instrs.len() == 0 {
        assert(instrs.take(k) =~= instrs);
    } else if k == instrs.len() {
        assert(instrs.take(k) =~= instrs);
        let shorter = instrs.drop_last();
        lemma_run_prefix(s, shorter, shorter.len() as int);
        assert(shorter.take(shorter.len() as int) =~= shorter);
        law_apply_keeps_invariant(s.run(shorter).state, instrs.last());
    } else {
        let shorter = instrs.drop_last();
        lemma_run_prefix(s, shorter, k);
        assert(shorter.take(k) =~= instrs.take(k));
    }
}

proof fn lemma_last_write_upto(
    s: StateView,
    instrs: Seq<Instruction>,
    i: int,
    id: u64,
    field: Field,
    m: int,
)
    requires
        s.inv(),
        s.run(instrs).error is None,
        0 <= i < m <= instrs.len(),
        s.run(instrs.take(i)).state.spans.contains_key(id),
        s.run(instrs.take(i)).state.sets(instrs[i], id, field),
        forall|j: int|
            i < j < instrs.len() ==> !(#[trigger] s.run(instrs.take(j))).state.disturbs(
                instrs[j],
                id,
                field,
            ),
    ensures
        s.run(instrs.take(m)).error is None,
        s.run(instrs.take(m)).state.spans.contains_key(id),
        s.run(instrs.take(m)).state.read(id, field) == Some(
            instrs[i].operation.assignment(s.strings)->Some_0.1,
        ),
    decreases m - i,
{
    lemma_run_prefix(s, instrs, m);
    lemma_run_prefix(s, instrs, m - 1);
    lemma_run_step(s, instrs, m - 1);
    let before = s.run(instrs.take(m - 1)).state;
    if m == i + 1 {
        law_read_after_write(before, instrs[i], id, field);
    } else {
        lemma_last_write_upto(s, instrs, i, id, field, m - 1);
        assert(!s.run(instrs.take(m - 1)).state.disturbs(instrs[m - 1], id, field));
        law_read_unchanged(before, instrs[m - 1], id, field);
    }
}

/// The last write wins. Let every instruction of a list be applied. Where
/// one of them sets a field, and no instruction after it sets that field or
/// creates the reading span anew, the accessor of the field gives, after
/// the whole list, the value that this instruction set.
pub proof fn law_last_write_wins(
    s: StateView,
    instrs: Seq<Instruction>,
    i: int,
    id: u64,
    field: Field,
)
    requires
        s.inv(),
        s.run(instrs).error is None,
        0 <= i < instrs.len(),
        s.run(instrs.take(i)).state.spans.contains_key(id),
        s.run(instrs.take(i)).state.sets(instrs[i], id, field),
        forall|j: int|
            i < j < instrs.len() ==> !(#[trigger] s.run(instrs.take(j))).state.disturbs(
                instrs[j],
                id,
                field,
            ),
    ensures
        s.run(instrs).state.spans.contains_key(id),
        s.run(instrs).state.read(id, field) == Some(
            instrs[i].operation.assignment(s.strings)->Some_0.1,
        ),
{
    lemma_last_write_upto(s, instrs, i, id, field, instrs.len() as int);
    assert(instrs.take(instrs.len() as int) =~= instrs);
}

/// Trace-level attributes are shared within a trace and only there. After
/// an instruction that sets a trace-level field through one span, every
/// live span of the same trace reads the new value, and every live span of
/// another trace reads what it read before.
pub proof fn law_trace_fields_shared(s: StateView, ins: Instruction, other: u64, field: Field)
    requires
        s.inv(),
        s.apply(ins) is Ok,
        field.is_trace_level(),
        s.sets(ins, ins.span_id, field),
        s.spans.contains_key(other),
    ensures
        s.apply(ins)->Ok_0.spans.contains_key(other),
        s.spans[other].span.trace_id == s.spans[ins.span_id].span.trace_id ==> s.apply(
            ins,
        )->Ok_0.read(other, field) == Some(ins.operation.assignment(s.strings)->Some_0.1),
        s.spans[other].span.trace_id != s.spans[ins.span_id].span.trace_id ==> forall|f: Field|
            s.apply(ins)->Ok_0.read(other, f) == s.read(other, f),
{
}

/// A trace lives exactly as long as one of its spans: it is registered
/// where its live-span count is positive, and nowhere else.
pub proof fn law_trace_lives_with_spans(s: StateView, t: u128)
    requires
        s.inv(),
    ensures
        s.traces.contains_key(t) <==> live_count(s.spans, t) > 0,
{
    lemma_live_bounds(s.spans, t);
}

/// `Create` of a span id that is not live counts one more live span for its
/// trace and leaves the count of every other trace.
pub proof fn law_create_counts(s: StateView, span_id: u64, trace_id: u128, parent_id: u64, t: u128)
    requires
        s.inv(),
        !s.spans.contains_key(span_id),
    ensures
        live_count(s.create(span_id, trace_id, parent_id).spans, t) == if t == trace_id {
            live_count(s.spans, t) + 1
        } else {
            live_count(s.spans, t)
        },
{
    lemma_live_insert(
        s.spans,
        span_id,
        crate::native_span::fresh_span(span_id, parent_id, trace_id),
        t,
    );
}

/// Other instructions than `Create` leave every live-span count.
pub proof fn law_setters_keep_counts(s: StateView, ins: Instruction, t: u128)
    requires
        s.inv(),
        s.apply(ins) is Ok,
        !(ins.operation is Create),
    ensures
        live_count(s.apply(ins)->Ok_0.spans, t) == live_count(s.spans, t),
{
    if !ins.operation.is_trace_level() {
        lemma_live_update(
            s.spans,
            ins.span_id,
            ins.operation.on_span(s.spans[ins.span_id], s.strings),
        );
    }
}

/// Unknown references fail with their typed error: an instruction other
/// than `Create` is refused with `UnknownStringKey` for its first string
/// reference that the table does not hold, else with `UnknownSpanId` where
/// its span is not live. The refusal changes nothing: `apply` gives no new
/// store.
pub proof fn law_unknown_reference(s: StateView, ins: Instruction)
    requires
        !(ins.operation is Create),
    ensures
        ins.operation.missing_key(s.strings) is Some ==> s.apply(ins) == Err::<StateView, Error>(
            Error::UnknownStringKey(ins.operation.missing_key(s.strings)->Some_0),
        ),
        ins.operation.missing_key(s.strings) is None && !s.spans.contains_key(ins.span_id)
            ==> s.apply(ins) == Err::<StateView, Error>(Error::UnknownSpanId(ins.span_id)),
        s.inv() && ins.operation.missing_key(s.strings) is None && s.spans.contains_key(
            ins.span_id,
        ) ==> s.apply(ins) is Ok,
{
    if s.inv() && s.spans.contains_key(ins.span_id) {
        assert(has_live(s.spans, s.spans[ins.span_id].span.trace_id));
    }
}

/// A refused instruction keeps what was applied before it: where the first
/// `k` instructions of a list are applied and the next one is refused, the
/// run of the whole list ends with the store after those `k` and with that
/// refusal.
pub proof fn law_refusal_keeps_progress(s: StateView, instrs: Seq<Instruction>, k: int, m: int)
    requires
        0 <= k < m <= instrs.len(),
        s.run(instrs.take(k)).error is None,
        s.run(instrs.take(k)).state.apply(instrs[k]) is Err,
    ensures
        s.run(instrs.take(m)) == (Drained {
            state: s.run(instrs.take(k)).state,
            error: Some(s.run(instrs.take(k)).state.apply(instrs[k])->Err_0),
        }),
    decreases m - k,
{
    lemma_run_step(s, instrs, m - 1);
    if m > k + 1 {
        law_refusal_keeps_progress(s, instrs, k, m - 1);
    }
}

/// Running a list that starts with `first`.
pub proof fn lemma_run_front(s: StateView, first: Instruction, rest: Seq<Instruction>)
    ensures
        s.run(seq![first] + rest) == match s.apply(first) {
            Ok(n) => n.run(rest),
            Err(e) => Drained { state: s, error: Some(e) },
        },
    decreases rest.len(),
{
    let all = seq![first] + rest;
    if rest.len() == 0 {
        assert(all.drop_last() =~= Seq::<Instruction>::empty());
        assert(all.last() == first);
        assert(s.run(all.drop_last()) == Drained { state: s, error: None });
    } else {
        assert(all.drop_last() =~= seq![first] + rest.drop_last());
        assert(all.last() == rest.last());
        lemma_run_front(s, first, rest.drop_last());
    }
}

/// A drain applies the instructions that decode, in their order: it ends as
/// the run of the pending instructions ends, and where all of those are
/// applied, with the failure of the first record that does not decode.
pub proof fn law_drain_runs_pending(s: StateView, bytes: Seq<u8>, pos: int, remaining: nat)
    ensures
        drain_from(s, bytes, pos, remaining) == ({
            let r = s.run(pending(bytes, pos, remaining));
            if r.error is Some {
                r
            } else {
                Drained { state: r.state, error: decode_failure(bytes, pos, remaining) }
            }
        }),
    decreases remaining,
{
    if remaining > 0 {
        match decode_instruction(bytes, pos) {
            Err(_) => {},
            Ok(ins) => {
                let next = pos + record_width(bytes, pos);
                let rest = pending(bytes, next, (remaining - 1) as nat);
                lemma_run_front(s, ins, rest);
                match s.apply(ins) {
                    Ok(n) => {
                        law_drain_runs_pending(n, bytes, next, (remaining - 1) as nat);
                    },
                    Err(_) => {},
                }
            },
        }
    }
}

/// A chunk can be flushed exactly where each of its ids names a live span
/// and no id comes twice.
pub proof fn law_flushable(spans: Map<u64, NativeSpanView>, ids: Seq<u64>)
    ensures
        first_missing(spans, ids) is None <==> ids.no_duplicates() && forall|i: int|
            0 <= i < ids.len() ==> spans.contains_key(#[trigger] ids[i]),
    decreases ids.len(),
{
    if ids.len() > 0 {
        let rest = ids.drop_first();
        law_flushable(spans.remove(ids[0]), rest);
        if first_missing(spans, ids) is None {
            assert forall|i: int| 0 <= i < ids.len() implies spans.contains_key(
                #[trigger] ids[i],
            ) by {
                if i > 0 {
                    assert(spans.remove(ids[0]).contains_key(rest[i - 1]));
                }
            }
            assert forall|i: int, j: int| 0 <= i < ids.len() && 0 <= j < ids.len() && i
                != j implies ids[i] != ids[j] by {
                if i == 0 {
                    assert(spans.remove(ids[0]).contains_key(rest[j - 1]));
                } else if j == 0 {
                    assert(spans.remove(ids[0]).contains_key(rest[i - 1]));
                } else {
                    assert(rest[i - 1] != rest[j - 1]);
                }
            }
        }
        if ids.no_duplicates() && forall|i: int|
            0 <= i < ids.len() ==> spans.contains_key(#[trigger] ids[i]) {
            assert(spans.contains_key(ids[0]));
            assert forall|i: int| 0 <= i < rest.len() implies spans.remove(ids[0]).contains_key(
                #[trigger] rest[i],
            ) by {
                assert(rest[i] == ids[i + 1]);
                assert(ids[i + 1] != ids[0]);
            }
            assert forall|i: int, j: int| 0 <= i < rest.len() && 0 <= j < rest.len() && i
                != j implies rest[i] != rest[j] by {
                assert(ids[i + 1] != ids[j + 1]);
            }
        }
    }
}

/// How many spans of the chunk `ids` belong to the trace `t`.
pub open spec fn chunk_count(
    spans: Map<u64, NativeSpanView>,
    ids: Seq<u64>,
    t: u128,
) -> nat
    decreases ids.len(),
{
    if ids.len() == 0 {
        0
    } else {
        chunk_count(spans, ids.drop_last(), t) + if spans[ids.last()].span.trace_id == t {
            1nat
        } else {
            0nat
        }
    }
}

proof fn lemma_flush_counts(
    spans: Map<u64, NativeSpanView>,
    ids: Seq<u64>,
    t: u128,
)
    requires
        spans.dom().finite(),
        ids.no_duplicates(),
        forall|i: int| 0 <= i < ids.len() ==> spans.contains_key(#[trigger] ids[i]),
    ensures
        live_count(spans.remove_keys(ids.to_set()), t) + chunk_count(spans, ids, t) == live_count(
            spans,
            t,
        ),
    decreases ids.len(),
{
    if ids.len() == 0 {
        assert(ids.to_set() =~= Set::empty());
        assert(spans.remove_keys(ids.to_set()) =~= spans);
    } else {
        let shorter = ids.drop_last();
        let last = ids.last();
        assert forall|i: int| 0 <= i < shorter.len() implies spans.contains_key(
            #[trigger] shorter[i],
        ) by {
            assert(shorter[i] == ids[i]);
        }
        assert forall|i: int, j: int| 0 <= i < shorter.len() && 0 <= j < shorter.len() && i
            != j implies shorter[i] != shorter[j] by {
            assert(ids[i] != ids[j]);
        }
        lemma_flush_counts(spans, shorter, t);
        let middle = spans.remove_keys(shorter.to_set());
        assert(!shorter.to_set().contains(last)) by {
            if shorter.contains(last) {
                let j = choose|j: int| 0 <= j < shorter.len() && shorter[j] == last;
                assert(ids[j] != ids[ids.len() - 1]);
            }
        }
        assert(ids.to_set() =~= shorter.to_set().insert(last)) by {
            assert forall|q: u64| ids.to_set().contains(q) <==> shorter.to_set().insert(
                last,
            ).contains(q) by {
                if ids.contains(q) {
                    let j = choose|j: int| 0 <= j < ids.len() && ids[j] == q;
                    if j < shorter.len() {
                        assert(shorter[j] == q);
                    }
                }
                if shorter.contains(q) {
                    let j = choose|j: int| 0 <= j < shorter.len() && shorter[j] == q;
                    assert(ids[j] == q);
                }
                if q == last {
                    assert(ids[ids.len() - 1] == q);
                }
            }
        }
        assert(spans.remove_keys(ids.to_set()) =~= middle.remove(last));
        assert(middle.dom().subset_of(spans.dom()));
        vstd::set_lib::lemma_len_subset(middle.dom(), spans.dom());
        crate::counting::lemma_live_remove(middle, last, t);
        lemma_live_bounds(middle, t);
        assert(middle.contains_key(last) && middle[last] == spans[last]);
        if spans[last].span.trace_id == t {
            assert(has_live(middle, t));
        }
    }
}

/// A flush takes from the live-span count of each trace the number of its
/// spans in the chunk, and a trace whose count reaches zero is no longer
/// registered.
pub proof fn law_flush_counts(s: StateView, ids: Seq<u64>, first_is_local_root: bool, t: u128)
    requires
        s.inv(),
        flush(s, ids, first_is_local_root).outcome is Ok,
    ensures
        flush(s, ids, first_is_local_root).state.inv(),
        live_count(flush(s, ids, first_is_local_root).state.spans, t) + chunk_count(
            s.spans,
            ids,
            t,
        ) == live_count(s.spans, t),
        flush(s, ids, first_is_local_root).state.traces.contains_key(t) <==> live_count(
            flush(s, ids, first_is_local_root).state.spans,
            t,
        ) > 0,
{
    law_flushable(s.spans, ids);
    lemma_flush_counts(s.spans, ids, t);
    let after = flush(s, ids, first_is_local_root).state;
    assert(after.spans.dom().subset_of(s.spans.dom()));
    vstd::set_lib::lemma_len_subset(after.spans.dom(), s.spans.dom());
    assert forall|x: u128| #[trigger] after.traces.contains_key(x) <==> has_live(
        after.spans,
        x,
    ) by {
        if has_live(after.spans, x) {
            let w = choose|w: u64|
                after.spans.contains_key(w) && (#[trigger] after.spans[w]).span.trace_id == x;
            assert(s.spans.contains_key(w) && s.spans[w].span.trace_id == x);
            assert(has_live(s.spans, x));
        }
    }
    lemma_live_bounds(after.spans, t);
}

/// A flush that fails changes nothing.
pub proof fn law_failed_flush_keeps_store(s: StateView, ids: Seq<u64>, first_is_local_root: bool)
    requires
        flush(s, ids, first_is_local_root).outcome is Err,
    ensures
        flush(s, ids, first_is_local_root).state == s,
        flush(s, ids, first_is_local_root).outcome == Err::<
            Seq<crate::native_span::SpanView>,
            Error,
        >(Error::UnknownSpanId(first_missing(s.spans, ids)->Some_0)),
{
}

/// Whether a tag is one of those that every flushed span gets.
pub open spec fn is_fixed_tag(key: Seq<char>) -> bool {
    key == "_dd.base_service"@ || key == "language"@ || key == "_dd.origin"@
}

/// Whether a metric is one of those that every flushed span can get.
pub open spec fn is_fixed_metric(key: Seq<char>) -> bool {
    key == "_dd.measured"@ || key == "process_id"@
}

/// Only the first span of a chunk takes the trace-wide tags. In its record
/// each tag and each metric of its trace stands with the trace's value.
/// The record of any later span holds, besides the tags and metrics that
/// every flushed span gets, only the span's own, with their own values.
pub proof fn law_only_chunk_root_takes_trace_tags(
    s: StateView,
    ids: Seq<u64>,
    first_is_local_root: bool,
    i: int,
    key: Seq<char>,
)
    requires
        s.inv(),
        flush(s, ids, first_is_local_root).outcome is Ok,
        0 <= i < ids.len(),
    ensures
        s.spans.contains_key(ids[i]),
        trace_of(s, ids[i]) is Some,
        ({
            let record = flush(s, ids, first_is_local_root).outcome->Ok_0[i];
            let own = s.spans[ids[i]].span;
            let trace = trace_of(s, ids[i])->Some_0;
            &&& i == 0 && !is_fixed_tag(key) && trace.meta.contains_key(key)
                ==> record.meta.contains_key(key) && record.meta[key] == trace.meta[key]
            &&& i == 0 && !is_fixed_metric(key) && trace.metrics.contains_key(key)
                ==> record.metrics.contains_key(key) && record.metrics[key] == trace.metrics[key]
            &&& i > 0 && !is_fixed_tag(key) ==> lookup(record.meta, key) == lookup(own.meta, key)
            &&& i > 0 && !is_fixed_metric(key) ==> lookup(record.metrics, key) == lookup(
                own.metrics,
                key,
            )
        }),
{
    law_flushable(s.spans, ids);
    assert(s.spans.contains_key(ids[i]));
    assert(has_live(s.spans, s.spans[ids[i]].span.trace_id));
    assert(flush(s, ids, first_is_local_root).outcome->Ok_0 == chunk_records(
        s,
        ids,
        first_is_local_root,
    ));
}

} // verus!
