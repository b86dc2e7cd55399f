//! The store as a mathematical value, and what each instruction and each
//! drain of a change buffer makes of it.

use vstd::prelude::*;
use crate::change_buffer::{decode_instruction, record_width, Instruction, Operation};
use crate::decoder::{in_bounds, le_u64};
use crate::error::Error;
use crate::string_table::resolved;
use crate::native_span::{be_bytes, fresh_span, sampling_info, NativeSpanView, SpanView};
use crate::trace::{empty_trace, TraceView};

verus! {

/// The store: the live spans by span id, the traces by trace id, the string
/// table, and the two facts about the process that every flushed span is
/// tagged with.
pub struct StateView {
    pub spans: Map<u64, NativeSpanView>,
    pub traces: Map<u128, TraceView>,
    pub strings: Map<u32, Seq<char>>,
    /// The process id, as the bit pattern of a binary64 number.
    pub pid: u64,
    pub tracer_service: Seq<char>,
}

/// The ids of the live spans of the trace `trace_id`.
pub open spec fn live_ids(spans: Map<u64, NativeSpanView>, trace_id: u128) -> Set<u64> {
    Set::new(|id: u64| spans.contains_key(id) && spans[id].span.trace_id == trace_id)
}

/// The live-span count of a trace: how many spans of it the store holds.
pub open spec fn live_count(spans: Map<u64, NativeSpanView>, trace_id: u128) -> nat {
    live_ids(spans, trace_id).len()
}

/// Whether the store holds a span of the trace `trace_id`.
pub open spec fn has_live(spans: Map<u64, NativeSpanView>, trace_id: u128) -> bool {
    exists|id: u64| spans.contains_key(id) && (#[trigger] spans[id]).span.trace_id == trace_id
}

/// The traces of `traces` that still have a live span: a trace is evicted
/// when its last span leaves the store.
pub open spec fn retain_live(
    traces: Map<u128, TraceView>,
    spans: Map<u64, NativeSpanView>,
) -> Map<u128, TraceView> {
    traces.restrict(Set::new(|t: u128| has_live(spans, t)))
}

impl StateView {
    /// What holds of every store: a span is filed under its own id, and a
    /// trace exists exactly while a span of it is live.
    pub open spec fn inv(self) -> bool {
        &&& self.spans.dom().finite()
        &&& forall|id: u64| #[trigger]
            self.spans.contains_key(id) ==> self.spans[id].span.span_id == id
        &&& forall|t: u128| #[trigger] self.traces.contains_key(t) <==> has_live(self.spans, t)
    }

    /// The text under the key `key` of the string table.
    pub open spec fn resolve(self, key: u32) -> Result<Seq<char>, Error> {
        resolved(self.strings, key)
    }

    /// The store after `Create`: the new span is filed under `span_id`, in
    /// place of a span that was there; its trace is the one registered under
    /// `trace_id`, made empty where there was none. So a root span, or a
    /// span whose parent the store does not hold, starts its trace, and a
    /// child finds the trace that its parent is in, attributes and all. A
    /// span that is replaced no longer counts for its trace.
    pub open spec fn create(self, span_id: u64, trace_id: u128, parent_id: u64) -> StateView {
        let spans = self.spans.insert(span_id, fresh_span(span_id, parent_id, trace_id));
        let traces = if self.traces.contains_key(trace_id) {
            self.traces
        } else {
            self.traces.insert(trace_id, empty_trace())
        };
        StateView { spans, traces: retain_live(traces, spans), ..self }
    }
}

impl Operation {
    /// Whether the operation changes the trace of its span and not the span.
    pub open spec fn is_trace_level(self) -> bool {
        self is SetTraceMetaAttr || self is SetTraceMetricsAttr || self is SetTraceOrigin
    }

    /// The first string reference of the operation that `strings` does not
    /// hold, where there is one.
    pub open spec fn missing_key(self, strings: Map<u32, Seq<char>>) -> Option<u32> {
        match self {
            Operation::SetMetaAttr { name, value } | Operation::SetTraceMetaAttr { name, value } => {
                if !strings.contains_key(name) {
                    Some(name)
                } else if !strings.contains_key(value) {
                    Some(value)
                } else {
                    None
                }
            },
            Operation::SetMetricAttr { name, value: _ } | Operation::SetTraceMetricsAttr {
                name,
                value: _,
            } => {
                if !strings.contains_key(name) {
                    Some(name)
                } else {
                    None
                }
            },
            Operation::SetServiceName { value } | Operation::SetResourceName { value }
            | Operation::SetType { value } | Operation::SetName { value }
            | Operation::SetTraceOrigin { value } => {
                if !strings.contains_key(value) {
                    Some(value)
                } else {
                    None
                }
            },
            _ => None,
        }
    }

    /// The span after a span-level operation, its strings resolved in `strings`.
    pub open spec fn on_span(self, span: NativeSpanView, strings: Map<u32, Seq<char>>) -> NativeSpanView {
        let s = span.span;
        let changed = match self {
            Operation::SetMetaAttr { name, value } => SpanView {
                meta: s.meta.insert(strings[name], strings[value]),
                ..s
            },
            Operation::SetMetricAttr { name, value } => SpanView {
                metrics: s.metrics.insert(strings[name], value),
                ..s
            },
            Operation::SetServiceName { value } => SpanView { service: strings[value], ..s },
            Operation::SetResourceName { value } => SpanView { resource: strings[value], ..s },
            Operation::SetError { value } => SpanView { error: value, ..s },
            Operation::SetStart { value } => SpanView { start: value, ..s },
            Operation::SetDuration { value } => SpanView { duration: value, ..s },
            Operation::SetType { value } => SpanView { span_type: strings[value], ..s },
            Operation::SetName { value } => SpanView { name: strings[value], ..s },
            _ => s,
        };
        NativeSpanView { span: changed, ..span }
    }

    /// The trace after a trace-level operation, its strings resolved in
    /// `strings`.
    pub open spec fn on_trace(self, trace: TraceView, strings: Map<u32, Seq<char>>) -> TraceView {
        match self {
            Operation::SetTraceMetaAttr { name, value } => TraceView {
                meta: trace.meta.insert(strings[name], strings[value]),
                ..trace
            },
            Operation::SetTraceMetricsAttr { name, value } => TraceView {
                metrics: trace.metrics.insert(strings[name], value),
                ..trace
            },
            Operation::SetTraceOrigin { value } => TraceView {
                origin: Some(strings[value]),
                ..trace
            },
            _ => trace,
        }
    }
}

impl StateView {
    /// The store after one instruction, or why the instruction is refused. A
    /// refused instruction changes nothing. The string references are looked
    /// up first, in the order in which they stand in the record, then the
    /// span, then its trace.
    pub open spec fn apply(self, ins: Instruction) -> Result<StateView, Error> {
        let id = ins.span_id;
        match ins.operation {
            Operation::Create { trace_id, parent_id } => Ok(self.create(id, trace_id, parent_id)),
            op => match op.missing_key(self.strings) {
                Some(key) => Err(Error::UnknownStringKey(key)),
                None => if !self.spans.contains_key(id) {
                    Err(Error::UnknownSpanId(id))
                } else if op.is_trace_level() {
                    let t = self.spans[id].span.trace_id;
                    if !self.traces.contains_key(t) {
                        Err(Error::UnknownTraceId(t))
                    } else {
                        Ok(
                            StateView {
                                traces: self.traces.insert(
                                    t,
                                    op.on_trace(self.traces[t], self.strings),
                                ),
                                ..self
                            },
                        )
                    }
                } else {
                    Ok(
                        StateView {
                            spans: self.spans.insert(id, op.on_span(self.spans[id], self.strings)),
                            ..self
                        },
                    )
                },
            },
        }
    }
}

/// How a drain ended: the store it left, and the failure that stopped it, if
/// one did.
pub struct Drained {
    pub state: StateView,
    pub error: Option<Error>,
}

/// Applies `remaining` records of `bytes`, the first at `pos`, one after the
/// other. The first record that does not decode or is refused stops the
/// drain: the instructions before it stay applied, it and those after it are
/// not.
pub open spec fn drain_from(s: StateView, bytes: Seq<u8>, pos: int, remaining: nat) -> Drained
    decreases remaining,
{
    if remaining == 0 {
        Drained { state: s, error: None }
    } else {
        match decode_instruction(bytes, pos) {
            Err(e) => Drained { state: s, error: Some(e) },
            Ok(ins) => match s.apply(ins) {
                Err(e) => Drained { state: s, error: Some(e) },
                Ok(next) => drain_from(
                    next,
                    bytes,
                    pos + record_width(bytes, pos),
                    (remaining - 1) as nat,
                ),
            },
        }
    }
}

/// Drains a change buffer: a `u64` count of pending instructions, then that
/// many records.
pub open spec fn drain(s: StateView, bytes: Seq<u8>) -> Drained {
    if !in_bounds(bytes.len(), 0, 8) {
        Drained { state: s, error: Some(Error::BufferTooShort) }
    } else {
        drain_from(s, bytes, 8, le_u64(bytes, 0) as nat)
    }
}

/// A change buffer after a drain that applied every instruction: the count
/// is zero and the rest is as it was.
pub open spec fn drained_buffer(bytes: Seq<u8>) -> Seq<u8> {
    Seq::new(bytes.len(), |i: int| if i < 8 { 0u8 } else { bytes[i] })
}

/// What a drain makes of a store and of its change buffer: the store is as
/// `drain` says, and the count of the buffer is zeroed exactly when every
/// instruction was applied.
pub open spec fn drained(
    before: StateView,
    bytes: Seq<u8>,
    after: StateView,
    bytes_after: Seq<u8>,
) -> bool {
    let d = drain(before, bytes);
    &&& after == d.state
    &&& bytes_after == if d.error is None {
        drained_buffer(bytes)
    } else {
        bytes
    }
}

/// What an accessor of a span's field gives after a drain: the failure of
/// the drain, `UnknownSpanId` where the span is not live, else the field.
pub open spec fn read_span<T>(d: Drained, id: u64, field: spec_fn(NativeSpanView) -> T) -> Result<
    T,
    Error,
> {
    match d.error {
        Some(e) => Err(e),
        None => if d.state.spans.contains_key(id) {
            Ok(field(d.state.spans[id]))
        } else {
            Err(Error::UnknownSpanId(id))
        },
    }
}

/// What an accessor of a trace-level field gives after a drain, read through
/// the span `id`: the failure of the drain, `UnknownSpanId` where the span
/// is not live, `UnknownTraceId` where its trace is not registered, else
/// the field of its trace.
pub open spec fn read_trace<T>(d: Drained, id: u64, field: spec_fn(TraceView) -> T) -> Result<
    T,
    Error,
> {
    match d.error {
        Some(e) => Err(e),
        None => if !d.state.spans.contains_key(id) {
            Err(Error::UnknownSpanId(id))
        } else {
            let t = d.state.spans[id].span.trace_id;
            if d.state.traces.contains_key(t) {
                Ok(field(d.state.traces[t]))
            } else {
                Err(Error::UnknownTraceId(t))
            }
        },
    }
}

/// The attribute `name` of a map of attributes: its value, or
/// `UnknownAttribute` where the map holds no attribute of that name.
pub open spec fn attribute<V>(m: Map<Seq<char>, V>, name: Seq<char>) -> Result<Option<V>, Error> {
    if m.contains_key(name) {
        Ok(Some(m[name]))
    } else {
        Err(Error::UnknownAttribute)
    }
}

/// The outcome of a read that finds its span or trace and then may fail in
/// its turn: the first failure, or what was read.
pub open spec fn flattened<T>(r: Result<Result<T, Error>, Error>) -> Result<T, Error> {
    match r {
        Ok(inner) => inner,
        Err(e) => Err(e),
    }
}

/// The value under `key`, where the map holds the key.
pub open spec fn lookup<V>(m: Map<Seq<char>, V>, key: Seq<char>) -> Option<V> {
    if m.contains_key(key) {
        Some(m[key])
    } else {
        None
    }
}

/// A result with a text, as the characters of the text.
pub open spec fn text_of(r: Result<String, Error>) -> Result<Seq<char>, Error> {
    match r {
        Ok(s) => Ok(s@),
        Err(e) => Err(e),
    }
}

/// A result with a text or none, as the characters of the text.
pub open spec fn optional_text_of(r: Result<Option<String>, Error>) -> Result<
    Option<Seq<char>>,
    Error,
> {
    match r {
        Ok(Some(s)) => Ok(Some(s@)),
        Ok(None) => Ok(None),
        Err(e) => Err(e),
    }
}

/// How a call of the sampling hook ended: the store and the sampling buffer
/// it left, and whether a decision was written.
pub struct Sampled {
    pub state: StateView,
    pub buffer: Seq<u8>,
    pub outcome: Result<bool, Error>,
}

/// The sampling hook on the span that the sampling buffer names in its
/// first eight bytes, after a drain of the change buffer `bytes`. On a span
/// whose sampling is not final yet, the decision is written over those
/// eight bytes and the sampling becomes final; on any other span nothing is
/// written.
pub open spec fn sample(s: StateView, bytes: Seq<u8>, sampling: Seq<u8>) -> Sampled {
    let d = drain(s, bytes);
    match d.error {
        Some(e) => Sampled { state: d.state, buffer: sampling, outcome: Err(e) },
        None => if !in_bounds(sampling.len(), 0, 8) {
            Sampled { state: d.state, buffer: sampling, outcome: Err(Error::BufferTooShort) }
        } else {
            let id = le_u64(sampling, 0) as u64;
            if !d.state.spans.contains_key(id) {
                Sampled { state: d.state, buffer: sampling, outcome: Err(Error::UnknownSpanId(id)) }
            } else {
                let span = d.state.spans[id];
                Sampled {
                    state: StateView {
                        spans: d.state.spans.insert(
                            id,
                            NativeSpanView { sampling_finalized: true, ..span },
                        ),
                        ..d.state
                    },
                    buffer: if span.sampling_finalized {
                        sampling
                    } else {
                        be_bytes(sampling_info(span.span.span_id, span.span.trace_id))
                            + sampling.skip(8)
                    },
                    outcome: Ok(!span.sampling_finalized),
                }
            }
        },
    }
}

} // verus!
