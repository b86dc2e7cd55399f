//! What a span becomes when its chunk is flushed: the tags that the local
//! root and the first span of the chunk take from their trace, and the tags
//! that every span gets.

use vstd::prelude::*;
use crate::decoder::{get_u64, le_u64};
use crate::error::Error;
use crate::model::{drain, retain_live, StateView};
use crate::native_span::{NativeSpan, NativeSpanView, Span, SpanString, SpanView};
use crate::tag_map::{extend_numbers, extend_texts};
use crate::text::text_eq;
use crate::trace::{Trace, TraceView};

verus! {

/// The bit pattern of the binary64 number 1.
pub const ONE: u64 = 0x3FF0_0000_0000_0000;

/// The span with the sampling decisions of its trace among its metrics,
/// each under its fixed key and only where the trace has it.
pub open spec fn with_sampling_tags(span: SpanView, trace: TraceView) -> SpanView {
    let with_rule = match trace.sampling_rule_decision {
        Some(rule) => span.metrics.insert("_dd.rule_psr"@, rule),
        None => span.metrics,
    };
    let with_limit = match trace.sampling_limit_decision {
        Some(limit) => with_rule.insert("_dd.limit_psr"@, limit),
        None => with_rule,
    };
    let with_agent = match trace.sampling_agent_decision {
        Some(agent) => with_limit.insert("_dd.agent_psr"@, agent),
        None => with_limit,
    };
    SpanView { metrics: with_agent, ..span }
}

/// The span marked as the top level of its chunk.
pub open spec fn with_top_level(span: SpanView) -> SpanView {
    SpanView { metrics: span.metrics.insert("_dd.top_level"@, ONE), ..span }
}

/// The span with every trace-wide tag and metric of its trace. Where the
/// span and the trace hold the same key, the trace's value stays.
pub open spec fn with_chunk_tags(span: SpanView, trace: TraceView) -> SpanView {
    SpanView {
        meta: span.meta.union_prefer_right(trace.meta),
        metrics: span.metrics.union_prefer_right(trace.metrics),
        ..span
    }
}

/// The span with the tags that every flushed span gets: it is marked as
/// measured where its kind is given and is not internal; it names the
/// tracer's default service where its own service is another; it carries the
/// language, the process id and, where its trace has one, the origin.
pub open spec fn processed(
    span: SpanView,
    origin: Option<Seq<char>>,
    pid: u64,
    tracer_service: Seq<char>,
) -> SpanView {
    let measured = if span.meta.contains_key("kind"@) && span.meta["kind"@] != "internal"@ {
        span.metrics.insert("_dd.measured"@, ONE)
    } else {
        span.metrics
    };
    let based = if span.service != tracer_service {
        span.meta.insert("_dd.base_service"@, tracer_service)
    } else {
        span.meta
    };
    let spoken = based.insert("language"@, "javascript"@);
    let meta = match origin {
        Some(o) => spoken.insert("_dd.origin"@, o),
        None => spoken,
    };
    SpanView { meta, metrics: measured.insert("process_id"@, pid), ..span }
}

/// The origin of a trace, where there is a trace and it has one.
pub open spec fn origin_of(trace: Option<TraceView>) -> Option<Seq<char>> {
    match trace {
        Some(t) => t.origin,
        None => None,
    }
}

/// The record that leaves the store for a span. The local root takes the
/// sampling decisions of its trace and is marked as top level; the first
/// span of a chunk takes the trace-wide tags; every span is processed.
pub open spec fn finalized(
    span: SpanView,
    trace: Option<TraceView>,
    local_root: bool,
    chunk_root: bool,
    pid: u64,
    tracer_service: Seq<char>,
) -> SpanView {
    let rooted = if local_root {
        with_top_level(
            match trace {
                Some(t) => with_sampling_tags(span, t),
                None => span,
            },
        )
    } else {
        span
    };
    let tagged = if chunk_root {
        match trace {
            Some(t) => with_chunk_tags(rooted, t),
            None => rooted,
        }
    } else {
        rooted
    };
    processed(tagged, origin_of(trace), pid, tracer_service)
}

/// Taking the spans `ids` out of `spans` one after the other: the first id
/// that is not there when its turn comes, because the store never held it or
/// because the chunk named it before.
pub open spec fn first_missing(spans: Map<u64, NativeSpanView>, ids: Seq<u64>) -> Option<u64>
    decreases ids.len(),
{
    if ids.len() == 0 {
        None
    } else if !spans.contains_key(ids[0]) {
        Some(ids[0])
    } else {
        first_missing(spans.remove(ids[0]), ids.drop_first())
    }
}

/// The trace of the live span `id`, where it is registered.
pub open spec fn trace_of(s: StateView, id: u64) -> Option<TraceView> {
    let t = s.spans[id].span.trace_id;
    if s.traces.contains_key(t) {
        Some(s.traces[t])
    } else {
        None
    }
}

/// The records of a chunk, in the order of the chunk. Only the first span
/// is the chunk's root, and only it can be the local root.
pub open spec fn chunk_records(s: StateView, ids: Seq<u64>, first_is_local_root: bool) -> Seq<
    SpanView,
> {
    Seq::new(
        ids.len(),
        |i: int|
            finalized(
                s.spans[ids[i]].span,
                trace_of(s, ids[i]),
                i == 0 && first_is_local_root,
                i == 0,
                s.pid,
                s.tracer_service,
            ),
    )
}

/// How a flush ended: the store it left, and the records of the chunk or
/// the failure.
pub struct Flushed {
    pub state: StateView,
    pub outcome: Result<Seq<SpanView>, Error>,
}

/// Flushes the spans `ids` as one chunk. Where one of them is missing the
/// flush fails as a whole and the store keeps every span. Otherwise the
/// spans leave the store, and with the last span of a trace the trace.
pub open spec fn flush(s: StateView, ids: Seq<u64>, first_is_local_root: bool) -> Flushed {
    match first_missing(s.spans, ids) {
        Some(id) => Flushed { state: s, outcome: Err(Error::UnknownSpanId(id)) },
        None => {
            let spans = s.spans.remove_keys(ids.to_set());
            Flushed {
                state: StateView { spans, traces: retain_live(s.traces, spans), ..s },
                outcome: Ok(chunk_records(s, ids, first_is_local_root)),
            }
        },
    }
}

/// The span ids of a chunk buffer: `len` numbers of eight bytes each,
/// little-endian.
pub open spec fn chunk_ids(chunk: Seq<u8>, len: nat) -> Seq<u64> {
    Seq::new(len, |i: int| le_u64(chunk, 8 * i) as u64)
}

/// The records of a list of spans.
pub open spec fn records_view(spans: Seq<Span>) -> Seq<SpanView> {
    Seq::new(spans.len(), |i: int| spans[i]@)
}

/// Copies the sampling decisions of `trace` into the metrics of `span`.
pub fn copy_in_sampling_tags(trace: &Trace, span: &mut NativeSpan)
    requires
        old(span).wf(),
    ensures
        final(span).wf(),
        final(span)@ == (NativeSpanView {
            span: with_sampling_tags(old(span)@.span, trace@),
            ..old(span)@
        }),
{
    if let Some(rule) = trace.sampling_rule_decision {
        span.set_metric(SpanString::from_static_str("_dd.rule_psr"), rule);
    }
    if let Some(limit) = trace.sampling_limit_decision {
        span.set_metric(SpanString::from_static_str("_dd.limit_psr"), limit);
    }
    if let Some(agent) = trace.sampling_agent_decision {
        span.set_metric(SpanString::from_static_str("_dd.agent_psr"), agent);
    }
}

/// Copies every trace-wide tag and metric of `trace` onto `span`.
pub fn copy_in_chunk_tags(trace: &Trace, span: &mut NativeSpan)
    requires
        old(span).wf(),
        trace.wf(),
    ensures
        final(span).wf(),
        final(span)@ == (NativeSpanView {
            span: with_chunk_tags(old(span)@.span, trace@),
            ..old(span)@
        }),
{
    extend_texts(&mut span.span.meta, &trace.meta);
    extend_numbers(&mut span.span.metrics, &trace.metrics);
}

/// Finishes one span: runs the sampling hook on it, gives it the tags that
/// every flushed span gets, and hands out its record.
pub fn process_one_span(
    span: NativeSpan,
    trace: Option<&Trace>,
    pid: u64,
    tracer_service: &str,
) -> (r: Span)
    requires
        span.wf(),
    ensures
        r.wf(),
        r@ == processed(
            span@.span,
            origin_of(
                match trace {
                    Some(t) => Some(t@),
                    None => None,
                },
            ),
            pid,
            tracer_service@,
        ),
{
    let mut span = span;
    let _ = span.sample();
    let measured: bool = match span.span.meta.get("kind") {
        Some(kind) => !text_eq(kind.as_str(), "internal"),
        None => false,
    };
    if measured {
        span.set_metric(SpanString::from_static_str("_dd.measured"), ONE);
    }
    if !text_eq(span.span.service.as_str(), tracer_service) {
        span.set_meta(
            SpanString::from_static_str("_dd.base_service"),
            SpanString(tracer_service.to_owned()),
        );
    }
    span.set_meta(
        SpanString::from_static_str("language"),
        SpanString::from_static_str("javascript"),
    );
    span.set_metric(SpanString::from_static_str("process_id"), pid);
    if let Some(t) = trace {
        if let Some(origin) = &t.origin {
            span.set_meta(SpanString::from_static_str("_dd.origin"), origin.clone());
        }
    }
    span.span
}

/// Makes the record of one span of a chunk. `local_root` says whether the
/// span is the local root of its trace, `chunk_root` whether it is the first
/// span of the chunk.
pub fn finalize_span(
    span: NativeSpan,
    trace: Option<&Trace>,
    local_root: bool,
    chunk_root: bool,
    pid: u64,
    tracer_service: &str,
) -> (r: Span)
    requires
        span.wf(),
        trace is Some ==> trace->Some_0.wf(),
    ensures
        r.wf(),
        r@ == finalized(
            span@.span,
            match trace {
                Some(t) => Some(t@),
                None => None,
            },
            local_root,
            chunk_root,
            pid,
            tracer_service@,
        ),
{
    let mut span = span;
    if local_root {
        if let Some(t) = trace {
            copy_in_sampling_tags(t, &mut span);
        }
        span.set_metric(SpanString::from_static_str("_dd.top_level"), ONE);
    }
    if chunk_root {
        if let Some(t) = trace {
            copy_in_chunk_tags(t, &mut span);
        }
    }
    process_one_span(span, trace, pid, tracer_service)
}

/// The flush of the chunk that `chunk` names, after a drain of the change
/// buffer `bytes`. A drain that fails ends the call with its failure; so
/// does a chunk buffer that is shorter than `len` ids.
pub open spec fn flush_chunk(
    s: StateView,
    bytes: Seq<u8>,
    len: u32,
    first_is_local_root: bool,
    chunk: Seq<u8>,
) -> Flushed {
    let d = drain(s, bytes);
    match d.error {
        Some(e) => Flushed { state: d.state, outcome: Err(e) },
        None => if chunk.len() < 8 * len {
            Flushed { state: d.state, outcome: Err(Error::BufferTooShort) }
        } else {
            flush(d.state, chunk_ids(chunk, len as nat), first_is_local_root)
        },
    }
}

/// Whether the list `r` holds the records of `outcome`, or the same failure.
pub open spec fn gives(r: Result<Vec<Span>, Error>, outcome: Result<Seq<SpanView>, Error>) -> bool {
    match outcome {
        Ok(records) => r is Ok && records_view(r->Ok_0@) == records && forall|i: int|
            0 <= i < r->Ok_0@.len() ==> (#[trigger] r->Ok_0@[i]).wf(),
        Err(e) => r == Err::<Vec<Span>, Error>(e),
    }
}

/// Reads the `len` span ids of a chunk buffer.
pub fn decode_chunk(chunk: &[u8], len: u32) -> (r: Result<Vec<u64>, Error>)
    ensures
        match r {
            Ok(ids) => chunk@.len() >= 8 * len && ids@ == chunk_ids(chunk@, len as nat),
            Err(e) => chunk@.len() < 8 * len && e == Error::BufferTooShort,
        },
{
    if chunk.len() / 8 < len as usize {
        return Err(Error::BufferTooShort);
    }
    let mut ids: Vec<u64> = Vec::new();
    let mut index: usize = 0;
    let mut i: u32 = 0;
    while i < len
        invariant
            i <= len,
            chunk@.len() >= 8 * len,
            index == 8 * i,
            ids@.len() == i,
            forall|k: int| 0 <= k < i ==> ids@[k] == le_u64(chunk@, 8 * k),
        decreases len - i,
    {
        match get_u64(chunk, &mut index) {
            Ok(id) => { ids.push(id); },
            Err(e) => { return Err(e); },
        }
        i += 1;
    }
    assert(ids@ =~= chunk_ids(chunk@, len as nat));
    Ok(ids)
}

/// What the exporter answered for a chunk.
#[derive(Debug)]
pub enum AgentResponse {
    /// Nothing changed since the last answer.
    Unchanged,
    /// The agent sent a new body.
    Changed { body: String },
}

/// The response that the caller sees for an exporter's result: the word
/// `unchanged`, the new body, or `ExportFailed` with the transport's
/// message.
pub fn response_string(result: Result<AgentResponse, String>) -> (r: Result<String, Error>)
    ensures
        match result {
            Ok(AgentResponse::Unchanged) => r is Ok && r->Ok_0@ == "unchanged"@,
            Ok(AgentResponse::Changed { body }) => r == Ok::<String, Error>(body),
            Err(message) => r == Err::<String, Error>(Error::ExportFailed(message)),
        },
{
    match result {
        Ok(AgentResponse::Unchanged) => Ok("unchanged".to_owned()),
        Ok(AgentResponse::Changed { body }) => Ok(body),
        Err(message) => Err(Error::ExportFailed(message)),
    }
}

} // verus!
