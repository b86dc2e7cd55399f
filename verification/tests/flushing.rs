use tracer_core::change_buffer::{Instruction, Operation};
use tracer_core::error::Error;
use tracer_core::flusher::{
    copy_in_chunk_tags, copy_in_sampling_tags, finalize_span, process_one_span, response_string,
    AgentResponse, ONE,
};
use tracer_core::native_span::{NativeSpan, Span, SpanString};
use tracer_core::state::NativeSpanState;
use tracer_core::trace::Trace;

fn text(s: &'static str) -> SpanString {
    SpanString::from_static_str(s)
}

fn drained() -> Vec<u8> {
    vec![0u8; 8]
}

fn meta<'a>(span: &'a Span, key: &str) -> Option<&'a str> {
    span.meta.get(key).map(|v| v.as_str())
}

fn metric(span: &Span, key: &str) -> Option<f64> {
    span.metrics.get(key).map(|v| f64::from_bits(*v))
}

fn apply(state: &mut NativeSpanState, span_id: u64, operation: Operation) {
    assert_eq!(state.apply(&Instruction { span_id, operation }), Ok(()));
}

fn two_traces() -> NativeSpanState {
    let mut state = NativeSpanState::new(77f64.to_bits(), "tracer".to_string());
    for (key, value) in [
        (1u32, "tracer"),
        (2, "db"),
        (3, "team"),
        (4, "apm"),
        (5, "quota"),
        (6, "synthetics"),
        (7, "own"),
        (8, "mine"),
    ] {
        state.string_table_insert_one(key, value.to_string());
    }
    apply(&mut state, 1, Operation::Create { trace_id: 100, parent_id: 0 });
    apply(&mut state, 2, Operation::Create { trace_id: 100, parent_id: 1 });
    apply(&mut state, 3, Operation::Create { trace_id: 100, parent_id: 1 });
    apply(&mut state, 4, Operation::Create { trace_id: 200, parent_id: 0 });
    apply(&mut state, 1, Operation::SetServiceName { value: 1 });
    apply(&mut state, 2, Operation::SetServiceName { value: 2 });
    apply(&mut state, 2, Operation::SetMetaAttr { name: 7, value: 8 });
    apply(&mut state, 1, Operation::SetTraceMetaAttr { name: 3, value: 4 });
    apply(&mut state, 1, Operation::SetTraceMetricsAttr { name: 5, value: 0.5f64.to_bits() });
    state
}

#[test]
fn only_the_first_span_of_a_chunk_takes_the_trace_tags() {
    let mut state = two_traces();
    let out = state.flush_spans(&[1, 2], true).unwrap();
    assert_eq!(out.len(), 2);
    assert_eq!(out[0].span_id, 1);
    assert_eq!(out[1].span_id, 2);
    assert_eq!(meta(&out[0], "team"), Some("apm"));
    assert_eq!(metric(&out[0], "quota"), Some(0.5));
    assert_eq!(meta(&out[1], "team"), None);
    assert_eq!(metric(&out[1], "quota"), None);
    assert_eq!(meta(&out[1], "own"), Some("mine"));
    // only the local root is marked as top level
    assert_eq!(metric(&out[0], "_dd.top_level"), Some(1.0));
    assert_eq!(metric(&out[1], "_dd.top_level"), None);
    // every span gets the fixed tags
    for span in &out {
        assert_eq!(meta(span, "language"), Some("javascript"));
        assert_eq!(metric(span, "process_id"), Some(77.0));
    }
    assert_eq!(out[0].meta.len(), 2);
    assert_eq!(out[0].metrics.len(), 3);
    assert_eq!(out[1].meta.len(), 3);
    assert_eq!(out[1].metrics.len(), 1);
}

#[test]
fn the_chunk_root_need_not_be_the_local_root() {
    let mut state = two_traces();
    let out = state.flush_spans(&[2, 3], false).unwrap();
    assert_eq!(meta(&out[0], "team"), Some("apm"));
    assert_eq!(metric(&out[0], "quota"), Some(0.5));
    assert_eq!(metric(&out[0], "_dd.top_level"), None);
    assert_eq!(meta(&out[1], "team"), None);
    assert_eq!(metric(&out[1], "_dd.top_level"), None);
}

#[test]
fn the_base_service_is_recorded_where_the_service_differs() {
    let mut state = two_traces();
    let out = state.flush_spans(&[1, 2, 3], true).unwrap();
    assert_eq!(out[0].service.as_str(), "tracer");
    assert_eq!(meta(&out[0], "_dd.base_service"), None);
    assert_eq!(out[1].service.as_str(), "db");
    assert_eq!(meta(&out[1], "_dd.base_service"), Some("tracer"));
    assert_eq!(out[2].service.as_str(), "");
    assert_eq!(meta(&out[2], "_dd.base_service"), Some("tracer"));
}

#[test]
fn the_origin_goes_onto_every_span_of_its_trace() {
    let mut state = two_traces();
    apply(&mut state, 3, Operation::SetTraceOrigin { value: 6 });
    let out = state.flush_spans(&[2, 4, 1], false).unwrap();
    assert_eq!(meta(&out[0], "_dd.origin"), Some("synthetics"));
    assert_eq!(meta(&out[1], "_dd.origin"), None);
    assert_eq!(meta(&out[2], "_dd.origin"), Some("synthetics"));
}

#[test]
fn a_flush_counts_down_and_evicts_the_trace_at_zero() {
    let mut state = two_traces();
    assert_eq!(state.live_span_count(100), Ok(3));
    assert_eq!(state.flush_spans(&[2], false).map(|v| v.len()), Ok(1));
    assert_eq!(state.live_span_count(100), Ok(2));
    assert_eq!(state.get_trace_meta_attr(&mut drained(), 1, "team".to_string()), Ok(Some("apm".to_string())));
    assert_eq!(state.flush_spans(&[3, 1], false).map(|v| v.len()), Ok(2));
    assert_eq!(state.live_span_count(100), Err(Error::UnknownTraceId(100)));
    assert_eq!(state.live_span_count(200), Ok(1));
    for id in [1u64, 2, 3] {
        assert_eq!(state.get_start(&mut drained(), id), Err(Error::UnknownSpanId(id)));
    }
    // a trace of the same id starts empty
    apply(&mut state, 9, Operation::Create { trace_id: 100, parent_id: 0 });
    assert_eq!(state.get_trace_meta_attr(&mut drained(), 9, "team".to_string()), Err(Error::UnknownAttribute));
    assert_eq!(state.live_span_count(100), Ok(1));
}

#[test]
fn a_chunk_of_two_traces_counts_each_span_for_its_own_trace() {
    let mut state = two_traces();
    let out = state.flush_spans(&[4, 1], false).unwrap();
    assert_eq!(out[0].trace_id, 200);
    assert_eq!(out[1].trace_id, 100);
    assert_eq!(state.live_span_count(200), Err(Error::UnknownTraceId(200)));
    assert_eq!(state.live_span_count(100), Ok(2));
    // the first span took the tags of its own trace, which has none
    assert_eq!(meta(&out[0], "team"), None);
    assert_eq!(meta(&out[1], "team"), None);
}

#[test]
fn a_missing_span_fails_the_whole_flush() {
    let mut state = two_traces();
    assert_eq!(state.flush_spans(&[1, 2, 99, 3], true).map(|v| v.len()), Err(Error::UnknownSpanId(99)));
    assert_eq!(state.live_span_count(100), Ok(3));
    for id in [1u64, 2, 3] {
        assert_eq!(state.get_start(&mut drained(), id), Ok(0));
    }
    assert_eq!(state.get_service_name(&mut drained(), 2), Ok("db".to_string()));
    assert_eq!(
        state.get_meta_attr(&mut drained(), 2, "own".to_string()),
        Ok(Some("mine".to_string()))
    );
    assert_eq!(state.get_meta_attr(&mut drained(), 1, "language".to_string()), Err(Error::UnknownAttribute));
    // and the flush can be done afterwards
    assert_eq!(state.flush_spans(&[1, 2, 3], true).map(|v| v.len()), Ok(3));
}

#[test]
fn a_span_named_twice_fails_the_whole_flush() {
    let mut state = two_traces();
    assert_eq!(state.flush_spans(&[1, 2, 1], true).map(|v| v.len()), Err(Error::UnknownSpanId(1)));
    assert_eq!(state.live_span_count(100), Ok(3));
    assert_eq!(state.get_service_name(&mut drained(), 1), Ok("tracer".to_string()));
}

#[test]
fn an_empty_chunk_flushes_nothing() {
    let mut state = two_traces();
    assert_eq!(state.flush_spans(&[], true).map(|v| v.len()), Ok(0));
    assert_eq!(state.live_span_count(100), Ok(3));
    assert_eq!(state.flush_chunk(&mut drained(), 0, true, &[]).map(|v| v.len()), Ok(0));
}

#[test]
fn flush_chunk_drains_first() {
    let mut state = two_traces();
    let mut queue = Vec::new();
    queue.extend_from_slice(&2u64.to_le_bytes());
    queue.extend_from_slice(&0u64.to_le_bytes());
    queue.extend_from_slice(&5u64.to_le_bytes());
    queue.extend_from_slice(&300u128.to_le_bytes());
    queue.extend_from_slice(&0u64.to_le_bytes());
    queue.extend_from_slice(&7u64.to_le_bytes());
    queue.extend_from_slice(&5u64.to_le_bytes());
    queue.extend_from_slice(&42i64.to_le_bytes());
    let chunk = 5u64.to_le_bytes();
    let out = state.flush_chunk(&mut queue, 1, true, &chunk).unwrap();
    assert_eq!(&queue[..8], &[0u8; 8]);
    assert_eq!(out.len(), 1);
    assert_eq!(out[0].span_id, 5);
    assert_eq!(out[0].trace_id, 300);
    assert_eq!(out[0].duration, 42);
    assert_eq!(state.live_span_count(300), Err(Error::UnknownTraceId(300)));
}

#[test]
fn flush_chunk_reports_the_failure_of_its_drain() {
    let mut state = two_traces();
    let mut queue = Vec::new();
    queue.extend_from_slice(&1u64.to_le_bytes());
    queue.extend_from_slice(&6u64.to_le_bytes());
    queue.extend_from_slice(&55u64.to_le_bytes());
    queue.extend_from_slice(&42i64.to_le_bytes());
    let chunk = 1u64.to_le_bytes();
    assert_eq!(
        state.flush_chunk(&mut queue, 1, true, &chunk).map(|v| v.len()),
        Err(Error::UnknownSpanId(55))
    );
    assert_eq!(queue[0], 1);
    assert_eq!(state.live_span_count(100), Ok(3));
}

#[test]
fn flush_chunk_refuses_a_chunk_that_is_cut_short() {
    let mut state = two_traces();
    let mut chunk = Vec::new();
    chunk.extend_from_slice(&1u64.to_le_bytes());
    chunk.extend_from_slice(&2u64.to_le_bytes());
    assert_eq!(
        state.flush_chunk(&mut drained(), 3, true, &chunk).map(|v| v.len()),
        Err(Error::BufferTooShort)
    );
    assert_eq!(
        state.flush_chunk(&mut drained(), 2, true, &chunk[..15]).map(|v| v.len()),
        Err(Error::BufferTooShort)
    );
    assert_eq!(state.live_span_count(100), Ok(3));
    assert_eq!(state.flush_chunk(&mut drained(), 2, true, &chunk).map(|v| v.len()), Ok(2));
    assert_eq!(state.live_span_count(100), Ok(1));
}

#[test]
fn sampling_decisions_go_onto_the_local_root() {
    let mut trace = Trace::new();
    trace.sampling_rule_decision = Some(0.25f64.to_bits());
    trace.sampling_agent_decision = Some(0.75f64.to_bits());
    let mut span = NativeSpan::new(1, 0, 2);
    span.set_metric(text("_dd.rule_psr"), 9f64.to_bits());
    span.set_metric(text("_dd.limit_psr"), 8f64.to_bits());
    copy_in_sampling_tags(&trace, &mut span);
    assert_eq!(metric(&span.span, "_dd.rule_psr"), Some(0.25));
    assert_eq!(metric(&span.span, "_dd.limit_psr"), Some(8.0));
    assert_eq!(metric(&span.span, "_dd.agent_psr"), Some(0.75));
    assert_eq!(span.span.metrics.len(), 3);

    let mut all = Trace::new();
    all.sampling_rule_decision = Some(1f64.to_bits());
    all.sampling_limit_decision = Some(2f64.to_bits());
    all.sampling_agent_decision = Some(3f64.to_bits());
    let root = finalize_span(NativeSpan::new(1, 0, 2), Some(&all), true, true, 0, "svc");
    assert_eq!(metric(&root, "_dd.rule_psr"), Some(1.0));
    assert_eq!(metric(&root, "_dd.limit_psr"), Some(2.0));
    assert_eq!(metric(&root, "_dd.agent_psr"), Some(3.0));
    assert_eq!(metric(&root, "_dd.top_level"), Some(1.0));
    let other = finalize_span(NativeSpan::new(1, 0, 2), Some(&all), false, true, 0, "svc");
    assert_eq!(metric(&other, "_dd.rule_psr"), None);
    assert_eq!(metric(&other, "_dd.top_level"), None);
}

#[test]
fn chunk_tags_replace_the_spans_own() {
    let mut trace = Trace::new();
    trace.meta.insert(text("a"), text("trace"));
    trace.meta.insert(text("b"), text("trace"));
    trace.metrics.insert(text("m"), 2f64.to_bits());
    let mut span = NativeSpan::new(1, 0, 2);
    span.set_meta(text("a"), text("span"));
    span.set_meta(text("c"), text("span"));
    span.set_metric(text("m"), 1f64.to_bits());
    span.set_metric(text("n"), 1f64.to_bits());
    copy_in_chunk_tags(&trace, &mut span);
    assert_eq!(meta(&span.span, "a"), Some("trace"));
    assert_eq!(meta(&span.span, "b"), Some("trace"));
    assert_eq!(meta(&span.span, "c"), Some("span"));
    assert_eq!(metric(&span.span, "m"), Some(2.0));
    assert_eq!(metric(&span.span, "n"), Some(1.0));
    assert_eq!(span.span.meta.len(), 3);
    assert_eq!(span.span.metrics.len(), 2);
}

#[test]
fn a_span_with_a_kind_other_than_internal_is_measured() {
    let mut server = NativeSpan::new(1, 0, 2);
    server.set_meta(text("kind"), text("server"));
    let out = process_one_span(server, None, 5f64.to_bits(), "");
    assert_eq!(metric(&out, "_dd.measured"), Some(1.0));
    assert_eq!(out.metrics.get("_dd.measured"), Some(&ONE));

    let mut internal = NativeSpan::new(1, 0, 2);
    internal.set_meta(text("kind"), text("internal"));
    let out = process_one_span(internal, None, 5f64.to_bits(), "");
    assert_eq!(metric(&out, "_dd.measured"), None);

    let out = process_one_span(NativeSpan::new(1, 0, 2), None, 5f64.to_bits(), "");
    assert_eq!(metric(&out, "_dd.measured"), None);
    assert_eq!(metric(&out, "process_id"), Some(5.0));
    assert_eq!(meta(&out, "language"), Some("javascript"));
    assert_eq!(meta(&out, "_dd.base_service"), None);
    assert_eq!(meta(&out, "_dd.origin"), None);
}

#[test]
fn the_fixed_tags_replace_what_the_span_or_the_trace_set() {
    let mut trace = Trace::new();
    trace.meta.insert(text("language"), text("cobol"));
    trace.metrics.insert(text("process_id"), 1f64.to_bits());
    trace.origin = Some(text("rum"));
    let mut span = NativeSpan::new(1, 0, 2);
    span.set_meta(text("_dd.origin"), text("old"));
    let out = finalize_span(span, Some(&trace), false, true, 9f64.to_bits(), "svc");
    assert_eq!(meta(&out, "language"), Some("javascript"));
    assert_eq!(metric(&out, "process_id"), Some(9.0));
    assert_eq!(meta(&out, "_dd.origin"), Some("rum"));
    assert_eq!(meta(&out, "_dd.base_service"), Some("svc"));
}

#[test]
fn flushing_makes_the_sampling_of_a_span_final_once() {
    let mut state = two_traces();
    let mut sampling = 1u64.to_le_bytes().to_vec();
    assert_eq!(state.sample(&mut drained(), &mut sampling), Ok(true));
    assert_eq!(sampling, vec![0, 0, 0, 0, 0, 0, 0, 101]);
    // flushing a span that is final already flushes it as any other
    let out = state.flush_spans(&[1], true).unwrap();
    assert_eq!(out[0].span_id, 1);
}

#[test]
fn the_exporters_result_becomes_a_response() {
    assert_eq!(response_string(Ok(AgentResponse::Unchanged)), Ok("unchanged".to_string()));
    assert_eq!(
        response_string(Ok(AgentResponse::Changed { body: "{\"rate_by_service\":{}}".to_string() })),
        Ok("{\"rate_by_service\":{}}".to_string())
    );
    assert_eq!(
        response_string(Ok(AgentResponse::Changed { body: String::new() })),
        Ok(String::new())
    );
    assert_eq!(
        response_string(Err("connection refused".to_string())),
        Err(Error::ExportFailed("connection refused".to_string()))
    );
}
