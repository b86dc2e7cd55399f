use tracer_core::change_buffer::{Instruction, Operation};
use tracer_core::error::Error;
use tracer_core::native_span::{NativeSpan, SpanString};
use tracer_core::state::NativeSpanState;
use tracer_core::tag_map::TagMap;
use tracer_core::trace::Trace;

fn queue(records: &[(u64, u64, Vec<u8>)]) -> Vec<u8> {
    let mut buf = Vec::new();
    buf.extend_from_slice(&(records.len() as u64).to_le_bytes());
    for (opcode, span_id, args) in records {
        buf.extend_from_slice(&opcode.to_le_bytes());
        buf.extend_from_slice(&span_id.to_le_bytes());
        buf.extend_from_slice(args);
    }
    buf
}

fn create_args(trace_id: u128, parent_id: u64) -> Vec<u8> {
    let mut args = Vec::new();
    args.extend_from_slice(&trace_id.to_le_bytes());
    args.extend_from_slice(&parent_id.to_le_bytes());
    args
}

fn keys(a: u32, b: u32) -> Vec<u8> {
    let mut args = Vec::new();
    args.extend_from_slice(&a.to_le_bytes());
    args.extend_from_slice(&b.to_le_bytes());
    args
}

fn key_and_number(a: u32, v: f64) -> Vec<u8> {
    let mut args = Vec::new();
    args.extend_from_slice(&a.to_le_bytes());
    args.extend_from_slice(&v.to_le_bytes());
    args
}

fn drained() -> Vec<u8> {
    vec![0u8; 8]
}

fn state_with_strings() -> NativeSpanState {
    let mut state = NativeSpanState::new(1f64.to_bits(), "tracer".to_string());
    for (key, text) in [
        (1u32, "web"),
        (2, "GET /"),
        (3, "http.request"),
        (4, "http"),
        (5, "env"),
        (6, "prod"),
        (7, "rate"),
        (8, "synthetics"),
        (9, "staging"),
    ] {
        state.string_table_insert_one(key, text.to_string());
    }
    state
}

fn create(state: &mut NativeSpanState, span_id: u64, trace_id: u128, parent_id: u64) {
    assert_eq!(
        state.apply(&Instruction {
            span_id,
            operation: Operation::Create { trace_id, parent_id }
        }),
        Ok(())
    );
}

#[test]
fn a_new_span_has_its_ids_and_nothing_else() {
    let mut state = state_with_strings();
    create(&mut state, 10, 20, 30);
    assert_eq!(state.get_service_name(&mut drained(), 10), Ok(String::new()));
    assert_eq!(state.get_resource_name(&mut drained(), 10), Ok(String::new()));
    assert_eq!(state.get_name(&mut drained(), 10), Ok(String::new()));
    assert_eq!(state.get_type(&mut drained(), 10), Ok(String::new()));
    assert_eq!(state.get_error(&mut drained(), 10), Ok(0));
    assert_eq!(state.get_start(&mut drained(), 10), Ok(0));
    assert_eq!(state.get_duration(&mut drained(), 10), Ok(0));
    assert_eq!(state.get_meta_attr(&mut drained(), 10, "env".to_string()), Err(Error::UnknownAttribute));
    assert_eq!(state.get_metric_attr(&mut drained(), 10, "rate".to_string()), Err(Error::UnknownAttribute));
    assert_eq!(state.get_trace_meta_attr(&mut drained(), 10, "env".to_string()), Err(Error::UnknownAttribute));
    assert_eq!(state.get_trace_metric_attr(&mut drained(), 10, "rate".to_string()), Err(Error::UnknownAttribute));
    assert_eq!(state.get_trace_origin(&mut drained(), 10), Ok(None));
    assert_eq!(state.live_span_count(20), Ok(1));
}

#[test]
fn every_field_reads_back_what_was_set() {
    let mut state = state_with_strings();
    let mut buf = queue(&[
        (0, 1, create_args(100, 0)),
        (1, 1, keys(5, 6)),
        (2, 1, key_and_number(7, 0.25)),
        (3, 1, 1u32.to_le_bytes().to_vec()),
        (4, 1, 2u32.to_le_bytes().to_vec()),
        (5, 1, 1i32.to_le_bytes().to_vec()),
        (6, 1, 1_700_000_000_000i64.to_le_bytes().to_vec()),
        (7, 1, 1234i64.to_le_bytes().to_vec()),
        (8, 1, 4u32.to_le_bytes().to_vec()),
        (9, 1, 3u32.to_le_bytes().to_vec()),
        (10, 1, keys(5, 9)),
        (11, 1, key_and_number(7, 0.5)),
        (12, 1, 8u32.to_le_bytes().to_vec()),
    ]);
    // the first accessor drains the queue
    assert_eq!(state.get_service_name(&mut buf, 1), Ok("web".to_string()));
    assert_eq!(&buf[..8], &[0u8; 8]);
    assert_eq!(state.get_resource_name(&mut buf, 1), Ok("GET /".to_string()));
    assert_eq!(state.get_name(&mut buf, 1), Ok("http.request".to_string()));
    assert_eq!(state.get_type(&mut buf, 1), Ok("http".to_string()));
    assert_eq!(state.get_error(&mut buf, 1), Ok(1));
    assert_eq!(state.get_start(&mut buf, 1), Ok(1_700_000_000_000));
    assert_eq!(state.get_duration(&mut buf, 1), Ok(1234));
    assert_eq!(
        state.get_meta_attr(&mut buf, 1, "env".to_string()),
        Ok(Some("prod".to_string()))
    );
    assert_eq!(
        state.get_metric_attr(&mut buf, 1, "rate".to_string()).map(|v| v.map(f64::from_bits)),
        Ok(Some(0.25))
    );
    assert_eq!(
        state.get_trace_meta_attr(&mut buf, 1, "env".to_string()),
        Ok(Some("staging".to_string()))
    );
    assert_eq!(
        state.get_trace_metric_attr(&mut buf, 1, "rate".to_string()).map(|v| v.map(f64::from_bits)),
        Ok(Some(0.5))
    );
    assert_eq!(state.get_trace_origin(&mut buf, 1), Ok(Some("synthetics".to_string())));
}

#[test]
fn the_last_write_wins() {
    let mut state = state_with_strings();
    let mut buf = queue(&[
        (0, 1, create_args(100, 0)),
        (6, 1, 5i64.to_le_bytes().to_vec()),
        (3, 1, 1u32.to_le_bytes().to_vec()),
        (1, 1, keys(5, 6)),
        (6, 1, 6i64.to_le_bytes().to_vec()),
        (3, 1, 4u32.to_le_bytes().to_vec()),
        (7, 1, 9i64.to_le_bytes().to_vec()),
        (1, 1, keys(5, 9)),
        (6, 1, (-7i64).to_le_bytes().to_vec()),
    ]);
    assert_eq!(state.flush_change_queue(&mut buf), Ok(true));
    assert_eq!(state.get_start(&mut drained(), 1), Ok(-7));
    assert_eq!(state.get_service_name(&mut drained(), 1), Ok("http".to_string()));
    assert_eq!(state.get_duration(&mut drained(), 1), Ok(9));
    assert_eq!(
        state.get_meta_attr(&mut drained(), 1, "env".to_string()),
        Ok(Some("staging".to_string()))
    );
}

#[test]
fn a_later_string_table_entry_does_not_change_a_field() {
    let mut state = state_with_strings();
    create(&mut state, 1, 100, 0);
    assert_eq!(
        state.apply(&Instruction { span_id: 1, operation: Operation::SetName { value: 3 } }),
        Ok(())
    );
    state.string_table_insert_one(3, "other".to_string());
    state.string_table_evict(3);
    assert_eq!(state.get_name(&mut drained(), 1), Ok("http.request".to_string()));
}

#[test]
fn trace_attributes_are_shared_within_a_trace_only() {
    let mut state = state_with_strings();
    create(&mut state, 1, 100, 0);
    create(&mut state, 2, 100, 1);
    create(&mut state, 3, 200, 0);
    for operation in [
        Operation::SetTraceMetaAttr { name: 5, value: 6 },
        Operation::SetTraceMetricsAttr { name: 7, value: 3.0f64.to_bits() },
        Operation::SetTraceOrigin { value: 8 },
    ] {
        assert_eq!(state.apply(&Instruction { span_id: 2, operation }), Ok(()));
    }
    for id in [1u64, 2] {
        assert_eq!(
            state.get_trace_meta_attr(&mut drained(), id, "env".to_string()),
            Ok(Some("prod".to_string()))
        );
        assert_eq!(
            state.get_trace_metric_attr(&mut drained(), id, "rate".to_string()),
            Ok(Some(3.0f64.to_bits()))
        );
        assert_eq!(
            state.get_trace_origin(&mut drained(), id),
            Ok(Some("synthetics".to_string()))
        );
        // trace-level attributes are kept apart from the span's own
        assert_eq!(state.get_meta_attr(&mut drained(), id, "env".to_string()), Err(Error::UnknownAttribute));
        assert_eq!(state.get_metric_attr(&mut drained(), id, "rate".to_string()), Err(Error::UnknownAttribute));
    }
    assert_eq!(state.get_trace_meta_attr(&mut drained(), 3, "env".to_string()), Err(Error::UnknownAttribute));
    assert_eq!(state.get_trace_metric_attr(&mut drained(), 3, "rate".to_string()), Err(Error::UnknownAttribute));
    assert_eq!(state.get_trace_origin(&mut drained(), 3), Ok(None));
}

#[test]
fn span_attributes_are_not_shared() {
    let mut state = state_with_strings();
    create(&mut state, 1, 100, 0);
    create(&mut state, 2, 100, 1);
    assert_eq!(
        state.apply(&Instruction {
            span_id: 1,
            operation: Operation::SetMetaAttr { name: 5, value: 6 }
        }),
        Ok(())
    );
    assert_eq!(
        state.get_meta_attr(&mut drained(), 1, "env".to_string()),
        Ok(Some("prod".to_string()))
    );
    assert_eq!(state.get_meta_attr(&mut drained(), 2, "env".to_string()), Err(Error::UnknownAttribute));
    assert_eq!(state.get_trace_meta_attr(&mut drained(), 1, "env".to_string()), Err(Error::UnknownAttribute));
}

#[test]
fn unknown_span_is_refused() {
    let mut state = state_with_strings();
    create(&mut state, 1, 100, 0);
    for operation in [
        Operation::SetMetaAttr { name: 5, value: 6 },
        Operation::SetMetricAttr { name: 7, value: 0 },
        Operation::SetServiceName { value: 1 },
        Operation::SetResourceName { value: 1 },
        Operation::SetError { value: 1 },
        Operation::SetStart { value: 1 },
        Operation::SetDuration { value: 1 },
        Operation::SetType { value: 1 },
        Operation::SetName { value: 1 },
        Operation::SetTraceMetaAttr { name: 5, value: 6 },
        Operation::SetTraceMetricsAttr { name: 7, value: 0 },
        Operation::SetTraceOrigin { value: 8 },
    ] {
        assert_eq!(
            state.apply(&Instruction { span_id: 2, operation }),
            Err(Error::UnknownSpanId(2))
        );
    }
    assert_eq!(state.get_service_name(&mut drained(), 2), Err(Error::UnknownSpanId(2)));
    assert_eq!(state.get_resource_name(&mut drained(), 2), Err(Error::UnknownSpanId(2)));
    assert_eq!(
        state.get_meta_attr(&mut drained(), 2, "env".to_string()),
        Err(Error::UnknownSpanId(2))
    );
    assert_eq!(
        state.get_metric_attr(&mut drained(), 2, "rate".to_string()),
        Err(Error::UnknownSpanId(2))
    );
    assert_eq!(state.get_error(&mut drained(), 2), Err(Error::UnknownSpanId(2)));
    assert_eq!(state.get_start(&mut drained(), 2), Err(Error::UnknownSpanId(2)));
    assert_eq!(state.get_duration(&mut drained(), 2), Err(Error::UnknownSpanId(2)));
    assert_eq!(state.get_type(&mut drained(), 2), Err(Error::UnknownSpanId(2)));
    assert_eq!(state.get_name(&mut drained(), 2), Err(Error::UnknownSpanId(2)));
    assert_eq!(
        state.get_trace_meta_attr(&mut drained(), 2, "env".to_string()),
        Err(Error::UnknownSpanId(2))
    );
    assert_eq!(
        state.get_trace_metric_attr(&mut drained(), 2, "rate".to_string()),
        Err(Error::UnknownSpanId(2))
    );
    assert_eq!(state.get_trace_origin(&mut drained(), 2), Err(Error::UnknownSpanId(2)));
    // the span that is there is as it was
    assert_eq!(state.get_start(&mut drained(), 1), Ok(0));
    assert_eq!(state.get_trace_origin(&mut drained(), 1), Ok(None));
}

#[test]
fn unknown_string_key_is_refused_before_the_span_is_looked_up() {
    let mut state = state_with_strings();
    create(&mut state, 1, 100, 0);
    assert_eq!(
        state.apply(&Instruction {
            span_id: 1,
            operation: Operation::SetMetaAttr { name: 50, value: 60 }
        }),
        Err(Error::UnknownStringKey(50))
    );
    assert_eq!(
        state.apply(&Instruction {
            span_id: 1,
            operation: Operation::SetMetaAttr { name: 5, value: 60 }
        }),
        Err(Error::UnknownStringKey(60))
    );
    assert_eq!(
        state.apply(&Instruction {
            span_id: 2,
            operation: Operation::SetServiceName { value: 77 }
        }),
        Err(Error::UnknownStringKey(77))
    );
    assert_eq!(
        state.apply(&Instruction {
            span_id: 1,
            operation: Operation::SetTraceOrigin { value: 77 }
        }),
        Err(Error::UnknownStringKey(77))
    );
    assert_eq!(state.get_meta_attr(&mut drained(), 1, "env".to_string()), Err(Error::UnknownAttribute));
}

#[test]
fn an_evicted_string_key_is_unknown() {
    let mut state = state_with_strings();
    create(&mut state, 1, 100, 0);
    state.string_table_evict(1);
    state.string_table_evict(1);
    assert_eq!(
        state.apply(&Instruction {
            span_id: 1,
            operation: Operation::SetServiceName { value: 1 }
        }),
        Err(Error::UnknownStringKey(1))
    );
    state.string_table_insert_one(1, "again".to_string());
    assert_eq!(
        state.apply(&Instruction {
            span_id: 1,
            operation: Operation::SetServiceName { value: 1 }
        }),
        Ok(())
    );
    assert_eq!(state.get_service_name(&mut drained(), 1), Ok("again".to_string()));
}

#[test]
fn a_refused_instruction_keeps_what_was_applied_before_it() {
    let mut state = state_with_strings();
    let mut buf = queue(&[
        (0, 1, create_args(100, 0)),
        (6, 1, 5i64.to_le_bytes().to_vec()),
        (7, 2, 9i64.to_le_bytes().to_vec()),
        (6, 1, 6i64.to_le_bytes().to_vec()),
    ]);
    let before = buf.clone();
    assert_eq!(state.flush_change_queue(&mut buf), Err(Error::UnknownSpanId(2)));
    // the count is zeroed only by a drain that applies everything
    assert_eq!(buf, before);
    assert_eq!(state.get_start(&mut drained(), 1), Ok(5));
    assert_eq!(state.live_span_count(100), Ok(1));
}

#[test]
fn an_accessor_reports_the_failure_of_its_drain() {
    let mut state = state_with_strings();
    let mut buf = queue(&[(0, 1, create_args(100, 0)), (3, 1, 99u32.to_le_bytes().to_vec())]);
    assert_eq!(state.get_service_name(&mut buf, 1), Err(Error::UnknownStringKey(99)));
    assert_eq!(state.get_service_name(&mut drained(), 1), Ok(String::new()));
}

#[test]
fn a_malformed_instruction_stops_the_drain() {
    let mut state = state_with_strings();
    let mut buf = queue(&[
        (0, 1, create_args(100, 0)),
        (13, 1, vec![]),
        (6, 1, 6i64.to_le_bytes().to_vec()),
    ]);
    let before = buf.clone();
    assert_eq!(state.flush_change_queue(&mut buf), Err(Error::MalformedInstruction(13)));
    assert_eq!(buf, before);
    assert_eq!(state.get_start(&mut drained(), 1), Ok(0));
    let mut huge = queue(&[(u64::MAX, 1, vec![])]);
    assert_eq!(state.flush_change_queue(&mut huge), Err(Error::MalformedInstruction(u64::MAX)));
}

#[test]
fn a_queue_that_is_cut_short_is_refused() {
    let mut state = state_with_strings();
    assert_eq!(state.flush_change_queue(&mut []), Err(Error::BufferTooShort));
    assert_eq!(state.flush_change_queue(&mut [0u8; 7]), Err(Error::BufferTooShort));
    // two instructions announced, one present
    let mut buf = queue(&[(0, 1, create_args(100, 0))]);
    buf[0] = 2;
    assert_eq!(state.flush_change_queue(&mut buf), Err(Error::BufferTooShort));
    assert_eq!(buf[0], 2);
    assert_eq!(state.live_span_count(100), Ok(1));
    // arguments cut off
    let mut buf = queue(&[(6, 1, 6i64.to_le_bytes().to_vec())]);
    buf.pop();
    assert_eq!(state.flush_change_queue(&mut buf), Err(Error::BufferTooShort));
    assert_eq!(state.get_start(&mut drained(), 1), Ok(0));
}

#[test]
fn an_empty_queue_is_drained() {
    let mut state = state_with_strings();
    let mut buf = vec![0u8, 0, 0, 0, 0, 0, 0, 0, 0xaa, 0xbb];
    assert_eq!(state.flush_change_queue(&mut buf), Ok(true));
    assert_eq!(buf, vec![0u8, 0, 0, 0, 0, 0, 0, 0, 0xaa, 0xbb]);
}

#[test]
fn a_drain_zeroes_the_count_and_nothing_else() {
    let mut state = state_with_strings();
    let mut buf = queue(&[(0, 1, create_args(100, 0))]);
    buf.extend_from_slice(&[9, 9, 9]);
    let before = buf.clone();
    assert_eq!(state.flush_change_queue(&mut buf), Ok(true));
    assert_eq!(&buf[..8], &[0u8; 8]);
    assert_eq!(&buf[8..], &before[8..]);
    // draining again applies nothing
    assert_eq!(state.flush_change_queue(&mut buf), Ok(true));
    assert_eq!(state.live_span_count(100), Ok(1));
}

#[test]
fn live_span_count_follows_creates() {
    let mut state = state_with_strings();
    assert_eq!(state.live_span_count(100), Err(Error::UnknownTraceId(100)));
    create(&mut state, 1, 100, 0);
    create(&mut state, 2, 100, 1);
    create(&mut state, 3, 200, 0);
    create(&mut state, 4, 100, 77);
    assert_eq!(state.live_span_count(100), Ok(3));
    assert_eq!(state.live_span_count(200), Ok(1));
    assert_eq!(state.live_span_count(300), Err(Error::UnknownTraceId(300)));
}

#[test]
fn creating_a_live_span_again_replaces_it() {
    let mut state = state_with_strings();
    create(&mut state, 1, 100, 0);
    assert_eq!(
        state.apply(&Instruction { span_id: 1, operation: Operation::SetStart { value: 5 } }),
        Ok(())
    );
    assert_eq!(
        state.apply(&Instruction { span_id: 1, operation: Operation::SetTraceOrigin { value: 8 } }),
        Ok(())
    );
    // same trace: the span is new, the trace stays
    create(&mut state, 1, 100, 0);
    assert_eq!(state.get_start(&mut drained(), 1), Ok(0));
    assert_eq!(state.live_span_count(100), Ok(1));
    assert_eq!(state.get_trace_origin(&mut drained(), 1), Ok(Some("synthetics".to_string())));
    // other trace: the old trace has no span left and is evicted
    create(&mut state, 1, 200, 0);
    assert_eq!(state.live_span_count(100), Err(Error::UnknownTraceId(100)));
    assert_eq!(state.live_span_count(200), Ok(1));
    assert_eq!(state.get_trace_origin(&mut drained(), 1), Ok(None));
}

#[test]
fn bulk_load_reads_keys_and_texts() {
    let mut state = NativeSpanState::new(0, "tracer".to_string());
    let mut input = Vec::new();
    input.extend_from_slice(&1u32.to_le_bytes());
    input.extend_from_slice(b"web\0");
    input.extend_from_slice(&0x0102_0304u32.to_le_bytes());
    input.extend_from_slice("caf\u{e9} \u{2603}\0".as_bytes());
    input.extend_from_slice(&3u32.to_le_bytes());
    input.extend_from_slice(b"\0");
    input.extend_from_slice(&4u32.to_le_bytes());
    input.extend_from_slice(b"not read\0");
    assert_eq!(state.string_table_insert_many(&input, 3), Ok(()));
    create(&mut state, 1, 100, 0);
    for (key, text) in [(1u32, "web"), (0x0102_0304, "caf\u{e9} \u{2603}"), (3, "")] {
        assert_eq!(
            state.apply(&Instruction { span_id: 1, operation: Operation::SetName { value: key } }),
            Ok(())
        );
        assert_eq!(state.get_name(&mut drained(), 1), Ok(text.to_string()));
    }
    assert_eq!(
        state.apply(&Instruction { span_id: 1, operation: Operation::SetName { value: 4 } }),
        Err(Error::UnknownStringKey(4))
    );
}

#[test]
fn bulk_load_replaces_a_key() {
    let mut state = NativeSpanState::new(0, "tracer".to_string());
    state.string_table_insert_one(1, "old".to_string());
    let mut input = Vec::new();
    input.extend_from_slice(&1u32.to_le_bytes());
    input.extend_from_slice(b"first\0");
    input.extend_from_slice(&1u32.to_le_bytes());
    input.extend_from_slice(b"second\0");
    assert_eq!(state.string_table_insert_many(&input, 2), Ok(()));
    create(&mut state, 1, 100, 0);
    assert_eq!(
        state.apply(&Instruction { span_id: 1, operation: Operation::SetName { value: 1 } }),
        Ok(())
    );
    assert_eq!(state.get_name(&mut drained(), 1), Ok("second".to_string()));
}

#[test]
fn bulk_load_of_nothing() {
    let mut state = NativeSpanState::new(0, "tracer".to_string());
    assert_eq!(state.string_table_insert_many(&[], 0), Ok(()));
    assert_eq!(state.string_table_insert_many(&[1, 2, 3], 0), Ok(()));
}

#[test]
fn bulk_load_stops_at_text_that_is_not_utf8() {
    let mut state = NativeSpanState::new(0, "tracer".to_string());
    let mut input = Vec::new();
    input.extend_from_slice(&1u32.to_le_bytes());
    input.extend_from_slice(b"good\0");
    input.extend_from_slice(&2u32.to_le_bytes());
    input.extend_from_slice(&[0xff, 0xfe, 0]);
    input.extend_from_slice(&3u32.to_le_bytes());
    input.extend_from_slice(b"after\0");
    assert_eq!(state.string_table_insert_many(&input, 3), Err(Error::InvalidUtf8));
    create(&mut state, 1, 100, 0);
    assert_eq!(
        state.apply(&Instruction { span_id: 1, operation: Operation::SetName { value: 1 } }),
        Ok(())
    );
    assert_eq!(state.get_name(&mut drained(), 1), Ok("good".to_string()));
    for key in [2u32, 3] {
        assert_eq!(
            state.apply(&Instruction { span_id: 1, operation: Operation::SetName { value: key } }),
            Err(Error::UnknownStringKey(key))
        );
    }
}

#[test]
fn bulk_load_stops_at_an_entry_that_is_cut_short() {
    let mut state = NativeSpanState::new(0, "tracer".to_string());
    let mut input = Vec::new();
    input.extend_from_slice(&1u32.to_le_bytes());
    input.extend_from_slice(b"good\0");
    input.extend_from_slice(&2u32.to_le_bytes());
    input.extend_from_slice(b"no terminator");
    assert_eq!(state.string_table_insert_many(&input, 2), Err(Error::BufferTooShort));
    assert_eq!(state.string_table_insert_many(&input[..11], 2), Err(Error::BufferTooShort));
    assert_eq!(state.string_table_insert_many(&input, 3), Err(Error::BufferTooShort));
    create(&mut state, 1, 100, 0);
    assert_eq!(
        state.apply(&Instruction { span_id: 1, operation: Operation::SetName { value: 1 } }),
        Ok(())
    );
    assert_eq!(
        state.apply(&Instruction { span_id: 1, operation: Operation::SetName { value: 2 } }),
        Err(Error::UnknownStringKey(2))
    );
}

#[test]
fn tag_map_sets_and_replaces() {
    let mut map: TagMap<u64> = TagMap::new();
    assert_eq!(map.len(), 0);
    assert_eq!(map.get("a"), None);
    map.insert(SpanString::from_static_str("a"), 1);
    map.insert(SpanString::from_static_str("b"), 2);
    map.insert(SpanString::from_static_str("a"), 3);
    assert_eq!(map.len(), 2);
    assert_eq!(map.get("a"), Some(&3));
    assert_eq!(map.get("b"), Some(&2));
    assert_eq!(map.get("ab"), None);
    assert_eq!(map.get(""), None);
    assert_eq!(map.key_at(0).as_str(), "a");
    assert_eq!(*map.value_at(1), 2);
}

#[test]
fn span_string_from_text() {
    let a = SpanString::from("text".to_string());
    let b = SpanString::from_static_str("text");
    assert_eq!(a, b);
    assert_eq!(a.as_str(), "text");
    assert_eq!(a.clone(), b);
    assert_eq!(SpanString::default().as_str(), "");
}

#[test]
fn native_span_new_and_setters() {
    let mut span = NativeSpan::new(1, 2, 3);
    assert_eq!(span.span.span_id, 1);
    assert_eq!(span.span.parent_id, 2);
    assert_eq!(span.span.trace_id, 3);
    assert!(!span.sampling_finalized);
    assert_eq!(span.span.meta.len(), 0);
    assert_eq!(span.span.metrics.len(), 0);
    span.set_meta(SpanString::from_static_str("k"), SpanString::from_static_str("v"));
    span.set_metric(SpanString::from_static_str("m"), 1.5f64.to_bits());
    span.set_metric(SpanString::from_static_str("m"), 2.5f64.to_bits());
    assert_eq!(span.span.meta.get("k").map(|v| v.as_str()), Some("v"));
    assert_eq!(span.span.metrics.get("m").map(|v| f64::from_bits(*v)), Some(2.5));
}

#[test]
fn sampling_hook_decides_once() {
    let mut span = NativeSpan::new(0x0102_0304_0506_0708, 0, 0x10);
    assert_eq!(span.sample(), Some([0x01, 0x02, 0x03, 0x04, 0x05, 0x06, 0x07, 0x18]));
    assert!(span.sampling_finalized);
    assert_eq!(span.sample(), None);
    assert_eq!(span.sample(), None);
}

#[test]
fn sampling_hook_wraps_and_takes_the_low_half_of_the_trace_id() {
    let mut span = NativeSpan::new(u64::MAX, 0, (7u128 << 64) | 3);
    assert_eq!(span.sample(), Some([0, 0, 0, 0, 0, 0, 0, 2]));
    let mut span = NativeSpan::new(5, 0, u128::MAX);
    assert_eq!(span.sample(), Some([0, 0, 0, 0, 0, 0, 0, 4]));
}

#[test]
fn sample_writes_the_decision_into_the_sampling_buffer() {
    let mut state = state_with_strings();
    let mut buf = queue(&[(0, 0x0a0b, create_args(0x0101, 0))]);
    let mut sampling = 0x0a0bu64.to_le_bytes().to_vec();
    sampling.extend_from_slice(&[0xee, 0xff]);
    assert_eq!(state.sample(&mut buf, &mut sampling), Ok(true));
    assert_eq!(&buf[..8], &[0u8; 8]);
    assert_eq!(sampling, vec![0, 0, 0, 0, 0, 0, 0x0b, 0x0c, 0xee, 0xff]);
    // the span is final now: nothing is written
    let mut sampling = 0x0a0bu64.to_le_bytes().to_vec();
    assert_eq!(state.sample(&mut drained(), &mut sampling), Ok(false));
    assert_eq!(sampling, 0x0a0bu64.to_le_bytes().to_vec());
}

#[test]
fn sample_fails_on_an_unknown_span_or_a_short_buffer() {
    let mut state = state_with_strings();
    create(&mut state, 1, 100, 0);
    let mut sampling = 2u64.to_le_bytes().to_vec();
    assert_eq!(state.sample(&mut drained(), &mut sampling), Err(Error::UnknownSpanId(2)));
    assert_eq!(sampling, 2u64.to_le_bytes().to_vec());
    let mut short = vec![1u8, 0, 0];
    assert_eq!(state.sample(&mut drained(), &mut short), Err(Error::BufferTooShort));
    let mut bad_queue = queue(&[(13, 1, vec![])]);
    let mut sampling = 1u64.to_le_bytes().to_vec();
    assert_eq!(
        state.sample(&mut bad_queue, &mut sampling),
        Err(Error::MalformedInstruction(13))
    );
    assert_eq!(sampling, 1u64.to_le_bytes().to_vec());
}

#[test]
fn a_new_trace_is_empty() {
    let trace = Trace::new();
    assert_eq!(trace.meta.len(), 0);
    assert_eq!(trace.metrics.len(), 0);
    assert_eq!(trace.origin, None);
    assert_eq!(trace.sampling_rule_decision, None);
    assert_eq!(trace.sampling_limit_decision, None);
    assert_eq!(trace.sampling_agent_decision, None);
}

#[test]
fn string_table_resolves_what_it_holds() {
    let mut table = tracer_core::string_table::StringTable::new();
    assert_eq!(table.resolve(0), Err(Error::UnknownStringKey(0)));
    table.insert_one(0, "zero".to_string());
    table.insert_one(u32::MAX, "max".to_string());
    table.insert_one(0, "again".to_string());
    assert_eq!(table.resolve(0).map(|s| s.0), Ok("again".to_string()));
    assert_eq!(table.resolve(u32::MAX).map(|s| s.0), Ok("max".to_string()));
    table.evict(0);
    assert_eq!(table.resolve(0), Err(Error::UnknownStringKey(0)));
    table.evict(7);
    let mut input = Vec::new();
    input.extend_from_slice(&7u32.to_le_bytes());
    input.extend_from_slice(b"seven\0");
    assert_eq!(table.insert_many(&input, 1), Ok(()));
    assert_eq!(table.resolve(7).map(|s| s.0), Ok("seven".to_string()));
    assert_eq!(table.insert_many(&input, 2), Err(Error::BufferTooShort));
    assert_eq!(table.insert_many(&[7, 0, 0, 0, 0xc3, 0x28, 0], 1), Err(Error::InvalidUtf8));
}

#[test]
fn an_attribute_that_is_not_set_is_unknown() {
    let mut state = state_with_strings();
    create(&mut state, 1, 100, 0);
    create(&mut state, 2, 200, 0);
    // the trace holds a tag of the name, the span does not
    assert_eq!(
        state.apply(&Instruction {
            span_id: 1,
            operation: Operation::SetTraceMetaAttr { name: 5, value: 6 }
        }),
        Ok(())
    );
    assert_eq!(
        state.get_meta_attr(&mut drained(), 1, "env".to_string()),
        Err(Error::UnknownAttribute)
    );
    assert_eq!(
        state.get_trace_meta_attr(&mut drained(), 1, "env".to_string()),
        Ok(Some("prod".to_string()))
    );
    // the span holds a metric of the name, the trace does not
    assert_eq!(
        state.apply(&Instruction {
            span_id: 1,
            operation: Operation::SetMetricAttr { name: 7, value: 2.0f64.to_bits() }
        }),
        Ok(())
    );
    assert_eq!(
        state.get_metric_attr(&mut drained(), 1, "rate".to_string()),
        Ok(Some(2.0f64.to_bits()))
    );
    assert_eq!(
        state.get_trace_metric_attr(&mut drained(), 1, "rate".to_string()),
        Err(Error::UnknownAttribute)
    );
    // names are compared as a whole
    assert_eq!(
        state.get_metric_attr(&mut drained(), 1, "rat".to_string()),
        Err(Error::UnknownAttribute)
    );
    assert_eq!(
        state.get_trace_meta_attr(&mut drained(), 1, "".to_string()),
        Err(Error::UnknownAttribute)
    );
    // the other trace has nothing; an unknown span comes before the attribute
    assert_eq!(
        state.get_trace_meta_attr(&mut drained(), 2, "env".to_string()),
        Err(Error::UnknownAttribute)
    );
    assert_eq!(
        state.get_meta_attr(&mut drained(), 3, "env".to_string()),
        Err(Error::UnknownSpanId(3))
    );
    // and so does the failure of the drain
    let mut bad = queue(&[(13, 1, vec![])]);
    assert_eq!(
        state.get_meta_attr(&mut bad, 1, "env".to_string()),
        Err(Error::MalformedInstruction(13))
    );
    // a read changes nothing
    assert_eq!(state.live_span_count(100), Ok(1));
    assert_eq!(
        state.get_trace_meta_attr(&mut drained(), 1, "env".to_string()),
        Ok(Some("prod".to_string()))
    );
}
