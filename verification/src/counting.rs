//! How the live spans of each trace change when one span enters the store,
//! leaves it or is replaced.

use vstd::prelude::*;
use vstd::set_lib::lemma_len_subset;
use crate::model::{has_live, live_count, live_ids};
use crate::native_span::NativeSpanView;

verus! {

/// The live spans of a trace are among the spans of the store: there are
/// finitely many, no more than the store holds, and at least one exactly
/// when the trace has a live span.
pub proof fn lemma_live_bounds(spans: Map<u64, NativeSpanView>, t: u128)
    requires
        spans.dom().finite(),
    ensures
        live_ids(spans, t).finite(),
        live_count(spans, t) <= spans.dom().len(),
        has_live(spans, t) <==> live_count(spans, t) > 0,
{
    let ids = live_ids(spans, t);
    assert(ids.subset_of(spans.dom()));
    lemma_len_subset(ids, spans.dom());
    if has_live(spans, t) {
        let id = choose|id: u64| spans.contains_key(id) && (#[trigger] spans[id]).span.trace_id == t;
        assert(ids.contains(id));
        assert(ids.len() > 0) by {
            if ids.len() == 0 {
                assert(ids =~= Set::empty());
            }
        }
    }
    if ids.len() > 0 {
        let id = ids.choose();
        assert(ids.contains(id));
        assert(spans.contains_key(id) && spans[id].span.trace_id == t);
    }
}

/// Filing a span under an id: its trace gains the id, and the trace of a
/// span that was filed there before loses it.
pub proof fn lemma_live_insert(spans: Map<u64, NativeSpanView>, id: u64, span: NativeSpanView, t: u128)
    requires
        spans.dom().finite(),
    ensures
        live_ids(spans.insert(id, span), t) == if span.span.trace_id == t {
            live_ids(spans, t).insert(id)
        } else {
            live_ids(spans, t).remove(id)
        },
        live_count(spans.insert(id, span), t) == if span.span.trace_id == t {
            if spans.contains_key(id) && spans[id].span.trace_id == t {
                live_count(spans, t)
            } else {
                live_count(spans, t) + 1
            }
        } else {
            if spans.contains_key(id) && spans[id].span.trace_id == t {
                (live_count(spans, t) - 1) as nat
            } else {
                live_count(spans, t)
            }
        },
{
    lemma_live_bounds(spans, t);
    let after = spans.insert(id, span);
    if span.span.trace_id == t {
        assert(live_ids(after, t) =~= live_ids(spans, t).insert(id));
    } else {
        assert(live_ids(after, t) =~= live_ids(spans, t).remove(id));
    }
}

/// Taking a span out of the store: its trace loses the id, no other trace
/// changes.
pub proof fn lemma_live_remove(spans: Map<u64, NativeSpanView>, id: u64, t: u128)
    requires
        spans.dom().finite(),
    ensures
        live_ids(spans.remove(id), t) == live_ids(spans, t).remove(id),
        live_count(spans.remove(id), t) == if spans.contains_key(id) && spans[id].span.trace_id
            == t {
            (live_count(spans, t) - 1) as nat
        } else {
            live_count(spans, t)
        },
{
    lemma_live_bounds(spans, t);
    assert(live_ids(spans.remove(id), t) =~= live_ids(spans, t).remove(id));
}

/// Changing a live span without changing its trace id changes no trace's
/// live spans.
pub proof fn lemma_live_update(spans: Map<u64, NativeSpanView>, id: u64, span: NativeSpanView)
    requires
        spans.contains_key(id),
        span.span.trace_id == spans[id].span.trace_id,
    ensures
        forall|t: u128| #[trigger] live_ids(spans.insert(id, span), t) == live_ids(spans, t),
        forall|t: u128| #[trigger] has_live(spans.insert(id, span), t) == has_live(spans, t),
{
    let after = spans.insert(id, span);
    assert forall|t: u128| #[trigger] live_ids(after, t) == live_ids(spans, t) by {
        assert(live_ids(after, t) =~= live_ids(spans, t));
    }
    assert forall|t: u128| #[trigger] has_live(after, t) == has_live(spans, t) by {
        if has_live(spans, t) {
            let w = choose|w: u64| spans.contains_key(w) && (#[trigger] spans[w]).span.trace_id == t;
            assert(after.contains_key(w) && after[w].span.trace_id == t);
        }
        if has_live(after, t) {
            let w = choose|w: u64| after.contains_key(w) && (#[trigger] after[w]).span.trace_id == t;
            assert(spans.contains_key(w) && spans[w].span.trace_id == t);
        }
    }
}

} // verus!
