//! The live-span counters: counting a span for its trace, and taking it
//! from the count again, with the eviction of a trace at zero.

use std::collections::HashMap;
use vstd::prelude::*;
use crate::model::{has_live, retain_live};
use crate::native_span::NativeSpanView;
use crate::state::{counts_match, traces_view};
use crate::trace::{empty_trace, Trace, TraceView};

verus! {

/// `count` with the count of `t` raised by one.
pub open spec fn raised(count: spec_fn(u128) -> nat, t: u128) -> spec_fn(u128) -> nat {
    |x: u128|
        if x == t {
            count(x) + 1
        } else {
            count(x)
        }
}

/// `count` with the count of `t` lowered by one.
pub open spec fn lowered(count: spec_fn(u128) -> nat, t: u128) -> spec_fn(u128) -> nat {
    |x: u128|
        if x == t {
            (count(x) - 1) as nat
        } else {
            count(x)
        }
}

/// Counters that match one count match every count that is equal to it at
/// each trace id.
pub(super) proof fn lemma_counts_match_same(
    a: spec_fn(u128) -> nat,
    b: spec_fn(u128) -> nat,
    traces: Set<u128>,
    counters: Map<u128, u64>,
)
    requires
        counts_match(a, traces, counters),
        forall|t: u128| #[trigger] a(t) == b(t),
    ensures
        counts_match(b, traces, counters),
{
    assert forall|t: u128| (#[trigger] counters.contains_key(t) <==> b(t) > 0) by {
        assert(a(t) == b(t));
    }
    assert forall|t: u128| (#[trigger] traces.contains(t) <==> b(t) > 0) by {
        assert(a(t) == b(t));
    }
    assert forall|t: u128| #[trigger] counters.contains_key(t) implies counters[t] == b(t) by {
        assert(a(t) == b(t));
    }
}

/// The traces that are kept are the registered traces that still have a live
/// span, where they are kept exactly for the trace ids with a live span and
/// unchanged.
pub(super) proof fn lemma_kept_is_retained(
    traces: Map<u128, TraceView>,
    kept: Map<u128, TraceView>,
    spans: Map<u64, NativeSpanView>,
)
    requires
        forall|t: u128| #[trigger] kept.contains_key(t) <==> has_live(spans, t),
        forall|t: u128| #[trigger]
            kept.contains_key(t) ==> traces.contains_key(t) && traces[t] == kept[t],
    ensures
        kept == retain_live(traces, spans),
{
    assert(kept =~= retain_live(traces, spans));
}

/// Counts one more live span for `trace_id`, and registers an empty trace
/// under it where there was none.
pub(super) fn retain_trace(
    traces: &mut HashMap<u128, Trace>,
    counters: &mut HashMap<u128, u64>,
    trace_id: u128,
    Ghost(count): Ghost<spec_fn(u128) -> nat>,
)
    requires
        counts_match(count, old(traces)@.dom(), old(counters)@),
        count(trace_id) < u64::MAX,
        forall|t: u128| #[trigger] old(traces)@.contains_key(t) ==> old(traces)@[t].wf(),
    ensures
        counts_match(raised(count, trace_id), final(traces)@.dom(), final(counters)@),
        forall|t: u128| #[trigger] final(traces)@.contains_key(t) ==> final(traces)@[t].wf(),
        traces_view(final(traces)@) == if old(traces)@.contains_key(trace_id) {
            traces_view(old(traces)@)
        } else {
            traces_view(old(traces)@).insert(trace_id, empty_trace())
        },
{
    let current: Option<u64> = match counters.get(&trace_id) {
        Some(n) => Some(*n),
        None => None,
    };
    match current {
        Some(n) => {
            assert(old(traces)@.dom().contains(trace_id));
            counters.insert(trace_id, n + 1);
        },
        None => {
            assert(!old(traces)@.dom().contains(trace_id));
            counters.insert(trace_id, 1);
            traces.insert(trace_id, Trace::new());
            assert(traces_view(traces@) =~= traces_view(old(traces)@).insert(
                trace_id,
                empty_trace(),
            ));
        },
    }
    proof {
        let after = raised(count, trace_id);
        assert forall|t: u128| (#[trigger] counters@.contains_key(t) <==> after(t) > 0) by {
            assert(old(counters)@.contains_key(t) <==> count(t) > 0);
        }
        assert forall|t: u128| (#[trigger] traces@.dom().contains(t) <==> after(t) > 0) by {
            assert(old(traces)@.dom().contains(t) <==> count(t) > 0);
        }
        assert forall|t: u128| #[trigger] counters@.contains_key(t) implies counters@[t] == after(
            t,
        ) by {
            assert(old(counters)@.contains_key(t) ==> old(counters)@[t] == count(t));
        }
    }
}

/// Counts one live span fewer for `trace_id`, and evicts the trace when none
/// is left.
pub(super) fn release_trace(
    traces: &mut HashMap<u128, Trace>,
    counters: &mut HashMap<u128, u64>,
    trace_id: u128,
    Ghost(count): Ghost<spec_fn(u128) -> nat>,
)
    requires
        counts_match(count, old(traces)@.dom(), old(counters)@),
        count(trace_id) >= 1,
        forall|t: u128| #[trigger] old(traces)@.contains_key(t) ==> old(traces)@[t].wf(),
    ensures
        counts_match(lowered(count, trace_id), final(traces)@.dom(), final(counters)@),
        forall|t: u128| #[trigger] final(traces)@.contains_key(t) ==> final(traces)@[t].wf(),
        traces_view(final(traces)@) == if count(trace_id) == 1 {
            traces_view(old(traces)@).remove(trace_id)
        } else {
            traces_view(old(traces)@)
        },
{
    let current: Option<u64> = match counters.get(&trace_id) {
        Some(n) => Some(*n),
        None => None,
    };
    assert(old(counters)@.contains_key(trace_id));
    match current {
        Some(n) => {
            if n <= 1 {
                counters.remove(&trace_id);
                traces.remove(&trace_id);
                assert(traces_view(traces@) =~= traces_view(old(traces)@).remove(trace_id));
            } else {
                counters.insert(trace_id, n - 1);
            }
        },
        None => {},
    }
    proof {
        let after = lowered(count, trace_id);
        assert forall|t: u128| (#[trigger] counters@.contains_key(t) <==> after(t) > 0) by {
            assert(old(counters)@.contains_key(t) <==> count(t) > 0);
        }
        assert forall|t: u128| (#[trigger] traces@.dom().contains(t) <==> after(t) > 0) by {
            assert(old(traces)@.dom().contains(t) <==> count(t) > 0);
        }
        assert forall|t: u128| #[trigger] counters@.contains_key(t) implies counters@[t] == after(
            t,
        ) by {
            assert(old(counters)@.contains_key(t) ==> old(counters)@[t] == count(t));
        }
    }
}

} // verus!
