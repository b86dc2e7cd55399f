//! Traces: what all the spans of one trace id have in common.

use vstd::prelude::*;
use crate::native_span::SpanString;
use crate::tag_map::TagMap;

verus! {

/// What a trace is: its trace-wide attributes, its origin and its three
/// sampling decisions. Each metric and each decision is the bit pattern of a
/// binary64 number.
pub struct TraceView {
    pub meta: Map<Seq<char>, Seq<char>>,
    pub metrics: Map<Seq<char>, u64>,
    pub origin: Option<Seq<char>>,
    pub sampling_rule_decision: Option<u64>,
    pub sampling_limit_decision: Option<u64>,
    pub sampling_agent_decision: Option<u64>,
}

/// The trace with no attribute, no origin and no decision.
pub open spec fn empty_trace() -> TraceView {
    TraceView {
        meta: Map::empty(),
        metrics: Map::empty(),
        origin: None,
        sampling_rule_decision: None,
        sampling_limit_decision: None,
        sampling_agent_decision: None,
    }
}

/// The attributes that every span of one trace shares. They are kept once,
/// apart from any span's own maps.
#[derive(Debug)]
pub struct Trace {
    pub meta: TagMap<SpanString>,
    pub metrics: TagMap<u64>,
    pub origin: Option<SpanString>,
    pub sampling_rule_decision: Option<u64>,
    pub sampling_limit_decision: Option<u64>,
    pub sampling_agent_decision: Option<u64>,
}

impl View for Trace {
    type V = TraceView;

    open spec fn view(&self) -> TraceView {
        TraceView {
            meta: self.meta@,
            metrics: self.metrics@,
            origin: match self.origin {
                Some(o) => Some(o@),
                None => None,
            },
            sampling_rule_decision: self.sampling_rule_decision,
            sampling_limit_decision: self.sampling_limit_decision,
            sampling_agent_decision: self.sampling_agent_decision,
        }
    }
}

impl Trace {
    /// Both attribute maps are well formed.
    pub open spec fn wf(&self) -> bool {
        self.meta.wf() && self.metrics.wf()
    }

    /// The trace with nothing set.
    pub fn new() -> (r: Self)
        ensures
            r.wf(),
            r@ == empty_trace(),
    {
        Trace {
            meta: TagMap::new(),
            metrics: TagMap::new(),
            origin: None,
            sampling_rule_decision: None,
            sampling_limit_decision: None,
            sampling_agent_decision: None,
        }
    }
}

} // verus!
