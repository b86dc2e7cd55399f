//! Spans: the text type they are made of and the record of one unit of work.

use vstd::prelude::*;
use vstd::std_specs::convert::FromSpecImpl;
use crate::tag_map::TagMap;

verus! {

/// A text of a span: a name, a tag or a tag's value.
#[derive(Debug, PartialEq, Eq, Hash, Default)]
pub struct SpanString(pub String);

impl View for SpanString {
    type V = Seq<char>;

    open spec fn view(&self) -> Seq<char> {
        self.0@
    }
}

impl Clone for SpanString {
    fn clone(&self) -> (r: Self)
        ensures
            r@ == self@,
    {
        SpanString(self.0.clone())
    }
}

impl From<String> for SpanString {
    fn from(s: String) -> (r: SpanString) {
        SpanString(s)
    }
}

impl FromSpecImpl<String> for SpanString {
    open spec fn obeys_from_spec() -> bool {
        true
    }

    open spec fn from_spec(s: String) -> SpanString {
        SpanString(s)
    }
}

impl SpanString {
    /// The text with the characters of `value`.
    pub fn from_static_str(value: &'static str) -> (r: SpanString)
        ensures
            r@ == value@,
    {
        SpanString(value.to_owned())
    }

    /// The characters as a string slice.
    pub fn as_str(&self) -> (r: &str)
        ensures
            r@ == self@,
    {
        self.0.as_str()
    }
}

/// What a span is: its identity, its scalar fields and its two attribute maps.
pub struct SpanView {
    pub span_id: u64,
    pub trace_id: u128,
    pub parent_id: u64,
    pub service: Seq<char>,
    pub name: Seq<char>,
    pub resource: Seq<char>,
    pub span_type: Seq<char>,
    pub start: i64,
    pub duration: i64,
    pub error: i32,
    pub meta: Map<Seq<char>, Seq<char>>,
    /// Each value is the bit pattern of a binary64 number.
    pub metrics: Map<Seq<char>, u64>,
}

/// A span of the store: what the span is, and whether sampling has been
/// decided for it.
pub struct NativeSpanView {
    pub span: SpanView,
    pub sampling_finalized: bool,
}

/// The span that `Create` makes: the three ids, and every other field empty
/// or zero.
pub open spec fn fresh_span(span_id: u64, parent_id: u64, trace_id: u128) -> NativeSpanView {
    NativeSpanView {
        span: SpanView {
            span_id,
            trace_id,
            parent_id,
            service: Seq::empty(),
            name: Seq::empty(),
            resource: Seq::empty(),
            span_type: Seq::empty(),
            start: 0,
            duration: 0,
            error: 0,
            meta: Map::empty(),
            metrics: Map::empty(),
        },
        sampling_finalized: false,
    }
}

/// One unit of traced work. A metric's value is held as the bit pattern of a
/// binary64 number, as it travels on the wire.
#[derive(Debug)]
pub struct Span {
    pub service: SpanString,
    pub name: SpanString,
    pub resource: SpanString,
    pub span_type: SpanString,
    pub trace_id: u128,
    pub span_id: u64,
    pub parent_id: u64,
    pub start: i64,
    pub duration: i64,
    pub error: i32,
    pub meta: TagMap<SpanString>,
    pub metrics: TagMap<u64>,
}

impl Span {
    /// Both attribute maps are well formed.
    pub open spec fn wf(&self) -> bool {
        self.meta.wf() && self.metrics.wf()
    }
}

impl View for Span {
    type V = SpanView;

    open spec fn view(&self) -> SpanView {
        SpanView {
            span_id: self.span_id,
            trace_id: self.trace_id,
            parent_id: self.parent_id,
            service: self.service@,
            name: self.name@,
            resource: self.resource@,
            span_type: self.span_type@,
            start: self.start,
            duration: self.duration,
            error: self.error,
            meta: self.meta@,
            metrics: self.metrics@,
        }
    }
}

/// The low 64 bits of a trace id.
pub open spec fn low64(trace_id: u128) -> int {
    trace_id as int % 0x1_0000_0000_0000_0000
}

/// The number that the sampling hook reports for a span: the sum of its span
/// id and the low 64 bits of its trace id, wrapped to 64 bits.
pub open spec fn sampling_info(span_id: u64, trace_id: u128) -> int {
    (span_id as int + low64(trace_id)) % 0x1_0000_0000_0000_0000
}

/// The eight bytes of a 64-bit number, most significant byte first.
pub open spec fn be_bytes(v: int) -> Seq<u8> {
    seq![
        ((v / 0x100_0000_0000_0000) % 0x100) as u8,
        ((v / 0x1_0000_0000_0000) % 0x100) as u8,
        ((v / 0x100_0000_0000) % 0x100) as u8,
        ((v / 0x1_0000_0000) % 0x100) as u8,
        ((v / 0x100_0000) % 0x100) as u8,
        ((v / 0x1_0000) % 0x100) as u8,
        ((v / 0x100) % 0x100) as u8,
        (v % 0x100) as u8,
    ]
}

/// A span as the store keeps it.
#[derive(Debug)]
pub struct NativeSpan {
    pub span: Span,
    pub sampling_finalized: bool,
}

impl View for NativeSpan {
    type V = NativeSpanView;

    open spec fn view(&self) -> NativeSpanView {
        NativeSpanView { span: self.span@, sampling_finalized: self.sampling_finalized }
    }
}

impl NativeSpan {
    /// Both attribute maps are well formed.
    pub open spec fn wf(&self) -> bool {
        self.span.wf()
    }

    /// A span with the three ids and nothing else set.
    pub fn new(span_id: u64, parent_id: u64, trace_id: u128) -> (r: Self)
        ensures
            r.wf(),
            r@ == fresh_span(span_id, parent_id, trace_id),
    {
        let r = NativeSpan {
            span: Span {
                service: SpanString(String::new()),
                name: SpanString(String::new()),
                resource: SpanString(String::new()),
                span_type: SpanString(String::new()),
                trace_id,
                span_id,
                parent_id,
                start: 0,
                duration: 0,
                error: 0,
                meta: TagMap::new(),
                metrics: TagMap::new(),
            },
            sampling_finalized: false,
        };
        r
    }

    /// The sampling hook. On a span whose sampling is already final it does
    /// nothing and returns `None`. Otherwise it makes the sampling final and
    /// returns the eight bytes of `sampling_info`, most significant first.
    pub fn sample(&mut self) -> (r: Option<[u8; 8]>)
        ensures
            final(self).span == old(self).span,
            final(self).sampling_finalized,
            old(self).sampling_finalized ==> r is None,
            !old(self).sampling_finalized ==> r is Some && r->Some_0@ == be_bytes(
                sampling_info(old(self).span.span_id, old(self).span.trace_id),
            ),
    {
        if self.sampling_finalized {
            return None;
        }
        let low: u64 = (self.span.trace_id % 0x1_0000_0000_0000_0000) as u64;
        let id: u64 = self.span.span_id;
        let info: u64 = if id <= u64::MAX - low {
            id + low
        } else {
            id - (u64::MAX - low) - 1
        };
        let bytes: [u8; 8] = [
            ((info / 0x100_0000_0000_0000) % 0x100) as u8,
            ((info / 0x1_0000_0000_0000) % 0x100) as u8,
            ((info / 0x100_0000_0000) % 0x100) as u8,
            ((info / 0x1_0000_0000) % 0x100) as u8,
            ((info / 0x100_0000) % 0x100) as u8,
            ((info / 0x1_0000) % 0x100) as u8,
            ((info / 0x100) % 0x100) as u8,
            (info % 0x100) as u8,
        ];
        assert(bytes@ =~= be_bytes(
            sampling_info(old(self).span.span_id, old(self).span.trace_id),
        ));
        self.sampling_finalized = true;
        Some(bytes)
    }

    /// Sets the metric `name` to the number whose bit pattern is `val`.
    pub fn set_metric(&mut self, name: SpanString, val: u64)
        requires
            old(self).wf(),
        ensures
            final(self).wf(),
            final(self)@ == (NativeSpanView {
                span: SpanView {
                    metrics: old(self)@.span.metrics.insert(name@, val),
                    ..old(self)@.span
                },
                ..old(self)@
            }),
    {
        self.span.metrics.insert(name, val);
    }

    /// Sets the tag `name` to `val`.
    pub fn set_meta(&mut self, name: SpanString, val: SpanString)
        requires
            old(self).wf(),
        ensures
            final(self).wf(),
            final(self)@ == (NativeSpanView {
                span: SpanView { meta: old(self)@.span.meta.insert(name@, val@), ..old(self)@.span },
                ..old(self)@
            }),
    {
        self.span.meta.insert(name, val);
    }
}

} // verus!
