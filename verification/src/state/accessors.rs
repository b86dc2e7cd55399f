//! The accessors of the store and the sampling hook. Each drains the
//! change buffer first, so that it reads what was written before it.

use vstd::prelude::*;
use crate::decoder::get_u64;
use crate::error::Error;
use crate::model::{
    attribute, drain, drained, flattened, optional_text_of, read_span, read_trace, sample,
    text_of, Drained,
};
use crate::native_span::{NativeSpan, NativeSpanView};
use crate::state::NativeSpanState;
use crate::trace::{Trace, TraceView};

verus! {

impl NativeSpanState {
    /// Drains the change buffer and runs the sampling hook on the span that
    /// the sampling buffer names in its first eight bytes. Where the hook
    /// decides, the eight bytes of its decision are written over them and
    /// `true` is returned; on a span whose sampling was final already,
    /// nothing is written and `false` is returned.
    pub fn sample(&mut self, change_buffer: &mut [u8], sampling_buffer: &mut [u8]) -> (r: Result<
        bool,
        Error,
    >)
        requires
            old(self).wf(),
        ensures
            final(self).wf(),
            drained(
                old(self)@,
                old(change_buffer)@,
                drain(old(self)@, old(change_buffer)@).state,
                final(change_buffer)@,
            ),
            final(self)@ == sample(old(self)@, old(change_buffer)@, old(sampling_buffer)@).state,
            final(sampling_buffer)@ == sample(
                old(self)@,
                old(change_buffer)@,
                old(sampling_buffer)@,
            ).buffer,
            r == sample(old(self)@, old(change_buffer)@, old(sampling_buffer)@).outcome,
    {
        match self.flush_change_queue(change_buffer) {
            Ok(_) => {},
            Err(e) => { return Err(e); },
        }
        let mut index: usize = 0;
        let id: u64 = match get_u64(sampling_buffer, &mut index) {
            Ok(id) => id,
            Err(e) => { return Err(e); },
        };
        let ghost whole = self.spans@;
        let mut span = match self.take_span(id) {
            Ok(span) => span,
            Err(e) => { return Err(e); },
        };
        let result = span.sample();
        self.put_span(span, Ghost(whole));
        match result {
            Some(bytes) => {
                let mut i: usize = 0;
                while i < 8
                    invariant
                        i <= 8,
                        sampling_buffer@.len() == old(sampling_buffer)@.len(),
                        sampling_buffer@.len() >= 8,
                        forall|j: int| 0 <= j < i ==> sampling_buffer@[j] == bytes@[j],
                        forall|j: int|
                            i <= j < sampling_buffer@.len() ==> sampling_buffer@[j] == old(
                                sampling_buffer,
                            )@[j],
                    decreases 8 - i,
                {
                    sampling_buffer[i] = bytes[i];
                    i += 1;
                }
                assert(sampling_buffer@ =~= bytes@ + old(sampling_buffer)@.skip(8));
                Ok(true)
            },
            None => Ok(false),
        }
    }


    /// The live span `id`.
    pub(super) fn get_span(&self, id: u64) -> (r: Result<&NativeSpan, Error>)
        ensures
            match r {
                Ok(span) => self.spans@.contains_key(id) && *span == self.spans@[id],
                Err(e) => !self.spans@.contains_key(id) && e == Error::UnknownSpanId(id),
            },
    {
        match self.spans.get(&id) {
            Some(span) => Ok(span),
            None => Err(Error::UnknownSpanId(id)),
        }
    }

    /// The trace of the live span `id`.
    pub(super) fn get_trace_of(&self, id: u64) -> (r: Result<&Trace, Error>)
        requires
            self.wf(),
        ensures
            match r {
                Ok(trace) => trace.wf() && read_trace(
                    Drained { state: self@, error: None },
                    id,
                    |t: TraceView| t,
                ) == Ok::<TraceView, Error>(trace@),
                Err(e) => read_trace(Drained { state: self@, error: None }, id, |t: TraceView| t)
                    == Err::<TraceView, Error>(e),
            },
    {
        let t: u128 = match self.spans.get(&id) {
            Some(span) => span.span.trace_id,
            None => { return Err(Error::UnknownSpanId(id)); },
        };
        match self.traces.get(&t) {
            Some(trace) => Ok(trace),
            None => Err(Error::UnknownTraceId(t)),
        }
    }

    /// Drains the change buffer, then gives the service of the span `id`.
    pub fn get_service_name(&mut self, change_buffer: &mut [u8], id: u64) -> (r: Result<String, Error>)
        requires
            old(self).wf(),
        ensures
            final(self).wf(),
            drained(old(self)@, old(change_buffer)@, final(self)@, final(change_buffer)@),
            text_of(r) == read_span(
                drain(old(self)@, old(change_buffer)@),
                id,
                |s: NativeSpanView| s.span.service,
            ),
    {
        match self.flush_change_queue(change_buffer) {
            Ok(_) => {},
            Err(e) => { return Err(e); },
        }
        let span = self.get_span(id)?;
        Ok(span.span.service.0.clone())
    }

    /// Drains the change buffer, then gives the resource of the span `id`.
    pub fn get_resource_name(&mut self, change_buffer: &mut [u8], id: u64) -> (r: Result<String, Error>)
        requires
            old(self).wf(),
        ensures
            final(self).wf(),
            drained(old(self)@, old(change_buffer)@, final(self)@, final(change_buffer)@),
            text_of(r) == read_span(
                drain(old(self)@, old(change_buffer)@),
                id,
                |s: NativeSpanView| s.span.resource,
            ),
    {
        match self.flush_change_queue(change_buffer) {
            Ok(_) => {},
            Err(e) => { return Err(e); },
        }
        let span = self.get_span(id)?;
        Ok(span.span.resource.0.clone())
    }

    /// Drains the change buffer, then gives the tag `name` of the span `id`.
    /// Where the span has no such tag the read fails with
    /// `UnknownAttribute`: a tag of its trace is not read through the span.
    pub fn get_meta_attr(&mut self, change_buffer: &mut [u8], id: u64, name: String) -> (r: Result<
        Option<String>,
        Error,
    >)
        requires
            old(self).wf(),
        ensures
            final(self).wf(),
            drained(old(self)@, old(change_buffer)@, final(self)@, final(change_buffer)@),
            optional_text_of(r) == flattened(
                read_span(
                    drain(old(self)@, old(change_buffer)@),
                    id,
                    |s: NativeSpanView| attribute(s.span.meta, name@),
                ),
            ),
    {
        match self.flush_change_queue(change_buffer) {
            Ok(_) => {},
            Err(e) => { return Err(e); },
        }
        let span = self.get_span(id)?;
        match span.span.meta.get(name.as_str()) {
            Some(value) => Ok(Some(value.0.clone())),
            None => Err(Error::UnknownAttribute),
        }
    }

    /// Drains the change buffer, then gives the metric `name` of the span
    /// `id` as the bit pattern of its binary64 number. Where the span has
    /// no such metric the read fails with `UnknownAttribute`.
    pub fn get_metric_attr(&mut self, change_buffer: &mut [u8], id: u64, name: String) -> (r:
        Result<Option<u64>, Error>)
        requires
            old(self).wf(),
        ensures
            final(self).wf(),
            drained(old(self)@, old(change_buffer)@, final(self)@, final(change_buffer)@),
            r == flattened(
                read_span(
                    drain(old(self)@, old(change_buffer)@),
                    id,
                    |s: NativeSpanView| attribute(s.span.metrics, name@),
                ),
            ),
    {
        match self.flush_change_queue(change_buffer) {
            Ok(_) => {},
            Err(e) => { return Err(e); },
        }
        let span = self.get_span(id)?;
        match span.span.metrics.get(name.as_str()) {
            Some(value) => Ok(Some(*value)),
            None => Err(Error::UnknownAttribute),
        }
    }

    /// Drains the change buffer, then gives the error code of the span `id`.
    pub fn get_error(&mut self, change_buffer: &mut [u8], id: u64) -> (r: Result<i32, Error>)
        requires
            old(self).wf(),
        ensures
            final(self).wf(),
            drained(old(self)@, old(change_buffer)@, final(self)@, final(change_buffer)@),
            r == read_span(
                drain(old(self)@, old(change_buffer)@),
                id,
                |s: NativeSpanView| s.span.error,
            ),
    {
        match self.flush_change_queue(change_buffer) {
            Ok(_) => {},
            Err(e) => { return Err(e); },
        }
        let span = self.get_span(id)?;
        Ok(span.span.error)
    }

    /// Drains the change buffer, then gives the start time of the span `id`.
    pub fn get_start(&mut self, change_buffer: &mut [u8], id: u64) -> (r: Result<i64, Error>)
        requires
            old(self).wf(),
        ensures
            final(self).wf(),
            drained(old(self)@, old(change_buffer)@, final(self)@, final(change_buffer)@),
            r == read_span(
                drain(old(self)@, old(change_buffer)@),
                id,
                |s: NativeSpanView| s.span.start,
            ),
    {
        match self.flush_change_queue(change_buffer) {
            Ok(_) => {},
            Err(e) => { return Err(e); },
        }
        let span = self.get_span(id)?;
        Ok(span.span.start)
    }

    /// Drains the change buffer, then gives the duration of the span `id`.
    pub fn get_duration(&mut self, change_buffer: &mut [u8], id: u64) -> (r: Result<i64, Error>)
        requires
            old(self).wf(),
        ensures
            final(self).wf(),
            drained(old(self)@, old(change_buffer)@, final(self)@, final(change_buffer)@),
            r == read_span(
                drain(old(self)@, old(change_buffer)@),
                id,
                |s: NativeSpanView| s.span.duration,
            ),
    {
        match self.flush_change_queue(change_buffer) {
            Ok(_) => {},
            Err(e) => { return Err(e); },
        }
        let span = self.get_span(id)?;
        Ok(span.span.duration)
    }

    /// Drains the change buffer, then gives the type of the span `id`.
    pub fn get_type(&mut self, change_buffer: &mut [u8], id: u64) -> (r: Result<String, Error>)
        requires
            old(self).wf(),
        ensures
            final(self).wf(),
            drained(old(self)@, old(change_buffer)@, final(self)@, final(change_buffer)@),
            text_of(r) == read_span(
                drain(old(self)@, old(change_buffer)@),
                id,
                |s: NativeSpanView| s.span.span_type,
            ),
    {
        match self.flush_change_queue(change_buffer) {
            Ok(_) => {},
            Err(e) => { return Err(e); },
        }
        let span = self.get_span(id)?;
        Ok(span.span.span_type.0.clone())
    }

    /// Drains the change buffer, then gives the name of the span `id`.
    pub fn get_name(&mut self, change_buffer: &mut [u8], id: u64) -> (r: Result<String, Error>)
        requires
            old(self).wf(),
        ensures
            final(self).wf(),
            drained(old(self)@, old(change_buffer)@, final(self)@, final(change_buffer)@),
            text_of(r) == read_span(
                drain(old(self)@, old(change_buffer)@),
                id,
                |s: NativeSpanView| s.span.name,
            ),
    {
        match self.flush_change_queue(change_buffer) {
            Ok(_) => {},
            Err(e) => { return Err(e); },
        }
        let span = self.get_span(id)?;
        Ok(span.span.name.0.clone())
    }

    /// Drains the change buffer, then gives the trace-wide tag `name` of the
    /// trace of the span `id`. Where the trace has no such tag the read
    /// fails with `UnknownAttribute`.
    pub fn get_trace_meta_attr(
        &mut self,
        change_buffer: &mut [u8],
        id: u64,
        name: String,
    ) -> (r: Result<Option<String>, Error>)
        requires
            old(self).wf(),
        ensures
            final(self).wf(),
            drained(old(self)@, old(change_buffer)@, final(self)@, final(change_buffer)@),
            optional_text_of(r) == flattened(
                read_trace(
                    drain(old(self)@, old(change_buffer)@),
                    id,
                    |t: TraceView| attribute(t.meta, name@),
                ),
            ),
    {
        match self.flush_change_queue(change_buffer) {
            Ok(_) => {},
            Err(e) => { return Err(e); },
        }
        let trace = self.get_trace_of(id)?;
        match trace.meta.get(name.as_str()) {
            Some(value) => Ok(Some(value.0.clone())),
            None => Err(Error::UnknownAttribute),
        }
    }

    /// Drains the change buffer, then gives the trace-wide metric `name` of
    /// the trace of the span `id` as the bit pattern of its binary64 number.
    /// Where the trace has no such metric the read fails with
    /// `UnknownAttribute`.
    pub fn get_trace_metric_attr(
        &mut self,
        change_buffer: &mut [u8],
        id: u64,
        name: String,
    ) -> (r: Result<Option<u64>, Error>)
        requires
            old(self).wf(),
        ensures
            final(self).wf(),
            drained(old(self)@, old(change_buffer)@, final(self)@, final(change_buffer)@),
            r == flattened(
                read_trace(
                    drain(old(self)@, old(change_buffer)@),
                    id,
                    |t: TraceView| attribute(t.metrics, name@),
                ),
            ),
    {
        match self.flush_change_queue(change_buffer) {
            Ok(_) => {},
            Err(e) => { return Err(e); },
        }
        let trace = self.get_trace_of(id)?;
        match trace.metrics.get(name.as_str()) {
            Some(value) => Ok(Some(*value)),
            None => Err(Error::UnknownAttribute),
        }
    }

    /// Drains the change buffer, then gives the origin of the trace of the
    /// span `id`, or `None` where the trace has none.
    pub fn get_trace_origin(&mut self, change_buffer: &mut [u8], id: u64) -> (r: Result<
        Option<String>,
        Error,
    >)
        requires
            old(self).wf(),
        ensures
            final(self).wf(),
            drained(old(self)@, old(change_buffer)@, final(self)@, final(change_buffer)@),
            optional_text_of(r) == read_trace(
                drain(old(self)@, old(change_buffer)@),
                id,
                |t: TraceView| t.origin,
            ),
    {
        match self.flush_change_queue(change_buffer) {
            Ok(_) => {},
            Err(e) => { return Err(e); },
        }
        let trace = self.get_trace_of(id)?;
        match &trace.origin {
            Some(origin) => Ok(Some(origin.0.clone())),
            None => Ok(None),
        }
    }
}

} // verus!
