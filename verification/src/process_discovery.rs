//! What a tracer publishes about itself for discovery by other processes.

use vstd::prelude::*;
use crate::text::optional_text;

verus! {

/// What the tracer's host language knows of the running tracer.
#[derive(Debug)]
pub struct TracerMetadata {
    pub runtime_id: Option<String>,
    pub tracer_version: String,
    pub hostname: String,
    pub service_name: Option<String>,
    pub service_env: Option<String>,
    pub service_version: Option<String>,
    pub process_tags: Option<String>,
    pub container_id: Option<String>,
}

/// The record that is stored for discovery: the tracer's metadata with the
/// version of the schema and the language of the tracer.
#[derive(Debug)]
pub struct StoredMetadata {
    pub schema_version: u8,
    pub runtime_id: Option<String>,
    pub tracer_language: String,
    pub tracer_version: String,
    pub hostname: String,
    pub service_name: Option<String>,
    pub service_env: Option<String>,
    pub service_version: Option<String>,
    pub process_tags: Option<String>,
    pub container_id: Option<String>,
}

fn copy_optional(s: &Option<String>) -> (r: Option<String>)
    ensures
        optional_text(r) == optional_text(*s),
{
    match s {
        Some(s) => Some(s.clone()),
        None => None,
    }
}

/// The record to store for `data`: schema version 1, language `nodejs`, and
/// every field of `data` as it is.
pub fn stored_metadata(data: &TracerMetadata) -> (r: StoredMetadata)
    ensures
        r.schema_version == 1,
        r.tracer_language@ == "nodejs"@,
        optional_text(r.runtime_id) == optional_text(data.runtime_id),
        r.tracer_version@ == data.tracer_version@,
        r.hostname@ == data.hostname@,
        optional_text(r.service_name) == optional_text(data.service_name),
        optional_text(r.service_env) == optional_text(data.service_env),
        optional_text(r.service_version) == optional_text(data.service_version),
        optional_text(r.process_tags) == optional_text(data.process_tags),
        optional_text(r.container_id) == optional_text(data.container_id),
{
    StoredMetadata {
        schema_version: 1,
        runtime_id: copy_optional(&data.runtime_id),
        tracer_language: "nodejs".to_owned(),
        tracer_version: data.tracer_version.clone(),
        hostname: data.hostname.clone(),
        service_name: copy_optional(&data.service_name),
        service_env: copy_optional(&data.service_env),
        service_version: copy_optional(&data.service_version),
        process_tags: copy_optional(&data.process_tags),
        container_id: copy_optional(&data.container_id),
    }
}

} // verus!
