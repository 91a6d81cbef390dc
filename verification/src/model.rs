//! The in-memory trace tree.
//!
//! A caller assembles one `TraceExport` per output line: resource spans, each
//! owning scope spans, each owning spans with their events, links and status.
//! Identifiers are opaque lowercase hex strings, with the empty string as the
//! "absent" sentinel (no trace id, no parent). Times are nanoseconds since
//! the Unix epoch. Optional fields distinguish absent (`None`) from present
//! but empty (`Some` of an empty list); the serializer preserves exactly that
//! distinction on the wire. This layer validates nothing: end >= start and
//! span-id uniqueness are caller contracts.

use vstd::prelude::*;

verus! {

/// Root container; one serialized unit, one line of output.
#[derive(Clone, Debug)]
pub struct TraceExport {
    pub resource_spans: Vec<ResourceSpan>,
}

/// One resource (for example a process or build) and its scope spans.
#[derive(Clone, Debug)]
pub struct ResourceSpan {
    pub resource: Resource,
    pub scope_spans: Vec<ScopeSpan>,
}

/// The resource description: an optional attribute list.
#[derive(Clone, Debug)]
pub struct Resource {
    pub attributes: Option<Vec<Attribute>>,
}

/// A key paired with a value.
#[derive(Clone, Debug)]
pub struct Attribute {
    pub key: String,
    pub value: AttributeValue,
}

/// An attribute value; only the string-typed variant is supported.
#[derive(Clone, Debug)]
pub struct AttributeValue {
    pub string_value: String,
}

/// An instrumentation scope and its spans; the scope itself is optional.
#[derive(Clone, Debug)]
pub struct ScopeSpan {
    pub scope: Option<Scope>,
    pub spans: Vec<Span>,
}

/// An instrumentation scope; carries no fields yet (reserved for a future
/// name and version).
#[derive(Clone, Debug)]
pub struct Scope {}

/// The unit of work. `parent_span_id` is empty for roots.
#[derive(Clone, Debug)]
pub struct Span {
    pub trace_id: String,
    pub span_id: String,
    pub parent_span_id: String,
    pub name: String,
    pub start_time_unix_nano: u64,
    pub end_time_unix_nano: u64,
    pub attributes: Option<Vec<Attribute>>,
    pub dropped_attributes_count: Option<u64>,
    pub events: Option<Vec<Event>>,
    pub dropped_events_count: Option<u64>,
    pub links: Option<Vec<Link>>,
    pub dropped_links_count: Option<u64>,
    pub status: Option<Status>,
}

/// A timestamped occurrence attached to a span.
#[derive(Clone, Debug)]
pub struct Event {
    pub time_unix_nano: u64,
    pub name: String,
    pub attributes: Option<Vec<Attribute>>,
    pub dropped_attributes_count: Option<u64>,
}

/// A named relation to another span; implies no ownership.
#[derive(Clone, Debug)]
pub struct Link {
    pub trace_id: String,
    pub span_id: String,
    pub attributes: Option<Vec<Attribute>>,
    pub dropped_attributes_count: Option<u64>,
}

/// Optional outcome descriptor of a span; message and code are
/// independently optional, and the code is an opaque small integer this
/// system neither validates nor defaults.
#[derive(Clone, Debug)]
pub struct Status {
    pub message: Option<String>,
    pub code: Option<u64>,
}

} // verus!
