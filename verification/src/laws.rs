//! Properties of the wire encoding, proved once and for all.
//!
//! These laws speak over the ghost JSON model of `crate::json`, which the
//! executable serializer is proved to emit verbatim: object field lookup
//! (`obj_value`), absence of `null`, preservation of caller order in every
//! array, and newline framing of the rendered lines.

use vstd::prelude::*;

use crate::json::JsonV;
use crate::json::attr_jv;
use crate::json::attrs_jv;
use crate::json::event_jv;
use crate::json::events_jv;
use crate::json::export_entries;
use crate::json::export_jv;
use crate::json::export_text;
use crate::json::link_jv;
use crate::json::links_jv;
use crate::json::lines_text;
use crate::json::opt_attrs_entries;
use crate::json::opt_count_entries;
use crate::json::opt_events_entries;
use crate::json::opt_links_entries;
use crate::json::opt_status_entries;
use crate::json::resource_entries;
use crate::json::resource_span_jv;
use crate::json::resource_spans_jv;
use crate::json::scope_span_entries;
use crate::json::scope_span_jv;
use crate::json::scope_spans_jv;
use crate::json::span_entries;
use crate::json::span_jv;
use crate::json::span_required_entries;
use crate::json::spans_jv;
use crate::json::status_entries;
use crate::json::status_jv;
use crate::json::time_jv;
use crate::model::Attribute;
use crate::model::Event;
use crate::model::Link;
use crate::model::Resource;
use crate::model::ResourceSpan;
use crate::model::ScopeSpan;
use crate::model::Span;
use crate::model::Status;
use crate::model::TraceExport;

verus! {

/// The value under `k` in an ordered field list: the first match, `None`
/// when the key does not occur.
pub open spec fn obj_value(es: Seq<(Seq<char>, JsonV)>, k: Seq<char>) -> Option<JsonV>
    decreases es.len(),
{
    if es.len() == 0 {
        Option::None
    } else if es[0].0 == k {
        Option::Some(es[0].1)
    } else {
        obj_value(es.drop_first(), k)
    }
}

/// Lookup over a concatenation: the left part wins where it has the key.
pub proof fn lemma_obj_value_append(a: Seq<(Seq<char>, JsonV)>, b: Seq<(Seq<char>, JsonV)>, k: Seq<char>)
    ensures
        obj_value(a + b, k) == (if obj_value(a, k) is Some {
            obj_value(a, k)
        } else {
            obj_value(b, k)
        }),
    decreases a.len(),
{
    if a.len() == 0 {
        assert(a + b =~= b);
    } else {
        lemma_obj_value_append(a.drop_first(), b, k);
        let es = a + b;
        assert(es[0] == a[0]);
        assert(es.drop_first() =~= a.drop_first() + b);
    }
}

/// Lookup in a one-field list.
pub proof fn lemma_obj_value1(e: (Seq<char>, JsonV), k: Seq<char>)
    ensures
        obj_value(seq![e], k) == (if e.0 == k {
            Option::Some(e.1)
        } else {
            Option::<JsonV>::None
        }),
{
    reveal_with_fuel(obj_value, 3);
    assert(seq![e].drop_first() =~= Seq::<(Seq<char>, JsonV)>::empty());
}

/// Lookup in a two-field list.
pub proof fn lemma_obj_value2(e1: (Seq<char>, JsonV), e2: (Seq<char>, JsonV), k: Seq<char>)
    ensures
        obj_value(seq![e1, e2], k) == (if e1.0 == k {
            Option::Some(e1.1)
        } else if e2.0 == k {
            Option::Some(e2.1)
        } else {
            Option::<JsonV>::None
        }),
{
    assert(seq![e1, e2] =~= seq![e1] + seq![e2]);
    lemma_obj_value_append(seq![e1], seq![e2], k);
    lemma_obj_value1(e1, k);
    lemma_obj_value1(e2, k);
}

/// Lookup in a six-field list.
pub proof fn lemma_obj_value6(
    e1: (Seq<char>, JsonV),
    e2: (Seq<char>, JsonV),
    e3: (Seq<char>, JsonV),
    e4: (Seq<char>, JsonV),
    e5: (Seq<char>, JsonV),
    e6: (Seq<char>, JsonV),
    k: Seq<char>,
)
    ensures
        obj_value(seq![e1, e2, e3, e4, e5, e6], k) == (if e1.0 == k {
            Option::Some(e1.1)
        } else if e2.0 == k {
            Option::Some(e2.1)
        } else if e3.0 == k {
            Option::Some(e3.1)
        } else if e4.0 == k {
            Option::Some(e4.1)
        } else if e5.0 == k {
            Option::Some(e5.1)
        } else if e6.0 == k {
            Option::Some(e6.1)
        } else {
            Option::<JsonV>::None
        }),
{
    assert(seq![e1, e2, e3, e4, e5, e6] =~= seq![e1] + seq![e2, e3, e4, e5, e6]);
    lemma_obj_value_append(seq![e1], seq![e2, e3, e4, e5, e6], k);
    lemma_obj_value1(e1, k);
    assert(seq![e2, e3, e4, e5, e6] =~= seq![e2] + seq![e3, e4, e5, e6]);
    lemma_obj_value_append(seq![e2], seq![e3, e4, e5, e6], k);
    lemma_obj_value1(e2, k);
    assert(seq![e3, e4, e5, e6] =~= seq![e3] + seq![e4, e5, e6]);
    lemma_obj_value_append(seq![e3], seq![e4, e5, e6], k);
    lemma_obj_value1(e3, k);
    assert(seq![e4, e5, e6] =~= seq![e4] + seq![e5, e6]);
    lemma_obj_value_append(seq![e4], seq![e5, e6], k);
    lemma_obj_value1(e4, k);
    assert(seq![e5, e6] =~= seq![e5] + seq![e6]);
    lemma_obj_value_append(seq![e5], seq![e6], k);
    lemma_obj_value1(e5, k);
    lemma_obj_value1(e6, k);
}

/// Lookup in the chunk of an optional string field.
proof fn lemma_ov_opt_string(k0: Seq<char>, o: Option<String>, k: Seq<char>)
    ensures
        obj_value(crate::json::opt_string_entries(k0, o), k) == (if o is Some && k0 == k {
            Option::Some(JsonV::Str(o->0@))
        } else {
            Option::<JsonV>::None
        }),
{
    match o {
        Option::Some(m) => {
            lemma_obj_value1((k0, JsonV::Str(m@)), k);
        },
        Option::None => {
        },
    }
}

/// Lookup in the chunk of an optional count field.
proof fn lemma_ov_opt_count(k0: Seq<char>, o: Option<u64>, k: Seq<char>)
    ensures
        obj_value(opt_count_entries(k0, o), k) == (if o is Some && k0 == k {
            Option::Some(JsonV::Num(o->0 as nat))
        } else {
            Option::<JsonV>::None
        }),
{
    match o {
        Option::Some(n) => {
            lemma_obj_value1((k0, JsonV::Num(n as nat)), k);
        },
        Option::None => {
        },
    }
}

/// Lookup in the chunk of an optional attribute list field.
proof fn lemma_ov_opt_attrs(k0: Seq<char>, o: Option<Vec<Attribute>>, k: Seq<char>)
    ensures
        obj_value(opt_attrs_entries(k0, o), k) == (if o is Some && k0 == k {
            Option::Some(attrs_jv(o->0@))
        } else {
            Option::<JsonV>::None
        }),
{
    match o {
        Option::Some(l) => {
            lemma_obj_value1((k0, attrs_jv(l@)), k);
        },
        Option::None => {
        },
    }
}

/// Lookup in the chunk of the optional event list.
proof fn lemma_ov_opt_events(o: Option<Vec<Event>>, k: Seq<char>)
    ensures
        obj_value(opt_events_entries(o), k) == (if o is Some && ("events")@ == k {
            Option::Some(events_jv(o->0@))
        } else {
            Option::<JsonV>::None
        }),
{
    match o {
        Option::Some(l) => {
            lemma_obj_value1((("events")@, events_jv(l@)), k);
        },
        Option::None => {
        },
    }
}

/// Lookup in the chunk of the optional link list.
proof fn lemma_ov_opt_links(o: Option<Vec<Link>>, k: Seq<char>)
    ensures
        obj_value(opt_links_entries(o), k) == (if o is Some && ("links")@ == k {
            Option::Some(links_jv(o->0@))
        } else {
            Option::<JsonV>::None
        }),
{
    match o {
        Option::Some(l) => {
            lemma_obj_value1((("links")@, links_jv(l@)), k);
        },
        Option::None => {
        },
    }
}

/// Lookup in the chunk of the optional status.
proof fn lemma_ov_opt_status(o: Option<Status>, k: Seq<char>)
    ensures
        obj_value(opt_status_entries(o), k) == (if o is Some && ("status")@ == k {
            Option::Some(status_jv(o->0))
        } else {
            Option::<JsonV>::None
        }),
{
    match o {
        Option::Some(st) => {
            lemma_obj_value1((("status")@, status_jv(st)), k);
        },
        Option::None => {
        },
    }
}

/// Lookup in the chunk of the optional scope.
proof fn lemma_ov_opt_scope(o: Option<crate::model::Scope>, k: Seq<char>)
    ensures
        obj_value(crate::json::opt_scope_entries(o), k) == (if o is Some && ("scope")@ == k {
            Option::Some(JsonV::Obj(Seq::empty()))
        } else {
            Option::<JsonV>::None
        }),
{
    match o {
        Option::Some(_) => {
            lemma_obj_value1((("scope")@, JsonV::Obj(Seq::empty())), k);
        },
        Option::None => {
        },
    }
}

/// Omission fidelity for a resource: the attributes field is on the wire
/// exactly when the caller supplied one, carrying the supplied list even
/// when empty — absence is a missing field, never `null`, never a default.
pub proof fn lemma_resource_omission(r: Resource)
    ensures
        obj_value(resource_entries(r), ("attributes")@) == (match r.attributes {
            Option::Some(l) => Option::Some(attrs_jv(l@)),
            Option::None => Option::<JsonV>::None,
        }),
{
    lemma_ov_opt_attrs(("attributes")@, r.attributes, ("attributes")@);
}

/// Omission fidelity for a status: message and code each appear exactly
/// when supplied, independently.
pub proof fn lemma_status_omission(s: Status)
    ensures
        obj_value(status_entries(s), ("message")@) == (match s.message {
            Option::Some(m) => Option::Some(JsonV::Str(m@)),
            Option::None => Option::<JsonV>::None,
        }),
        obj_value(status_entries(s), ("code")@) == (match s.code {
            Option::Some(c) => Option::Some(JsonV::Num(c as nat)),
            Option::None => Option::<JsonV>::None,
        }),
{
    reveal_strlit("message");
    reveal_strlit("code");
    let cm = crate::json::opt_string_entries(("message")@, s.message);
    let cc = opt_count_entries(("code")@, s.code);
    lemma_obj_value_append(cm, cc, ("message")@);
    lemma_obj_value_append(cm, cc, ("code")@);
    lemma_ov_opt_string(("message")@, s.message, ("message")@);
    lemma_ov_opt_string(("message")@, s.message, ("code")@);
    lemma_ov_opt_count(("code")@, s.code, ("message")@);
    lemma_ov_opt_count(("code")@, s.code, ("code")@);
    assert(("message")@.len() == 7);
    assert(("code")@.len() == 4);
}

/// Omission fidelity for a scope span: the scope field appears (as the
/// empty object) exactly when a scope was supplied; the spans list is
/// always present.
pub proof fn lemma_scope_span_omission(s: ScopeSpan)
    ensures
        obj_value(scope_span_entries(s), ("scope")@) == (match s.scope {
            Option::Some(_) => Option::Some(JsonV::Obj(Seq::empty())),
            Option::None => Option::<JsonV>::None,
        }),
        obj_value(scope_span_entries(s), ("spans")@) == Option::Some(spans_jv(s.spans@)),
{
    reveal_strlit("scope");
    reveal_strlit("spans");
    let co = crate::json::opt_scope_entries(s.scope);
    let cs = seq![(("spans")@, spans_jv(s.spans@))];
    lemma_obj_value_append(co, cs, ("scope")@);
    lemma_obj_value_append(co, cs, ("spans")@);
    lemma_ov_opt_scope(s.scope, ("scope")@);
    lemma_ov_opt_scope(s.scope, ("spans")@);
    lemma_obj_value1((("spans")@, spans_jv(s.spans@)), ("scope")@);
    lemma_obj_value1((("spans")@, spans_jv(s.spans@)), ("spans")@);
    assert(("scope")@[1] == 'c');
    assert(("spans")@[1] == 'p');
}

/// Omission fidelity for an event: the required time and name are always
/// on the wire (the time as its quoted digit string), the optional fields
/// exactly when supplied.
pub proof fn lemma_event_omission(e: Event)
    ensures
        obj_value(crate::json::event_entries(e), ("timeUnixNano")@) == Option::Some(
            time_jv(e.time_unix_nano),
        ),
        obj_value(crate::json::event_entries(e), ("name")@) == Option::Some(JsonV::Str(e.name@)),
        obj_value(crate::json::event_entries(e), ("attributes")@) == (match e.attributes {
            Option::Some(l) => Option::Some(attrs_jv(l@)),
            Option::None => Option::<JsonV>::None,
        }),
        obj_value(crate::json::event_entries(e), ("droppedAttributesCount")@) == (match e
            .dropped_attributes_count {
            Option::Some(n) => Option::Some(JsonV::Num(n as nat)),
            Option::None => Option::<JsonV>::None,
        }),
{
    reveal_strlit("timeUnixNano");
    reveal_strlit("name");
    reveal_strlit("attributes");
    reveal_strlit("droppedAttributesCount");
    let req = seq![
        (("timeUnixNano")@, time_jv(e.time_unix_nano)),
        (("name")@, JsonV::Str(e.name@)),
    ];
    let ca = opt_attrs_entries(("attributes")@, e.attributes);
    let cc = opt_count_entries(("droppedAttributesCount")@, e.dropped_attributes_count);
    assert(crate::json::event_entries(e) == req + ca + cc);
    assert(("timeUnixNano")@.len() == 12);
    assert(("name")@.len() == 4);
    assert(("attributes")@.len() == 10);
    assert(("droppedAttributesCount")@.len() == 22);
    lemma_obj_value_append(req + ca, cc, ("timeUnixNano")@);
    lemma_obj_value_append(req, ca, ("timeUnixNano")@);
    lemma_obj_value2(req[0], req[1], ("timeUnixNano")@);
    lemma_ov_opt_attrs(("attributes")@, e.attributes, ("timeUnixNano")@);
    lemma_ov_opt_count(("droppedAttributesCount")@, e.dropped_attributes_count, ("timeUnixNano")@);
    lemma_obj_value_append(req + ca, cc, ("name")@);
    lemma_obj_value_append(req, ca, ("name")@);
    lemma_obj_value2(req[0], req[1], ("name")@);
    lemma_ov_opt_attrs(("attributes")@, e.attributes, ("name")@);
    lemma_ov_opt_count(("droppedAttributesCount")@, e.dropped_attributes_count, ("name")@);
    lemma_obj_value_append(req + ca, cc, ("attributes")@);
    lemma_obj_value_append(req, ca, ("attributes")@);
    lemma_obj_value2(req[0], req[1], ("attributes")@);
    lemma_ov_opt_attrs(("attributes")@, e.attributes, ("attributes")@);
    lemma_ov_opt_count(("droppedAttributesCount")@, e.dropped_attributes_count, ("attributes")@);
    lemma_obj_value_append(req + ca, cc, ("droppedAttributesCount")@);
    lemma_obj_value_append(req, ca, ("droppedAttributesCount")@);
    lemma_obj_value2(req[0], req[1], ("droppedAttributesCount")@);
    lemma_ov_opt_attrs(("attributes")@, e.attributes, ("droppedAttributesCount")@);
    lemma_ov_opt_count(
        ("droppedAttributesCount")@,
        e.dropped_attributes_count,
        ("droppedAttributesCount")@,
    );
}

/// Omission fidelity for a link: the required identifiers are always on
/// the wire, the optional fields exactly when supplied.
pub proof fn lemma_link_omission(l: Link)
    ensures
        obj_value(crate::json::link_entries(l), ("traceId")@) == Option::Some(
            JsonV::Str(l.trace_id@),
        ),
        obj_value(crate::json::link_entries(l), ("spanId")@) == Option::Some(
            JsonV::Str(l.span_id@),
        ),
        obj_value(crate::json::link_entries(l), ("attributes")@) == (match l.attributes {
            Option::Some(a) => Option::Some(attrs_jv(a@)),
            Option::None => Option::<JsonV>::None,
        }),
        obj_value(crate::json::link_entries(l), ("droppedAttributesCount")@) == (match l
            .dropped_attributes_count {
            Option::Some(n) => Option::Some(JsonV::Num(n as nat)),
            Option::None => Option::<JsonV>::None,
        }),
{
    reveal_strlit("traceId");
    reveal_strlit("spanId");
    reveal_strlit("attributes");
    reveal_strlit("droppedAttributesCount");
    let req = seq![(("traceId")@, JsonV::Str(l.trace_id@)), (("spanId")@, JsonV::Str(l.span_id@))];
    let ca = opt_attrs_entries(("attributes")@, l.attributes);
    let cc = opt_count_entries(("droppedAttributesCount")@, l.dropped_attributes_count);
    assert(crate::json::link_entries(l) == req + ca + cc);
    assert(("traceId")@.len() == 7);
    assert(("spanId")@.len() == 6);
    assert(("attributes")@.len() == 10);
    assert(("droppedAttributesCount")@.len() == 22);
    lemma_obj_value_append(req + ca, cc, ("traceId")@);
    lemma_obj_value_append(req, ca, ("traceId")@);
    lemma_obj_value2(req[0], req[1], ("traceId")@);
    lemma_ov_opt_attrs(("attributes")@, l.attributes, ("traceId")@);
    lemma_ov_opt_count(("droppedAttributesCount")@, l.dropped_attributes_count, ("traceId")@);
    lemma_obj_value_append(req + ca, cc, ("spanId")@);
    lemma_obj_value_append(req, ca, ("spanId")@);
    lemma_obj_value2(req[0], req[1], ("spanId")@);
    lemma_ov_opt_attrs(("attributes")@, l.attributes, ("spanId")@);
    lemma_ov_opt_count(("droppedAttributesCount")@, l.dropped_attributes_count, ("spanId")@);
    lemma_obj_value_append(req + ca, cc, ("attributes")@);
    lemma_obj_value_append(req, ca, ("attributes")@);
    lemma_obj_value2(req[0], req[1], ("attributes")@);
    lemma_ov_opt_attrs(("attributes")@, l.attributes, ("attributes")@);
    lemma_ov_opt_count(("droppedAttributesCount")@, l.dropped_attributes_count, ("attributes")@);
    lemma_obj_value_append(req + ca, cc, ("droppedAttributesCount")@);
    lemma_obj_value_append(req, ca, ("droppedAttributesCount")@);
    lemma_obj_value2(req[0], req[1], ("droppedAttributesCount")@);
    lemma_ov_opt_attrs(("attributes")@, l.attributes, ("droppedAttributesCount")@);
    lemma_ov_opt_count(
        ("droppedAttributesCount")@,
        l.dropped_attributes_count,
        ("droppedAttributesCount")@,
    );
}

/// A span-object lookup read chunk by chunk: the six required fields
/// first, then each optional chunk in wire order.
pub open spec fn chunk_lookup(s: Span, k: Seq<char>) -> Option<JsonV> {
    if obj_value(span_required_entries(s), k) is Some {
        obj_value(span_required_entries(s), k)
    } else if obj_value(opt_attrs_entries(("attributes")@, s.attributes), k) is Some {
        obj_value(opt_attrs_entries(("attributes")@, s.attributes), k)
    } else if obj_value(
        opt_count_entries(("droppedAttributesCount")@, s.dropped_attributes_count),
        k,
    ) is Some {
        obj_value(opt_count_entries(("droppedAttributesCount")@, s.dropped_attributes_count), k)
    } else if obj_value(opt_events_entries(s.events), k) is Some {
        obj_value(opt_events_entries(s.events), k)
    } else if obj_value(opt_count_entries(("droppedEventsCount")@, s.dropped_events_count), k)
        is Some {
        obj_value(opt_count_entries(("droppedEventsCount")@, s.dropped_events_count), k)
    } else if obj_value(opt_links_entries(s.links), k) is Some {
        obj_value(opt_links_entries(s.links), k)
    } else if obj_value(opt_count_entries(("droppedLinksCount")@, s.dropped_links_count), k)
        is Some {
        obj_value(opt_count_entries(("droppedLinksCount")@, s.dropped_links_count), k)
    } else {
        obj_value(opt_status_entries(s.status), k)
    }
}

/// Decomposes a span-object lookup into its chunks.
proof fn lemma_span_lookup(s: Span, k: Seq<char>)
    ensures
        obj_value(span_entries(s), k) == chunk_lookup(s, k),
{
    let r = span_required_entries(s);
    let ca = opt_attrs_entries(("attributes")@, s.attributes);
    let cb = opt_count_entries(("droppedAttributesCount")@, s.dropped_attributes_count);
    let cc = opt_events_entries(s.events);
    let cd = opt_count_entries(("droppedEventsCount")@, s.dropped_events_count);
    let ce = opt_links_entries(s.links);
    let cf = opt_count_entries(("droppedLinksCount")@, s.dropped_links_count);
    let cg = opt_status_entries(s.status);
    lemma_obj_value_append(r + ca + cb + cc + cd + ce + cf, cg, k);
    lemma_obj_value_append(r + ca + cb + cc + cd + ce, cf, k);
    lemma_obj_value_append(r + ca + cb + cc + cd, ce, k);
    lemma_obj_value_append(r + ca + cb + cc, cd, k);
    lemma_obj_value_append(r + ca + cb, cc, k);
    lemma_obj_value_append(r + ca, cb, k);
    lemma_obj_value_append(r, ca, k);
}

/// The required span fields are always on the wire, each carrying exactly
/// the caller's value, and both timestamps travel as their quoted
/// decimal-digit strings, never as bare numbers.
#[verifier::rlimit(100)]
pub proof fn lemma_span_required_fields(s: Span)
    ensures
        obj_value(span_entries(s), ("traceId")@) == Option::Some(JsonV::Str(s.trace_id@)),
        obj_value(span_entries(s), ("spanId")@) == Option::Some(JsonV::Str(s.span_id@)),
        obj_value(span_entries(s), ("parentSpanId")@) == Option::Some(
            JsonV::Str(s.parent_span_id@),
        ),
        obj_value(span_entries(s), ("name")@) == Option::Some(JsonV::Str(s.name@)),
        obj_value(span_entries(s), ("startTimeUnixNano")@) == Option::Some(
            time_jv(s.start_time_unix_nano),
        ),
        obj_value(span_entries(s), ("endTimeUnixNano")@) == Option::Some(
            time_jv(s.end_time_unix_nano),
        ),
{
    reveal_strlit("traceId");
    reveal_strlit("spanId");
    reveal_strlit("parentSpanId");
    reveal_strlit("name");
    reveal_strlit("startTimeUnixNano");
    reveal_strlit("endTimeUnixNano");
    let e1 = (("traceId")@, JsonV::Str(s.trace_id@));
    let e2 = (("spanId")@, JsonV::Str(s.span_id@));
    let e3 = (("parentSpanId")@, JsonV::Str(s.parent_span_id@));
    let e4 = (("name")@, JsonV::Str(s.name@));
    let e5 = (("startTimeUnixNano")@, time_jv(s.start_time_unix_nano));
    let e6 = (("endTimeUnixNano")@, time_jv(s.end_time_unix_nano));
    assert(span_required_entries(s) == seq![e1, e2, e3, e4, e5, e6]);
    assert(("traceId")@.len() == 7);
    assert(("spanId")@.len() == 6);
    assert(("parentSpanId")@.len() == 12);
    assert(("name")@.len() == 4);
    assert(("startTimeUnixNano")@.len() == 17);
    assert(("endTimeUnixNano")@.len() == 15);
    lemma_span_lookup(s, ("traceId")@);
    lemma_obj_value6(e1, e2, e3, e4, e5, e6, ("traceId")@);
    lemma_span_lookup(s, ("spanId")@);
    lemma_obj_value6(e1, e2, e3, e4, e5, e6, ("spanId")@);
    lemma_span_lookup(s, ("parentSpanId")@);
    lemma_obj_value6(e1, e2, e3, e4, e5, e6, ("parentSpanId")@);
    lemma_span_lookup(s, ("name")@);
    lemma_obj_value6(e1, e2, e3, e4, e5, e6, ("name")@);
    lemma_span_lookup(s, ("startTimeUnixNano")@);
    lemma_obj_value6(e1, e2, e3, e4, e5, e6, ("startTimeUnixNano")@);
    lemma_span_lookup(s, ("endTimeUnixNano")@);
    lemma_obj_value6(e1, e2, e3, e4, e5, e6, ("endTimeUnixNano")@);
}

/// Omission fidelity for a span: each optional field is on the wire
/// exactly when the caller supplied it, carrying the supplied value — a
/// present-but-empty list stays an empty list, absence is a missing
/// field, never `null`, never a default.
#[verifier::rlimit(100)]
pub proof fn lemma_span_omission(s: Span)
    ensures
        obj_value(span_entries(s), ("attributes")@) == (match s.attributes {
            Option::Some(l) => Option::Some(attrs_jv(l@)),
            Option::None => Option::<JsonV>::None,
        }),
        obj_value(span_entries(s), ("droppedAttributesCount")@) == (match s
            .dropped_attributes_count {
            Option::Some(n) => Option::Some(JsonV::Num(n as nat)),
            Option::None => Option::<JsonV>::None,
        }),
        obj_value(span_entries(s), ("events")@) == (match s.events {
            Option::Some(l) => Option::Some(events_jv(l@)),
            Option::None => Option::<JsonV>::None,
        }),
        obj_value(span_entries(s), ("droppedEventsCount")@) == (match s.dropped_events_count {
            Option::Some(n) => Option::Some(JsonV::Num(n as nat)),
            Option::None => Option::<JsonV>::None,
        }),
        obj_value(span_entries(s), ("links")@) == (match s.links {
            Option::Some(l) => Option::Some(links_jv(l@)),
            Option::None => Option::<JsonV>::None,
        }),
        obj_value(span_entries(s), ("droppedLinksCount")@) == (match s.dropped_links_count {
            Option::Some(n) => Option::Some(JsonV::Num(n as nat)),
            Option::None => Option::<JsonV>::None,
        }),
        obj_value(span_entries(s), ("status")@) == (match s.status {
            Option::Some(st) => Option::Some(status_jv(st)),
            Option::None => Option::<JsonV>::None,
        }),
{
    reveal_strlit("traceId");
    reveal_strlit("spanId");
    reveal_strlit("parentSpanId");
    reveal_strlit("name");
    reveal_strlit("startTimeUnixNano");
    reveal_strlit("endTimeUnixNano");
    reveal_strlit("attributes");
    reveal_strlit("droppedAttributesCount");
    reveal_strlit("events");
    reveal_strlit("droppedEventsCount");
    reveal_strlit("links");
    reveal_strlit("droppedLinksCount");
    reveal_strlit("status");
    let e1 = (("traceId")@, JsonV::Str(s.trace_id@));
    let e2 = (("spanId")@, JsonV::Str(s.span_id@));
    let e3 = (("parentSpanId")@, JsonV::Str(s.parent_span_id@));
    let e4 = (("name")@, JsonV::Str(s.name@));
    let e5 = (("startTimeUnixNano")@, time_jv(s.start_time_unix_nano));
    let e6 = (("endTimeUnixNano")@, time_jv(s.end_time_unix_nano));
    assert(span_required_entries(s) == seq![e1, e2, e3, e4, e5, e6]);
    assert(("traceId")@.len() == 7);
    assert(("spanId")@.len() == 6);
    assert(("parentSpanId")@.len() == 12);
    assert(("name")@.len() == 4);
    assert(("startTimeUnixNano")@.len() == 17);
    assert(("endTimeUnixNano")@.len() == 15);
    assert(("attributes")@.len() == 10);
    assert(("droppedAttributesCount")@.len() == 22);
    assert(("events")@.len() == 6);
    assert(("droppedEventsCount")@.len() == 18);
    assert(("links")@.len() == 5);
    assert(("droppedLinksCount")@.len() == 17);
    assert(("status")@.len() == 6);
    assert(("spanId")@[0] == 's' && ("events")@[0] == 'e');
    assert(("spanId")@ != ("events")@);
    assert(("spanId")@[1] == 'p' && ("status")@[1] == 't');
    assert(("spanId")@ != ("status")@);
    assert(("events")@ != ("status")@);
    assert(("startTimeUnixNano")@[0] == 's' && ("droppedLinksCount")@[0] == 'd');
    assert(("startTimeUnixNano")@ != ("droppedLinksCount")@);
    assert(obj_value(span_entries(s), ("attributes")@) == (match s.attributes {
        Option::Some(l) => Option::Some(attrs_jv(l@)),
        Option::None => Option::<JsonV>::None,
    })) by {
        lemma_span_lookup(s, ("attributes")@);
        lemma_obj_value6(e1, e2, e3, e4, e5, e6, ("attributes")@);
        lemma_ov_opt_attrs(("attributes")@, s.attributes, ("attributes")@);
        lemma_ov_opt_count(("droppedAttributesCount")@, s.dropped_attributes_count, ("attributes")@);
        lemma_ov_opt_events(s.events, ("attributes")@);
        lemma_ov_opt_count(("droppedEventsCount")@, s.dropped_events_count, ("attributes")@);
        lemma_ov_opt_links(s.links, ("attributes")@);
        lemma_ov_opt_count(("droppedLinksCount")@, s.dropped_links_count, ("attributes")@);
        lemma_ov_opt_status(s.status, ("attributes")@);
    }
    assert(obj_value(span_entries(s), ("droppedAttributesCount")@) == (match s
        .dropped_attributes_count {
        Option::Some(n) => Option::Some(JsonV::Num(n as nat)),
        Option::None => Option::<JsonV>::None,
    })) by {
        let k = ("droppedAttributesCount")@;
        lemma_span_lookup(s, k);
        lemma_obj_value6(e1, e2, e3, e4, e5, e6, k);
        lemma_ov_opt_attrs(("attributes")@, s.attributes, k);
        lemma_ov_opt_count(("droppedAttributesCount")@, s.dropped_attributes_count, k);
        lemma_ov_opt_events(s.events, k);
        lemma_ov_opt_count(("droppedEventsCount")@, s.dropped_events_count, k);
        lemma_ov_opt_links(s.links, k);
        lemma_ov_opt_count(("droppedLinksCount")@, s.dropped_links_count, k);
        lemma_ov_opt_status(s.status, k);
    }
    assert(obj_value(span_entries(s), ("events")@) == (match s.events {
        Option::Some(l) => Option::Some(events_jv(l@)),
        Option::None => Option::<JsonV>::None,
    })) by {
        let k = ("events")@;
        lemma_span_lookup(s, k);
        lemma_obj_value6(e1, e2, e3, e4, e5, e6, k);
        lemma_ov_opt_attrs(("attributes")@, s.attributes, k);
        lemma_ov_opt_count(("droppedAttributesCount")@, s.dropped_attributes_count, k);
        lemma_ov_opt_events(s.events, k);
        lemma_ov_opt_count(("droppedEventsCount")@, s.dropped_events_count, k);
        lemma_ov_opt_links(s.links, k);
        lemma_ov_opt_count(("droppedLinksCount")@, s.dropped_links_count, k);
        lemma_ov_opt_status(s.status, k);
    }
    assert(obj_value(span_entries(s), ("droppedEventsCount")@) == (match s.dropped_events_count {
        Option::Some(n) => Option::Some(JsonV::Num(n as nat)),
        Option::None => Option::<JsonV>::None,
    })) by {
        let k = ("droppedEventsCount")@;
        lemma_span_lookup(s, k);
        lemma_obj_value6(e1, e2, e3, e4, e5, e6, k);
        lemma_ov_opt_attrs(("attributes")@, s.attributes, k);
        lemma_ov_opt_count(("droppedAttributesCount")@, s.dropped_attributes_count, k);
        lemma_ov_opt_events(s.events, k);
        lemma_ov_opt_count(("droppedEventsCount")@, s.dropped_events_count, k);
        lemma_ov_opt_links(s.links, k);
        lemma_ov_opt_count(("droppedLinksCount")@, s.dropped_links_count, k);
        lemma_ov_opt_status(s.status, k);
    }
    assert(obj_value(span_entries(s), ("links")@) == (match s.links {
        Option::Some(l) => Option::Some(links_jv(l@)),
        Option::None => Option::<JsonV>::None,
    })) by {
        let k = ("links")@;
        lemma_span_lookup(s, k);
        lemma_obj_value6(e1, e2, e3, e4, e5, e6, k);
        lemma_ov_opt_attrs(("attributes")@, s.attributes, k);
        lemma_ov_opt_count(("droppedAttributesCount")@, s.dropped_attributes_count, k);
        lemma_ov_opt_events(s.events, k);
        lemma_ov_opt_count(("droppedEventsCount")@, s.dropped_events_count, k);
        lemma_ov_opt_links(s.links, k);
        lemma_ov_opt_count(("droppedLinksCount")@, s.dropped_links_count, k);
        lemma_ov_opt_status(s.status, k);
    }
    assert(obj_value(span_entries(s), ("droppedLinksCount")@) == (match s.dropped_links_count {
        Option::Some(n) => Option::Some(JsonV::Num(n as nat)),
        Option::None => Option::<JsonV>::None,
    })) by {
        let k = ("droppedLinksCount")@;
        lemma_span_lookup(s, k);
        lemma_obj_value6(e1, e2, e3, e4, e5, e6, k);
        lemma_ov_opt_attrs(("attributes")@, s.attributes, k);
        lemma_ov_opt_count(("droppedAttributesCount")@, s.dropped_attributes_count, k);
        lemma_ov_opt_events(s.events, k);
        lemma_ov_opt_count(("droppedEventsCount")@, s.dropped_events_count, k);
        lemma_ov_opt_links(s.links, k);
        lemma_ov_opt_count(("droppedLinksCount")@, s.dropped_links_count, k);
        lemma_ov_opt_status(s.status, k);
    }
    assert(obj_value(span_entries(s), ("status")@) == (match s.status {
        Option::Some(st) => Option::Some(status_jv(st)),
        Option::None => Option::<JsonV>::None,
    })) by {
        let k = ("status")@;
        lemma_span_lookup(s, k);
        lemma_obj_value6(e1, e2, e3, e4, e5, e6, k);
        lemma_ov_opt_attrs(("attributes")@, s.attributes, k);
        lemma_ov_opt_count(("droppedAttributesCount")@, s.dropped_attributes_count, k);
        lemma_ov_opt_events(s.events, k);
        lemma_ov_opt_count(("droppedEventsCount")@, s.dropped_events_count, k);
        lemma_ov_opt_links(s.links, k);
        lemma_ov_opt_count(("droppedLinksCount")@, s.dropped_links_count, k);
        lemma_ov_opt_status(s.status, k);
    }
}

/// The sole field of an export record is its resource-span list.
pub proof fn lemma_export_field(e: TraceExport)
    ensures
        obj_value(export_entries(e), ("resourceSpans")@) == Option::Some(
            resource_spans_jv(e.resource_spans@),
        ),
{
    lemma_obj_value1(
        (("resourceSpans")@, resource_spans_jv(e.resource_spans@)),
        ("resourceSpans")@,
    );
}

/// Order preservation: every array of the wire form carries exactly the
/// caller's elements, at the caller's positions — resource spans, scope
/// spans, spans, attributes, events and links alike.
pub proof fn lemma_order_preserved(
    rs: Seq<ResourceSpan>,
    ss: Seq<ScopeSpan>,
    sp: Seq<Span>,
    at: Seq<Attribute>,
    ev: Seq<Event>,
    ln: Seq<Link>,
)
    ensures
        resource_spans_jv(rs)->Arr_0.len() == rs.len(),
        forall|i: int|
            0 <= i < rs.len() ==> resource_spans_jv(rs)->Arr_0[i] == resource_span_jv(
                #[trigger] rs[i],
            ),
        scope_spans_jv(ss)->Arr_0.len() == ss.len(),
        forall|i: int|
            0 <= i < ss.len() ==> scope_spans_jv(ss)->Arr_0[i] == scope_span_jv(#[trigger] ss[i]),
        spans_jv(sp)->Arr_0.len() == sp.len(),
        forall|i: int| 0 <= i < sp.len() ==> spans_jv(sp)->Arr_0[i] == span_jv(#[trigger] sp[i]),
        attrs_jv(at)->Arr_0.len() == at.len(),
        forall|i: int| 0 <= i < at.len() ==> attrs_jv(at)->Arr_0[i] == attr_jv(#[trigger] at[i]),
        events_jv(ev)->Arr_0.len() == ev.len(),
        forall|i: int| 0 <= i < ev.len() ==> events_jv(ev)->Arr_0[i] == event_jv(#[trigger] ev[i]),
        links_jv(ln)->Arr_0.len() == ln.len(),
        forall|i: int| 0 <= i < ln.len() ==> links_jv(ln)->Arr_0[i] == link_jv(#[trigger] ln[i]),
{
}

/// Whether a JSON value contains no `null` anywhere.
pub open spec fn jv_no_null(j: JsonV) -> bool
    decreases j,
{
    match j {
        JsonV::Null => false,
        JsonV::Str(_) => true,
        JsonV::Num(_) => true,
        JsonV::Arr(es) => jvs_no_null(es),
        JsonV::Obj(es) => entries_no_null(es),
    }
}

/// Whether no element of an array contains `null`.
pub open spec fn jvs_no_null(es: Seq<JsonV>) -> bool
    decreases es,
{
    es.len() == 0 || (jv_no_null(es[0]) && jvs_no_null(es.drop_first()))
}

/// Whether no field value of an object contains `null`.
pub open spec fn entries_no_null(es: Seq<(Seq<char>, JsonV)>) -> bool
    decreases es,
{
    es.len() == 0 || (jv_no_null(es[0].1) && entries_no_null(es.drop_first()))
}

/// Null-freedom of object fields splits over concatenation.
proof fn lemma_entries_no_null_append(a: Seq<(Seq<char>, JsonV)>, b: Seq<(Seq<char>, JsonV)>)
    ensures
        entries_no_null(a + b) <==> (entries_no_null(a) && entries_no_null(b)),
    decreases a.len(),
{
    if a.len() == 0 {
        assert(a + b =~= b);
    } else {
        lemma_entries_no_null_append(a.drop_first(), b);
        let es = a + b;
        assert(es[0] == a[0]);
        assert(es.drop_first() =~= a.drop_first() + b);
    }
}

/// An array whose elements are each free of `null` is free of `null`.
proof fn lemma_jvs_no_null_all(m: Seq<JsonV>)
    requires
        forall|i: int| 0 <= i < m.len() ==> jv_no_null(#[trigger] m[i]),
    ensures
        jvs_no_null(m),
    decreases m.len(),
{
    if m.len() > 0 {
        assert forall|i: int| 0 <= i < m.drop_first().len() implies jv_no_null(
            #[trigger] m.drop_first()[i],
        ) by {
            assert(m.drop_first()[i] == m[i + 1]);
        }
        lemma_jvs_no_null_all(m.drop_first());
    }
}

/// Null-freedom of a one-field list.
proof fn lemma_entries_no_null1(e: (Seq<char>, JsonV))
    ensures
        entries_no_null(seq![e]) <==> jv_no_null(e.1),
{
    reveal_with_fuel(entries_no_null, 3);
    assert(seq![e].drop_first() =~= Seq::<(Seq<char>, JsonV)>::empty());
}

/// No attribute encoding contains `null`.
proof fn lemma_attr_no_null(a: Attribute)
    ensures
        jv_no_null(attr_jv(a)),
{
    let e3 = (("stringValue")@, JsonV::Str(a.value.string_value@));
    let e1 = (("key")@, JsonV::Str(a.key@));
    let e2 = (("value")@, JsonV::Obj(seq![e3]));
    lemma_entries_no_null1(e3);
    lemma_entries_no_null1(e2);
    assert(seq![e1, e2] =~= seq![e1] + seq![e2]);
    lemma_entries_no_null_append(seq![e1], seq![e2]);
    lemma_entries_no_null1(e1);
}

/// No attribute-list encoding contains `null`.
proof fn lemma_attrs_no_null(l: Seq<Attribute>)
    ensures
        jv_no_null(attrs_jv(l)),
{
    let m = Seq::new(l.len(), |i: int| attr_jv(l[i]));
    assert forall|i: int| 0 <= i < m.len() implies jv_no_null(#[trigger] m[i]) by {
        lemma_attr_no_null(l[i]);
    }
    lemma_jvs_no_null_all(m);
}

/// No optional-attribute chunk contains `null`.
proof fn lemma_opt_attrs_no_null(k0: Seq<char>, o: Option<Vec<Attribute>>)
    ensures
        entries_no_null(opt_attrs_entries(k0, o)),
{
    match o {
        Option::Some(l) => {
            lemma_attrs_no_null(l@);
            lemma_entries_no_null1((k0, attrs_jv(l@)));
        },
        Option::None => {
        },
    }
}

/// No optional-count chunk contains `null`.
proof fn lemma_opt_count_no_null(k0: Seq<char>, o: Option<u64>)
    ensures
        entries_no_null(opt_count_entries(k0, o)),
{
    match o {
        Option::Some(n) => {
            lemma_entries_no_null1((k0, JsonV::Num(n as nat)));
        },
        Option::None => {
        },
    }
}

/// No status encoding contains `null`.
proof fn lemma_status_no_null(s: Status)
    ensures
        jv_no_null(status_jv(s)),
{
    let cm = crate::json::opt_string_entries(("message")@, s.message);
    let cc = opt_count_entries(("code")@, s.code);
    lemma_entries_no_null_append(cm, cc);
    lemma_opt_count_no_null(("code")@, s.code);
    match s.message {
        Option::Some(m) => {
            lemma_entries_no_null1((("message")@, JsonV::Str(m@)));
        },
        Option::None => {
        },
    }
}

/// No event encoding contains `null`.
proof fn lemma_event_no_null(e: Event)
    ensures
        jv_no_null(event_jv(e)),
{
    let e1 = (("timeUnixNano")@, time_jv(e.time_unix_nano));
    let e2 = (("name")@, JsonV::Str(e.name@));
    let req = seq![e1, e2];
    let ca = opt_attrs_entries(("attributes")@, e.attributes);
    let cc = opt_count_entries(("droppedAttributesCount")@, e.dropped_attributes_count);
    lemma_entries_no_null_append(req + ca, cc);
    lemma_entries_no_null_append(req, ca);
    assert(req =~= seq![e1] + seq![e2]);
    lemma_entries_no_null_append(seq![e1], seq![e2]);
    lemma_entries_no_null1(e1);
    lemma_entries_no_null1(e2);
    lemma_opt_attrs_no_null(("attributes")@, e.attributes);
    lemma_opt_count_no_null(("droppedAttributesCount")@, e.dropped_attributes_count);
}

/// No link encoding contains `null`.
proof fn lemma_link_no_null(l: Link)
    ensures
        jv_no_null(link_jv(l)),
{
    let e1 = (("traceId")@, JsonV::Str(l.trace_id@));
    let e2 = (("spanId")@, JsonV::Str(l.span_id@));
    let req = seq![e1, e2];
    let ca = opt_attrs_entries(("attributes")@, l.attributes);
    let cc = opt_count_entries(("droppedAttributesCount")@, l.dropped_attributes_count);
    lemma_entries_no_null_append(req + ca, cc);
    lemma_entries_no_null_append(req, ca);
    assert(req =~= seq![e1] + seq![e2]);
    lemma_entries_no_null_append(seq![e1], seq![e2]);
    lemma_entries_no_null1(e1);
    lemma_entries_no_null1(e2);
    lemma_opt_attrs_no_null(("attributes")@, l.attributes);
    lemma_opt_count_no_null(("droppedAttributesCount")@, l.dropped_attributes_count);
}

/// No span encoding contains `null`: an absent optional field is omitted
/// outright, and a present one carries a real value.
pub proof fn lemma_span_no_null(s: Span)
    ensures
        jv_no_null(span_jv(s)),
{
    let e1 = (("traceId")@, JsonV::Str(s.trace_id@));
    let e2 = (("spanId")@, JsonV::Str(s.span_id@));
    let e3 = (("parentSpanId")@, JsonV::Str(s.parent_span_id@));
    let e4 = (("name")@, JsonV::Str(s.name@));
    let e5 = (("startTimeUnixNano")@, time_jv(s.start_time_unix_nano));
    let e6 = (("endTimeUnixNano")@, time_jv(s.end_time_unix_nano));
    let r = span_required_entries(s);
    let ca = opt_attrs_entries(("attributes")@, s.attributes);
    let cb = opt_count_entries(("droppedAttributesCount")@, s.dropped_attributes_count);
    let cc = opt_events_entries(s.events);
    let cd = opt_count_entries(("droppedEventsCount")@, s.dropped_events_count);
    let ce = opt_links_entries(s.links);
    let cf = opt_count_entries(("droppedLinksCount")@, s.dropped_links_count);
    let cg = opt_status_entries(s.status);
    lemma_entries_no_null_append(r + ca + cb + cc + cd + ce + cf, cg);
    lemma_entries_no_null_append(r + ca + cb + cc + cd + ce, cf);
    lemma_entries_no_null_append(r + ca + cb + cc + cd, ce);
    lemma_entries_no_null_append(r + ca + cb + cc, cd);
    lemma_entries_no_null_append(r + ca + cb, cc);
    lemma_entries_no_null_append(r + ca, cb);
    lemma_entries_no_null_append(r, ca);
    assert(r =~= seq![e1] + seq![e2] + seq![e3] + seq![e4] + seq![e5] + seq![e6]);
    lemma_entries_no_null_append(seq![e1] + seq![e2] + seq![e3] + seq![e4] + seq![e5], seq![e6]);
    lemma_entries_no_null_append(seq![e1] + seq![e2] + seq![e3] + seq![e4], seq![e5]);
    lemma_entries_no_null_append(seq![e1] + seq![e2] + seq![e3], seq![e4]);
    lemma_entries_no_null_append(seq![e1] + seq![e2], seq![e3]);
    lemma_entries_no_null_append(seq![e1], seq![e2]);
    lemma_entries_no_null1(e1);
    lemma_entries_no_null1(e2);
    lemma_entries_no_null1(e3);
    lemma_entries_no_null1(e4);
    lemma_entries_no_null1(e5);
    lemma_entries_no_null1(e6);
    lemma_opt_attrs_no_null(("attributes")@, s.attributes);
    lemma_opt_count_no_null(("droppedAttributesCount")@, s.dropped_attributes_count);
    match s.events {
        Option::Some(l) => {
            let m = Seq::new(l@.len(), |i: int| event_jv(l@[i]));
            assert forall|i: int| 0 <= i < m.len() implies jv_no_null(#[trigger] m[i]) by {
                lemma_event_no_null(l@[i]);
            }
            lemma_jvs_no_null_all(m);
            lemma_entries_no_null1((("events")@, events_jv(l@)));
        },
        Option::None => {
        },
    }
    lemma_opt_count_no_null(("droppedEventsCount")@, s.dropped_events_count);
    match s.links {
        Option::Some(l) => {
            let m = Seq::new(l@.len(), |i: int| link_jv(l@[i]));
            assert forall|i: int| 0 <= i < m.len() implies jv_no_null(#[trigger] m[i]) by {
                lemma_link_no_null(l@[i]);
            }
            lemma_jvs_no_null_all(m);
            lemma_entries_no_null1((("links")@, links_jv(l@)));
        },
        Option::None => {
        },
    }
    lemma_opt_count_no_null(("droppedLinksCount")@, s.dropped_links_count);
    match s.status {
        Option::Some(st) => {
            lemma_status_no_null(st);
            lemma_entries_no_null1((("status")@, status_jv(st)));
        },
        Option::None => {
        },
    }
}

/// Omission fidelity, the `null` half: nothing anywhere in an export
/// record's wire form is `null` — an absent optional field is omitted, a
/// present one carries the supplied value.
pub proof fn lemma_export_never_null(e: TraceExport)
    ensures
        jv_no_null(export_jv(e)),
{
    let m = Seq::new(e.resource_spans@.len(), |i: int| resource_span_jv(e.resource_spans@[i]));
    assert forall|i: int| 0 <= i < m.len() implies jv_no_null(#[trigger] m[i]) by {
        let rs = e.resource_spans@[i];
        let er = (("resource")@, crate::json::resource_jv(rs.resource));
        let es = (("scopeSpans")@, scope_spans_jv(rs.scope_spans@));
        assert(seq![er, es] =~= seq![er] + seq![es]);
        lemma_entries_no_null_append(seq![er], seq![es]);
        lemma_entries_no_null1(er);
        lemma_entries_no_null1(es);
        lemma_opt_attrs_no_null(("attributes")@, rs.resource.attributes);
        let ms = Seq::new(rs.scope_spans@.len(), |j: int| scope_span_jv(rs.scope_spans@[j]));
        assert forall|j: int| 0 <= j < ms.len() implies jv_no_null(#[trigger] ms[j]) by {
            let ss = rs.scope_spans@[j];
            let co = crate::json::opt_scope_entries(ss.scope);
            let cs = seq![(("spans")@, spans_jv(ss.spans@))];
            lemma_entries_no_null_append(co, cs);
            lemma_entries_no_null1((("spans")@, spans_jv(ss.spans@)));
            match ss.scope {
                Option::Some(_) => {
                    lemma_entries_no_null1((("scope")@, JsonV::Obj(Seq::empty())));
                },
                Option::None => {
                },
            }
            let msp = Seq::new(ss.spans@.len(), |p: int| span_jv(ss.spans@[p]));
            assert forall|p: int| 0 <= p < msp.len() implies jv_no_null(#[trigger] msp[p]) by {
                lemma_span_no_null(ss.spans@[p]);
            }
            lemma_jvs_no_null_all(msp);
        }
        lemma_jvs_no_null_all(ms);
    }
    lemma_jvs_no_null_all(m);
    lemma_entries_no_null1((("resourceSpans")@, resource_spans_jv(e.resource_spans@)));
}

/// How many times `c` occurs in `s`.
pub open spec fn count_char(s: Seq<char>, c: char) -> nat
    decreases s.len(),
{
    if s.len() == 0 {
        0
    } else {
        count_char(s.drop_last(), c) + (if s.last() == c {
            1nat
        } else {
            0nat
        })
    }
}

/// Occurrence counts add over concatenation.
pub proof fn lemma_count_char_append(a: Seq<char>, b: Seq<char>, c: char)
    ensures
        count_char(a + b, c) == count_char(a, c) + count_char(b, c),
    decreases b.len(),
{
    if b.len() == 0 {
        assert(a + b =~= a);
    } else {
        lemma_count_char_append(a, b.drop_last(), c);
        assert((a + b).drop_last() =~= a + b.drop_last());
        assert((a + b).last() == b.last());
    }
}

/// A sequence without `c` counts zero occurrences of it.
proof fn lemma_count_char_none(s: Seq<char>, c: char)
    requires
        forall|i: int| 0 <= i < s.len() ==> s[i] != c,
    ensures
        count_char(s, c) == 0,
    decreases s.len(),
{
    if s.len() > 0 {
        assert forall|i: int| 0 <= i < s.drop_last().len() implies s.drop_last()[i] != c by {
            assert(s.drop_last()[i] == s[i]);
        }
        lemma_count_char_none(s.drop_last(), c);
    }
}

/// Escaping never produces a newline, whatever the input characters: a
/// raw newline is a control character and leaves as `\u000a`.
proof fn lemma_escape_no_newline(s: Seq<char>)
    ensures
        count_char(crate::json::escape_text(s), '\n') == 0,
    decreases s.len(),
{
    if s.len() == 0 {
    } else {
        lemma_escape_no_newline(s.drop_last());
        let c = s.last();
        let ec = crate::json::escape_char(c);
        assert forall|i: int| 0 <= i < ec.len() implies ec[i] != '\n' by {
            if c != '"' && c != '\\' && (c as u32) >= 32 {
                assert(c != '\n');
            }
        }
        lemma_count_char_none(ec, '\n');
        lemma_count_char_append(crate::json::escape_text(s.drop_last()), ec, '\n');
    }
}

/// A JSON string literal spans no lines.
proof fn lemma_jstring_no_newline(s: Seq<char>)
    ensures
        count_char(crate::json::jstring_text(s), '\n') == 0,
{
    lemma_escape_no_newline(s);
    lemma_count_char_none(seq!['"'], '\n');
    lemma_count_char_append(seq!['"'], crate::json::escape_text(s), '\n');
    lemma_count_char_append(seq!['"'] + crate::json::escape_text(s), seq!['"'], '\n');
}

/// A decimal-digit rendering spans no lines.
proof fn lemma_digits_no_newline(n: nat)
    ensures
        count_char(crate::digits::dec_digits_of(n), '\n') == 0,
{
    crate::digits::lemma_dec_digits_wf(n);
    let d = crate::digits::dec_digits_of(n);
    assert forall|i: int| 0 <= i < d.len() implies d[i] != '\n' by {
        assert(crate::digits::is_dec_digit(d[i]));
    }
    lemma_count_char_none(d, '\n');
}

/// The wire text of a JSON value spans no lines.
proof fn lemma_jv_no_newline(j: JsonV)
    ensures
        count_char(crate::json::jv_text(j), '\n') == 0,
    decreases j,
{
    match j {
        JsonV::Null => {
            lemma_count_char_none(seq!['n', 'u', 'l', 'l'], '\n');
        },
        JsonV::Str(s) => {
            lemma_jstring_no_newline(s);
        },
        JsonV::Num(n) => {
            lemma_digits_no_newline(n);
        },
        JsonV::Arr(es) => {
            lemma_arr_no_newline(es);
            lemma_count_char_none(seq!['['], '\n');
            lemma_count_char_none(seq![']'], '\n');
            lemma_count_char_append(seq!['['], crate::json::arr_text(es), '\n');
            lemma_count_char_append(seq!['['] + crate::json::arr_text(es), seq![']'], '\n');
        },
        JsonV::Obj(es) => {
            lemma_obj_no_newline(es);
            lemma_count_char_none(seq!['{'], '\n');
            lemma_count_char_none(seq!['}'], '\n');
            lemma_count_char_append(seq!['{'], crate::json::obj_text(es), '\n');
            lemma_count_char_append(seq!['{'] + crate::json::obj_text(es), seq!['}'], '\n');
        },
    }
}

/// The rendering of array elements spans no lines.
proof fn lemma_arr_no_newline(es: Seq<JsonV>)
    ensures
        count_char(crate::json::arr_text(es), '\n') == 0,
    decreases es,
{
    if es.len() > 0 {
        lemma_jv_no_newline(es[0]);
        lemma_arr_tail_no_newline(es.drop_first());
        lemma_count_char_append(
            crate::json::jv_text(es[0]),
            crate::json::arr_tail_text(es.drop_first()),
            '\n',
        );
    }
}

/// The rendering of trailing array elements spans no lines.
proof fn lemma_arr_tail_no_newline(es: Seq<JsonV>)
    ensures
        count_char(crate::json::arr_tail_text(es), '\n') == 0,
    decreases es,
{
    if es.len() > 0 {
        lemma_jv_no_newline(es[0]);
        lemma_arr_tail_no_newline(es.drop_first());
        lemma_count_char_none(seq![','], '\n');
        lemma_count_char_append(seq![','], crate::json::jv_text(es[0]), '\n');
        lemma_count_char_append(
            seq![','] + crate::json::jv_text(es[0]),
            crate::json::arr_tail_text(es.drop_first()),
            '\n',
        );
    }
}

/// The rendering of one object field spans no lines.
proof fn lemma_entry_no_newline(e: (Seq<char>, JsonV))
    ensures
        count_char(crate::json::entry_text(e), '\n') == 0,
    decreases e,
{
    lemma_jstring_no_newline(e.0);
    lemma_jv_no_newline(e.1);
    lemma_count_char_none(seq![':'], '\n');
    lemma_count_char_append(crate::json::jstring_text(e.0), seq![':'], '\n');
    lemma_count_char_append(
        crate::json::jstring_text(e.0) + seq![':'],
        crate::json::jv_text(e.1),
        '\n',
    );
}

/// The rendering of object fields spans no lines.
proof fn lemma_obj_no_newline(es: Seq<(Seq<char>, JsonV)>)
    ensures
        count_char(crate::json::obj_text(es), '\n') == 0,
    decreases es,
{
    if es.len() > 0 {
        lemma_entry_no_newline(es[0]);
        lemma_obj_tail_no_newline(es.drop_first());
        lemma_count_char_append(
            crate::json::entry_text(es[0]),
            crate::json::obj_tail_text(es.drop_first()),
            '\n',
        );
    }
}

/// The rendering of trailing object fields spans no lines.
proof fn lemma_obj_tail_no_newline(es: Seq<(Seq<char>, JsonV)>)
    ensures
        count_char(crate::json::obj_tail_text(es), '\n') == 0,
    decreases es,
{
    if es.len() > 0 {
        lemma_entry_no_newline(es[0]);
        lemma_obj_tail_no_newline(es.drop_first());
        lemma_count_char_none(seq![','], '\n');
        lemma_count_char_append(seq![','], crate::json::entry_text(es[0]), '\n');
        lemma_count_char_append(
            seq![','] + crate::json::entry_text(es[0]),
            crate::json::obj_tail_text(es.drop_first()),
            '\n',
        );
    }
}

/// Line framing: rendering a sequence of export records yields exactly one
/// newline per record — each record's own text spans no lines, and each
/// line is terminated by the `'\n'` that follows it.
pub proof fn lemma_line_framing(exports: Seq<TraceExport>)
    ensures
        count_char(lines_text(exports), '\n') == exports.len(),
        forall|i: int|
            0 <= i < exports.len() ==> count_char(export_text(#[trigger] exports[i]), '\n') == 0,
    decreases exports.len(),
{
    if exports.len() > 0 {
        lemma_line_framing(exports.drop_last());
        lemma_jv_no_newline(export_jv(exports.last()));
        let head = lines_text(exports.drop_last());
        let line = export_text(exports.last());
        lemma_count_char_append(head, line, '\n');
        lemma_count_char_append(head + line, seq!['\n'], '\n');
        assert(count_char(seq!['\n'], '\n') == 1) by {
            reveal_with_fuel(count_char, 3);
            assert(seq!['\n'].drop_last() =~= Seq::<char>::empty());
        }
        assert forall|i: int| 0 <= i < exports.len() implies count_char(
            export_text(#[trigger] exports[i]),
            '\n',
        ) == 0 by {
            if i < exports.len() - 1 {
                assert(exports.drop_last()[i] == exports[i]);
            } else {
                assert(exports[i] == exports.last());
            }
        }
    }
}

} // verus!
