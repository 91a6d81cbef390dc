//! Ghost model of the JSON wire format.
//!
//! `JsonV` is a JSON value as this serializer can emit one: strings,
//! non-negative integers, arrays, objects with ordered fields, and `null`
//! (which the trace encoding never produces; see `jv_no_null`). `jv_text`
//! renders such a value as its exact wire text, escaping string contents.
//! The `*_jv` and `*_entries` functions map the in-memory trace tree to this
//! model; they are the single statement of the wire schema, and the
//! executable serializer is proved to emit `jv_text` of them verbatim.

use vstd::prelude::*;

use crate::digits::dec_digits_of;
use crate::digits::hex_digit_char;
use crate::digits::is_dec_digit;
use crate::model::Attribute;
use crate::model::Event;
use crate::model::Link;
use crate::model::Resource;
use crate::model::ResourceSpan;
use crate::model::ScopeSpan;
use crate::model::Span;
use crate::model::Status;
use crate::model::TraceExport;

verus! {

/// A JSON value of the shapes this serializer deals in.
pub enum JsonV {
    Null,
    Str(Seq<char>),
    Num(nat),
    Arr(Seq<JsonV>),
    Obj(Seq<(Seq<char>, JsonV)>),
}

/// How one character appears inside a JSON string literal: quote and
/// backslash get a backslash escape, control characters become `\u00XX`
/// with lowercase hex digits, and every other character stands for itself.
pub open spec fn escape_char(c: char) -> Seq<char> {
    if c == '"' {
        seq!['\\', '"']
    } else if c == '\\' {
        seq!['\\', '\\']
    } else if (c as u32) < 32 {
        seq!['\\', 'u', '0', '0', hex_digit_char((c as u32 / 16) as nat), hex_digit_char(
            (c as u32 % 16) as nat,
        )]
    } else {
        seq![c]
    }
}

/// The escaped body of a JSON string, character by character.
pub open spec fn escape_text(s: Seq<char>) -> Seq<char>
    decreases s.len(),
{
    if s.len() == 0 {
        Seq::empty()
    } else {
        escape_text(s.drop_last()) + escape_char(s.last())
    }
}

/// A JSON string literal: the escaped text between double quotes.
pub open spec fn jstring_text(s: Seq<char>) -> Seq<char> {
    seq!['"'] + escape_text(s) + seq!['"']
}

/// The wire text of a JSON value.
pub open spec fn jv_text(j: JsonV) -> Seq<char>
    decreases j,
{
    match j {
        JsonV::Null => seq!['n', 'u', 'l', 'l'],
        JsonV::Str(s) => jstring_text(s),
        JsonV::Num(n) => dec_digits_of(n),
        JsonV::Arr(es) => seq!['['] + arr_text(es) + seq![']'],
        JsonV::Obj(es) => seq!['{'] + obj_text(es) + seq!['}'],
    }
}

/// The elements of an array, comma separated, in order.
pub open spec fn arr_text(es: Seq<JsonV>) -> Seq<char>
    decreases es,
{
    if es.len() == 0 {
        Seq::empty()
    } else {
        jv_text(es[0]) + arr_tail_text(es.drop_first())
    }
}

/// The elements of an array after the first: each preceded by a comma.
pub open spec fn arr_tail_text(es: Seq<JsonV>) -> Seq<char>
    decreases es,
{
    if es.len() == 0 {
        Seq::empty()
    } else {
        seq![','] + jv_text(es[0]) + arr_tail_text(es.drop_first())
    }
}

/// One object field: quoted key, colon, value.
pub open spec fn entry_text(e: (Seq<char>, JsonV)) -> Seq<char>
    decreases e,
{
    jstring_text(e.0) + seq![':'] + jv_text(e.1)
}

/// The fields of an object, comma separated, in order.
pub open spec fn obj_text(es: Seq<(Seq<char>, JsonV)>) -> Seq<char>
    decreases es,
{
    if es.len() == 0 {
        Seq::empty()
    } else {
        entry_text(es[0]) + obj_tail_text(es.drop_first())
    }
}

/// The fields of an object after the first: each preceded by a comma.
pub open spec fn obj_tail_text(es: Seq<(Seq<char>, JsonV)>) -> Seq<char>
    decreases es,
{
    if es.len() == 0 {
        Seq::empty()
    } else {
        seq![','] + entry_text(es[0]) + obj_tail_text(es.drop_first())
    }
}

/// Peeling one element off the front of an array tail rendering.
pub proof fn lemma_arr_tail_cons(e: JsonV, rest: Seq<JsonV>)
    ensures
        arr_tail_text(seq![e] + rest) == seq![','] + jv_text(e) + arr_tail_text(rest),
{
    let es = seq![e] + rest;
    assert(es[0] == e);
    assert(es.drop_first() =~= rest);
}

/// An array tail renders chunk by chunk.
pub proof fn lemma_arr_tail_append(a: Seq<JsonV>, b: Seq<JsonV>)
    ensures
        arr_tail_text(a + b) == arr_tail_text(a) + arr_tail_text(b),
    decreases a.len(),
{
    if a.len() == 0 {
        assert(a + b =~= b);
        assert(arr_tail_text(a) + arr_tail_text(b) =~= arr_tail_text(b));
    } else {
        lemma_arr_tail_append(a.drop_first(), b);
        let es = a + b;
        assert(es[0] == a[0]);
        assert(es.drop_first() =~= a.drop_first() + b);
        assert(arr_tail_text(a + b) =~= arr_tail_text(a) + arr_tail_text(b));
    }
}

/// Peeling one field off the front of an object rendering.
pub proof fn lemma_obj_text_cons(e: (Seq<char>, JsonV), rest: Seq<(Seq<char>, JsonV)>)
    ensures
        obj_text(seq![e] + rest) == entry_text(e) + obj_tail_text(rest),
{
    let es = seq![e] + rest;
    assert(es[0] == e);
    assert(es.drop_first() =~= rest);
}

/// Peeling one field off the front of an object tail rendering.
pub proof fn lemma_obj_tail_cons(e: (Seq<char>, JsonV), rest: Seq<(Seq<char>, JsonV)>)
    ensures
        obj_tail_text(seq![e] + rest) == seq![','] + entry_text(e) + obj_tail_text(rest),
{
    let es = seq![e] + rest;
    assert(es[0] == e);
    assert(es.drop_first() =~= rest);
}

/// An object tail renders chunk by chunk.
pub proof fn lemma_obj_tail_append(a: Seq<(Seq<char>, JsonV)>, b: Seq<(Seq<char>, JsonV)>)
    ensures
        obj_tail_text(a + b) == obj_tail_text(a) + obj_tail_text(b),
    decreases a.len(),
{
    if a.len() == 0 {
        assert(a + b =~= b);
        assert(obj_tail_text(a) + obj_tail_text(b) =~= obj_tail_text(b));
    } else {
        lemma_obj_tail_append(a.drop_first(), b);
        let es = a + b;
        assert(es[0] == a[0]);
        assert(es.drop_first() =~= a.drop_first() + b);
        assert(obj_tail_text(a + b) =~= obj_tail_text(a) + obj_tail_text(b));
    }
}

/// The wire form of a timestamp: always the quoted decimal-digit string,
/// never a bare JSON number.
pub open spec fn time_jv(nanos: u64) -> JsonV {
    JsonV::Str(dec_digits_of(nanos as nat))
}

/// The wire form of one attribute: `{"key":K,"value":{"stringValue":V}}`.
pub open spec fn attr_jv(a: Attribute) -> JsonV {
    JsonV::Obj(
        seq![
            (("key")@, JsonV::Str(a.key@)),
            (
                ("value")@,
                JsonV::Obj(seq![(("stringValue")@, JsonV::Str(a.value.string_value@))]),
            ),
        ],
    )
}

/// The wire form of an attribute list, in caller order.
pub open spec fn attrs_jv(l: Seq<Attribute>) -> JsonV {
    JsonV::Arr(Seq::new(l.len(), |i: int| attr_jv(l[i])))
}

/// The fields contributed by an optional attribute list: none when absent,
/// the list (empty or not) under `key` when present.
pub open spec fn opt_attrs_entries(key: Seq<char>, o: Option<Vec<Attribute>>) -> Seq<
    (Seq<char>, JsonV),
> {
    match o {
        Option::Some(l) => seq![(key, attrs_jv(l@))],
        Option::None => Seq::empty(),
    }
}

/// The field contributed by an optional count: none when absent, a bare
/// integer under `key` when present.
pub open spec fn opt_count_entries(key: Seq<char>, o: Option<u64>) -> Seq<(Seq<char>, JsonV)> {
    match o {
        Option::Some(n) => seq![(key, JsonV::Num(n as nat))],
        Option::None => Seq::empty(),
    }
}

/// The field contributed by an optional string: none when absent.
pub open spec fn opt_string_entries(key: Seq<char>, o: Option<String>) -> Seq<(Seq<char>, JsonV)> {
    match o {
        Option::Some(m) => seq![(key, JsonV::Str(m@))],
        Option::None => Seq::empty(),
    }
}

/// The fields of a status: message and code, each independently optional.
pub open spec fn status_entries(s: Status) -> Seq<(Seq<char>, JsonV)> {
    opt_string_entries(("message")@, s.message) + opt_count_entries(("code")@, s.code)
}

/// The wire form of a status.
pub open spec fn status_jv(s: Status) -> JsonV {
    JsonV::Obj(status_entries(s))
}

/// The fields of an event.
pub open spec fn event_entries(e: Event) -> Seq<(Seq<char>, JsonV)> {
    seq![(("timeUnixNano")@, time_jv(e.time_unix_nano)), (("name")@, JsonV::Str(e.name@))]
        + opt_attrs_entries(("attributes")@, e.attributes) + opt_count_entries(
        ("droppedAttributesCount")@,
        e.dropped_attributes_count,
    )
}

/// The wire form of an event.
pub open spec fn event_jv(e: Event) -> JsonV {
    JsonV::Obj(event_entries(e))
}

/// The wire form of an event list, in caller order.
pub open spec fn events_jv(l: Seq<Event>) -> JsonV {
    JsonV::Arr(Seq::new(l.len(), |i: int| event_jv(l[i])))
}

/// The fields of a link.
pub open spec fn link_entries(l: Link) -> Seq<(Seq<char>, JsonV)> {
    seq![(("traceId")@, JsonV::Str(l.trace_id@)), (("spanId")@, JsonV::Str(l.span_id@))]
        + opt_attrs_entries(("attributes")@, l.attributes) + opt_count_entries(
        ("droppedAttributesCount")@,
        l.dropped_attributes_count,
    )
}

/// The wire form of a link.
pub open spec fn link_jv(l: Link) -> JsonV {
    JsonV::Obj(link_entries(l))
}

/// The wire form of a link list, in caller order.
pub open spec fn links_jv(l: Seq<Link>) -> JsonV {
    JsonV::Arr(Seq::new(l.len(), |i: int| link_jv(l[i])))
}

/// The required fields of a span, in wire order.
pub open spec fn span_required_entries(s: Span) -> Seq<(Seq<char>, JsonV)> {
    seq![
        (("traceId")@, JsonV::Str(s.trace_id@)),
        (("spanId")@, JsonV::Str(s.span_id@)),
        (("parentSpanId")@, JsonV::Str(s.parent_span_id@)),
        (("name")@, JsonV::Str(s.name@)),
        (("startTimeUnixNano")@, time_jv(s.start_time_unix_nano)),
        (("endTimeUnixNano")@, time_jv(s.end_time_unix_nano)),
    ]
}

/// The field contributed by an optional event list.
pub open spec fn opt_events_entries(o: Option<Vec<Event>>) -> Seq<(Seq<char>, JsonV)> {
    match o {
        Option::Some(l) => seq![(("events")@, events_jv(l@))],
        Option::None => Seq::empty(),
    }
}

/// The field contributed by an optional link list.
pub open spec fn opt_links_entries(o: Option<Vec<Link>>) -> Seq<(Seq<char>, JsonV)> {
    match o {
        Option::Some(l) => seq![(("links")@, links_jv(l@))],
        Option::None => Seq::empty(),
    }
}

/// The field contributed by an optional status.
pub open spec fn opt_status_entries(o: Option<Status>) -> Seq<(Seq<char>, JsonV)> {
    match o {
        Option::Some(st) => seq![(("status")@, status_jv(st))],
        Option::None => Seq::empty(),
    }
}

/// All fields of a span: the required ones, then each optional field that
/// is present, in wire order.
pub open spec fn span_entries(s: Span) -> Seq<(Seq<char>, JsonV)> {
    span_required_entries(s) + opt_attrs_entries(("attributes")@, s.attributes)
        + opt_count_entries(("droppedAttributesCount")@, s.dropped_attributes_count)
        + opt_events_entries(s.events) + opt_count_entries(
        ("droppedEventsCount")@,
        s.dropped_events_count,
    ) + opt_links_entries(s.links) + opt_count_entries(
        ("droppedLinksCount")@,
        s.dropped_links_count,
    ) + opt_status_entries(s.status)
}

/// The wire form of a span.
pub open spec fn span_jv(s: Span) -> JsonV {
    JsonV::Obj(span_entries(s))
}

/// The wire form of a span list, in caller order.
pub open spec fn spans_jv(l: Seq<Span>) -> JsonV {
    JsonV::Arr(Seq::new(l.len(), |i: int| span_jv(l[i])))
}

/// The field contributed by an optional scope: the empty object when
/// present (the scope carries no fields yet), nothing when absent.
pub open spec fn opt_scope_entries(o: Option<crate::model::Scope>) -> Seq<(Seq<char>, JsonV)> {
    match o {
        Option::Some(_) => seq![(("scope")@, JsonV::Obj(Seq::empty()))],
        Option::None => Seq::empty(),
    }
}

/// The fields of a scope span: the optional (empty) scope, then its spans.
pub open spec fn scope_span_entries(s: ScopeSpan) -> Seq<(Seq<char>, JsonV)> {
    opt_scope_entries(s.scope) + seq![(("spans")@, spans_jv(s.spans@))]
}

/// The wire form of a scope span.
pub open spec fn scope_span_jv(s: ScopeSpan) -> JsonV {
    JsonV::Obj(scope_span_entries(s))
}

/// The wire form of a scope-span list, in caller order.
pub open spec fn scope_spans_jv(l: Seq<ScopeSpan>) -> JsonV {
    JsonV::Arr(Seq::new(l.len(), |i: int| scope_span_jv(l[i])))
}

/// The fields of a resource: only the optional attribute list, so a
/// resource without attributes renders as the empty object.
pub open spec fn resource_entries(r: Resource) -> Seq<(Seq<char>, JsonV)> {
    opt_attrs_entries(("attributes")@, r.attributes)
}

/// The wire form of a resource.
pub open spec fn resource_jv(r: Resource) -> JsonV {
    JsonV::Obj(resource_entries(r))
}

/// The fields of a resource span: its resource, then its scope spans.
pub open spec fn resource_span_entries(rs: ResourceSpan) -> Seq<(Seq<char>, JsonV)> {
    seq![(("resource")@, resource_jv(rs.resource)), (("scopeSpans")@, scope_spans_jv(rs.scope_spans@))]
}

/// The wire form of a resource span.
pub open spec fn resource_span_jv(rs: ResourceSpan) -> JsonV {
    JsonV::Obj(resource_span_entries(rs))
}

/// The wire form of a resource-span list, in caller order.
pub open spec fn resource_spans_jv(l: Seq<ResourceSpan>) -> JsonV {
    JsonV::Arr(Seq::new(l.len(), |i: int| resource_span_jv(l[i])))
}

/// The fields of an export record: exactly `resourceSpans`.
pub open spec fn export_entries(e: TraceExport) -> Seq<(Seq<char>, JsonV)> {
    seq![(("resourceSpans")@, resource_spans_jv(e.resource_spans@))]
}

/// The wire form of one export record: one line of output, without its
/// newline terminator.
pub open spec fn export_jv(e: TraceExport) -> JsonV {
    JsonV::Obj(export_entries(e))
}

/// The wire text of one export record.
pub open spec fn export_text(e: TraceExport) -> Seq<char> {
    jv_text(export_jv(e))
}

/// The wire text of a sequence of export records: one JSON line per record,
/// in order, each terminated by a newline.
pub open spec fn lines_text(es: Seq<TraceExport>) -> Seq<char>
    decreases es.len(),
{
    if es.len() == 0 {
        Seq::empty()
    } else {
        lines_text(es.drop_last()) + export_text(es.last()) + seq!['\n']
    }
}

/// A nonempty object rendering splits at any point after the first field.
pub proof fn lemma_obj_text_split(a: Seq<(Seq<char>, JsonV)>, b: Seq<(Seq<char>, JsonV)>)
    requires
        a.len() > 0,
    ensures
        obj_text(a + b) == obj_text(a) + obj_tail_text(b),
{
    let es = a + b;
    assert(es[0] == a[0]);
    assert(es.drop_first() =~= a.drop_first() + b);
    lemma_obj_tail_append(a.drop_first(), b);
    assert(obj_text(a + b) =~= obj_text(a) + obj_tail_text(b));
}

/// A one-field object renders as that field alone.
pub proof fn lemma_obj_text1(e: (Seq<char>, JsonV))
    ensures
        obj_text(seq![e]) == entry_text(e),
{
    assert(seq![e] =~= seq![e] + Seq::<(Seq<char>, JsonV)>::empty());
    lemma_obj_text_cons(e, Seq::empty());
    assert(entry_text(e) + obj_tail_text(Seq::empty()) =~= entry_text(e));
}

/// A two-field object renders as the fields joined by a comma.
pub proof fn lemma_obj_text2(e1: (Seq<char>, JsonV), e2: (Seq<char>, JsonV))
    ensures
        obj_text(seq![e1, e2]) == entry_text(e1) + seq![','] + entry_text(e2),
{
    assert(seq![e1, e2] =~= seq![e1] + seq![e2]);
    lemma_obj_text_cons(e1, seq![e2]);
    lemma_obj_tail_cons(e2, Seq::empty());
    assert(seq![e2] =~= seq![e2] + Seq::<(Seq<char>, JsonV)>::empty());
    assert(entry_text(e1) + (seq![','] + entry_text(e2) + obj_tail_text(Seq::empty())) =~= entry_text(
        e1,
    ) + seq![','] + entry_text(e2));
}

/// A six-field object renders as the fields joined by commas, in order.
#[verifier::rlimit(80)]
pub proof fn lemma_obj_text6(
    e1: (Seq<char>, JsonV),
    e2: (Seq<char>, JsonV),
    e3: (Seq<char>, JsonV),
    e4: (Seq<char>, JsonV),
    e5: (Seq<char>, JsonV),
    e6: (Seq<char>, JsonV),
)
    ensures
        obj_text(seq![e1, e2, e3, e4, e5, e6]) == entry_text(e1) + seq![','] + entry_text(e2)
            + seq![','] + entry_text(e3) + seq![','] + entry_text(e4) + seq![','] + entry_text(e5)
            + seq![','] + entry_text(e6),
{
    assert(seq![e1, e2, e3, e4, e5, e6] =~= seq![e1] + seq![e2, e3, e4, e5, e6]);
    lemma_obj_text_cons(e1, seq![e2, e3, e4, e5, e6]);
    assert(seq![e2, e3, e4, e5, e6] =~= seq![e2] + seq![e3, e4, e5, e6]);
    lemma_obj_tail_cons(e2, seq![e3, e4, e5, e6]);
    assert(seq![e3, e4, e5, e6] =~= seq![e3] + seq![e4, e5, e6]);
    lemma_obj_tail_cons(e3, seq![e4, e5, e6]);
    assert(seq![e4, e5, e6] =~= seq![e4] + seq![e5, e6]);
    lemma_obj_tail_cons(e4, seq![e5, e6]);
    assert(seq![e5, e6] =~= seq![e5] + seq![e6]);
    lemma_obj_tail_cons(e5, seq![e6]);
    assert(seq![e6] =~= seq![e6] + Seq::<(Seq<char>, JsonV)>::empty());
    lemma_obj_tail_cons(e6, Seq::empty());
    let t6 = seq![','] + entry_text(e6);
    assert(obj_tail_text(seq![e6]) =~= t6);
    let t5 = seq![','] + entry_text(e5) + t6;
    assert(obj_tail_text(seq![e5, e6]) =~= t5);
    let t4 = seq![','] + entry_text(e4) + t5;
    assert(obj_tail_text(seq![e4, e5, e6]) =~= t4);
    let t3 = seq![','] + entry_text(e3) + t4;
    assert(obj_tail_text(seq![e3, e4, e5, e6]) =~= t3);
    let t2 = seq![','] + entry_text(e2) + t3;
    assert(obj_tail_text(seq![e2, e3, e4, e5, e6]) =~= t2);
    assert(obj_text(seq![e1, e2, e3, e4, e5, e6]) =~= entry_text(e1) + t2);
    assert(entry_text(e1) + t2 =~= entry_text(e1) + seq![','] + entry_text(e2) + seq![',']
        + entry_text(e3) + seq![','] + entry_text(e4) + seq![','] + entry_text(e5) + seq![',']
        + entry_text(e6));
}

/// Decimal digit characters pass through escaping unchanged, so a
/// timestamp's wire text is exactly its quoted digit string.
pub proof fn lemma_escape_digits(s: Seq<char>)
    requires
        crate::digits::all_dec_digits(s),
    ensures
        escape_text(s) == s,
    decreases s.len(),
{
    if s.len() == 0 {
        assert(escape_text(s) =~= s);
    } else {
        assert forall|i: int| 0 <= i < s.drop_last().len() implies is_dec_digit(
            #[trigger] s.drop_last()[i],
        ) by {
            assert(s.drop_last()[i] == s[i]);
        }
        lemma_escape_digits(s.drop_last());
        let c = s.last();
        assert(is_dec_digit(c));
        assert(escape_char(c) == seq![c]);
        assert(escape_text(s) =~= s);
    }
}

} // verus!
