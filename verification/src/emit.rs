//! The executable serializer.
//!
//! Every writer appends to an output `String` and is proved to append the
//! exact wire text that the ghost JSON model (`crate::json`) prescribes.
//! `export_json_line` renders one export record; `render_lines` renders a
//! whole sequence as newline-delimited JSON, the text a caller persists.

use vstd::prelude::*;
use vstd::string::StrSliceExecFns;
use vstd::string::StringExecFns;

use crate::digits::dec_digits_of;
use crate::digits::digit_char;
use crate::digits::digit_char_ex;
use crate::digits::hex_digit_char_ex;
use crate::digits::lemma_dec_digits_wf;
use crate::json::JsonV;
use crate::json::arr_tail_text;
use crate::json::arr_text;
use crate::json::attr_jv;
use crate::json::attrs_jv;
use crate::json::entry_text;
use crate::json::escape_char;
use crate::json::escape_text;
use crate::json::export_text;
use crate::json::jstring_text;
use crate::json::jv_text;
use crate::json::lemma_arr_tail_append;
use crate::json::lemma_arr_tail_cons;
use crate::json::lemma_escape_digits;
use crate::json::lemma_obj_tail_cons;
use crate::json::lemma_obj_text1;
use crate::json::lemma_obj_text2;
use crate::json::lemma_obj_text6;
use crate::json::lemma_obj_text_split;
use crate::json::event_entries;
use crate::json::event_jv;
use crate::json::events_jv;
use crate::json::link_entries;
use crate::json::link_jv;
use crate::json::links_jv;
use crate::json::lines_text;
use crate::json::obj_tail_text;
use crate::json::obj_text;
use crate::json::opt_attrs_entries;
use crate::json::opt_count_entries;
use crate::json::opt_events_entries;
use crate::json::opt_links_entries;
use crate::json::opt_status_entries;
use crate::json::resource_entries;
use crate::json::resource_jv;
use crate::json::resource_span_jv;
use crate::json::resource_spans_jv;
use crate::json::scope_span_entries;
use crate::json::scope_span_jv;
use crate::json::scope_spans_jv;
use crate::json::span_entries;
use crate::json::span_jv;
use crate::json::span_required_entries;
use crate::json::spans_jv;
use crate::json::status_entries;
use crate::json::status_jv;
use crate::json::time_jv;
use crate::model::Attribute;
use crate::model::Event;
use crate::model::Link;
use crate::model::Resource;
use crate::model::ResourceSpan;
use crate::model::ScopeSpan;
use crate::model::Span;
use crate::model::Status;
use crate::model::TraceExport;

verus! {

/// Relies on `String::push`: it appends exactly the one given character.
#[verifier::external_body]
pub(crate) fn push_char(out: &mut String, c: char)
    ensures
        final (out)@ == old(out)@ + seq![c],
{
    out.push(c);
}

/// Appends the escaped form of one string character.
fn write_escaped_char(out: &mut String, c: char)
    ensures
        final (out)@ == old(out)@ + escape_char(c),
{
    let ghost base = out@;
    if c == '"' {
        push_char(out, '\\');
        push_char(out, '"');
        proof {
            assert(out@ =~= base + escape_char(c));
        }
    } else if c == '\\' {
        push_char(out, '\\');
        push_char(out, '\\');
        proof {
            assert(out@ =~= base + escape_char(c));
        }
    } else {
        let u = c as u32;
        if u < 32 {
            push_char(out, '\\');
            push_char(out, 'u');
            push_char(out, '0');
            push_char(out, '0');
            push_char(out, hex_digit_char_ex(u / 16));
            push_char(out, hex_digit_char_ex(u % 16));
            proof {
                assert(out@ =~= base + escape_char(c));
            }
        } else {
            push_char(out, c);
            proof {
                assert(out@ =~= base + escape_char(c));
            }
        }
    }
}

/// Appends a JSON string literal: the text between quotes, escaped.
fn write_jstring(out: &mut String, s: &str)
    ensures
        final (out)@ == old(out)@ + jstring_text(s@),
{
    let ghost base = out@;
    push_char(out, '"');
    let n = s.unicode_len();
    let mut i: usize = 0;
    while i < n
        invariant
            n as nat == s@.len(),
            i <= n,
            out@ == base + seq!['"'] + escape_text(s@.subrange(0, i as int)),
        decreases n - i,
    {
        let c = s.get_char(i);
        write_escaped_char(out, c);
        proof {
            let t = s@.subrange(0, i as int + 1);
            assert(t.drop_last() =~= s@.subrange(0, i as int));
            assert(t.last() == c);
            assert(out@ =~= base + seq!['"'] + escape_text(t));
        }
        i = i + 1;
    }
    proof {
        assert(s@.subrange(0, n as int) =~= s@);
    }
    push_char(out, '"');
    proof {
        assert(out@ =~= base + jstring_text(s@));
    }
}

/// Appends the canonical decimal digits of `n`, most significant first.
pub(crate) fn write_digits(out: &mut String, n: u64)
    ensures
        final (out)@ == old(out)@ + dec_digits_of(n as nat),
    decreases n,
{
    let ghost base = out@;
    if n >= 10 {
        write_digits(out, n / 10);
    }
    push_char(out, digit_char_ex(n % 10));
    proof {
        if n < 10 {
            assert(dec_digits_of(n as nat) =~= seq![digit_char(n as nat)]);
            assert(out@ =~= base + dec_digits_of(n as nat));
        } else {
            assert(dec_digits_of(n as nat) == dec_digits_of((n as nat) / 10) + seq![
                digit_char((n as nat) % 10),
            ]);
            assert(out@ =~= base + dec_digits_of(n as nat));
        }
    }
}

/// Appends a count as a bare JSON number.
fn write_count(out: &mut String, n: u64)
    ensures
        final (out)@ == old(out)@ + jv_text(JsonV::Num(n as nat)),
{
    write_digits(out, n);
}

/// Appends a timestamp in its canonical wire form: the quoted decimal-digit
/// string, never a bare number.
fn write_time(out: &mut String, nanos: u64)
    ensures
        final (out)@ == old(out)@ + jv_text(time_jv(nanos)),
{
    let ghost base = out@;
    push_char(out, '"');
    write_digits(out, nanos);
    push_char(out, '"');
    proof {
        lemma_dec_digits_wf(nanos as nat);
        lemma_escape_digits(dec_digits_of(nanos as nat));
        assert(out@ =~= base + jstring_text(dec_digits_of(nanos as nat)));
    }
}

/// Appends an object key: a leading comma unless this is the first field,
/// then the quoted key and its colon.
fn write_key(out: &mut String, first: bool, k: &str)
    ensures
        final (out)@ == old(out)@ + (if first {
            Seq::<char>::empty()
        } else {
            seq![',']
        }) + jstring_text(k@) + seq![':'],
{
    let ghost base = out@;
    if !first {
        push_char(out, ',');
    }
    write_jstring(out, k);
    push_char(out, ':');
    proof {
        assert(out@ =~= base + (if first {
            Seq::<char>::empty()
        } else {
            seq![',']
        }) + jstring_text(k@) + seq![':']);
    }
}

/// Appends one attribute object: `{"key":K,"value":{"stringValue":V}}`.
fn write_attr(out: &mut String, a: &Attribute)
    ensures
        final (out)@ == old(out)@ + jv_text(attr_jv(*a)),
{
    let ghost base = out@;
    push_char(out, '{');
    write_key(out, true, "key");
    write_jstring(out, a.key.as_str());
    write_key(out, false, "value");
    push_char(out, '{');
    write_key(out, true, "stringValue");
    write_jstring(out, a.value.string_value.as_str());
    push_char(out, '}');
    push_char(out, '}');
    proof {
        let e3 = (("stringValue")@, JsonV::Str(a.value.string_value@));
        let inner = JsonV::Obj(seq![e3]);
        let e1 = (("key")@, JsonV::Str(a.key@));
        let e2 = (("value")@, inner);
        lemma_obj_text1(e3);
        lemma_obj_text2(e1, e2);
        assert(jv_text(inner) =~= seq!['{'] + entry_text(e3) + seq!['}']);
        assert(entry_text(e1) =~= jstring_text(("key")@) + seq![':'] + jstring_text(a.key@));
        assert(entry_text(e2) =~= jstring_text(("value")@) + seq![':'] + jv_text(inner));
        assert(out@ =~= base + jv_text(attr_jv(*a)));
    }
}

/// Appends an attribute list as a JSON array, in caller order.
fn write_attrs(out: &mut String, l: &Vec<Attribute>)
    ensures
        final (out)@ == old(out)@ + jv_text(attrs_jv(l@)),
{
    let ghost m = Seq::new(l@.len(), |k: int| attr_jv(l@[k]));
    let ghost base = out@;
    push_char(out, '[');
    if l.len() > 0 {
        write_attr(out, &l[0]);
        let mut i: usize = 1;
        while i < l.len()
            invariant
                1 <= i <= l@.len(),
                m == Seq::new(l@.len(), |k: int| attr_jv(l@[k])),
                out@ == base + seq!['['] + jv_text(m[0]) + arr_tail_text(m.subrange(1, i as int)),
            decreases l@.len() - i,
        {
            push_char(out, ',');
            write_attr(out, &l[i]);
            proof {
                assert(m.subrange(1, i as int + 1) =~= m.subrange(1, i as int) + seq![m[i as int]]);
                lemma_arr_tail_append(m.subrange(1, i as int), seq![m[i as int]]);
                lemma_arr_tail_cons(m[i as int], Seq::empty());
                assert(seq![m[i as int]] =~= seq![m[i as int]] + Seq::<JsonV>::empty());
                assert(m[i as int] == attr_jv(l@[i as int]));
                assert(out@ =~= base + seq!['['] + jv_text(m[0]) + arr_tail_text(
                    m.subrange(1, i as int + 1),
                ));
            }
            i = i + 1;
        }
        proof {
            assert(m.subrange(1, m.len() as int) =~= m.drop_first());
            assert(arr_text(m) == jv_text(m[0]) + arr_tail_text(m.drop_first()));
        }
    } else {
        proof {
            assert(arr_text(m) =~= Seq::<char>::empty());
        }
    }
    push_char(out, ']');
    proof {
        assert(out@ =~= base + jv_text(attrs_jv(l@)));
    }
}

/// Appends the field for an optional attribute list in non-leading
/// position: nothing when absent, `,"KEY":[...]` when present.
fn write_opt_attrs(out: &mut String, k: &str, o: &Option<Vec<Attribute>>)
    ensures
        final (out)@ == old(out)@ + obj_tail_text(opt_attrs_entries(k@, *o)),
{
    let ghost base = out@;
    match o {
        Option::Some(l) => {
            write_key(out, false, k);
            write_attrs(out, l);
            proof {
                let e = (k@, attrs_jv(l@));
                lemma_obj_tail_cons(e, Seq::empty());
                assert(seq![e] =~= seq![e] + Seq::<(Seq<char>, JsonV)>::empty());
                assert(out@ =~= base + obj_tail_text(opt_attrs_entries(k@, *o)));
            }
        },
        Option::None => {
            proof {
                assert(out@ =~= base + obj_tail_text(opt_attrs_entries(k@, *o)));
            }
        },
    }
}

/// Appends the field for an optional count in non-leading position:
/// nothing when absent, `,"KEY":N` when present.
fn write_opt_count(out: &mut String, k: &str, o: &Option<u64>)
    ensures
        final (out)@ == old(out)@ + obj_tail_text(opt_count_entries(k@, *o)),
{
    let ghost base = out@;
    match o {
        Option::Some(n) => {
            write_key(out, false, k);
            write_count(out, *n);
            proof {
                let e = (k@, JsonV::Num(*n as nat));
                lemma_obj_tail_cons(e, Seq::empty());
                assert(seq![e] =~= seq![e] + Seq::<(Seq<char>, JsonV)>::empty());
                assert(out@ =~= base + obj_tail_text(opt_count_entries(k@, *o)));
            }
        },
        Option::None => {
            proof {
                assert(out@ =~= base + obj_tail_text(opt_count_entries(k@, *o)));
            }
        },
    }
}

/// Appends a status object; message and code are independently optional,
/// and an empty status renders as `{}`.
fn write_status(out: &mut String, s: &Status)
    ensures
        final (out)@ == old(out)@ + jv_text(status_jv(*s)),
{
    let ghost base = out@;
    push_char(out, '{');
    match &s.message {
        Option::Some(m) => {
            write_key(out, true, "message");
            write_jstring(out, m.as_str());
            write_opt_count(out, "code", &s.code);
            proof {
                let e = (("message")@, JsonV::Str(m@));
                lemma_obj_text_split(seq![e], opt_count_entries(("code")@, s.code));
                lemma_obj_text1(e);
                assert(seq![e] + opt_count_entries(("code")@, s.code) =~= status_entries(*s));
                assert(out@ =~= base + seq!['{'] + obj_text(status_entries(*s)));
            }
        },
        Option::None => {
            match &s.code {
                Option::Some(c) => {
                    write_key(out, true, "code");
                    write_count(out, *c);
                    proof {
                        let e = (("code")@, JsonV::Num(*c as nat));
                        lemma_obj_text1(e);
                        assert(status_entries(*s) =~= seq![e]);
                        assert(out@ =~= base + seq!['{'] + obj_text(status_entries(*s)));
                    }
                },
                Option::None => {
                    proof {
                        assert(status_entries(*s) =~= Seq::<(Seq<char>, JsonV)>::empty());
                        assert(out@ =~= base + seq!['{'] + obj_text(status_entries(*s)));
                    }
                },
            }
        },
    }
    push_char(out, '}');
    proof {
        assert(out@ =~= base + jv_text(status_jv(*s)));
    }
}

/// Appends the status field in non-leading position when present.
fn write_opt_status(out: &mut String, o: &Option<Status>)
    ensures
        final (out)@ == old(out)@ + obj_tail_text(opt_status_entries(*o)),
{
    let ghost base = out@;
    match o {
        Option::Some(st) => {
            write_key(out, false, "status");
            write_status(out, st);
            proof {
                let e = (("status")@, status_jv(*st));
                lemma_obj_tail_cons(e, Seq::empty());
                assert(seq![e] =~= seq![e] + Seq::<(Seq<char>, JsonV)>::empty());
                assert(out@ =~= base + obj_tail_text(opt_status_entries(*o)));
            }
        },
        Option::None => {
            proof {
                assert(out@ =~= base + obj_tail_text(opt_status_entries(*o)));
            }
        },
    }
}

/// Appends one event object.
fn write_event(out: &mut String, e: &Event)
    ensures
        final (out)@ == old(out)@ + jv_text(event_jv(*e)),
{
    let ghost base = out@;
    push_char(out, '{');
    write_key(out, true, "timeUnixNano");
    write_time(out, e.time_unix_nano);
    write_key(out, false, "name");
    write_jstring(out, e.name.as_str());
    write_opt_attrs(out, "attributes", &e.attributes);
    write_opt_count(out, "droppedAttributesCount", &e.dropped_attributes_count);
    push_char(out, '}');
    proof {
        let e1 = (("timeUnixNano")@, time_jv(e.time_unix_nano));
        let e2 = (("name")@, JsonV::Str(e.name@));
        let req = seq![e1, e2];
        let ca = opt_attrs_entries(("attributes")@, e.attributes);
        let cc = opt_count_entries(("droppedAttributesCount")@, e.dropped_attributes_count);
        lemma_obj_text_split(req + ca, cc);
        lemma_obj_text_split(req, ca);
        lemma_obj_text2(e1, e2);
        assert(event_entries(*e) == req + ca + cc);
        assert(out@ =~= base + jv_text(event_jv(*e)));
    }
}

/// Appends an event list as a JSON array, in caller order.
fn write_events(out: &mut String, l: &Vec<Event>)
    ensures
        final (out)@ == old(out)@ + jv_text(events_jv(l@)),
{
    let ghost m = Seq::new(l@.len(), |k: int| event_jv(l@[k]));
    let ghost base = out@;
    push_char(out, '[');
    if l.len() > 0 {
        write_event(out, &l[0]);
        let mut i: usize = 1;
        while i < l.len()
            invariant
                1 <= i <= l@.len(),
                m == Seq::new(l@.len(), |k: int| event_jv(l@[k])),
                out@ == base + seq!['['] + jv_text(m[0]) + arr_tail_text(m.subrange(1, i as int)),
            decreases l@.len() - i,
        {
            push_char(out, ',');
            write_event(out, &l[i]);
            proof {
                assert(m.subrange(1, i as int + 1) =~= m.subrange(1, i as int) + seq![m[i as int]]);
                lemma_arr_tail_append(m.subrange(1, i as int), seq![m[i as int]]);
                lemma_arr_tail_cons(m[i as int], Seq::empty());
                assert(seq![m[i as int]] =~= seq![m[i as int]] + Seq::<JsonV>::empty());
                assert(m[i as int] == event_jv(l@[i as int]));
                assert(out@ =~= base + seq!['['] + jv_text(m[0]) + arr_tail_text(
                    m.subrange(1, i as int + 1),
                ));
            }
            i = i + 1;
        }
        proof {
            assert(m.subrange(1, m.len() as int) =~= m.drop_first());
            assert(arr_text(m) == jv_text(m[0]) + arr_tail_text(m.drop_first()));
        }
    } else {
        proof {
            assert(arr_text(m) =~= Seq::<char>::empty());
        }
    }
    push_char(out, ']');
    proof {
        assert(out@ =~= base + jv_text(events_jv(l@)));
    }
}

/// Appends the events field in non-leading position when present.
fn write_opt_events(out: &mut String, o: &Option<Vec<Event>>)
    ensures
        final (out)@ == old(out)@ + obj_tail_text(opt_events_entries(*o)),
{
    let ghost base = out@;
    match o {
        Option::Some(l) => {
            write_key(out, false, "events");
            write_events(out, l);
            proof {
                let e = (("events")@, events_jv(l@));
                lemma_obj_tail_cons(e, Seq::empty());
                assert(seq![e] =~= seq![e] + Seq::<(Seq<char>, JsonV)>::empty());
                assert(out@ =~= base + obj_tail_text(opt_events_entries(*o)));
            }
        },
        Option::None => {
            proof {
                assert(out@ =~= base + obj_tail_text(opt_events_entries(*o)));
            }
        },
    }
}

/// Appends one link object.
fn write_link(out: &mut String, l: &Link)
    ensures
        final (out)@ == old(out)@ + jv_text(link_jv(*l)),
{
    let ghost base = out@;
    push_char(out, '{');
    write_key(out, true, "traceId");
    write_jstring(out, l.trace_id.as_str());
    write_key(out, false, "spanId");
    write_jstring(out, l.span_id.as_str());
    write_opt_attrs(out, "attributes", &l.attributes);
    write_opt_count(out, "droppedAttributesCount", &l.dropped_attributes_count);
    push_char(out, '}');
    proof {
        let e1 = (("traceId")@, JsonV::Str(l.trace_id@));
        let e2 = (("spanId")@, JsonV::Str(l.span_id@));
        let req = seq![e1, e2];
        let ca = opt_attrs_entries(("attributes")@, l.attributes);
        let cc = opt_count_entries(("droppedAttributesCount")@, l.dropped_attributes_count);
        lemma_obj_text_split(req + ca, cc);
        lemma_obj_text_split(req, ca);
        lemma_obj_text2(e1, e2);
        assert(link_entries(*l) == req + ca + cc);
        assert(out@ =~= base + jv_text(link_jv(*l)));
    }
}

/// Appends a link list as a JSON array, in caller order.
fn write_links(out: &mut String, l: &Vec<Link>)
    ensures
        final (out)@ == old(out)@ + jv_text(links_jv(l@)),
{
    let ghost m = Seq::new(l@.len(), |k: int| link_jv(l@[k]));
    let ghost base = out@;
    push_char(out, '[');
    if l.len() > 0 {
        write_link(out, &l[0]);
        let mut i: usize = 1;
        while i < l.len()
            invariant
                1 <= i <= l@.len(),
                m == Seq::new(l@.len(), |k: int| link_jv(l@[k])),
                out@ == base + seq!['['] + jv_text(m[0]) + arr_tail_text(m.subrange(1, i as int)),
            decreases l@.len() - i,
        {
            push_char(out, ',');
            write_link(out, &l[i]);
            proof {
                assert(m.subrange(1, i as int + 1) =~= m.subrange(1, i as int) + seq![m[i as int]]);
                lemma_arr_tail_append(m.subrange(1, i as int), seq![m[i as int]]);
                lemma_arr_tail_cons(m[i as int], Seq::empty());
                assert(seq![m[i as int]] =~= seq![m[i as int]] + Seq::<JsonV>::empty());
                assert(m[i as int] == link_jv(l@[i as int]));
                assert(out@ =~= base + seq!['['] + jv_text(m[0]) + arr_tail_text(
                    m.subrange(1, i as int + 1),
                ));
            }
            i = i + 1;
        }
        proof {
            assert(m.subrange(1, m.len() as int) =~= m.drop_first());
            assert(arr_text(m) == jv_text(m[0]) + arr_tail_text(m.drop_first()));
        }
    } else {
        proof {
            assert(arr_text(m) =~= Seq::<char>::empty());
        }
    }
    push_char(out, ']');
    proof {
        assert(out@ =~= base + jv_text(links_jv(l@)));
    }
}

/// Appends the links field in non-leading position when present.
fn write_opt_links(out: &mut String, o: &Option<Vec<Link>>)
    ensures
        final (out)@ == old(out)@ + obj_tail_text(opt_links_entries(*o)),
{
    let ghost base = out@;
    match o {
        Option::Some(l) => {
            write_key(out, false, "links");
            write_links(out, l);
            proof {
                let e = (("links")@, links_jv(l@));
                lemma_obj_tail_cons(e, Seq::empty());
                assert(seq![e] =~= seq![e] + Seq::<(Seq<char>, JsonV)>::empty());
                assert(out@ =~= base + obj_tail_text(opt_links_entries(*o)));
            }
        },
        Option::None => {
            proof {
                assert(out@ =~= base + obj_tail_text(opt_links_entries(*o)));
            }
        },
    }
}

/// Appends the opening brace and the six required span fields.
#[verifier::rlimit(80)]
fn write_span_head(out: &mut String, s: &Span)
    ensures
        final (out)@ == old(out)@ + seq!['{'] + obj_text(span_required_entries(*s)),
{
    let ghost base = out@;
    push_char(out, '{');
    write_key(out, true, "traceId");
    write_jstring(out, s.trace_id.as_str());
    write_key(out, false, "spanId");
    write_jstring(out, s.span_id.as_str());
    write_key(out, false, "parentSpanId");
    write_jstring(out, s.parent_span_id.as_str());
    write_key(out, false, "name");
    write_jstring(out, s.name.as_str());
    write_key(out, false, "startTimeUnixNano");
    write_time(out, s.start_time_unix_nano);
    write_key(out, false, "endTimeUnixNano");
    write_time(out, s.end_time_unix_nano);
    proof {
        lemma_obj_text6(
            (("traceId")@, JsonV::Str(s.trace_id@)),
            (("spanId")@, JsonV::Str(s.span_id@)),
            (("parentSpanId")@, JsonV::Str(s.parent_span_id@)),
            (("name")@, JsonV::Str(s.name@)),
            (("startTimeUnixNano")@, time_jv(s.start_time_unix_nano)),
            (("endTimeUnixNano")@, time_jv(s.end_time_unix_nano)),
        );
        assert(out@ =~= base + seq!['{'] + obj_text(span_required_entries(*s)));
    }
}

/// Appends one span object: the six required fields, then each optional
/// field that is present, in wire order.
#[verifier::rlimit(80)]
fn write_span(out: &mut String, s: &Span)
    ensures
        final (out)@ == old(out)@ + jv_text(span_jv(*s)),
{
    let ghost base = out@;
    write_span_head(out, s);
    let ghost r = span_required_entries(*s);
    let ghost ca = opt_attrs_entries(("attributes")@, s.attributes);
    let ghost cb = opt_count_entries(("droppedAttributesCount")@, s.dropped_attributes_count);
    let ghost cc = opt_events_entries(s.events);
    let ghost cd = opt_count_entries(("droppedEventsCount")@, s.dropped_events_count);
    let ghost ce = opt_links_entries(s.links);
    let ghost cf = opt_count_entries(("droppedLinksCount")@, s.dropped_links_count);
    let ghost cg = opt_status_entries(s.status);
    write_opt_attrs(out, "attributes", &s.attributes);
    proof {
        lemma_obj_text_split(r, ca);
        assert(out@ =~= base + seq!['{'] + obj_text(r + ca));
    }
    write_opt_count(out, "droppedAttributesCount", &s.dropped_attributes_count);
    proof {
        lemma_obj_text_split(r + ca, cb);
        assert(out@ =~= base + seq!['{'] + obj_text(r + ca + cb));
    }
    write_opt_events(out, &s.events);
    proof {
        lemma_obj_text_split(r + ca + cb, cc);
        assert(out@ =~= base + seq!['{'] + obj_text(r + ca + cb + cc));
    }
    write_opt_count(out, "droppedEventsCount", &s.dropped_events_count);
    proof {
        lemma_obj_text_split(r + ca + cb + cc, cd);
        assert(out@ =~= base + seq!['{'] + obj_text(r + ca + cb + cc + cd));
    }
    write_opt_links(out, &s.links);
    proof {
        lemma_obj_text_split(r + ca + cb + cc + cd, ce);
        assert(out@ =~= base + seq!['{'] + obj_text(r + ca + cb + cc + cd + ce));
    }
    write_opt_count(out, "droppedLinksCount", &s.dropped_links_count);
    proof {
        lemma_obj_text_split(r + ca + cb + cc + cd + ce, cf);
        assert(out@ =~= base + seq!['{'] + obj_text(r + ca + cb + cc + cd + ce + cf));
    }
    write_opt_status(out, &s.status);
    proof {
        lemma_obj_text_split(r + ca + cb + cc + cd + ce + cf, cg);
        assert(out@ =~= base + seq!['{'] + obj_text(r + ca + cb + cc + cd + ce + cf + cg));
    }
    push_char(out, '}');
    proof {
        assert(span_entries(*s) == r + ca + cb + cc + cd + ce + cf + cg);
        assert(out@ =~= base + jv_text(span_jv(*s)));
    }
}

/// Appends a span list as a JSON array, in caller order.
fn write_spans(out: &mut String, l: &Vec<Span>)
    ensures
        final (out)@ == old(out)@ + jv_text(spans_jv(l@)),
{
    let ghost m = Seq::new(l@.len(), |k: int| span_jv(l@[k]));
    let ghost base = out@;
    push_char(out, '[');
    if l.len() > 0 {
        write_span(out, &l[0]);
        let mut i: usize = 1;
        while i < l.len()
            invariant
                1 <= i <= l@.len(),
                m == Seq::new(l@.len(), |k: int| span_jv(l@[k])),
                out@ == base + seq!['['] + jv_text(m[0]) + arr_tail_text(m.subrange(1, i as int)),
            decreases l@.len() - i,
        {
            push_char(out, ',');
            write_span(out, &l[i]);
            proof {
                assert(m.subrange(1, i as int + 1) =~= m.subrange(1, i as int) + seq![m[i as int]]);
                lemma_arr_tail_append(m.subrange(1, i as int), seq![m[i as int]]);
                lemma_arr_tail_cons(m[i as int], Seq::empty());
                assert(seq![m[i as int]] =~= seq![m[i as int]] + Seq::<JsonV>::empty());
                assert(m[i as int] == span_jv(l@[i as int]));
                assert(out@ =~= base + seq!['['] + jv_text(m[0]) + arr_tail_text(
                    m.subrange(1, i as int + 1),
                ));
            }
            i = i + 1;
        }
        proof {
            assert(m.subrange(1, m.len() as int) =~= m.drop_first());
            assert(arr_text(m) == jv_text(m[0]) + arr_tail_text(m.drop_first()));
        }
    } else {
        proof {
            assert(arr_text(m) =~= Seq::<char>::empty());
        }
    }
    push_char(out, ']');
    proof {
        assert(out@ =~= base + jv_text(spans_jv(l@)));
    }
}

/// Appends one scope-span object: the optional (empty) scope, then the
/// spans it owns.
fn write_scope_span(out: &mut String, s: &ScopeSpan)
    ensures
        final (out)@ == old(out)@ + jv_text(scope_span_jv(*s)),
{
    let ghost base = out@;
    push_char(out, '{');
    match &s.scope {
        Option::Some(_) => {
            write_key(out, true, "scope");
            push_char(out, '{');
            push_char(out, '}');
            write_key(out, false, "spans");
        },
        Option::None => {
            write_key(out, true, "spans");
        },
    }
    write_spans(out, &s.spans);
    push_char(out, '}');
    proof {
        let sp = (("spans")@, spans_jv(s.spans@));
        lemma_obj_text1(sp);
        match s.scope {
            Option::Some(_) => {
                let sc = (("scope")@, JsonV::Obj(Seq::empty()));
                lemma_obj_text_split(seq![sc], seq![sp]);
                lemma_obj_text1(sc);
                lemma_obj_tail_cons(sp, Seq::empty());
                assert(seq![sp] =~= seq![sp] + Seq::<(Seq<char>, JsonV)>::empty());
                assert(scope_span_entries(*s) == seq![sc] + seq![sp]);
                assert(jv_text(JsonV::Obj(Seq::empty())) =~= seq!['{', '}']);
                assert(out@ =~= base + jv_text(scope_span_jv(*s)));
            },
            Option::None => {
                assert(scope_span_entries(*s) =~= seq![sp]);
                assert(out@ =~= base + jv_text(scope_span_jv(*s)));
            },
        }
    }
}

/// Appends a scope-span list as a JSON array, in caller order.
fn write_scope_spans(out: &mut String, l: &Vec<ScopeSpan>)
    ensures
        final (out)@ == old(out)@ + jv_text(scope_spans_jv(l@)),
{
    let ghost m = Seq::new(l@.len(), |k: int| scope_span_jv(l@[k]));
    let ghost base = out@;
    push_char(out, '[');
    if l.len() > 0 {
        write_scope_span(out, &l[0]);
        let mut i: usize = 1;
        while i < l.len()
            invariant
                1 <= i <= l@.len(),
                m == Seq::new(l@.len(), |k: int| scope_span_jv(l@[k])),
                out@ == base + seq!['['] + jv_text(m[0]) + arr_tail_text(m.subrange(1, i as int)),
            decreases l@.len() - i,
        {
            push_char(out, ',');
            write_scope_span(out, &l[i]);
            proof {
                assert(m.subrange(1, i as int + 1) =~= m.subrange(1, i as int) + seq![m[i as int]]);
                lemma_arr_tail_append(m.subrange(1, i as int), seq![m[i as int]]);
                lemma_arr_tail_cons(m[i as int], Seq::empty());
                assert(seq![m[i as int]] =~= seq![m[i as int]] + Seq::<JsonV>::empty());
                assert(m[i as int] == scope_span_jv(l@[i as int]));
                assert(out@ =~= base + seq!['['] + jv_text(m[0]) + arr_tail_text(
                    m.subrange(1, i as int + 1),
                ));
            }
            i = i + 1;
        }
        proof {
            assert(m.subrange(1, m.len() as int) =~= m.drop_first());
            assert(arr_text(m) == jv_text(m[0]) + arr_tail_text(m.drop_first()));
        }
    } else {
        proof {
            assert(arr_text(m) =~= Seq::<char>::empty());
        }
    }
    push_char(out, ']');
    proof {
        assert(out@ =~= base + jv_text(scope_spans_jv(l@)));
    }
}

/// Appends a resource object: `{}` without attributes, the attribute list
/// under its key otherwise (an empty list stays an empty list, distinct
/// from absence).
fn write_resource(out: &mut String, r: &Resource)
    ensures
        final (out)@ == old(out)@ + jv_text(resource_jv(*r)),
{
    let ghost base = out@;
    push_char(out, '{');
    match &r.attributes {
        Option::Some(l) => {
            write_key(out, true, "attributes");
            write_attrs(out, l);
            proof {
                let e = (("attributes")@, attrs_jv(l@));
                lemma_obj_text1(e);
                assert(resource_entries(*r) =~= seq![e]);
            }
        },
        Option::None => {
            proof {
                assert(resource_entries(*r) =~= Seq::<(Seq<char>, JsonV)>::empty());
            }
        },
    }
    push_char(out, '}');
    proof {
        assert(out@ =~= base + jv_text(resource_jv(*r)));
    }
}

/// Appends one resource-span object: its resource, then its scope spans.
fn write_resource_span(out: &mut String, rs: &ResourceSpan)
    ensures
        final (out)@ == old(out)@ + jv_text(resource_span_jv(*rs)),
{
    let ghost base = out@;
    push_char(out, '{');
    write_key(out, true, "resource");
    write_resource(out, &rs.resource);
    write_key(out, false, "scopeSpans");
    write_scope_spans(out, &rs.scope_spans);
    push_char(out, '}');
    proof {
        lemma_obj_text2(
            (("resource")@, resource_jv(rs.resource)),
            (("scopeSpans")@, scope_spans_jv(rs.scope_spans@)),
        );
        assert(out@ =~= base + jv_text(resource_span_jv(*rs)));
    }
}

/// Appends a resource-span list as a JSON array, in caller order.
fn write_resource_spans(out: &mut String, l: &Vec<ResourceSpan>)
    ensures
        final (out)@ == old(out)@ + jv_text(resource_spans_jv(l@)),
{
    let ghost m = Seq::new(l@.len(), |k: int| resource_span_jv(l@[k]));
    let ghost base = out@;
    push_char(out, '[');
    if l.len() > 0 {
        write_resource_span(out, &l[0]);
        let mut i: usize = 1;
        while i < l.len()
            invariant
                1 <= i <= l@.len(),
                m == Seq::new(l@.len(), |k: int| resource_span_jv(l@[k])),
                out@ == base + seq!['['] + jv_text(m[0]) + arr_tail_text(m.subrange(1, i as int)),
            decreases l@.len() - i,
        {
            push_char(out, ',');
            write_resource_span(out, &l[i]);
            proof {
                assert(m.subrange(1, i as int + 1) =~= m.subrange(1, i as int) + seq![m[i as int]]);
                lemma_arr_tail_append(m.subrange(1, i as int), seq![m[i as int]]);
                lemma_arr_tail_cons(m[i as int], Seq::empty());
                assert(seq![m[i as int]] =~= seq![m[i as int]] + Seq::<JsonV>::empty());
                assert(m[i as int] == resource_span_jv(l@[i as int]));
                assert(out@ =~= base + seq!['['] + jv_text(m[0]) + arr_tail_text(
                    m.subrange(1, i as int + 1),
                ));
            }
            i = i + 1;
        }
        proof {
            assert(m.subrange(1, m.len() as int) =~= m.drop_first());
            assert(arr_text(m) == jv_text(m[0]) + arr_tail_text(m.drop_first()));
        }
    } else {
        proof {
            assert(arr_text(m) =~= Seq::<char>::empty());
        }
    }
    push_char(out, ']');
    proof {
        assert(out@ =~= base + jv_text(resource_spans_jv(l@)));
    }
}

/// Renders one export record as its JSON line, without the newline
/// terminator: exactly the wire text the ghost model prescribes.
pub fn export_json_line(e: &TraceExport) -> (r: String)
    ensures
        r@ == export_text(*e),
{
    let mut out = String::new();
    push_char(&mut out, '{');
    write_key(&mut out, true, "resourceSpans");
    write_resource_spans(&mut out, &e.resource_spans);
    push_char(&mut out, '}');
    proof {
        let en = (("resourceSpans")@, resource_spans_jv(e.resource_spans@));
        lemma_obj_text1(en);
        assert(out@ =~= export_text(*e));
    }
    out
}

/// Renders a sequence of export records as newline-delimited JSON: one
/// complete JSON line per record, in order, each terminated by `'\n'`.
pub fn render_lines(exports: &Vec<TraceExport>) -> (r: String)
    ensures
        r@ == lines_text(exports@),
{
    let mut out = String::new();
    let mut i: usize = 0;
    while i < exports.len()
        invariant
            i <= exports@.len(),
            out@ == lines_text(exports@.subrange(0, i as int)),
        decreases exports@.len() - i,
    {
        let line = export_json_line(&exports[i]);
        out.append(line.as_str());
        push_char(&mut out, '\n');
        proof {
            let p = exports@.subrange(0, i as int + 1);
            assert(p.drop_last() =~= exports@.subrange(0, i as int));
            assert(p.last() == exports@[i as int]);
            assert(out@ =~= lines_text(p));
        }
        i = i + 1;
    }
    proof {
        assert(exports@.subrange(0, exports@.len() as int) =~= exports@);
    }
    out
}

} // verus!
