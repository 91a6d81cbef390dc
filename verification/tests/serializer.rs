use otel_export::emit::export_json_line;
use otel_export::emit::render_lines;
use otel_export::ids::generate_hex;
use otel_export::model::Attribute;
use otel_export::model::AttributeValue;
use otel_export::model::Event;
use otel_export::model::Link;
use otel_export::model::Resource;
use otel_export::model::ResourceSpan;
use otel_export::model::Scope;
use otel_export::model::ScopeSpan;
use otel_export::model::Span;
use otel_export::model::Status;
use otel_export::model::TraceExport;

fn bare_span(name: &str, span_id: &str, parent: &str, start: u64, end: u64) -> Span {
    Span {
        trace_id: String::new(),
        span_id: span_id.to_string(),
        parent_span_id: parent.to_string(),
        name: name.to_string(),
        start_time_unix_nano: start,
        end_time_unix_nano: end,
        attributes: None,
        dropped_attributes_count: None,
        events: None,
        dropped_events_count: None,
        links: None,
        dropped_links_count: None,
        status: None,
    }
}

fn attr(key: &str, value: &str) -> Attribute {
    Attribute {
        key: key.to_string(),
        value: AttributeValue {
            string_value: value.to_string(),
        },
    }
}

fn single_span_export(span: Span) -> TraceExport {
    TraceExport {
        resource_spans: vec![ResourceSpan {
            resource: Resource { attributes: None },
            scope_spans: vec![ScopeSpan {
                scope: None,
                spans: vec![span],
            }],
        }],
    }
}

fn parse(line: &str) -> serde_json::Value {
    serde_json::from_str(line).expect("each line must be a complete JSON value")
}

#[test]
fn minimal_span_renders_exactly() {
    let export = single_span_export(bare_span("x", "ab", "", 1, 2));
    let expected = ["{\"resourceSpans\":[{\"resource\":{},\"scopeSpans\":[{\"spans\":[",
        "{\"traceId\":\"\",\"spanId\":\"ab\",\"parentSpanId\":\"\",\"name\":\"x\",",
        "\"startTimeUnixNano\":\"1\",\"endTimeUnixNano\":\"2\"}", "]}]}]}"]
        .join("");
    assert_eq!(export_json_line(&export), expected);
}

#[test]
fn buildpack_scenario_produces_one_wellformed_line() {
    let root_id = generate_hex(8);
    let now: u64 = 1_700_000_005_000_000_000;
    let root = Span {
        trace_id: String::new(),
        span_id: root_id.clone(),
        parent_span_id: String::new(),
        name: "buildpacks-otel-export".to_string(),
        start_time_unix_nano: now - 5_000_000_000,
        end_time_unix_nano: now,
        attributes: Some(vec![attr("nodejs-version", "18.2.0")]),
        dropped_attributes_count: Some(0),
        events: None,
        dropped_events_count: None,
        links: None,
        dropped_links_count: None,
        status: None,
    };
    let child = bare_span(
        "buildpacks-nodejs-engine-download-node",
        &generate_hex(8),
        &root_id,
        now - 3_000_000_000,
        now - 1_000_000_000,
    );
    let export = TraceExport {
        resource_spans: vec![ResourceSpan {
            resource: Resource { attributes: None },
            scope_spans: vec![ScopeSpan {
                scope: None,
                spans: vec![root, child],
            }],
        }],
    };
    let out = render_lines(&vec![export]);
    let lines: Vec<&str> = out.split_terminator('\n').collect();
    assert_eq!(lines.len(), 1);
    assert!(out.ends_with('\n'));
    let v = parse(lines[0]);
    let spans = v["resourceSpans"][0]["scopeSpans"][0]["spans"]
        .as_array()
        .unwrap();
    assert_eq!(spans.len(), 2);
    assert_eq!(spans[1]["parentSpanId"], spans[0]["spanId"]);
    assert_eq!(spans[0]["name"], "buildpacks-otel-export");
    assert!(spans[0]["startTimeUnixNano"].is_string());
    assert!(spans[0]["endTimeUnixNano"].is_string());
    assert_eq!(
        spans[0]["startTimeUnixNano"].as_str().unwrap(),
        "1700000000000000000"
    );
    assert_eq!(
        spans[0]["attributes"][0]["key"].as_str().unwrap(),
        "nodejs-version"
    );
    assert_eq!(
        spans[0]["attributes"][0]["value"]["stringValue"]
            .as_str()
            .unwrap(),
        "18.2.0"
    );
    assert_eq!(spans[0]["droppedAttributesCount"].as_u64().unwrap(), 0);
    assert_eq!(spans[1]["attributes"], serde_json::Value::Null);
}

#[test]
fn n_records_give_n_newline_terminated_lines() {
    let exports = vec![
        single_span_export(bare_span("a", "01", "", 1, 2)),
        single_span_export(bare_span("b", "02", "", 3, 4)),
        single_span_export(bare_span("c", "03", "", 5, 6)),
    ];
    let out = render_lines(&exports);
    assert_eq!(out.matches('\n').count(), 3);
    assert!(out.ends_with('\n'));
    let lines: Vec<&str> = out.split_terminator('\n').collect();
    assert_eq!(lines.len(), 3);
    for line in &lines {
        let v = parse(line);
        assert!(v.is_object());
    }
    assert_eq!(parse(lines[0])["resourceSpans"][0]["scopeSpans"][0]["spans"][0]["name"], "a");
    assert_eq!(parse(lines[2])["resourceSpans"][0]["scopeSpans"][0]["spans"][0]["name"], "c");
}

#[test]
fn two_invocations_stay_independent() {
    let first = render_lines(&vec![single_span_export(bare_span("a", "01", "", 1, 2))]);
    let second = render_lines(&vec![
        single_span_export(bare_span("b", "02", "", 3, 4)),
        single_span_export(bare_span("c", "03", "", 5, 6)),
    ]);
    let all = format!("{first}{second}");
    let lines: Vec<&str> = all.split_terminator('\n').collect();
    assert_eq!(lines.len(), 3);
    for line in lines {
        parse(line);
    }
}

#[test]
fn empty_export_list_renders_nothing() {
    assert_eq!(render_lines(&vec![]), "");
}

#[test]
fn absent_fields_are_omitted_not_null() {
    let line = export_json_line(&single_span_export(bare_span("x", "ab", "", 1, 2)));
    assert!(!line.contains("null"));
    let v = parse(&line);
    let span = &v["resourceSpans"][0]["scopeSpans"][0]["spans"][0];
    let obj = span.as_object().unwrap();
    for key in [
        "attributes",
        "droppedAttributesCount",
        "events",
        "droppedEventsCount",
        "links",
        "droppedLinksCount",
        "status",
    ] {
        assert!(!obj.contains_key(key), "absent field {key} must be omitted");
    }
    let resource = v["resourceSpans"][0]["resource"].as_object().unwrap();
    assert!(resource.is_empty());
    let scope_span = v["resourceSpans"][0]["scopeSpans"][0].as_object().unwrap();
    assert!(!scope_span.contains_key("scope"));
}

#[test]
fn present_empty_list_stays_distinct_from_absent() {
    let mut span = bare_span("x", "ab", "", 1, 2);
    span.attributes = Some(vec![]);
    let line = export_json_line(&single_span_export(span));
    assert!(line.contains("\"attributes\":[]"));
    let v = parse(&line);
    let attrs = v["resourceSpans"][0]["scopeSpans"][0]["spans"][0]["attributes"]
        .as_array()
        .unwrap();
    assert!(attrs.is_empty());

    let export = TraceExport {
        resource_spans: vec![ResourceSpan {
            resource: Resource {
                attributes: Some(vec![]),
            },
            scope_spans: vec![],
        }],
    };
    let v = parse(&export_json_line(&export));
    assert!(v["resourceSpans"][0]["resource"]["attributes"]
        .as_array()
        .unwrap()
        .is_empty());
}

#[test]
fn attribute_order_is_preserved() {
    let mut span = bare_span("x", "ab", "", 1, 2);
    span.attributes = Some(vec![attr("zulu", "1"), attr("alpha", "2"), attr("mike", "3")]);
    let v = parse(&export_json_line(&single_span_export(span)));
    let attrs = v["resourceSpans"][0]["scopeSpans"][0]["spans"][0]["attributes"]
        .as_array()
        .unwrap();
    let keys: Vec<&str> = attrs.iter().map(|a| a["key"].as_str().unwrap()).collect();
    assert_eq!(keys, ["zulu", "alpha", "mike"]);
}

#[test]
fn span_order_is_preserved() {
    let export = TraceExport {
        resource_spans: vec![ResourceSpan {
            resource: Resource { attributes: None },
            scope_spans: vec![ScopeSpan {
                scope: None,
                spans: vec![
                    bare_span("first", "01", "", 1, 2),
                    bare_span("second", "02", "", 3, 4),
                    bare_span("third", "03", "", 5, 6),
                ],
            }],
        }],
    };
    let v = parse(&export_json_line(&export));
    let spans = v["resourceSpans"][0]["scopeSpans"][0]["spans"]
        .as_array()
        .unwrap();
    let names: Vec<&str> = spans.iter().map(|s| s["name"].as_str().unwrap()).collect();
    assert_eq!(names, ["first", "second", "third"]);
}

#[test]
fn string_contents_are_escaped() {
    let mut span = bare_span("quote \" backslash \\ newline \n tab \t", "ab", "", 1, 2);
    span.attributes = Some(vec![attr("k", "v\"\\\u{1}")]);
    let line = export_json_line(&single_span_export(span));
    assert_eq!(line.matches('\n').count(), 0);
    let v = parse(&line);
    let s = &v["resourceSpans"][0]["scopeSpans"][0]["spans"][0];
    assert_eq!(
        s["name"].as_str().unwrap(),
        "quote \" backslash \\ newline \n tab \t"
    );
    assert_eq!(
        s["attributes"][0]["value"]["stringValue"].as_str().unwrap(),
        "v\"\\\u{1}"
    );
}

#[test]
fn scope_renders_as_empty_object_when_present() {
    let export = TraceExport {
        resource_spans: vec![ResourceSpan {
            resource: Resource { attributes: None },
            scope_spans: vec![ScopeSpan {
                scope: Some(Scope {}),
                spans: vec![],
            }],
        }],
    };
    let line = export_json_line(&export);
    assert!(line.contains("\"scope\":{}"));
    let v = parse(&line);
    assert!(v["resourceSpans"][0]["scopeSpans"][0]["scope"]
        .as_object()
        .unwrap()
        .is_empty());
}

#[test]
fn status_fields_are_independently_optional() {
    let mut span = bare_span("x", "ab", "", 1, 2);
    span.status = Some(Status {
        message: Some("boom".to_string()),
        code: Some(2),
    });
    let v = parse(&export_json_line(&single_span_export(span)));
    let status = &v["resourceSpans"][0]["scopeSpans"][0]["spans"][0]["status"];
    assert_eq!(status["message"].as_str().unwrap(), "boom");
    assert_eq!(status["code"].as_u64().unwrap(), 2);

    let mut span = bare_span("x", "ab", "", 1, 2);
    span.status = Some(Status {
        message: None,
        code: Some(0),
    });
    let line = export_json_line(&single_span_export(span));
    assert!(line.contains("\"status\":{\"code\":0}"));

    let mut span = bare_span("x", "ab", "", 1, 2);
    span.status = Some(Status {
        message: None,
        code: None,
    });
    let line = export_json_line(&single_span_export(span));
    assert!(line.contains("\"status\":{}"));
}

#[test]
fn events_and_links_carry_their_fields() {
    let mut span = bare_span("x", "ab", "", 1, 2);
    span.events = Some(vec![Event {
        time_unix_nano: 1_700_000_000_000_000_123,
        name: "started".to_string(),
        attributes: Some(vec![attr("phase", "warm")]),
        dropped_attributes_count: Some(1),
    }]);
    span.dropped_events_count = Some(4);
    span.links = Some(vec![Link {
        trace_id: "0af7651916cd43dd8448eb211c80319c".to_string(),
        span_id: "b7ad6b7169203331".to_string(),
        attributes: None,
        dropped_attributes_count: None,
    }]);
    span.dropped_links_count = Some(0);
    let v = parse(&export_json_line(&single_span_export(span)));
    let s = &v["resourceSpans"][0]["scopeSpans"][0]["spans"][0];
    let event = &s["events"][0];
    assert_eq!(
        event["timeUnixNano"].as_str().unwrap(),
        "1700000000000000123"
    );
    assert_eq!(event["name"].as_str().unwrap(), "started");
    assert_eq!(event["attributes"][0]["key"].as_str().unwrap(), "phase");
    assert_eq!(event["droppedAttributesCount"].as_u64().unwrap(), 1);
    assert_eq!(s["droppedEventsCount"].as_u64().unwrap(), 4);
    let link = &s["links"][0];
    assert_eq!(
        link["traceId"].as_str().unwrap(),
        "0af7651916cd43dd8448eb211c80319c"
    );
    assert_eq!(link["spanId"].as_str().unwrap(), "b7ad6b7169203331");
    assert!(!link.as_object().unwrap().contains_key("attributes"));
    assert_eq!(s["droppedLinksCount"].as_u64().unwrap(), 0);
}

#[test]
fn timestamps_render_as_quoted_digit_strings() {
    let span = bare_span("x", "ab", "", 0, u64::MAX);
    let v = parse(&export_json_line(&single_span_export(span)));
    let s = &v["resourceSpans"][0]["scopeSpans"][0]["spans"][0];
    assert_eq!(s["startTimeUnixNano"].as_str().unwrap(), "0");
    assert_eq!(s["endTimeUnixNano"].as_str().unwrap(), "18446744073709551615");
}
