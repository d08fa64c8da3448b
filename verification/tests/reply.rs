use llm_linter::indication::{Indication, IndicationKind, Indications};
use llm_linter::json::{Document, Lookup};
use llm_linter::reply::{
    interpret_document, interpret_reply, GptIndication, GptIndicationLocation, ResponseContent,
    ResponseError,
};

fn flat(indications: &Vec<Indication>) -> Vec<(IndicationKind, String, String, u64, u64)> {
    indications
        .iter()
        .map(|i| {
            (
                i.kind,
                i.message.clone(),
                i.location.path.clone(),
                i.location.start_line,
                i.location.end_line,
            )
        })
        .collect()
}

fn entry(
    kind: IndicationKind,
    message: &str,
    path: &str,
    start_line: u64,
    end_line: u64,
) -> (IndicationKind, String, String, u64, u64) {
    (kind, message.to_string(), path.to_string(), start_line, end_line)
}

#[test]
fn a_withdrawn_finding_is_not_reported() {
    let reply = r#"{"messages":[{"kind":"cancel","message":"ok","location":{"start_line":5,"end_line":5}}]}"#;
    let findings = interpret_reply(reply, "src/main.rs").unwrap();
    assert_eq!(flat(&findings), vec![entry(IndicationKind::Cancel, "ok", "src/main.rs", 5, 5)]);
    let kept = Indications { values: findings }.exclude_cancel().exclude_warnings();
    assert_eq!(kept.values.len(), 0);
    let findings = interpret_reply(reply, "src/main.rs").unwrap();
    assert_eq!(Indications { values: findings }.reportable().values.len(), 0);
}

#[test]
fn each_severity_word_gives_its_severity() {
    let reply = r#"{
        "messages": [
            {"location": {"start_line": 10, "end_line": 10}, "quotation": "q", "message": "first", "kind": "error"},
            {"location": {"start_line": 20, "end_line": 30}, "message": "second", "kind": "warning"},
            {"kind": "cancel", "message": "third", "location": {"end_line": 0, "start_line": 18446744073709551615}}
        ]
    }"#;
    let findings = interpret_reply(reply, "a/b.rs").unwrap();
    assert_eq!(
        flat(&findings),
        vec![
            entry(IndicationKind::Error, "first", "a/b.rs", 10, 10),
            entry(IndicationKind::Warning, "second", "a/b.rs", 20, 30),
            entry(IndicationKind::Cancel, "third", "a/b.rs", u64::MAX, 0),
        ]
    );
}

#[test]
fn the_path_is_the_one_that_was_asked_about() {
    let reply = r#"{"path":"evil.rs","messages":[{"kind":"error","message":"m","path":"other.rs","location":{"path":"elsewhere.rs","start_line":1,"end_line":2}}]}"#;
    let findings = interpret_reply(reply, "src/real.rs").unwrap();
    assert_eq!(flat(&findings), vec![entry(IndicationKind::Error, "m", "src/real.rs", 1, 2)]);
    let findings = interpret_reply(reply, "").unwrap();
    assert_eq!(findings[0].location.path, "");
}

#[test]
fn a_reply_without_findings_gives_none() {
    assert_eq!(interpret_reply(r#"{"messages":[]}"#, "p").unwrap().len(), 0);
    assert_eq!(interpret_reply(" {\"messages\" : [ ] , \"usage\": null}\n", "p").unwrap().len(), 0);
}

#[test]
fn text_that_is_no_json_is_an_error() {
    for reply in [
        "",
        "not json",
        "{",
        r#"{"messages":[}"#,
        r#"{"messages":[]} trailing"#,
        r#"{"messages":[]}{"messages":[]}"#,
        r#"{messages: []}"#,
        "{'messages': []}",
    ] {
        assert!(
            matches!(interpret_reply(reply, "p"), Err(ResponseError::InvalidJson)),
            "reply: {:?}",
            reply
        );
    }
    assert_eq!(
        ResponseError::InvalidJson.message(),
        "Failed to parse response: not a JSON document"
    );
}

#[test]
fn json_of_another_form_is_an_error() {
    for reply in [
        "null",
        "[]",
        "\"messages\"",
        "{}",
        r#"{"message":[]}"#,
        r#"{"messages":{}}"#,
        r#"{"messages":null}"#,
        r#"{"messages":[null]}"#,
        r#"{"messages":[[]]}"#,
        r#"{"messages":[{}]}"#,
        r#"{"messages":[{"message":"m","location":{"start_line":1,"end_line":1}}]}"#,
        r#"{"messages":[{"kind":"error","location":{"start_line":1,"end_line":1}}]}"#,
        r#"{"messages":[{"kind":"error","message":"m"}]}"#,
        r#"{"messages":[{"kind":null,"message":"m","location":{"start_line":1,"end_line":1}}]}"#,
        r#"{"messages":[{"kind":1,"message":"m","location":{"start_line":1,"end_line":1}}]}"#,
        r#"{"messages":[{"kind":"error","message":["m"],"location":{"start_line":1,"end_line":1}}]}"#,
        r#"{"messages":[{"kind":"error","message":"m","location":[1,1]}]}"#,
        r#"{"messages":[{"kind":"error","message":"m","location":{"start_line":1}}]}"#,
        r#"{"messages":[{"kind":"error","message":"m","location":{"end_line":1}}]}"#,
        r#"{"messages":[{"kind":"error","message":"m","location":{"start_line":-1,"end_line":1}}]}"#,
        r#"{"messages":[{"kind":"error","message":"m","location":{"start_line":1.0,"end_line":1}}]}"#,
        r#"{"messages":[{"kind":"error","message":"m","location":{"start_line":1,"end_line":1e2}}]}"#,
        r#"{"messages":[{"kind":"error","message":"m","location":{"start_line":"1","end_line":1}}]}"#,
        r#"{"messages":[{"kind":"error","message":"m","location":{"start_line":1,"end_line":18446744073709551616}}]}"#,
        r#"{"messages":[{"kind":"error","message":"m","location":{"start_line":1,"end_line":1}}, 7]}"#,
    ] {
        assert!(
            matches!(interpret_reply(reply, "p"), Err(ResponseError::SchemaMismatch)),
            "reply: {:?}",
            reply
        );
    }
    assert_eq!(
        ResponseError::SchemaMismatch.message(),
        "Failed to parse response: not of the expected form"
    );
}

#[test]
fn an_unknown_severity_word_is_an_error() {
    for word in ["info", "Error", "", "errors", "cancelled", " warning"] {
        let reply = format!(
            r#"{{"messages":[{{"kind":"error","message":"fine","location":{{"start_line":1,"end_line":1}}}},{{"kind":"{}","message":"m","location":{{"start_line":1,"end_line":1}}}},{{"kind":"other","message":"m","location":{{"start_line":1,"end_line":1}}}}]}}"#,
            word
        );
        match interpret_reply(&reply, "p") {
            Err(ResponseError::UnknownKind(named)) => assert_eq!(named, word),
            other => panic!("{:?} gave {:?}", word, other),
        }
    }
    assert_eq!(
        ResponseError::UnknownKind("info".to_string()).message(),
        "Unknown indication kind: info"
    );
}

#[test]
fn a_wrong_form_counts_before_an_unknown_word() {
    let reply = r#"{"messages":[{"kind":"info","message":"m","location":{"start_line":1,"end_line":1}},{"kind":"error"}]}"#;
    assert!(matches!(interpret_reply(reply, "p"), Err(ResponseError::SchemaMismatch)));
}

#[test]
fn a_document_is_read_value_by_value() {
    let document =
        Document::parse(r#"{"a": [1, "two", null, true, {"b": 2.5}], "c": -3, "d": 4, "e/f": {"~": []}}"#)
            .unwrap();
    assert!(matches!(document.at(""), Lookup::Object));
    assert!(matches!(document.at("/missing"), Lookup::Missing));
    assert!(matches!(document.at("a"), Lookup::Missing));
    assert!(matches!(document.at("/a"), Lookup::Array(5)));
    assert!(matches!(document.at("/a/0"), Lookup::Number(Some(1))));
    assert!(matches!(document.at("/a/00"), Lookup::Missing));
    assert!(matches!(document.at("/a/+0"), Lookup::Missing));
    assert!(matches!(document.at("/a/5"), Lookup::Missing));
    assert!(matches!(document.at("/a/b"), Lookup::Missing));
    match document.at("/a/1") {
        Lookup::Text(text) => assert_eq!(text, "two"),
        other => panic!("gave {:?}", other),
    }
    assert!(matches!(document.at("/a/2"), Lookup::Null));
    assert!(matches!(document.at("/a/3"), Lookup::Bool(true)));
    assert!(matches!(document.at("/a/4"), Lookup::Object));
    assert!(matches!(document.at("/a/4/b"), Lookup::Number(None)));
    assert!(matches!(document.at("/a/4/b/c"), Lookup::Missing));
    assert!(matches!(document.at("/c"), Lookup::Number(None)));
    assert!(matches!(document.at("/d"), Lookup::Number(Some(4))));
    assert!(matches!(document.at("/e/f"), Lookup::Missing));
    assert!(matches!(document.at("/e~1f"), Lookup::Object));
    assert!(matches!(document.at("/e~1f/~0"), Lookup::Array(0)));
    assert!(Document::parse("{").is_none());
    assert!(Document::parse("").is_none());
    assert!(Document::parse("1 2").is_none());
    assert!(matches!(Document::parse(" [ ] ").unwrap().at(""), Lookup::Array(0)));
    assert!(matches!(
        Document::parse("18446744073709551615").unwrap().at(""),
        Lookup::Number(Some(u64::MAX))
    ));
    assert!(matches!(
        Document::parse("18446744073709551616").unwrap().at(""),
        Lookup::Number(None)
    ));
}

#[test]
fn a_document_gives_its_findings() {
    let document = Document::parse(
        r#"{"messages":[{"location":{"start_line":3,"end_line":4},"message":"m","kind":"warning"}]}"#,
    )
    .unwrap();
    let findings = interpret_document(&document, "x.rs").unwrap();
    assert_eq!(flat(&findings), vec![entry(IndicationKind::Warning, "m", "x.rs", 3, 4)]);
    let other = Document::parse("null").unwrap();
    assert!(matches!(interpret_document(&other, "x.rs"), Err(ResponseError::SchemaMismatch)));
    let many = format!(
        r#"{{"messages":[{}]}}"#,
        (0..12)
            .map(|i| format!(
                r#"{{"kind":"error","message":"m{}","location":{{"start_line":{},"end_line":{}}}}}"#,
                i,
                i,
                i + 1
            ))
            .collect::<Vec<String>>()
            .join(",")
    );
    let findings = interpret_reply(&many, "y.rs").unwrap();
    assert_eq!(findings.len(), 12);
    for (i, finding) in findings.iter().enumerate() {
        assert_eq!(finding.message, format!("m{}", i));
        assert_eq!(finding.location.start_line, i as u64);
        assert_eq!(finding.location.end_line, i as u64 + 1);
    }
}

#[test]
fn findings_in_the_models_words_get_their_severity() {
    let worded = |kind: &str, message: &str| GptIndication {
        kind: kind.to_string(),
        message: message.to_string(),
        location: GptIndicationLocation { start_line: 7, end_line: 9 },
    };
    let content = ResponseContent { messages: vec![worded("error", "a"), worded("cancel", "b")] };
    let findings = content.into_indications("f.rs").unwrap();
    assert_eq!(
        flat(&findings),
        vec![
            entry(IndicationKind::Error, "a", "f.rs", 7, 9),
            entry(IndicationKind::Cancel, "b", "f.rs", 7, 9)
        ]
    );
    let content = ResponseContent {
        messages: vec![worded("error", "a"), worded("fatal", "b"), worded("odd", "c")],
    };
    match content.into_indications("f.rs") {
        Err(ResponseError::UnknownKind(word)) => assert_eq!(word, "fatal"),
        other => panic!("gave {:?}", other),
    }
    let document = Document::parse(r#"{"messages":[{"kind":"k","message":"m","location":{"start_line":1,"end_line":2}}]}"#).unwrap();
    let content = ResponseContent::from_document(&document).unwrap();
    assert_eq!(content.messages.len(), 1);
    assert_eq!(content.messages[0].kind, "k");
    assert_eq!(content.messages[0].message, "m");
    assert_eq!(content.messages[0].location.start_line, 1);
    assert_eq!(content.messages[0].location.end_line, 2);
}
