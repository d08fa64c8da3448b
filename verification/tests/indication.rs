use llm_linter::indication::{Indication, IndicationKind, Indications, Location};

fn finding(kind: IndicationKind, message: &str) -> Indication {
    Indication {
        kind,
        message: message.to_string(),
        location: Location { path: "src/main.rs".to_string(), start_line: 1, end_line: 2 },
    }
}

fn mixed() -> Indications {
    Indications {
        values: vec![
            finding(IndicationKind::Warning, "w1"),
            finding(IndicationKind::Error, "e1"),
            finding(IndicationKind::Cancel, "c1"),
            finding(IndicationKind::Error, "e2"),
            finding(IndicationKind::Cancel, "c2"),
            finding(IndicationKind::Warning, "w2"),
            finding(IndicationKind::Error, "e3"),
        ],
    }
}

fn messages(indications: &Indications) -> Vec<String> {
    indications.values.iter().map(|i| i.message.clone()).collect()
}

#[test]
fn exclude_cancel_drops_the_withdrawn_findings() {
    let kept = mixed().exclude_cancel();
    assert_eq!(messages(&kept), vec!["w1", "e1", "e2", "w2", "e3"]);
    assert!(kept.values.iter().all(|i| i.kind != IndicationKind::Cancel));
}

#[test]
fn exclude_warnings_drops_the_warnings() {
    let kept = mixed().exclude_warnings();
    assert_eq!(messages(&kept), vec!["e1", "c1", "e2", "c2", "e3"]);
    assert!(kept.values.iter().all(|i| i.kind != IndicationKind::Warning));
}

#[test]
fn only_the_errors_are_reported_in_their_order() {
    assert_eq!(messages(&mixed().reportable()), vec!["e1", "e2", "e3"]);
    assert_eq!(messages(&mixed().exclude_cancel().exclude_warnings()), vec!["e1", "e2", "e3"]);
    assert_eq!(messages(&mixed().exclude_warnings().exclude_cancel()), vec!["e1", "e2", "e3"]);
    let kept = mixed().reportable();
    assert!(kept.values.iter().all(|i| i.kind == IndicationKind::Error));
    assert_eq!(kept.values[0].location.path, "src/main.rs");
    assert_eq!(kept.values[0].location.start_line, 1);
    assert_eq!(kept.values[0].location.end_line, 2);
}

#[test]
fn filters_on_nothing_give_nothing() {
    assert_eq!(Indications { values: vec![] }.exclude_cancel().values.len(), 0);
    assert_eq!(Indications { values: vec![] }.exclude_warnings().values.len(), 0);
    assert_eq!(Indications { values: vec![] }.reportable().values.len(), 0);
    let none = Indications {
        values: vec![finding(IndicationKind::Cancel, "c"), finding(IndicationKind::Warning, "w")],
    };
    assert_eq!(none.reportable().values.len(), 0);
}

#[test]
fn severity_words_round_trip() {
    for kind in [IndicationKind::Error, IndicationKind::Warning, IndicationKind::Cancel] {
        assert_eq!(IndicationKind::from_token(kind.as_token()), Some(kind));
    }
    assert_eq!(IndicationKind::from_token("error"), Some(IndicationKind::Error));
    assert_eq!(IndicationKind::from_token("warning"), Some(IndicationKind::Warning));
    assert_eq!(IndicationKind::from_token("cancel"), Some(IndicationKind::Cancel));
    assert_eq!(IndicationKind::Error.as_token(), "error");
    assert_eq!(IndicationKind::Warning.as_token(), "warning");
    assert_eq!(IndicationKind::Cancel.as_token(), "cancel");
}

#[test]
fn other_words_name_no_severity() {
    for word in ["", "Error", "ERROR", "errors", " error", "error ", "info", "warn", "cancelled", "err"] {
        assert_eq!(IndicationKind::from_token(word), None, "word: {:?}", word);
    }
}

#[test]
fn severities_are_shown_by_their_names() {
    assert_eq!(IndicationKind::Error.name(), format!("{:?}", IndicationKind::Error));
    assert_eq!(IndicationKind::Warning.name(), format!("{:?}", IndicationKind::Warning));
    assert_eq!(IndicationKind::Cancel.name(), format!("{:?}", IndicationKind::Cancel));
    assert_eq!(IndicationKind::Cancel.name(), "Cancel");
}

#[test]
fn a_location_on_one_line_is_single() {
    let at = |start_line, end_line| Location { path: "a".to_string(), start_line, end_line };
    assert!(at(10, 10).is_single_line());
    assert!(at(0, 0).is_single_line());
    assert!(!at(10, 11).is_single_line());
    assert!(!at(11, 10).is_single_line());
}
