use llm_linter::indication::{Indication, IndicationKind, Indications, Location};
use llm_linter::report::{
    add_suffix, comment_request, comments_url, StdoutReporter, COMMENT_DELAY_SECS,
};

fn finding(kind: IndicationKind, message: &str, start_line: u64, end_line: u64) -> Indication {
    Indication {
        kind,
        message: message.to_string(),
        location: Location { path: "src/main.rs".to_string(), start_line, end_line },
    }
}

#[test]
fn a_comment_on_one_line_has_no_start_of_a_range() {
    let request = comment_request(&finding(IndicationKind::Error, "no unwrap", 10, 10), "abc123");
    assert_eq!(request.start_line, None);
    assert_eq!(request.start_side, None);
    assert_eq!(request.line, 10);
    assert_eq!(request.side, "RIGHT");
    assert_eq!(request.path, "src/main.rs");
    assert_eq!(request.commit_id, "abc123");
    assert_eq!(
        request.body,
        "no unwrap\n\nReported by [LLM linter](https://github.com/HosokawaR/LLM-linter)"
    );
}

#[test]
fn a_comment_on_a_span_starts_on_the_right_side() {
    let request = comment_request(&finding(IndicationKind::Error, "too long", 20, 30), "f00");
    assert_eq!(request.start_line, Some(20));
    assert_eq!(request.start_side, Some("RIGHT".to_string()));
    assert_eq!(request.line, 30);
    assert_eq!(request.side, "RIGHT");
    assert_eq!(request.commit_id, "f00");
}

#[test]
fn the_suffix_follows_an_empty_line() {
    assert_eq!(
        add_suffix("msg"),
        format!(
            "{}\n\n{}",
            "msg", "Reported by [LLM linter](https://github.com/HosokawaR/LLM-linter)"
        )
    );
    assert_eq!(
        add_suffix(""),
        "\n\nReported by [LLM linter](https://github.com/HosokawaR/LLM-linter)"
    );
}

#[test]
fn comments_go_to_the_pull_request() {
    assert_eq!(
        comments_url("HosokawaR", "LLM-linter", 42),
        "https://api.github.com/repos/HosokawaR/LLM-linter/pulls/42/comments"
    );
    assert_eq!(
        comments_url("o", "r", u64::MAX),
        format!("https://api.github.com/repos/{}/{}/pulls/{}/comments", "o", "r", u64::MAX)
    );
    assert_eq!(COMMENT_DELAY_SECS, 1);
}

#[test]
fn a_finding_is_shown_with_its_place_and_kind() {
    let reporter = StdoutReporter::new();
    let shown = reporter.render(&finding(IndicationKind::Warning, "maybe", 3, 14));
    assert_eq!(shown, "src/main.rs\nfrom 3 to 14\nkind: Warning\nmaybe\n");
    let indication = finding(IndicationKind::Error, "two\nlines", 0, 1000);
    assert_eq!(
        reporter.render(&indication),
        format!(
            "{}\nfrom {} to {}\nkind: {:?}\n{}\n",
            indication.location.path,
            indication.location.start_line,
            indication.location.end_line,
            indication.kind,
            indication.message
        )
    );
}

#[test]
fn only_errors_are_shown() {
    let reporter = StdoutReporter::new();
    let shown = reporter.report(Indications {
        values: vec![
            finding(IndicationKind::Cancel, "c", 1, 1),
            finding(IndicationKind::Error, "first", 2, 3),
            finding(IndicationKind::Warning, "w", 4, 4),
            finding(IndicationKind::Error, "second", 5, 5),
        ],
    });
    assert_eq!(
        shown,
        vec![
            "src/main.rs\nfrom 2 to 3\nkind: Error\nfirst\n",
            "src/main.rs\nfrom 5 to 5\nkind: Error\nsecond\n"
        ]
    );
    assert_eq!(reporter.report(Indications { values: vec![] }).len(), 0);
}
