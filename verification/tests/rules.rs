use llm_linter::rules::markdown::{marker_of, parse};
use llm_linter::rules::{Rule, Rules};

fn chars(line: &str) -> Vec<char> {
    line.chars().collect()
}

fn pairs(rules: &Rules) -> Vec<(String, String)> {
    rules
        .all
        .iter()
        .map(|rule: &Rule| (rule.target_file_glob.clone(), rule.content.clone()))
        .collect()
}

fn pair(glob: &str, content: &str) -> (String, String) {
    (glob.to_string(), content.to_string())
}

#[test]
fn test_parse() {
    let markdown = "# Rules \n\n<!-- llm-lint-glob: src/**/*.rs -->\n## for Rust\n\n- Do not use `unwrap` in production code\n- Do not use `expect` in production code\n\n<!-- llm-lint-glob: src/**/*.md -->\n## for Markdown\n\n- Must have a title\n- Should use native markdown syntax\n";

    let rules = parse(markdown);

    assert_eq!(rules.all.len(), 2);
    assert_eq!(rules.all[0].target_file_glob, "src/**/*.rs");
    assert_eq!(
        rules.all[0].content,
        "## for Rust\n\n- Do not use `unwrap` in production code\n- Do not use `expect` in production code\n"
    );
    assert_eq!(rules.all[1].target_file_glob, "src/**/*.md");
    assert_eq!(
        rules.all[1].content,
        "## for Markdown\n\n- Must have a title\n- Should use native markdown syntax\n"
    );
}

#[test]
fn marker_gives_the_glob() {
    assert_eq!(marker_of(&chars("<!-- llm-lint-glob: src/**/*.rs -->")), Some("src/**/*.rs".to_string()));
    assert_eq!(marker_of(&chars("<!--llm-lint-glob: *.md-->")), Some("*.md".to_string()));
    assert_eq!(marker_of(&chars("x <!-- \t llm-lint-glob: a b   --> y")), Some("a b".to_string()));
    assert_eq!(marker_of(&chars("<!-- llm-lint-glob:  two -->")), Some(" two".to_string()));
    assert_eq!(marker_of(&chars("<!-- llm-lint-glob: -->")), Some("".to_string()));
}

#[test]
fn marker_needs_all_its_parts() {
    assert_eq!(marker_of(&chars("")), None);
    assert_eq!(marker_of(&chars("## for Rust")), None);
    assert_eq!(marker_of(&chars("<!-- llm-lint-glob:src -->")), None);
    assert_eq!(marker_of(&chars("<!-- llm-lint-glob: src")), None);
    assert_eq!(marker_of(&chars("<!-- llm-lint-glob: src --")), None);
    assert_eq!(marker_of(&chars("<!- llm-lint-glob: src -->")), None);
    assert_eq!(marker_of(&chars("<!-- LLM-lint-glob: src -->")), None);
}

#[test]
fn marker_is_the_leftmost_and_shortest() {
    assert_eq!(
        marker_of(&chars("<!-- llm-lint-glob: a --> <!-- llm-lint-glob: b -->")),
        Some("a".to_string())
    );
    assert_eq!(
        marker_of(&chars("<!-- llm-lint-glob: a <!-- llm-lint-glob: b -->")),
        Some("a <!-- llm-lint-glob: b".to_string())
    );
    assert_eq!(
        marker_of(&chars("<!-- <!-- llm-lint-glob: b -->")),
        Some("b".to_string())
    );
}

#[test]
fn marker_glob_holds_no_line_feed() {
    assert_eq!(marker_of(&chars("<!-- llm-lint-glob: a\n-->")), Some("a".to_string()));
    assert_eq!(marker_of(&chars("<!-- llm-lint-glob: a\nb -->")), None);
    assert_eq!(
        marker_of(&chars("<!-- llm-lint-glob: a\nb <!--\nllm-lint-glob: c\u{3000}-->")),
        Some("c".to_string())
    );
}

#[test]
fn marker_agrees_with_the_pattern() {
    let pattern = regex::Regex::new(r"<!--\s*llm-lint-glob: (.*?)\s*-->").unwrap();
    let words = [
        "<!--", " ", "\t", "llm-lint-glob:", "llm-lint-glob: ", "-->", "a", "*.rs", "\u{3000}",
        "--", ">", "\n", "\u{85}",
    ];
    let mut lines: Vec<String> = vec![String::new()];
    let mut from = 0;
    for _ in 0..4 {
        let until = lines.len();
        for i in from..until {
            for word in words.iter() {
                lines.push(format!("{}{}", lines[i], word));
            }
        }
        from = until;
    }
    for tail in ["-->", " -->", "x-->", " x \t-->", "\n-->"] {
        for head in ["<!--llm-lint-glob: ", "<!-- llm-lint-glob: ", "a<!--\u{a0}llm-lint-glob: "] {
            for middle in ["", "src/**/*.rs", "a -->", " ", "<!-- llm-lint-glob: b"] {
                lines.push(format!("{}{}{}", head, middle, tail));
            }
        }
    }
    assert!(lines.len() > 30000);
    let mut markers = 0;
    for line in lines.iter() {
        let expected = pattern
            .captures(line)
            .map(|found| found.get(1).unwrap().as_str().to_string());
        if expected.is_some() {
            markers += 1;
        }
        assert_eq!(marker_of(&chars(line)), expected, "line: {:?}", line);
    }
    assert!(markers > 100);
}

#[test]
fn lines_before_the_first_marker_belong_to_no_rule() {
    let rules = parse("intro\nmore\n<!-- llm-lint-glob: *.rs -->\nbody");
    assert_eq!(pairs(&rules), vec![pair("*.rs", "body")]);
    assert_eq!(parse("no marker\nat all\n").all.len(), 0);
    assert_eq!(parse("").all.len(), 0);
}

#[test]
fn a_marker_without_lines_opens_no_rule() {
    let rules = parse("<!-- llm-lint-glob: a -->\n<!-- llm-lint-glob: b -->\ntext");
    assert_eq!(pairs(&rules), vec![pair("b", "text")]);
    assert_eq!(parse("<!-- llm-lint-glob: a -->").all.len(), 0);
    assert_eq!(pairs(&parse("<!-- llm-lint-glob: a -->\n")), vec![pair("a", "")]);
}

#[test]
fn a_repeated_glob_opens_a_rule_of_its_own() {
    let rules = parse(
        "<!-- llm-lint-glob: a -->\none\n<!-- llm-lint-glob: b -->\ntwo\n<!-- llm-lint-glob: a -->\nthree\nfour",
    );
    assert_eq!(
        pairs(&rules),
        vec![pair("a", "one"), pair("b", "two"), pair("a", "three\nfour")]
    );
}

#[test]
fn the_text_of_a_rule_keeps_its_lines() {
    let rules = parse("<!-- llm-lint-glob: a -->\n\n  indented\r\n\nlast\n\n");
    assert_eq!(pairs(&rules), vec![pair("a", "\n  indented\r\n\nlast\n\n")]);
}
