//! Rules written down in a markdown document.
//!
//! A line that holds a marker `<!-- llm-lint-glob: PATTERN -->` opens a rule
//! for the files that `PATTERN` names. The lines that follow, up to the next
//! marker or the end of the document, are the rule's text. Lines before the
//! first marker belong to no rule, and a marker that no line follows opens
//! none. A marker that repeats an earlier glob opens a rule of its own.

use vstd::prelude::*;
use crate::rules::{Rule, RuleView, Rules, rule_views};
use crate::text::{
    chars_of, found_at, is_whitespace, joined, lemma_split_joined, line_views, lines_of,
    occurs_at, skip_spaces, split_lines, string_of,
};

verus! {

/// What a marker begins with.
pub open spec fn marker_open() -> Seq<char> {
    "<!--"@
}

/// What names a marker as a glob marker; the glob follows.
pub open spec fn marker_name() -> Seq<char> {
    "llm-lint-glob: "@
}

/// What a marker ends with.
pub open spec fn marker_close() -> Seq<char> {
    "-->"@
}

/// Where the glob starts in a marker that begins at `i`: behind the opening,
/// any whitespace, and the marker's name.
pub open spec fn glob_start(line: Seq<char>, i: int) -> Option<int> {
    let name_at = skip_spaces(line, i + marker_open().len());
    if occurs_at(line, marker_open(), i) && occurs_at(line, marker_name(), name_at) {
        Some(name_at + marker_name().len())
    } else {
        None
    }
}

/// Whether nothing but whitespace stands between `p` and a closing of the marker.
pub open spec fn closes_at(line: Seq<char>, p: int) -> bool {
    occurs_at(line, marker_close(), skip_spaces(line, p))
}

/// Where the glob that is read from `p` on ends: at the first position from
/// which the marker closes, provided no line feed comes before it.
pub open spec fn glob_end(line: Seq<char>, p: int) -> Option<int>
    decreases line.len() - p,
{
    if p < 0 || p > line.len() {
        None
    } else if closes_at(line, p) {
        Some(p)
    } else if p < line.len() && line[p] != '\n' {
        glob_end(line, p + 1)
    } else {
        None
    }
}

/// The glob of the first marker that begins at `i` or later.
pub open spec fn marker_from(line: Seq<char>, i: int) -> Option<Seq<char>>
    decreases line.len() - i,
{
    if i < 0 || i >= line.len() {
        None
    } else {
        match glob_start(line, i) {
            Some(start) => match glob_end(line, start) {
                Some(end) => Some(line.subrange(start, end)),
                None => marker_from(line, i + 1),
            },
            None => marker_from(line, i + 1),
        }
    }
}

/// The glob that a line's marker names, where the line holds a marker: that
/// of the leftmost marker, read as short as it can be.
pub open spec fn marker_glob(line: Seq<char>) -> Option<Seq<char>> {
    marker_from(line, 0)
}

/// The end of a glob is the first position behind its start from which the
/// marker closes, and the glob holds no line feed.
pub proof fn lemma_glob_end(line: Seq<char>, p: int)
    requires
        0 <= p <= line.len(),
    ensures
        glob_end(line, p) matches Some(end) ==> {
            &&& p <= end <= line.len()
            &&& closes_at(line, end)
            &&& forall|q: int| p <= q < end ==> !closes_at(line, q) && line[q] != '\n'
        },
        glob_end(line, p) is None ==> !closes_at(line, p),
    decreases line.len() - p,
{
    if !closes_at(line, p) && p < line.len() && line[p] != '\n' {
        lemma_glob_end(line, p + 1);
    }
}

/// The first position at or after `i` that holds no whitespace.
fn past_spaces(line: &Vec<char>, i: usize) -> (j: usize)
    requires
        i <= line.len(),
    ensures
        i <= j <= line.len(),
        j == skip_spaces(line@, i as int),
{
    let mut j: usize = i;
    while j < line.len() && is_whitespace(line[j])
        invariant
            i <= j <= line.len(),
            skip_spaces(line@, i as int) == skip_spaces(line@, j as int),
        decreases line.len() - j,
    {
        j = j + 1;
    }
    j
}

/// Where the glob starts in a marker that begins at `i`, if one begins there.
fn find_glob_start(line: &Vec<char>, i: usize) -> (start: Option<usize>)
    requires
        i < line.len(),
    ensures
        match start {
            Some(s) => s <= line.len() && glob_start(line@, i as int) == Some(s as int),
            None => glob_start(line@, i as int) is None,
        },
{
    if !found_at(line, "<!--", i) {
        return None;
    }
    let name_at = past_spaces(line, i + "<!--".unicode_len());
    if found_at(line, "llm-lint-glob: ", name_at) {
        Some(name_at + "llm-lint-glob: ".unicode_len())
    } else {
        None
    }
}

/// Where the glob that starts at `start` ends, if the marker closes.
fn find_glob_end(line: &Vec<char>, start: usize) -> (end: Option<usize>)
    requires
        start <= line.len(),
    ensures
        match end {
            Some(e) => start <= e <= line.len() && glob_end(line@, start as int) == Some(e as int),
            None => glob_end(line@, start as int) is None,
        },
{
    let mut p: usize = start;
    loop
        invariant
            start <= p <= line.len(),
            glob_end(line@, start as int) == glob_end(line@, p as int),
        decreases line.len() - p,
    {
        let close_at = past_spaces(line, p);
        if found_at(line, "-->", close_at) {
            return Some(p);
        }
        if p < line.len() && line[p] != '\n' {
            p = p + 1;
        } else {
            return None;
        }
    }
}

/// The glob that the marker of `line` names, where `line` holds a marker.
pub fn marker_of(line: &Vec<char>) -> (glob: Option<String>)
    ensures
        match glob {
            Some(g) => marker_glob(line@) == Some(g@),
            None => marker_glob(line@) is None,
        },
{
    let mut i: usize = 0;
    while i < line.len()
        invariant
            i <= line.len(),
            marker_glob(line@) == marker_from(line@, i as int),
        decreases line.len() - i,
    {
        if let Some(start) = find_glob_start(line, i) {
            if let Some(end) = find_glob_end(line, start) {
                return Some(string_of(line, start, end));
            }
        }
        i = i + 1;
    }
    None
}

/// A rule that a marker has opened: its glob, and its text once a line was read for it.
pub struct OpenRule {
    pub glob: Seq<char>,
    pub content: Option<Seq<char>>,
}

/// How far a document has been read: the rules that are complete, and the
/// rule that the last marker opened, if a marker was seen.
pub struct Reading {
    pub closed: Seq<RuleView>,
    pub open: Option<OpenRule>,
}

/// The rules read so far, the open one taken as complete. An open rule for
/// which no line was read is none.
pub open spec fn closed_rules(reading: Reading) -> Seq<RuleView> {
    match reading.open {
        Some(OpenRule { glob, content: Some(content) }) => reading.closed.push(
            RuleView { target_file_glob: glob, content },
        ),
        _ => reading.closed,
    }
}

/// Reading one more line: a marker completes the open rule and opens a new
/// one; any other line is added to the open rule's text, on a line of its own.
pub open spec fn read_line(reading: Reading, line: Seq<char>) -> Reading {
    match marker_glob(line) {
        Some(glob) => Reading {
            closed: closed_rules(reading),
            open: Some(OpenRule { glob, content: None }),
        },
        None => match reading.open {
            Some(OpenRule { glob, content }) => Reading {
                closed: reading.closed,
                open: Some(
                    OpenRule {
                        glob,
                        content: Some(
                            match content {
                                Some(text) => text + seq!['\n'] + line,
                                None => line,
                            },
                        ),
                    },
                ),
            },
            None => reading,
        },
    }
}

/// Reading all of `lines`, from the first on.
pub open spec fn read_lines(lines: Seq<Seq<char>>) -> Reading
    decreases lines.len(),
{
    if lines.len() == 0 {
        Reading { closed: Seq::empty(), open: None }
    } else {
        read_line(read_lines(lines.drop_last()), lines.last())
    }
}

/// The rules that a document holds.
pub open spec fn document_rules(raw: Seq<char>) -> Seq<RuleView> {
    closed_rules(read_lines(split_lines(raw)))
}

/// After a marker and lines that hold no marker, one rule is open: that of
/// the marker, with the lines as its text.
pub proof fn lemma_rule_collects_lines(marker: Seq<char>, lines: Seq<Seq<char>>)
    requires
        marker_glob(marker) is Some,
        forall|i: int| 0 <= i < lines.len() ==> marker_glob(#[trigger] lines[i]) is None,
    ensures
        read_lines(seq![marker] + lines) == (Reading {
            closed: Seq::empty(),
            open: Some(
                OpenRule {
                    glob: marker_glob(marker)->0,
                    content: if lines.len() == 0 {
                        None
                    } else {
                        Some(joined(lines, seq!['\n']))
                    },
                },
            ),
        }),
    decreases lines.len(),
{
    let all = seq![marker] + lines;
    if lines.len() == 0 {
        assert(all.drop_last() == Seq::<Seq<char>>::empty());
        assert(all.last() == marker);
    } else {
        let front = lines.drop_last();
        assert(all.drop_last() == seq![marker] + front);
        assert(all.last() == lines.last());
        lemma_rule_collects_lines(marker, front);
    }
}

/// A document of one marker line and, below it, lines that hold no marker
/// gives one rule: the glob of the marker, and the lines as its text.
pub proof fn lemma_document_of_one_rule(marker: Seq<char>, lines: Seq<Seq<char>>)
    requires
        marker_glob(marker) is Some,
        lines.len() > 0,
        forall|i: int| 0 <= i < lines.len() ==> marker_glob(#[trigger] lines[i]) is None,
        forall|k: int| 0 <= k < marker.len() ==> marker[k] != '\n',
        forall|i: int, k: int|
            0 <= i < lines.len() && 0 <= k < lines[i].len() ==> #[trigger] lines[i][k] != '\n',
    ensures
        document_rules(joined(seq![marker] + lines, seq!['\n'])) == seq![
            RuleView {
                target_file_glob: marker_glob(marker)->0,
                content: joined(lines, seq!['\n']),
            },
        ],
{
    let all = seq![marker] + lines;
    lemma_split_joined(all);
    lemma_rule_collects_lines(marker, lines);
}

/// Where the reading stands, held in values that can be run: the complete
/// rules, the glob of the open rule, and the open rule's text.
spec fn reading_of(closed: Seq<Rule>, glob: Option<String>, content: Option<String>) -> Reading {
    Reading {
        closed: rule_views(closed),
        open: match glob {
            Some(g) => Some(
                OpenRule {
                    glob: g@,
                    content: match content {
                        Some(text) => Some(text@),
                        None => None,
                    },
                },
            ),
            None => None,
        },
    }
}

/// Appends `chars` to `text`.
fn push_chars(text: &mut String, chars: &Vec<char>)
    ensures
        final(text)@ == old(text)@ + chars@,
{
    let mut i: usize = 0;
    while i < chars.len()
        invariant
            i <= chars.len(),
            text@ == old(text)@ + chars@.take(i as int),
        decreases chars.len() - i,
    {
        text.push(chars[i]);
        i = i + 1;
    }
}

/// Completes the open rule, if lines were read for it.
fn close_open(closed: &mut Vec<Rule>, glob: Option<String>, content: Option<String>)
    ensures
        rule_views(final(closed)@) == closed_rules(reading_of(old(closed)@, glob, content)),
{
    let ghost before = rule_views(closed@);
    match (glob, content) {
        (Some(target_file_glob), Some(content)) => {
            let rule = Rule { target_file_glob, content };
            closed.push(rule);
        },
        _ => {},
    }
}

/// Reads the rules of a document.
pub fn parse(raw: &str) -> (rules: Rules)
    ensures
        rules@ == document_rules(raw@),
{
    let chars = chars_of(raw);
    let lines = lines_of(&chars);
    let mut closed: Vec<Rule> = Vec::new();
    let mut glob: Option<String> = None;
    let mut content: Option<String> = None;
    let mut i: usize = 0;
    proof {
        assert(rule_views(closed@) == Seq::<RuleView>::empty());
    }
    while i < lines.len()
        invariant
            i <= lines.len(),
            line_views(lines@) == split_lines(raw@),
            glob is None ==> content is None,
            reading_of(closed@, glob, content) == read_lines(line_views(lines@).take(i as int)),
        decreases lines.len() - i,
    {
        proof {
            let seen = line_views(lines@).take(i + 1);
            assert(seen.drop_last() == line_views(lines@).take(i as int));
        }
        let line = &lines[i];
        let ghost before = reading_of(closed@, glob, content);
        match marker_of(line) {
            Some(opened) => {
                close_open(&mut closed, glob, content);
                glob = Some(opened);
                content = None;
            },
            None => {
                if glob.is_some() {
                    let mut text = match content {
                        Some(text) => {
                            let mut text = text;
                            text.push('\n');
                            text
                        },
                        None => String::new(),
                    };
                    push_chars(&mut text, line);
                    proof {
                        match before.open->0.content {
                            Some(earlier) => {
                                assert(text@ == earlier + seq!['\n'] + line@);
                            },
                            None => {
                            },
                        }
                    }
                    content = Some(text);
                }
            },
        }
        i = i + 1;
    }
    assert(line_views(lines@).take(lines.len() as int) == line_views(lines@));
    close_open(&mut closed, glob, content);
    Rules { all: closed }
}

} // verus!
