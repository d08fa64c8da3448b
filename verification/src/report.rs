//! What is handed to a reporter: review comments for the hosting platform,
//! and plain text for a terminal.

use vstd::prelude::*;
use crate::indication::{Indication, IndicationView, Indications, IndicationKind, is_of};
use crate::text::{decimal, decimal_string};

verus! {

/// Seconds to wait after a comment was posted, before the next one is.
pub const COMMENT_DELAY_SECS: u64 = 1;

/// The side of the change that every comment is anchored to.
pub open spec fn anchor_side() -> Seq<char> {
    "RIGHT"@
}

/// A message followed by the line that says who reported it.
pub open spec fn with_suffix(message: Seq<char>) -> Seq<char> {
    message + "\n\n"@ + "Reported by [LLM linter](https://github.com/HosokawaR/LLM-linter)"@
}

/// The body of a comment: the message, and who reports it.
pub fn add_suffix(message: &str) -> (body: String)
    ensures
        body@ == with_suffix(message@),
{
    let mut body = String::from_str(message);
    body.append("\n\n");
    body.append("Reported by [LLM linter](https://github.com/HosokawaR/LLM-linter)");
    body
}

/// A review comment anchored to one line, or to a span of lines, of a file
/// at a given commit.
#[derive(Debug)]
pub struct CommentRequest {
    pub body: String,
    pub commit_id: String,
    pub path: String,
    /// First line of the span; absent where the comment is on a single line.
    pub start_line: Option<u64>,
    /// Side of the first line; absent where the comment is on a single line.
    pub start_side: Option<String>,
    /// Last line of the span.
    pub line: u64,
    pub side: String,
}

pub struct CommentRequestView {
    pub body: Seq<char>,
    pub commit_id: Seq<char>,
    pub path: Seq<char>,
    pub start_line: Option<u64>,
    pub start_side: Option<Seq<char>>,
    pub line: u64,
    pub side: Seq<char>,
}

impl View for CommentRequest {
    type V = CommentRequestView;

    open spec fn view(&self) -> CommentRequestView {
        CommentRequestView {
            body: self.body@,
            commit_id: self.commit_id@,
            path: self.path@,
            start_line: self.start_line,
            start_side: match self.start_side {
                Some(side) => Some(side@),
                None => None,
            },
            line: self.line,
            side: self.side@,
        }
    }
}

/// The comment that reports `finding` on the commit `commit_id`.
pub open spec fn comment_for(finding: IndicationView, commit_id: Seq<char>) -> CommentRequestView {
    let single = finding.location.start_line == finding.location.end_line;
    CommentRequestView {
        body: with_suffix(finding.message),
        commit_id,
        path: finding.location.path,
        start_line: if single {
            None
        } else {
            Some(finding.location.start_line)
        },
        start_side: if single {
            None
        } else {
            Some(anchor_side())
        },
        line: finding.location.end_line,
        side: anchor_side(),
    }
}

/// The comment that reports `indication` on the commit `commit_id`.
pub fn comment_request(indication: &Indication, commit_id: &str) -> (request: CommentRequest)
    ensures
        request@ == comment_for(indication@, commit_id@),
{
    let single = indication.location.is_single_line();
    CommentRequest {
        body: add_suffix(indication.message.as_str()),
        commit_id: String::from_str(commit_id),
        path: indication.location.path.clone(),
        start_line: if single {
            None
        } else {
            Some(indication.location.start_line)
        },
        start_side: if single {
            None
        } else {
            Some(String::from_str("RIGHT"))
        },
        line: indication.location.end_line,
        side: String::from_str("RIGHT"),
    }
}

/// The address to which the comments on a pull request are posted.
pub open spec fn comments_address(owner: Seq<char>, repository: Seq<char>, pull_number: u64) -> Seq<
    char,
> {
    "https://api.github.com/repos/"@ + owner + "/"@ + repository + "/pulls/"@ + decimal(
        pull_number as nat,
    ) + "/comments"@
}

/// The address to which the comments on a pull request are posted.
pub fn comments_url(owner: &str, repository: &str, pull_number: u64) -> (url: String)
    ensures
        url@ == comments_address(owner@, repository@, pull_number),
{
    let mut url = String::from_str("https://api.github.com/repos/");
    url.append(owner);
    url.append("/");
    url.append(repository);
    url.append("/pulls/");
    url.append(decimal_string(pull_number).as_str());
    url.append("/comments");
    url
}

/// A finding as it is shown on a terminal.
pub open spec fn rendered(finding: IndicationView) -> Seq<char> {
    finding.location.path + "\nfrom "@ + decimal(finding.location.start_line as nat) + " to "@
        + decimal(finding.location.end_line as nat) + "\nkind: "@ + finding.kind.label() + "\n"@
        + finding.message + "\n"@
}

/// The texts shown for `findings`, one for each, in order.
pub open spec fn rendered_all(findings: Seq<IndicationView>) -> Seq<Seq<char>> {
    Seq::new(findings.len(), |i: int| rendered(findings[i]))
}

/// Reports findings as plain text.
pub struct StdoutReporter {}

impl StdoutReporter {
    /// A reporter for the terminal.
    pub fn new() -> (reporter: StdoutReporter)
        ensures
            reporter == (StdoutReporter {  }),
    {
        StdoutReporter {  }
    }

    /// The text that shows one finding.
    pub fn render(&self, indication: &Indication) -> (shown: String)
        ensures
            shown@ == rendered(indication@),
    {
        let mut shown = indication.location.path.clone();
        shown.append("\nfrom ");
        shown.append(decimal_string(indication.location.start_line).as_str());
        shown.append(" to ");
        shown.append(decimal_string(indication.location.end_line).as_str());
        shown.append("\nkind: ");
        shown.append(indication.kind.name());
        shown.append("\n");
        shown.append(indication.message.as_str());
        shown.append("\n");
        shown
    }

    /// The texts to print for a run: one for each error, in order; warnings
    /// and withdrawn findings are not shown.
    pub fn report(&self, indications: Indications) -> (shown: Vec<String>)
        ensures
            crate::text::texts(shown@) == rendered_all(
                indications@.filter(is_of(IndicationKind::Error)),
            ),
    {
        let kept = indications.reportable();
        let mut shown: Vec<String> = Vec::new();
        let mut i: usize = 0;
        while i < kept.values.len()
            invariant
                i <= kept.values.len(),
                crate::text::texts(shown@) == rendered_all(kept@.take(i as int)),
            decreases kept.values.len() - i,
        {
            let text = self.render(&kept.values[i]);
            shown.push(text);
            proof {
                assert(rendered_all(kept@.take(i + 1)) == rendered_all(kept@.take(i as int)).push(
                    rendered(kept@[i as int]),
                ));
            }
            i = i + 1;
        }
        shown
    }
}

} // verus!
