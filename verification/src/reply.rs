//! Reading a reply of the model: a JSON object whose member `messages`
//! lists findings, each with a `kind`, a `message` and a `location` that
//! gives `start_line` and `end_line`. Other members are passed over.

use vstd::prelude::*;
use crate::indication::{Indication, IndicationKind, IndicationView, Location, LocationView,
    indication_views};
use crate::json::{Document, Lookup, LookupView, entry, json_entries};
use crate::text::{decimal, decimal_string};

verus! {

/// The span of lines that the model gives for a finding.
#[derive(Debug)]
pub struct GptIndicationLocation {
    pub start_line: u64,
    pub end_line: u64,
}

/// A finding as the model words it: its severity is still a word.
#[derive(Debug)]
pub struct GptIndication {
    pub kind: String,
    pub message: String,
    pub location: GptIndicationLocation,
}

pub struct GptIndicationView {
    pub kind: Seq<char>,
    pub message: Seq<char>,
    pub location: GptIndicationLocation,
}

impl View for GptIndication {
    type V = GptIndicationView;

    open spec fn view(&self) -> GptIndicationView {
        GptIndicationView { kind: self.kind@, message: self.message@, location: self.location }
    }
}

/// The findings of one reply, in the order of the reply.
#[derive(Debug)]
pub struct ResponseContent {
    pub messages: Vec<GptIndication>,
}

impl View for ResponseContent {
    type V = Seq<GptIndicationView>;

    open spec fn view(&self) -> Seq<GptIndicationView> {
        Seq::new(self.messages@.len(), |i: int| self.messages@[i]@)
    }
}

/// Why a reply gives no findings.
#[derive(Debug)]
pub enum ResponseError {
    /// The reply is no JSON document.
    InvalidJson,
    /// The reply is JSON of another form: a member is missing, or holds a
    /// value of the wrong kind.
    SchemaMismatch,
    /// A finding's severity is none of `error`, `warning` and `cancel`.
    UnknownKind(String),
}

pub enum ResponseErrorView {
    InvalidJson,
    SchemaMismatch,
    UnknownKind(Seq<char>),
}

impl View for ResponseError {
    type V = ResponseErrorView;

    open spec fn view(&self) -> ResponseErrorView {
        match self {
            ResponseError::InvalidJson => ResponseErrorView::InvalidJson,
            ResponseError::SchemaMismatch => ResponseErrorView::SchemaMismatch,
            ResponseError::UnknownKind(kind) => ResponseErrorView::UnknownKind(kind@),
        }
    }
}

impl ResponseError {
    /// What is wrong, for a reader.
    pub open spec fn described(error: ResponseErrorView) -> Seq<char> {
        match error {
            ResponseErrorView::InvalidJson => "Failed to parse response: not a JSON document"@,
            ResponseErrorView::SchemaMismatch =>
                "Failed to parse response: not of the expected form"@,
            ResponseErrorView::UnknownKind(kind) => "Unknown indication kind: "@ + kind,
        }
    }

    /// What is wrong, for a reader.
    pub fn message(&self) -> (text: String)
        ensures
            text@ == Self::described(self@),
    {
        match self {
            ResponseError::InvalidJson => String::from_str(
                "Failed to parse response: not a JSON document",
            ),
            ResponseError::SchemaMismatch => String::from_str(
                "Failed to parse response: not of the expected form",
            ),
            ResponseError::UnknownKind(kind) => {
                let mut text = String::from_str("Unknown indication kind: ");
                text.append(kind.as_str());
                text
            },
        }
    }
}

/// The pointer to the array of findings.
pub open spec fn findings_pointer() -> Seq<char> {
    "/messages"@
}

/// The pointer to the value that finding `i` holds under `member`.
pub open spec fn member_pointer(i: nat, member: Seq<char>) -> Seq<char> {
    findings_pointer() + "/"@ + decimal(i) + "/"@ + member
}

/// The finding that item `i` of `messages` gives: its `kind` and `message`
/// must be strings, and `start_line` and `end_line` of its `location` whole
/// numbers that are not negative.
pub open spec fn finding_at(entries: Map<Seq<char>, LookupView>, i: nat) -> Option<
    GptIndicationView,
> {
    match (
        entry(entries, member_pointer(i, "kind"@)),
        entry(entries, member_pointer(i, "message"@)),
        entry(entries, member_pointer(i, "location/start_line"@)),
        entry(entries, member_pointer(i, "location/end_line"@)),
    ) {
        (
            LookupView::Text(kind),
            LookupView::Text(message),
            LookupView::Number(Some(start_line)),
            LookupView::Number(Some(end_line)),
        ) => Some(
            GptIndicationView {
                kind,
                message,
                location: GptIndicationLocation { start_line, end_line },
            },
        ),
        _ => None,
    }
}

/// The findings that a document holds, if it is of the expected form: an
/// object whose member `messages` is an array of findings.
pub open spec fn content_of(entries: Map<Seq<char>, LookupView>) -> Option<
    Seq<GptIndicationView>,
> {
    match entry(entries, findings_pointer()) {
        LookupView::Array(count) => if forall|i: nat|
            i < count ==> (#[trigger] finding_at(entries, i)) is Some {
            Some(Seq::new(count, |i: int| finding_at(entries, i as nat)->0))
        } else {
            None
        },
        _ => None,
    }
}

/// The finding that the model's words stand for, in the file `path`; none
/// where the severity is no known word.
pub open spec fn indication_of(finding: GptIndicationView, path: Seq<char>) -> Option<
    IndicationView,
> {
    match IndicationKind::of_token(finding.kind) {
        Some(kind) => Some(
            IndicationView {
                kind,
                message: finding.message,
                location: LocationView {
                    path,
                    start_line: finding.location.start_line,
                    end_line: finding.location.end_line,
                },
            },
        ),
        None => None,
    }
}

/// The first position at or behind `from` whose severity is no known word,
/// or the number of findings where there is none.
pub open spec fn first_unknown(findings: Seq<GptIndicationView>, from: int) -> int
    decreases findings.len() - from,
{
    if from < 0 || from >= findings.len() {
        findings.len() as int
    } else if IndicationKind::of_token(findings[from].kind) is None {
        from
    } else {
        first_unknown(findings, from + 1)
    }
}

/// What a list of findings in the model's words comes to for the file
/// `path`: the findings in the same order, each in that file; or the first
/// severity that is no known word.
pub open spec fn located(findings: Seq<GptIndicationView>, path: Seq<char>) -> Result<
    Seq<IndicationView>,
    ResponseErrorView,
> {
    let unknown = first_unknown(findings, 0);
    if 0 <= unknown < findings.len() {
        Err(ResponseErrorView::UnknownKind(findings[unknown].kind))
    } else {
        Ok(Seq::new(findings.len(), |i: int| indication_of(findings[i], path)->0))
    }
}

/// What a document comes to for the file `path`: its findings, or the
/// reason why it gives none.
pub open spec fn read_document(entries: Map<Seq<char>, LookupView>, path: Seq<char>) -> Result<
    Seq<IndicationView>,
    ResponseErrorView,
> {
    match content_of(entries) {
        None => Err(ResponseErrorView::SchemaMismatch),
        Some(findings) => located(findings, path),
    }
}

/// What a reply comes to for the file `path`, given the document that the
/// reply holds, if it holds one.
pub open spec fn interpreted(
    document: Option<Map<Seq<char>, LookupView>>,
    path: Seq<char>,
) -> Result<Seq<IndicationView>, ResponseErrorView> {
    match document {
        None => Err(ResponseErrorView::InvalidJson),
        Some(entries) => read_document(entries, path),
    }
}

/// Whether `outcome` is what `expected` says: the same findings, or the same error.
pub open spec fn agrees(
    outcome: Result<Vec<Indication>, ResponseError>,
    expected: Result<Seq<IndicationView>, ResponseErrorView>,
) -> bool {
    match (outcome, expected) {
        (Ok(indications), Ok(views)) => indication_views(indications@) == views,
        (Err(error), Err(view)) => error@ == view,
        _ => false,
    }
}

/// Every finding is located in the file that was asked about, and a known
/// severity word comes out as the severity it names.
pub proof fn lemma_located(findings: Seq<GptIndicationView>, path: Seq<char>, from: int)
    requires
        0 <= from <= findings.len(),
    ensures
        from <= first_unknown(findings, from) <= findings.len(),
        forall|k: int|
            from <= k < first_unknown(findings, from) ==> IndicationKind::of_token(
                (#[trigger] findings[k]).kind,
            ) is Some,
        first_unknown(findings, from) < findings.len() ==> IndicationKind::of_token(
            findings[first_unknown(findings, from)].kind,
        ) is None,
        from == 0 ==> (located(findings, path) matches Ok(indications) ==> {
            &&& indications.len() == findings.len()
            &&& forall|k: int|
                0 <= k < findings.len() ==> {
                    &&& (#[trigger] indications[k]).location.path == path
                    &&& Some(indications[k].kind) == IndicationKind::of_token(findings[k].kind)
                    &&& indications[k].message == findings[k].message
                }
        }),
    decreases findings.len() - from,
{
    if from < findings.len() && IndicationKind::of_token(findings[from].kind) is Some {
        lemma_located(findings, path, from + 1);
    }
}

/// The pointer to the value that finding `i` holds under `member`.
fn pointer_to(i: usize, member: &str) -> (pointer: String)
    ensures
        pointer@ == member_pointer(i as nat, member@),
{
    let mut pointer = String::from_str("/messages");
    pointer.append("/");
    pointer.append(decimal_string(i as u64).as_str());
    pointer.append("/");
    pointer.append(member);
    pointer
}

/// The string that finding `i` holds under `member`, if it holds one.
fn read_text(document: &Document, i: usize, member: &str) -> (text: Option<String>)
    ensures
        match text {
            Some(text) => entry(document@, member_pointer(i as nat, member@)) == LookupView::Text(
                text@,
            ),
            None => !(entry(document@, member_pointer(i as nat, member@)) is Text),
        },
{
    match document.at(pointer_to(i, member).as_str()) {
        Lookup::Text(text) => Some(text),
        _ => None,
    }
}

/// The whole number that finding `i` holds under `member`, if it holds one.
fn read_number(document: &Document, i: usize, member: &str) -> (number: Option<u64>)
    ensures
        match number {
            Some(n) => entry(document@, member_pointer(i as nat, member@)) == LookupView::Number(
                Some(n),
            ),
            None => !(entry(document@, member_pointer(i as nat, member@)) matches LookupView::Number(
                Some(_),
            )),
        },
{
    match document.at(pointer_to(i, member).as_str()) {
        Lookup::Number(Some(n)) => Some(n),
        _ => None,
    }
}

/// Finding `i` of the document, if the document has it in the expected form.
fn read_finding(document: &Document, i: usize) -> (finding: Option<GptIndication>)
    ensures
        match finding {
            Some(finding) => finding_at(document@, i as nat) == Some(finding@),
            None => finding_at(document@, i as nat) is None,
        },
{
    let kind = match read_text(document, i, "kind") {
        Some(kind) => kind,
        None => {
            return None;
        },
    };
    let message = match read_text(document, i, "message") {
        Some(message) => message,
        None => {
            return None;
        },
    };
    let start_line = match read_number(document, i, "location/start_line") {
        Some(start_line) => start_line,
        None => {
            return None;
        },
    };
    let end_line = match read_number(document, i, "location/end_line") {
        Some(end_line) => end_line,
        None => {
            return None;
        },
    };
    Some(GptIndication { kind, message, location: GptIndicationLocation { start_line, end_line } })
}

impl ResponseContent {
    /// The findings that a document holds, in the model's words.
    pub fn from_document(document: &Document) -> (content: Result<ResponseContent, ResponseError>)
        ensures
            match content_of(document@) {
                Some(findings) => content matches Ok(read) && read@ == findings,
                None => content matches Err(ResponseError::SchemaMismatch),
            },
    {
        let count = match document.at("/messages") {
            Lookup::Array(count) => count,
            _ => {
                return Err(ResponseError::SchemaMismatch);
            },
        };
        let mut messages: Vec<GptIndication> = Vec::new();
        let mut i: usize = 0;
        while i < count
            invariant
                i <= count,
                entry(document@, findings_pointer()) == LookupView::Array(count as nat),
                messages@.len() == i,
                forall|k: nat|
                    k < i ==> finding_at(document@, k) == Some(#[trigger] messages@[k as int]@),
            decreases count - i,
        {
            match read_finding(document, i) {
                Some(finding) => {
                    messages.push(finding);
                },
                None => {
                    return Err(ResponseError::SchemaMismatch);
                },
            }
            i = i + 1;
        }
        let content = ResponseContent { messages };
        proof {
            assert forall|k: nat| k < count implies (#[trigger] finding_at(
                document@,
                k,
            )) is Some by {
                assert(finding_at(document@, k) == Some(messages@[k as int]@));
            }
        }
        Ok(content)
    }

    /// The findings for the file `path`, each with the severity that its
    /// word names. The path is put into every finding.
    pub fn into_indications(self, path: &str) -> (indications: Result<
        Vec<Indication>,
        ResponseError,
    >)
        ensures
            agrees(indications, located(self@, path@)),
    {
        let ghost findings = self@;
        let mut indications: Vec<Indication> = Vec::new();
        let mut i: usize = 0;
        while i < self.messages.len()
            invariant
                i <= self.messages.len(),
                findings == self@,
                indications@.len() == i,
                first_unknown(findings, 0) == first_unknown(findings, i as int),
                forall|k: int|
                    0 <= k < i ==> indication_of(findings[k], path@) == Some(
                        #[trigger] indications@[k]@,
                    ),
            decreases self.messages.len() - i,
        {
            let message = &self.messages[i];
            match IndicationKind::from_token(message.kind.as_str()) {
                Some(kind) => {
                    indications.push(
                        Indication {
                            kind,
                            message: message.message.clone(),
                            location: Location {
                                path: String::from_str(path),
                                start_line: message.location.start_line,
                                end_line: message.location.end_line,
                            },
                        },
                    );
                },
                None => {
                    return Err(ResponseError::UnknownKind(message.kind.clone()));
                },
            }
            i = i + 1;
        }
        proof {
            assert(indication_views(indications@) == Seq::new(
                findings.len(),
                |i: int| indication_of(findings[i], path@)->0,
            ));
        }
        Ok(indications)
    }
}

/// The findings that a document gives for the file `path`.
pub fn interpret_document(document: &Document, path: &str) -> (outcome: Result<
    Vec<Indication>,
    ResponseError,
>)
    ensures
        agrees(outcome, read_document(document@, path@)),
{
    match ResponseContent::from_document(document) {
        Ok(content) => content.into_indications(path),
        Err(error) => Err(error),
    }
}

/// The findings that a reply of the model gives for the file `path`.
pub fn interpret_reply(reply: &str, path: &str) -> (outcome: Result<Vec<Indication>, ResponseError>)
    ensures
        agrees(outcome, interpreted(json_entries(reply@), path@)),
{
    match Document::parse(reply) {
        Some(document) => interpret_document(&document, path),
        None => Err(ResponseError::InvalidJson),
    }
}

} // verus!
