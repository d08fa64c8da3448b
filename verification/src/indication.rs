//! Findings reported by the model, and the policy that decides which of them
//! are passed on.

use vstd::prelude::*;
use crate::text::same_text;

verus! {

/// Severity of a finding.
#[derive(Clone, Copy, Debug, PartialEq, Eq, Structural)]
pub enum IndicationKind {
    /// The finding holds in every case.
    Error,
    /// The finding may hold, depending on what the change does not show.
    Warning,
    /// The model withdrew the finding when it weighed it again.
    Cancel,
}

impl IndicationKind {
    /// The word by which the model names this severity.
    pub open spec fn token(self) -> Seq<char> {
        match self {
            IndicationKind::Error => "error"@,
            IndicationKind::Warning => "warning"@,
            IndicationKind::Cancel => "cancel"@,
        }
    }

    /// The severity that a word of the model names, if it names one.
    pub open spec fn of_token(token: Seq<char>) -> Option<IndicationKind> {
        if token == "error"@ {
            Some(IndicationKind::Error)
        } else if token == "warning"@ {
            Some(IndicationKind::Warning)
        } else if token == "cancel"@ {
            Some(IndicationKind::Cancel)
        } else {
            None
        }
    }

    /// The name under which this severity is shown to a reader.
    pub open spec fn label(self) -> Seq<char> {
        match self {
            IndicationKind::Error => "Error"@,
            IndicationKind::Warning => "Warning"@,
            IndicationKind::Cancel => "Cancel"@,
        }
    }

    /// The word by which the model names this severity.
    pub fn as_token(&self) -> (token: &'static str)
        ensures
            token@ == self.token(),
    {
        match self {
            IndicationKind::Error => "error",
            IndicationKind::Warning => "warning",
            IndicationKind::Cancel => "cancel",
        }
    }

    /// The severity that `token` names, if it names one.
    pub fn from_token(token: &str) -> (kind: Option<IndicationKind>)
        ensures
            kind == Self::of_token(token@),
    {
        if same_text(token, "error") {
            Some(IndicationKind::Error)
        } else if same_text(token, "warning") {
            Some(IndicationKind::Warning)
        } else if same_text(token, "cancel") {
            Some(IndicationKind::Cancel)
        } else {
            None
        }
    }

    /// The name under which this severity is shown to a reader.
    pub fn name(&self) -> (label: &'static str)
        ensures
            label@ == self.label(),
    {
        match self {
            IndicationKind::Error => "Error",
            IndicationKind::Warning => "Warning",
            IndicationKind::Cancel => "Cancel",
        }
    }
}

/// Each severity is read back from its own word, and a word that is none of
/// the three names no severity.
pub proof fn lemma_tokens_round_trip(kind: IndicationKind, word: Seq<char>)
    ensures
        IndicationKind::of_token(kind.token()) == Some(kind),
        IndicationKind::of_token(word) == Some(kind) <==> word == kind.token(),
        IndicationKind::of_token(word) is None <==> word != "error"@ && word != "warning"@ && word
            != "cancel"@,
{
    reveal_strlit("error");
    reveal_strlit("warning");
    reveal_strlit("cancel");
    assert("error"@[0] == 'e' && "cancel"@[0] == 'c');
}

/// Where a finding points: a file and an inclusive span of lines in it.
#[derive(Debug)]
pub struct Location {
    pub path: String,
    pub start_line: u64,
    pub end_line: u64,
}

pub struct LocationView {
    pub path: Seq<char>,
    pub start_line: u64,
    pub end_line: u64,
}

impl View for Location {
    type V = LocationView;

    open spec fn view(&self) -> LocationView {
        LocationView { path: self.path@, start_line: self.start_line, end_line: self.end_line }
    }
}

impl Location {
    /// Whether the span starts and ends on the same line.
    pub fn is_single_line(&self) -> (single: bool)
        ensures
            single == (self.start_line == self.end_line),
    {
        self.start_line == self.end_line
    }
}

/// One finding: what the model says, how grave it is, and where it points.
#[derive(Debug)]
pub struct Indication {
    pub kind: IndicationKind,
    pub message: String,
    pub location: Location,
}

pub struct IndicationView {
    pub kind: IndicationKind,
    pub message: Seq<char>,
    pub location: LocationView,
}

impl View for Indication {
    type V = IndicationView;

    open spec fn view(&self) -> IndicationView {
        IndicationView { kind: self.kind, message: self.message@, location: self.location@ }
    }
}

/// The views of the findings in `values`, in order.
pub open spec fn indication_views(values: Seq<Indication>) -> Seq<IndicationView> {
    Seq::new(values.len(), |i: int| values[i]@)
}

/// Holds of the findings whose severity is not `kind`.
pub open spec fn is_not(kind: IndicationKind) -> spec_fn(IndicationView) -> bool {
    |i: IndicationView| i.kind != kind
}

/// Holds of the findings whose severity is `kind`.
pub open spec fn is_of(kind: IndicationKind) -> spec_fn(IndicationView) -> bool {
    |i: IndicationView| i.kind == kind
}

/// The findings of one run, in the order in which they were reported.
pub struct Indications {
    pub values: Vec<Indication>,
}

impl View for Indications {
    type V = Seq<IndicationView>;

    open spec fn view(&self) -> Seq<IndicationView> {
        indication_views(self.values@)
    }
}

/// The findings whose severity is not `kind`, in their order.
fn without(values: Vec<Indication>, kind: IndicationKind) -> (kept: Vec<Indication>)
    ensures
        indication_views(kept@) == indication_views(values@).filter(is_not(kind)),
{
    let ghost all = indication_views(values@);
    let mut kept: Vec<Indication> = Vec::new();
    for indication in it: values
        invariant
            it.seq() == values@,
            all == indication_views(values@),
            indication_views(kept@) == all.take(it.index()).filter(is_not(kind)),
    {
        proof {
            let i = it.index();
            assert(all.take(i + 1) == all.take(i).push(indication@));
            Seq::lemma_filter_push(all.take(i), indication@, is_not(kind));
        }
        if indication.kind != kind {
            let ghost before = indication_views(kept@);
            kept.push(indication);
        }
    }
    assert(all.take(values@.len() as int) == all);
    kept
}

impl Indications {
    /// Drops the findings that the model itself withdrew.
    pub fn exclude_cancel(self) -> (kept: Indications)
        ensures
            kept@ == self@.filter(is_not(IndicationKind::Cancel)),
    {
        Indications { values: without(self.values, IndicationKind::Cancel) }
    }

    /// Drops the findings that may or may not hold.
    pub fn exclude_warnings(self) -> (kept: Indications)
        ensures
            kept@ == self@.filter(is_not(IndicationKind::Warning)),
    {
        Indications { values: without(self.values, IndicationKind::Warning) }
    }

    /// The findings that are passed on to a reporter: the errors, in the
    /// order in which they came.
    pub fn reportable(self) -> (kept: Indications)
        ensures
            kept@ == self@.filter(is_of(IndicationKind::Error)),
    {
        proof {
            lemma_errors_remain(self@);
        }
        self.exclude_cancel().exclude_warnings()
    }
}

/// Dropping the withdrawn findings and then the warnings leaves exactly the
/// errors, each where it stood among the errors before.
pub proof fn lemma_errors_remain(all: Seq<IndicationView>)
    ensures
        all.filter(is_not(IndicationKind::Cancel)).filter(is_not(IndicationKind::Warning))
            == all.filter(is_of(IndicationKind::Error)),
        all.filter(is_not(IndicationKind::Warning)).filter(is_not(IndicationKind::Cancel))
            == all.filter(is_of(IndicationKind::Error)),
    decreases all.len(),
{
    let no_cancel = is_not(IndicationKind::Cancel);
    let no_warning = is_not(IndicationKind::Warning);
    let error = is_of(IndicationKind::Error);
    if all.len() > 0 {
        let front = all.drop_last();
        let last = all.last();
        lemma_errors_remain(front);
        assert(all == front.push(last));
        Seq::lemma_filter_push(front, last, no_cancel);
        Seq::lemma_filter_push(front, last, no_warning);
        Seq::lemma_filter_push(front, last, error);
        Seq::lemma_filter_push(front.filter(no_cancel), last, no_warning);
        Seq::lemma_filter_push(front.filter(no_warning), last, no_cancel);
    }
}

} // verus!
