//! The linter: which rules apply to a change unit, what is put to the model
//! for it, and the course of a run over all change units of a diff.

use vstd::prelude::*;
use crate::diff::{Patch, PatchView, Patches, patch_views};
use crate::glob::{ConfigError, applies_to, glob_matches};
use crate::indication::{Indication, IndicationView, Indications, indication_views};
use crate::prompt::{build_prompt, prompt_text};
use crate::rules::{RuleView, Rules, first_fault, rules_fault};
use crate::text::{join_lines, joined, texts, trim, trimmed};

verus! {

/// Seconds to wait before each request to the model, unless a linter is
/// given another pace.
pub const MODEL_DELAY_SECS: u64 = 3;

/// Holds of the rules whose glob matches `path`.
pub open spec fn applies(path: Seq<char>) -> spec_fn(RuleView) -> bool {
    |rule: RuleView| glob_matches(rule.target_file_glob, path)
}

/// The texts of `rules`, in order.
pub open spec fn contents(rules: Seq<RuleView>) -> Seq<Seq<char>> {
    Seq::new(rules.len(), |i: int| rules[i].content)
}

/// The text of the rules that apply to `path`: their texts in the order of
/// `rules`, one below the other, without whitespace around the whole.
pub open spec fn rules_text(rules: Seq<RuleView>, path: Seq<char>) -> Seq<char> {
    trimmed(joined(contents(rules.filter(applies(path))), seq!['\n']))
}

/// The rules that apply keep the order of the rule set: of two sets put one
/// behind the other, those that apply in the first come before those that
/// apply in the second.
pub proof fn lemma_applying_rules_keep_order(
    first: Seq<RuleView>,
    second: Seq<RuleView>,
    path: Seq<char>,
)
    ensures
        (first + second).filter(applies(path)) == first.filter(applies(path)) + second.filter(
            applies(path),
        ),
        contents((first + second).filter(applies(path))) == contents(first.filter(applies(path)))
            + contents(second.filter(applies(path))),
{
    Seq::filter_distributes_over_add(first, second, applies(path));
}

/// Where no rule applies to a path, the text of its rules is empty.
pub proof fn lemma_no_rule_no_text(rules: Seq<RuleView>, path: Seq<char>)
    requires
        forall|i: int| 0 <= i < rules.len() ==> !glob_matches(rules[i].target_file_glob, path),
    ensures
        rules.filter(applies(path)).len() == 0,
        rules_text(rules, path) == Seq::<char>::empty(),
    decreases rules.len(),
{
    if rules.len() > 0 {
        let front = rules.drop_last();
        lemma_no_rule_no_text(front, path);
        assert(rules == front.push(rules.last()));
        Seq::lemma_filter_push(front, rules.last(), applies(path));
    }
}

/// What is asked of the model for one change unit.
#[derive(Debug)]
pub struct Request {
    /// The file that the change unit changes.
    pub path: String,
    /// What is put to the model.
    pub prompt: String,
    /// Seconds to wait before the request is sent.
    pub delay_secs: u64,
}

/// What the caller is to do next in a run.
#[derive(Debug)]
pub enum LintAction {
    /// Put the request to the model, and come back with its findings.
    Ask(Request),
    /// No change unit is left: collect the findings.
    Finish,
}

/// What the caller comes with.
#[derive(Debug)]
pub enum LintEvent {
    /// The run begins, or goes on after a request that was not put.
    Begin,
    /// The model's findings for the request that was asked last.
    Answered(Vec<Indication>),
}

/// Why a step of a run fails.
#[derive(Debug)]
pub enum LintError {
    /// The rules cannot be used.
    Config(ConfigError),
    /// Findings came though nothing was asked, or the run was begun again
    /// while a request was open.
    OutOfTurn,
}

/// How far a run has come over its change units, and whether a request is open.
struct Progress {
    patches: Vec<Patch>,
    cursor: usize,
    awaiting: bool,
}

impl Progress {
    /// The position lies within the units, or at their end; a request is
    /// open only for a unit.
    #[verifier::type_invariant]
    spec fn well_formed(&self) -> bool {
        &&& self.cursor <= self.patches@.len()
        &&& self.awaiting ==> self.cursor < self.patches@.len()
    }
}

/// A run over the change units of a diff: how far it has come, whether a
/// request is open, and the findings so far.
pub struct LintRun {
    progress: Progress,
    findings: Vec<Indication>,
}

impl LintRun {
    /// The change units of the run.
    pub closed spec fn units(&self) -> Seq<PatchView> {
        patch_views(self.progress.patches@)
    }

    /// The position of the change unit that the run has come to; the number
    /// of units once it has passed them all.
    pub closed spec fn position(&self) -> int {
        self.progress.cursor as int
    }

    /// Whether a request is open, for the unit at `position`.
    pub closed spec fn is_awaiting(&self) -> bool {
        self.progress.awaiting
    }

    /// The findings that were brought so far, in order.
    pub closed spec fn collected(&self) -> Seq<IndicationView> {
        indication_views(self.findings@)
    }

    /// A run that stands before the first of `patches`.
    pub fn new(patches: Patches) -> (run: LintRun)
        ensures
            run.units() == patches@,
            run.position() == 0,
            !run.is_awaiting(),
            run.collected() == Seq::<IndicationView>::empty(),
    {
        let run = LintRun {
            progress: Progress { patches: patches.all, cursor: 0, awaiting: false },
            findings: Vec::new(),
        };
        run
    }

    /// Whether every change unit has been passed.
    pub fn is_finished(&self) -> (finished: bool)
        ensures
            finished == (self.position() == self.units().len()),
    {
        self.progress.cursor == self.progress.patches.len()
    }

    /// The findings of the run.
    pub fn into_indications(self) -> (indications: Indications)
        ensures
            indications@ == self.collected(),
    {
        Indications { values: self.findings }
    }
}

/// The position of the first unit at or behind `from` to which rules with
/// text apply, or the number of units where there is none.
pub open spec fn next_unit(rules: Seq<RuleView>, units: Seq<PatchView>, from: int) -> int
    decreases units.len() - from,
{
    if from < 0 || from >= units.len() {
        units.len() as int
    } else if rules_text(rules, units[from].path).len() > 0 {
        from
    } else {
        next_unit(rules, units, from + 1)
    }
}

/// The unit that is asked about next is one with rules, and every unit
/// between is one without.
pub proof fn lemma_next_unit(rules: Seq<RuleView>, units: Seq<PatchView>, from: int)
    requires
        0 <= from <= units.len(),
    ensures
        from <= next_unit(rules, units, from) <= units.len(),
        next_unit(rules, units, from) < units.len() ==> rules_text(
            rules,
            units[next_unit(rules, units, from)].path,
        ).len() > 0,
        forall|k: int|
            from <= k < next_unit(rules, units, from) ==> rules_text(
                rules,
                (#[trigger] units[k]).path,
            ).len() == 0,
    decreases units.len() - from,
{
    if from < units.len() && rules_text(rules, units[from].path).len() == 0 {
        lemma_next_unit(rules, units, from + 1);
    }
}

/// The request for a change unit under `rules`, to be sent after `delay` seconds.
pub open spec fn request_for(
    rules: Seq<RuleView>,
    delay: u64,
    unit: PatchView,
    request: Request,
) -> bool {
    &&& request.path@ == unit.path
    &&& request.prompt@ == prompt_text(rules_text(rules, unit.path), unit)
    &&& request.delay_secs == delay
}

/// Where a step takes a run: to the unit `target`, which has rules with
/// text, and with a request for it; or past the last unit, to the end.
pub open spec fn stepped(
    rules: Seq<RuleView>,
    delay: u64,
    after: &LintRun,
    target: int,
    action: LintAction,
) -> bool {
    &&& after.position() == target
    &&& after.is_awaiting() == (target < after.units().len())
    &&& match action {
        LintAction::Ask(request) => {
            &&& 0 <= target < after.units().len()
            &&& rules_text(rules, after.units()[target].path).len() > 0
            &&& request_for(rules, delay, after.units()[target], request)
        },
        LintAction::Finish => target == after.units().len(),
    }
}

/// Reviews changes against rules with the help of a language model. The
/// linter holds the client through which the model is reached, and does not
/// call it: a run tells its caller what to ask, and takes the answers.
pub struct Linter<L> {
    llm_client: L,
    rules: Rules,
    delay_secs: u64,
}

impl<L> Linter<L> {
    /// The rules of this linter.
    pub closed spec fn rule_set(&self) -> Seq<RuleView> {
        self.rules@
    }

    /// The client of this linter.
    pub closed spec fn held_client(&self) -> L {
        self.llm_client
    }

    /// The seconds that this linter has its caller wait before each request.
    pub closed spec fn pace(&self) -> u64 {
        self.delay_secs
    }

    /// A linter that reviews against `rules`, at the usual pace.
    pub fn new(llm_client: L, rules: Rules) -> (linter: Linter<L>)
        ensures
            linter.rule_set() == rules@,
            linter.held_client() == llm_client,
            linter.pace() == MODEL_DELAY_SECS,
    {
        Linter { llm_client, rules, delay_secs: MODEL_DELAY_SECS }
    }

    /// The same linter, with `delay_secs` seconds of waiting before each request.
    pub fn with_delay(self, delay_secs: u64) -> (linter: Linter<L>)
        ensures
            linter.rule_set() == self.rule_set(),
            linter.held_client() == self.held_client(),
            linter.pace() == delay_secs,
    {
        Linter { llm_client: self.llm_client, rules: self.rules, delay_secs }
    }

    /// The client through which the model is reached.
    pub fn client(&self) -> (client: &L)
        ensures
            *client == self.held_client(),
    {
        &self.llm_client
    }

    /// The text of the rules that apply to `patch`, or what is wrong with
    /// the globs of the rules.
    pub fn extract_rules_for(&self, patch: &Patch) -> (extracted: Result<String, ConfigError>)
        ensures
            match rules_fault(self.rule_set()) {
                Some(fault) => extracted matches Err(error) && error@ == fault,
                None => extracted matches Ok(text) && text@ == rules_text(
                    self.rule_set(),
                    patch@.path,
                ),
            },
    {
        let ghost rules = self.rules@;
        let ghost path = patch@.path;
        let mut picked: Vec<String> = Vec::new();
        let mut i: usize = 0;
        while i < self.rules.all.len()
            invariant
                i <= self.rules.all.len(),
                rules == self.rules@,
                path == patch@.path,
                first_fault(rules, 0) == first_fault(rules, i as int),
                texts(picked@) == contents(rules.take(i as int).filter(applies(path))),
            decreases self.rules.all.len() - i,
        {
            let rule = &self.rules.all[i];
            let matched = match applies_to(rule.target_file_glob.as_str(), patch.path.as_str()) {
                Ok(matched) => matched,
                Err(error) => {
                    return Err(error);
                },
            };
            proof {
                assert(rules.take(i + 1) == rules.take(i as int).push(rule@));
                Seq::lemma_filter_push(rules.take(i as int), rule@, applies(path));
            }
            if matched {
                let ghost chosen = rules.take(i as int).filter(applies(path));
                picked.push(rule.content.clone());
                proof {
                    assert(contents(chosen.push(rule@)) == contents(chosen).push(rule@.content));
                }
            }
            i = i + 1;
        }
        assert(rules.take(self.rules.all.len() as int) == rules);
        Ok(trim(join_lines(&picked).as_str()))
    }

    /// The prompt for `patch`; none where no rule with text applies to it.
    pub fn generate_prompt(&self, patch: &Patch) -> (generated: Result<Option<String>, ConfigError>)
        ensures
            match rules_fault(self.rule_set()) {
                Some(fault) => generated matches Err(error) && error@ == fault,
                None => generated matches Ok(prompt) && {
                    let rules = rules_text(self.rule_set(), patch@.path);
                    &&& rules.len() == 0 ==> prompt is None
                    &&& rules.len() > 0 ==> (prompt matches Some(text) && text@ == prompt_text(
                        rules,
                        patch@,
                    ))
                },
            },
    {
        match self.extract_rules_for(patch) {
            Ok(rules) => Ok(build_prompt(rules.as_str(), patch)),
            Err(error) => Err(error),
        }
    }

    /// One step of a run. At its beginning, and each time the model has
    /// answered, the run moves on to the next change unit that rules with
    /// text apply to and asks for a request on it; units without such rules
    /// are passed over. Behind the last unit the run is finished. The
    /// findings of each answer are added behind those collected before.
    ///
    /// A step out of turn fails and leaves the run as it was. So does a
    /// step that has a unit left to look at while a glob of the rules is
    /// faulty.
    pub fn lint(&self, run: &mut LintRun, event: LintEvent) -> (step: Result<
        LintAction,
        LintError,
    >)
        ensures
            final(run).units() == old(run).units(),
            ({
                let in_turn = (event is Answered) == old(run).is_awaiting();
                let from = old(run).position() + if event is Answered {
                    1int
                } else {
                    0int
                };
                let rules = self.rule_set();
                if !in_turn {
                    &&& step matches Err(LintError::OutOfTurn)
                    &&& *final(run) == *old(run)
                } else if from < old(run).units().len() && rules_fault(rules) is Some {
                    &&& step matches Err(LintError::Config(error))
                    &&& Some(error@) == rules_fault(rules)
                    &&& *final(run) == *old(run)
                } else {
                    &&& step matches Ok(action)
                    &&& stepped(
                        rules,
                        self.pace(),
                        final(run),
                        next_unit(rules, old(run).units(), from),
                        action,
                    )
                    &&& final(run).collected() == old(run).collected() + match event {
                        LintEvent::Answered(findings) => indication_views(findings@),
                        LintEvent::Begin => Seq::empty(),
                    }
                }
            }),
    {
        proof {
            use_type_invariant(&run.progress);
        }
        let ghost rules = self.rules@;
        let ghost units = run.units();
        let ghost in_turn = (event is Answered) == run.is_awaiting();
        let ghost start = run.position() + if event is Answered {
            1int
        } else {
            0int
        };
        let count = run.progress.patches.len();
        let (from, answered): (usize, Option<Vec<Indication>>) = match event {
            LintEvent::Begin => {
                if run.progress.awaiting {
                    return Err(LintError::OutOfTurn);
                }
                (run.progress.cursor, None)
            },
            LintEvent::Answered(findings) => {
                if !run.progress.awaiting {
                    return Err(LintError::OutOfTurn);
                }
                (run.progress.cursor + 1, Some(findings))
            },
        };
        let mut at: usize = from;
        let mut prompt: Option<String> = None;
        while at < count
            invariant_except_break
                prompt is None,
                at > from ==> rules_fault(rules) is None,
                next_unit(rules, units, from as int) == next_unit(rules, units, at as int),
            invariant
                count == run.progress.patches@.len(),
                from <= at <= count,
                rules == self.rules@,
                units == patch_views(run.progress.patches@),
                *run == *old(run),
                in_turn == ((event is Answered) == old(run).is_awaiting()),
                in_turn,
                start == old(run).position() + if event is Answered {
                    1int
                } else {
                    0int
                },
                from == start,
            ensures
                from < count ==> rules_fault(rules) is None,
                next_unit(rules, units, from as int) == at,
                match prompt {
                    Some(text) => at < count && text@ == prompt_text(
                        rules_text(rules, units[at as int].path),
                        units[at as int],
                    ),
                    None => at == count,
                },
            decreases count - at,
        {
            match self.generate_prompt(&run.progress.patches[at]) {
                Err(error) => {
                    return Err(LintError::Config(error));
                },
                Ok(Some(text)) => {
                    prompt = Some(text);
                    break;
                },
                Ok(None) => {
                    at = at + 1;
                },
            }
        }
        proof {
            lemma_next_unit(rules, units, from as int);
        }
        if let Some(findings) = answered {
            let mut findings = findings;
            run.findings.append(&mut findings);
        }
        run.progress.awaiting = false;
        run.progress.cursor = at;
        match prompt {
            Some(text) => {
                run.progress.awaiting = true;
                let request = Request {
                    path: run.progress.patches[at].path.clone(),
                    prompt: text,
                    delay_secs: self.delay_secs,
                };
                Ok(LintAction::Ask(request))
            },
            None => Ok(LintAction::Finish),
        }
    }
}

} // verus!
