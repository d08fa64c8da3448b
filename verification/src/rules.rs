//! Review rules, each scoped to the files that a glob names.

use vstd::prelude::*;
use crate::glob::{ConfigError, ConfigErrorView, applies_to, glob_fault};

pub mod markdown;

verus! {

/// A rule: free text that says what to look for, and the glob of the files
/// it applies to.
#[derive(Debug)]
pub struct Rule {
    pub target_file_glob: String,
    pub content: String,
}

pub struct RuleView {
    pub target_file_glob: Seq<char>,
    pub content: Seq<char>,
}

impl View for Rule {
    type V = RuleView;

    open spec fn view(&self) -> RuleView {
        RuleView { target_file_glob: self.target_file_glob@, content: self.content@ }
    }
}

/// The views of the rules in `all`, in order.
pub open spec fn rule_views(all: Seq<Rule>) -> Seq<RuleView> {
    Seq::new(all.len(), |i: int| all[i]@)
}

/// The rules of a run, in the order in which their document gives them.
/// Two rules may name the same glob.
#[derive(Debug)]
pub struct Rules {
    pub all: Vec<Rule>,
}

impl View for Rules {
    type V = Seq<RuleView>;

    open spec fn view(&self) -> Seq<RuleView> {
        rule_views(self.all@)
    }
}

/// The first position at or behind `from` whose rule has a faulty glob, or
/// the number of rules where there is none.
pub open spec fn first_fault(rules: Seq<RuleView>, from: int) -> int
    decreases rules.len() - from,
{
    if from < 0 || from >= rules.len() {
        rules.len() as int
    } else if glob_fault(rules[from].target_file_glob) is Some {
        from
    } else {
        first_fault(rules, from + 1)
    }
}

/// What is wrong with the globs of `rules`: the fault of the first faulty
/// glob, if one is faulty.
pub open spec fn rules_fault(rules: Seq<RuleView>) -> Option<ConfigErrorView> {
    let at = first_fault(rules, 0);
    if 0 <= at < rules.len() {
        glob_fault(rules[at].target_file_glob)
    } else {
        None
    }
}

/// The rules are without fault exactly if every glob is.
pub proof fn lemma_rules_fault(rules: Seq<RuleView>, from: int)
    requires
        0 <= from <= rules.len(),
    ensures
        from <= first_fault(rules, from) <= rules.len(),
        first_fault(rules, from) < rules.len() ==> glob_fault(
            rules[first_fault(rules, from)].target_file_glob,
        ) is Some,
        forall|k: int|
            from <= k < first_fault(rules, from) ==> glob_fault(
                (#[trigger] rules[k]).target_file_glob,
            ) is None,
    decreases rules.len() - from,
{
    if from < rules.len() && glob_fault(rules[from].target_file_glob) is None {
        lemma_rules_fault(rules, from + 1);
    }
}

impl Rules {
    /// Whether the rules can be used: nothing, or what is wrong with the
    /// first faulty glob.
    pub fn check(&self) -> (checked: Result<(), ConfigError>)
        ensures
            match rules_fault(self@) {
                Some(fault) => checked matches Err(error) && error@ == fault,
                None => checked is Ok,
            },
    {
        let mut i: usize = 0;
        while i < self.all.len()
            invariant
                i <= self.all.len(),
                first_fault(self@, 0) == first_fault(self@, i as int),
            decreases self.all.len() - i,
        {
            match applies_to(self.all[i].target_file_glob.as_str(), "") {
                Ok(_) => {},
                Err(error) => {
                    return Err(error);
                },
            }
            i = i + 1;
        }
        Ok(())
    }
}

} // verus!
