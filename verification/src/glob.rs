//! Matching a file path against the glob of a rule.

use vstd::prelude::*;

verus! {

/// The longest glob that is handed to the matcher, in characters.
pub const GLOB_MAX_LEN: usize = 256;

/// Whether `globset` accepts `pattern` as a glob.
pub uninterp spec fn glob_valid(pattern: Seq<char>) -> bool;

/// Whether the glob `pattern`, which `globset` accepts, matches `path`.
pub uninterp spec fn glob_matches(pattern: Seq<char>, path: Seq<char>) -> bool;

/// Compiles `pattern` with `globset::Glob::new` and `Glob::compile_matcher`,
/// and asks `GlobMatcher::is_match` whether it matches `path`.
///
/// On a target where `/` alone separates the parts of a path, whether a
/// pattern is accepted depends on the pattern alone, and whether an accepted
/// pattern matches depends on the pattern and the path alone.
/// `compile_matcher` gives up where the pattern nests deeper, or grows
/// larger, than its regular-expression engine takes; a pattern within
/// `GLOB_MAX_LEN` reaches neither limit.
#[verifier::external_body]
fn match_glob(pattern: &str, path: &str) -> (matched: Option<bool>)
    requires
        pattern@.len() <= GLOB_MAX_LEN,
    ensures
        matched == if glob_valid(pattern@) {
            Some(glob_matches(pattern@, path@))
        } else {
            None::<bool>
        },
{
    match globset::Glob::new(pattern) {
        Ok(glob) => Some(glob.compile_matcher().is_match(path)),
        Err(_) => None,
    }
}

/// Why a set of rules cannot be used.
#[derive(Debug)]
pub enum ConfigError {
    /// The glob is longer than `GLOB_MAX_LEN`.
    GlobTooLong(String),
    /// The glob is not well-formed.
    InvalidGlob(String),
}

pub enum ConfigErrorView {
    GlobTooLong(Seq<char>),
    InvalidGlob(Seq<char>),
}

impl View for ConfigError {
    type V = ConfigErrorView;

    open spec fn view(&self) -> ConfigErrorView {
        match self {
            ConfigError::GlobTooLong(glob) => ConfigErrorView::GlobTooLong(glob@),
            ConfigError::InvalidGlob(glob) => ConfigErrorView::InvalidGlob(glob@),
        }
    }
}

impl ConfigError {
    /// What is wrong, for a reader.
    pub open spec fn described(error: ConfigErrorView) -> Seq<char> {
        match error {
            ConfigErrorView::GlobTooLong(glob) => "Glob too long: "@ + glob,
            ConfigErrorView::InvalidGlob(glob) => "Invalid glob: "@ + glob,
        }
    }

    /// What is wrong, for a reader.
    pub fn message(&self) -> (text: String)
        ensures
            text@ == Self::described(self@),
    {
        match self {
            ConfigError::GlobTooLong(glob) => {
                let mut text = String::from_str("Glob too long: ");
                text.append(glob.as_str());
                text
            },
            ConfigError::InvalidGlob(glob) => {
                let mut text = String::from_str("Invalid glob: ");
                text.append(glob.as_str());
                text
            },
        }
    }
}

/// What is wrong with `pattern` as the glob of a rule, if anything is.
pub open spec fn glob_fault(pattern: Seq<char>) -> Option<ConfigErrorView> {
    if pattern.len() > GLOB_MAX_LEN {
        Some(ConfigErrorView::GlobTooLong(pattern))
    } else if !glob_valid(pattern) {
        Some(ConfigErrorView::InvalidGlob(pattern))
    } else {
        None
    }
}

/// Whether the glob `pattern` matches `path`, or what is wrong with the glob.
pub fn applies_to(pattern: &str, path: &str) -> (applies: Result<bool, ConfigError>)
    ensures
        match glob_fault(pattern@) {
            Some(fault) => applies matches Err(error) && error@ == fault,
            None => applies == Ok::<bool, ConfigError>(glob_matches(pattern@, path@)),
        },
{
    if pattern.unicode_len() > GLOB_MAX_LEN {
        return Err(ConfigError::GlobTooLong(String::from_str(pattern)));
    }
    match match_glob(pattern, path) {
        Some(matched) => Ok(matched),
        None => Err(ConfigError::InvalidGlob(String::from_str(pattern))),
    }
}

} // verus!
