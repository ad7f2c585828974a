//! Finding the variables that a text uses in the form `$(name)`.

use vstd::prelude::*;
use crate::error::PatternError;
use crate::names::{
    distinct, lemma_distinct_no_duplicates, lemma_with_names_push, names_of, push_unique,
};
use crate::text::{contains_char, starts_with};

verus! {

/// Whether a name is one of the variables that the platform predefines:
/// whether it begins with one of the system prefixes.
pub open spec fn is_system_name(name: Seq<char>) -> bool {
    "Build."@.is_prefix_of(name) || "System."@.is_prefix_of(name) || "Agent."@.is_prefix_of(name)
        || "Pipeline."@.is_prefix_of(name) || "Environment."@.is_prefix_of(name)
        || "Checks."@.is_prefix_of(name) || "Release."@.is_prefix_of(name) || "Task."@.is_prefix_of(
        name,
    ) || "Resources."@.is_prefix_of(name)
}

/// Whether a name is a format specifier of the build number.
pub open spec fn is_format_name(name: Seq<char>) -> bool {
    "Date:"@.is_prefix_of(name) || "Rev:"@.is_prefix_of(name)
}

/// Whether a name stands for an output that only a run produces: a name
/// with a dot that is no system variable.
pub open spec fn is_runtime_output_name(name: Seq<char>) -> bool {
    name.contains('.') && !is_system_name(name)
}

/// Whether a token reads like a shell command: whether it holds a space.
pub open spec fn is_shell_command_text(name: Seq<char>) -> bool {
    name.contains(' ')
}

/// Whether a token between `$(` and `)` is no usage of a variable that can
/// be validated: a nested expansion, a runtime expression, a system
/// variable, a format specifier, a runtime output, or a shell command.
pub open spec fn is_skipped_name(name: Seq<char>) -> bool {
    "$"@.is_prefix_of(name) || "["@.is_prefix_of(name) || is_system_name(name) || is_format_name(
        name,
    ) || is_runtime_output_name(name) || is_shell_command_text(name)
}

/// Whether `name` is a variable that the platform predefines.
pub fn is_system_variable(name: &str) -> (system: bool)
    ensures
        system == is_system_name(name@),
{
    starts_with(name, "Build.") || starts_with(name, "System.") || starts_with(name, "Agent.")
        || starts_with(name, "Pipeline.") || starts_with(name, "Environment.") || starts_with(
        name,
        "Checks.",
    ) || starts_with(name, "Release.") || starts_with(name, "Task.") || starts_with(
        name,
        "Resources.",
    )
}

/// Whether `name` stands for an output that only a run produces.
pub fn is_runtime_output_variable(name: &str) -> (runtime: bool)
    ensures
        runtime == is_runtime_output_name(name@),
{
    if !contains_char(name, '.') {
        return false;
    }
    !is_system_variable(name)
}

/// Whether `name` reads like a shell command.
pub fn looks_like_shell_command(name: &str) -> (shell: bool)
    ensures
        shell == is_shell_command_text(name@),
{
    contains_char(name, ' ')
}

/// Whether the token `name` is left out of validation.
pub fn should_skip_variable(name: &str) -> (skip: bool)
    ensures
        skip == is_skipped_name(name@),
{
    if starts_with(name, "$") {
        return true;
    }
    if starts_with(name, "[") {
        return true;
    }
    if is_system_variable(name) {
        return true;
    }
    if starts_with(name, "Date:") || starts_with(name, "Rev:") {
        return true;
    }
    if is_runtime_output_variable(name) {
        return true;
    }
    if looks_like_shell_command(name) {
        return true;
    }
    false
}

/// The pattern of a usage: `$(`, one or more characters other than `)`,
/// and `)`. Its first group is what stands between the brackets.
pub const REFERENCE_PATTERN: &'static str = "\\$\\(([^)]+)\\)";

/// What the pattern matcher finds in `text` with `pattern`: for each match,
/// from first to last, what its first group took part with, if it took
/// part; or the compiler's message where it does not accept the pattern.
pub uninterp spec fn regex_first_groups(pattern: Seq<char>, text: Seq<char>) -> Result<
    Seq<Option<Seq<char>>>,
    Seq<char>,
>;

/// The tokens of a scan, as contracts speak of them.
pub open spec fn tokens_of(tokens: Seq<Option<String>>) -> Seq<Option<Seq<char>>> {
    tokens.map_values(
        |t: Option<String>|
            match t {
                Some(text) => Some(text@),
                None => None,
            },
    )
}

/// Compiles `pattern` with `regex::Regex::new`, walks the matches in `text`
/// with `Regex::captures_iter`, and takes from each the text of group 1
/// (`Captures::get`, `Match::as_str`). Trusted: the outcome depends on the
/// two arguments alone, so it is the named `regex_first_groups`. Where the
/// pattern is refused, the error's text comes back. Nothing is claimed about
/// what matches.
#[verifier::external_body]
fn first_groups(pattern: &str, text: &str) -> (outcome: Result<Vec<Option<String>>, String>)
    ensures
        match outcome {
            Ok(tokens) => regex_first_groups(pattern@, text@) == Ok::<
                Seq<Option<Seq<char>>>,
                Seq<char>,
            >(tokens_of(tokens@)),
            Err(message) => regex_first_groups(pattern@, text@) == Err::<
                Seq<Option<Seq<char>>>,
                Seq<char>,
            >(message@),
        },
{
    match regex::Regex::new(pattern) {
        Ok(re) => Ok(
            re.captures_iter(text).map(|c| c.get(1).map(|m| m.as_str().to_string())).collect(),
        ),
        Err(error) => Err(error.to_string()),
    }
}

/// The tokens that are usages of variables, in their order and with
/// repeats: those that took part in a match and are not skipped.
pub open spec fn kept_tokens(tokens: Seq<Option<Seq<char>>>) -> Seq<Seq<char>>
    decreases tokens.len(),
{
    if tokens.len() == 0 {
        Seq::empty()
    } else {
        match tokens.last() {
            Some(name) => if is_skipped_name(name) {
                kept_tokens(tokens.drop_last())
            } else {
                kept_tokens(tokens.drop_last()).push(name)
            },
            None => kept_tokens(tokens.drop_last()),
        }
    }
}

/// The variables that the tokens of a scan refer to, each once, in the
/// order of first mention.
pub open spec fn reference_names(tokens: Seq<Option<Seq<char>>>) -> Seq<Seq<char>> {
    distinct(kept_tokens(tokens))
}

/// The variables that the tokens of a scan refer to: the tokens that are
/// skipped are left out, and each remaining name is given once, in the order
/// of first mention.
pub fn select_variable_references(tokens: &Vec<Option<String>>) -> (names: Vec<String>)
    ensures
        names_of(names@) == reference_names(tokens_of(tokens@)),
        names_of(names@).no_duplicates(),
{
    let ghost all = tokens_of(tokens@);
    let mut names: Vec<String> = Vec::new();
    assert(names_of(names@) =~= Seq::<Seq<char>>::empty());
    assert(all.take(0) =~= Seq::<Option<Seq<char>>>::empty());
    let mut i: usize = 0;
    while i < tokens.len()
        invariant
            i <= tokens.len(),
            all == tokens_of(tokens@),
            names_of(names@) == distinct(kept_tokens(all.take(i as int))),
        decreases tokens.len() - i,
    {
        proof {
            assert(all.take(i + 1).drop_last() =~= all.take(i as int));
            assert(all.take(i + 1).last() == all[i as int]);
        }
        if let Some(name) = &tokens[i] {
            if !should_skip_variable(name.as_str()) {
                push_unique(&mut names, name.as_str());
                proof {
                    lemma_with_names_push(
                        Seq::empty(),
                        kept_tokens(all.take(i as int)),
                        name@,
                    );
                }
            }
        }
        i += 1;
    }
    proof {
        assert(all.take(tokens.len() as int) =~= all);
        lemma_distinct_no_duplicates(kept_tokens(all));
    }
    names
}

/// The variables that `content` uses in the form `$(name)`: what the
/// pattern finds, without the tokens that are skipped, each name once in
/// the order of first use. Fails only where the pattern is not accepted.
pub fn extract_variable_references_from_content(content: &str) -> (outcome: Result<
    Vec<String>,
    PatternError,
>)
    ensures
        match regex_first_groups(REFERENCE_PATTERN@, content@) {
            Ok(tokens) => outcome is Ok && names_of(outcome->Ok_0@) == reference_names(tokens),
            Err(message) => outcome is Err && outcome->Err_0.message@ == message,
        },
        outcome is Ok ==> names_of(outcome->Ok_0@).no_duplicates(),
{
    match first_groups(REFERENCE_PATTERN, content) {
        Ok(tokens) => Ok(select_variable_references(&tokens)),
        Err(message) => Err(PatternError { message }),
    }
}

} // verus!
