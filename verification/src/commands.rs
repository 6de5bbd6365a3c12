//! The commands that the library offers, each with the name and the
//! description under which a host lists it.

use vstd::prelude::*;
use vstd::string::*;
use crate::backend::{regex_captures, regex_diagnostic};
use crate::enumerate::{list_matches, matches_of, records_view};
use crate::fancy::{
    fancy_matches_of, fancy_usable, replace_all_fancy, search_outcome, FancyReplaceError,
};
use crate::fancy_backend::{fancy_captures, fancy_diagnostic};
use crate::html::{html_to_record, record_of, shown, HtmlElement, HtmlValue};
use crate::mt64::{run_length, Mt64Iter};
use crate::pattern::CompileError;
use crate::record::MatchRecord;
use crate::replace::{
    failed_with, replace_all, returns_whole_match, rewritten, ReplaceError,
};

verus! {

/// Lists every match of a pattern in a text.
pub struct StrMatch;

/// Replaces every match of a pattern in a text by what a transform returns.
pub struct StrReplacer;

/// Copies a text to the system clipboard.
pub struct Clip;

/// Reads the text on the system clipboard.
pub struct ClipGet;

/// Turns a document of markup into a tree of records.
pub struct FromHtml;

/// Generates numbers with the 64-bit Mersenne Twister.
pub struct Mt64Command;

/// The plugin that serves `str replacer` and `str match`.
pub struct ExtrasPlugin;

/// The plugin that serves `str replacer` alone.
pub struct ExtraCommandsPlugin;

/// The plugin that serves `from html`.
pub struct ExtraParsersPlugin;

/// The plugin that serves `mt64`.
pub struct ReverseEngineeringPlugin;

impl ExtrasPlugin {
    /// The names of the commands that the plugin serves, in its order.
    pub fn commands(&self) -> (names: Vec<&'static str>)
        ensures
            names@.len() == 2,
            names@[0]@ == "str replacer"@,
            names@[1]@ == "str match"@,
    {
        let mut names: Vec<&'static str> = Vec::new();
        names.push(StrReplacer.name());
        names.push(StrMatch.name());
        names
    }
}

impl ExtraCommandsPlugin {
    /// The names of the commands that the plugin serves.
    pub fn commands(&self) -> (names: Vec<&'static str>)
        ensures
            names@.len() == 1,
            names@[0]@ == "str replacer"@,
    {
        let mut names: Vec<&'static str> = Vec::new();
        names.push(StrReplacer.name());
        names
    }
}

impl ExtraParsersPlugin {
    /// The names of the commands that the plugin serves.
    pub fn commands(&self) -> (names: Vec<&'static str>)
        ensures
            names@.len() == 1,
            names@[0]@ == "from html"@,
    {
        let mut names: Vec<&'static str> = Vec::new();
        names.push(FromHtml.name());
        names
    }
}

impl ReverseEngineeringPlugin {
    /// The names of the commands that the plugin serves.
    pub fn commands(&self) -> (names: Vec<&'static str>)
        ensures
            names@.len() == 1,
            names@[0]@ == "mt64"@,
    {
        let mut names: Vec<&'static str> = Vec::new();
        names.push(Mt64Command.name());
        names
    }
}

/// What can go wrong when a host runs one of the commands.
#[derive(Clone, Copy, Debug, PartialEq, Eq, Structural)]
pub enum Failure {
    /// The input of the command is not a text.
    InputNotString,
    /// The pattern was refused.
    InvalidPattern,
    /// The replacer returned something that is not a text.
    OutputNotString,
    /// The replacer failed.
    ClosureFailed,
    /// The clipboard could not be reached.
    ClipboardAccess,
    /// The clipboard did not take the text.
    ClipboardSet,
    /// The clipboard did not give its text.
    ClipboardGet,
}

/// The headline of each failure.
pub open spec fn headline_of(failure: Failure) -> Seq<char> {
    match failure {
        Failure::InputNotString => "Expected String input from pipeline"@,
        Failure::InvalidPattern => "Invalid regex pattern"@,
        Failure::OutputNotString => "Expected String output from closure"@,
        Failure::ClosureFailed => "Error evaluating closure"@,
        Failure::ClipboardAccess => "Failed to access clipboard"@,
        Failure::ClipboardSet => "Failed to set clipboard text"@,
        Failure::ClipboardGet => "Failed to get clipboard text"@,
    }
}

/// The start of the line that explains each failure; what was found, or what
/// the failing part said, follows it.
pub open spec fn label_start_of(failure: Failure) -> Seq<char> {
    match failure {
        Failure::InputNotString => "requires string input; got "@,
        Failure::OutputNotString => "requires string output; got "@,
        _ => "Error: "@,
    }
}

impl Failure {
    /// The headline under which the failure is reported.
    pub fn headline(&self) -> (text: &'static str)
        ensures
            text@ == headline_of(*self),
    {
        match self {
            Failure::InputNotString => "Expected String input from pipeline",
            Failure::InvalidPattern => "Invalid regex pattern",
            Failure::OutputNotString => "Expected String output from closure",
            Failure::ClosureFailed => "Error evaluating closure",
            Failure::ClipboardAccess => "Failed to access clipboard",
            Failure::ClipboardSet => "Failed to set clipboard text",
            Failure::ClipboardGet => "Failed to get clipboard text",
        }
    }

    /// The line that explains the failure: for a value of the wrong type the
    /// type that was found, for the others what the failing part said.
    pub fn label(&self, detail: &str) -> (text: String)
        ensures
            text@ == label_start_of(*self) + detail@,
    {
        let start = match self {
            Failure::InputNotString => "requires string input; got ",
            Failure::OutputNotString => "requires string output; got ",
            _ => "Error: ",
        };
        let mut text = String::from_str(start);
        text.append(detail);
        text
    }
}

impl FromHtml {
    /// Turns the root element of a parsed document into the record that a
    /// host is shown.
    pub fn run(&self, root: &HtmlElement) -> (value: HtmlValue)
        ensures
            shown(value) == record_of(*root),
    {
        html_to_record(root)
    }
}

impl Mt64Command {
    /// Starts a run of `count` numbers, one where no count is given, from the
    /// given seed or, without one, from the generator's default seed.
    pub fn run(&self, seed: Option<i64>, count: Option<i64>) -> (numbers: Mt64Iter)
        ensures
            numbers.remaining() == run_length(count),
    {
        Mt64Iter::new(seed, count)
    }
}

impl StrMatch {
    /// Lists the matches of a pattern in the input.
    pub fn run(&self, pattern: &str, input: &str) -> (listed: Result<
        Vec<MatchRecord>,
        CompileError,
    >)
        ensures
            match listed {
                Ok(records) => regex_diagnostic(pattern@) is None && records_view(records@)
                    == matches_of(pattern@, input@),
                Err(error) => regex_diagnostic(pattern@) == Some(error.message@),
            },
    {
        list_matches(pattern, input)
    }

    pub fn name(&self) -> (name: &'static str)
        ensures
            name@ == "str match"@,
    {
        "str match"
    }

    pub fn description(&self) -> (text: &'static str)
        ensures
            text@ == "Matches all occurrences of a regex pattern in a string."@,
    {
        "Matches all occurrences of a regex pattern in a string."
    }
}

impl StrReplacer {
    /// Rewrites the input: every match of the pattern gives way to what the
    /// replacer returns for it.
    pub fn run<E, F: Fn(&MatchRecord) -> Result<String, E>>(
        &self,
        pattern: &str,
        input: &str,
        replacer: F,
    ) -> (out: Result<String, ReplaceError<E>>)
        requires
            forall|record: MatchRecord| record@.len() > 0 ==> call_requires(replacer, (&record,)),
        ensures
            match out {
                Ok(text) => regex_diagnostic(pattern@) is None && rewritten(
                    replacer,
                    matches_of(pattern@, input@),
                    input@,
                    text@,
                ),
                Err(ReplaceError::Compile(error)) => regex_diagnostic(pattern@) == Some(
                    error.message@,
                ),
                Err(ReplaceError::Transform(error)) => regex_diagnostic(pattern@) is None
                    && failed_with(replacer, matches_of(pattern@, input@), error),
            },
            regex_diagnostic(pattern@) is None && (regex_captures(pattern@, input@).len() == 0
                || returns_whole_match(replacer)) ==> out is Ok && out->Ok_0@ == input@,
    {
        replace_all(pattern, input, replacer)
    }

    /// Rewrites the input as `run` does, with the engine that knows
    /// look-around and backreferences.
    pub fn run_fancy<E, F: Fn(&MatchRecord) -> Result<String, E>>(
        &self,
        pattern: &str,
        input: &str,
        replacer: F,
    ) -> (out: Result<String, FancyReplaceError<E>>)
        requires
            forall|record: MatchRecord| record@.len() > 0 ==> call_requires(replacer, (&record,)),
        ensures
            match out {
                Ok(text) => {
                    &&& fancy_diagnostic(pattern@) is None
                    &&& fancy_usable(pattern@, input@)
                    &&& rewritten(replacer, fancy_matches_of(pattern@, input@), input@, text@)
                },
                Err(FancyReplaceError::Compile(error)) => fancy_diagnostic(pattern@) == Some(
                    error.message@,
                ),
                Err(FancyReplaceError::Search(error)) => fancy_diagnostic(pattern@) is None
                    && search_outcome(pattern@, input@, Err(error)),
                Err(FancyReplaceError::Transform(error)) => {
                    &&& fancy_diagnostic(pattern@) is None
                    &&& fancy_usable(pattern@, input@)
                    &&& failed_with(replacer, fancy_matches_of(pattern@, input@), error)
                },
            },
            fancy_diagnostic(pattern@) is None && fancy_usable(pattern@, input@) && (
            fancy_captures(pattern@, input@)->Ok_0.len() == 0 || returns_whole_match(replacer))
                ==> out is Ok && out->Ok_0@ == input@,
    {
        replace_all_fancy(pattern, input, replacer)
    }

    pub fn name(&self) -> (name: &'static str)
        ensures
            name@ == "str replacer"@,
    {
        "str replacer"
    }

    pub fn description(&self) -> (text: &'static str)
        ensures
            text@ == "Replaces all matches of a regex pattern with the result of a closure"@,
    {
        "Replaces all matches of a regex pattern with the result of a closure"
    }
}

impl Clip {
    pub fn name(&self) -> (name: &'static str)
        ensures
            name@ == "clip"@,
    {
        "clip"
    }

    pub fn description(&self) -> (text: &'static str)
        ensures
            text@ == "Copy the input to the system clipboard."@,
    {
        "Copy the input to the system clipboard."
    }
}

impl ClipGet {
    pub fn name(&self) -> (name: &'static str)
        ensures
            name@ == "clip get"@,
    {
        "clip get"
    }

    pub fn description(&self) -> (text: &'static str)
        ensures
            text@ == "Get the content of the system clipboard."@,
    {
        "Get the content of the system clipboard."
    }
}

impl FromHtml {
    pub fn name(&self) -> (name: &'static str)
        ensures
            name@ == "from html"@,
    {
        "from html"
    }

    pub fn description(&self) -> (text: &'static str)
        ensures
            text@ == "Convert HTML to a record"@,
    {
        "Convert HTML to a record"
    }
}

impl Mt64Command {
    pub fn name(&self) -> (name: &'static str)
        ensures
            name@ == "mt64"@,
    {
        "mt64"
    }

    pub fn description(&self) -> (text: &'static str)
        ensures
            text@ == "Generate random numbers using the Mersenne Twister 64-bit algorithm"@,
    {
        "Generate random numbers using the Mersenne Twister 64-bit algorithm"
    }
}

} // verus!
