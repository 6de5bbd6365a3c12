//! Compiling a pattern, and the labels under which its groups are reported.

use vstd::prelude::*;
use vstd::string::*;
use crate::text::texts_of;
use crate::backend::{
    names_view, regex_as_str, regex_capture_names, regex_diagnostic, regex_error_message,
    regex_group_names, regex_new, regex_source,
};

verus! {

/// Why a pattern was refused.
#[derive(Clone, Debug, PartialEq, Eq)]
pub struct CompileError {
    /// What the engine says is wrong with the pattern.
    pub message: String,
}

/// The character of a decimal digit.
pub open spec fn digit_char(digit: nat) -> char {
    if digit == 0 {
        '0'
    } else if digit == 1 {
        '1'
    } else if digit == 2 {
        '2'
    } else if digit == 3 {
        '3'
    } else if digit == 4 {
        '4'
    } else if digit == 5 {
        '5'
    } else if digit == 6 {
        '6'
    } else if digit == 7 {
        '7'
    } else if digit == 8 {
        '8'
    } else {
        '9'
    }
}

/// A number in decimal, without leading zeros.
pub open spec fn decimal_text(n: nat) -> Seq<char>
    decreases n,
{
    if n < 10 {
        seq![digit_char(n)]
    } else {
        decimal_text(n / 10).push(digit_char(n % 10))
    }
}

/// The label of each group: its name where the pattern gives it one, else its
/// index in decimal.
pub open spec fn labels_of(names: Seq<Option<Seq<char>>>) -> Seq<Seq<char>> {
    Seq::new(
        names.len(),
        |i: int|
            match names[i] {
                Some(name) => name,
                None => decimal_text(i as nat),
            },
    )
}

fn digit_str(digit: usize) -> (text: &'static str)
    requires
        digit < 10,
    ensures
        text@ == seq![digit_char(digit as nat)],
{
    proof {
        reveal_strlit("0");
        reveal_strlit("1");
        reveal_strlit("2");
        reveal_strlit("3");
        reveal_strlit("4");
        reveal_strlit("5");
        reveal_strlit("6");
        reveal_strlit("7");
        reveal_strlit("8");
        reveal_strlit("9");
    }
    let text = if digit == 0 {
        "0"
    } else if digit == 1 {
        "1"
    } else if digit == 2 {
        "2"
    } else if digit == 3 {
        "3"
    } else if digit == 4 {
        "4"
    } else if digit == 5 {
        "5"
    } else if digit == 6 {
        "6"
    } else if digit == 7 {
        "7"
    } else if digit == 8 {
        "8"
    } else {
        "9"
    };
    assert(text@ =~= seq![digit_char(digit as nat)]);
    text
}

/// Writes a number in decimal.
pub fn decimal(n: usize) -> (text: String)
    ensures
        text@ == decimal_text(n as nat),
    decreases n,
{
    if n < 10 {
        String::from_str(digit_str(n))
    } else {
        let mut text = decimal(n / 10);
        text.append(digit_str(n % 10));
        assert(text@ =~= decimal_text(n as nat));
        text
    }
}

/// Gives each group its label.
pub fn make_labels(names: &Vec<Option<String>>) -> (labels: Vec<String>)
    ensures
        texts_of(labels@) == labels_of(names_view(names@)),
{
    let mut labels: Vec<String> = Vec::new();
    let mut index: usize = 0;
    while index < names.len()
        invariant
            index <= names@.len(),
            labels@.len() == index,
            forall|i: int|
                0 <= i < index ==> (#[trigger] labels@[i])@ == labels_of(names_view(names@))[i],
        decreases names@.len() - index,
    {
        let label = match &names[index] {
            Some(name) => name.clone(),
            None => decimal(index),
        };
        labels.push(label);
        index += 1;
    }
    assert(texts_of(labels@) =~= labels_of(names_view(names@)));
    labels
}

/// A compiled pattern, with the labels of its groups.
pub struct Pattern {
    re: regex::Regex,
    labels: Vec<String>,
}

impl Pattern {
    /// The labels kept with the pattern are those of the groups of its text.
    #[verifier::type_invariant]
    spec fn labelled(self) -> bool {
        &&& texts_of(self.labels@) == labels_of(regex_group_names(regex_source(self.re)))
        &&& self.labels@.len() >= 1
        &&& self.labels@[0]@ == decimal_text(0)
    }

    /// The text that the pattern was compiled from.
    pub closed spec fn source(&self) -> Seq<char> {
        regex_source(self.re)
    }

    /// The text that the pattern was compiled from.
    pub fn as_str(&self) -> (text: &str)
        ensures
            text@ == self.source(),
    {
        regex_as_str(&self.re)
    }

    /// The labels of the pattern's groups, the whole match first: each
    /// group's name, or its index in decimal where it has none.
    pub fn group_labels(&self) -> (labels: &Vec<String>)
        ensures
            texts_of(labels@) == labels_of(regex_group_names(self.source())),
            labels@.len() >= 1,
            labels@[0]@ == decimal_text(0),
    {
        proof {
            use_type_invariant(self);
        }
        &self.labels
    }

    pub(crate) fn matcher(&self) -> (re: &regex::Regex)
        ensures
            regex_source(*re) == self.source(),
    {
        &self.re
    }
}

/// Compiles a pattern. The engine alone decides whether the text is a
/// pattern; where it is not, the error carries what the engine says of it.
pub fn compile(pattern: &str) -> (made: Result<Pattern, CompileError>)
    ensures
        match made {
            Ok(compiled) => {
                &&& regex_diagnostic(pattern@) is None
                &&& compiled.source() == pattern@
            },
            Err(error) => regex_diagnostic(pattern@) == Some(error.message@),
        },
{
    match regex_new(pattern) {
        Ok(re) => {
            let names = regex_capture_names(&re);
            let labels = make_labels(&names);
            proof {
                let named = names_view(names@);
                assert(named[0] is None);
                assert(labels_of(named).len() == names@.len());
                assert(texts_of(labels@).len() == labels@.len());
                assert(texts_of(labels@)[0] == labels@[0]@);
                assert(labels_of(named)[0] == decimal_text(0));
            }
            Ok(Pattern { re, labels })
        },
        Err(error) => Err(CompileError { message: regex_error_message(&error) }),
    }
}

} // verus!
