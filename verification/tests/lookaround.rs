use regex_rewrite::commands::{
    ExtraCommandsPlugin, ExtraParsersPlugin, ExtrasPlugin, ReverseEngineeringPlugin, StrMatch,
    StrReplacer,
};
use regex_rewrite::fancy::{
    compile_fancy, enumerate_fancy, groups_lie_in, in_order, list_matches_fancy,
    replace_all_fancy, FancyError, FancyReplaceError, SearchError,
};
use regex_rewrite::record::{Capture, MatchRecord};
use regex_rewrite::replace::ReplaceError;

fn capture(name: &str, text: &str, start: usize, end: usize) -> Capture {
    Capture { name: name.to_string(), text: text.to_string(), start, end }
}

#[test]
fn fancy_optional_group_is_left_out_when_it_takes_no_part() {
    let records = list_matches_fancy("a(b)?c", "ac-abc").unwrap();
    assert_eq!(records.len(), 2);
    assert_eq!(records[0].captures, vec![capture("0", "ac", 0, 2)]);
    assert_eq!(records[1].captures, vec![capture("0", "abc", 3, 6), capture("1", "b", 4, 5)]);
}

#[test]
fn fancy_lookahead_and_backreference_are_understood() {
    let records = list_matches_fancy(r"(?<c>\w)\k<c>(?=!)", "aa bb! cc!").unwrap();
    assert_eq!(records.len(), 2);
    assert_eq!(records[0].captures, vec![capture("0", "bb", 3, 5), capture("c", "b", 3, 4)]);
    assert_eq!(records[1].captures, vec![capture("0", "cc", 7, 9), capture("c", "c", 7, 8)]);
}

#[test]
fn fancy_empty_pattern_matches_at_every_position() {
    let records = list_matches_fancy("", "ab").unwrap();
    let spans: Vec<(usize, usize)> =
        records.iter().map(|r| (r.captures[0].start, r.captures[0].end)).collect();
    assert_eq!(spans, vec![(0, 0), (1, 1), (2, 2)]);
    let wide = list_matches_fancy("(?=.)|$", "é!").unwrap();
    let spans: Vec<(usize, usize)> =
        wide.iter().map(|r| (r.captures[0].start, r.captures[0].end)).collect();
    assert_eq!(spans, vec![(0, 0), (2, 2), (3, 3)]);
}

#[test]
fn fancy_invalid_pattern_is_refused_even_on_an_empty_subject() {
    match list_matches_fancy("a(b", "") {
        Err(FancyError::Compile(error)) => {
            assert_eq!(error.message, fancy_regex::Regex::new("a(b").unwrap_err().to_string())
        }
        other => panic!("unexpected outcome: {:?}", other),
    }
    assert!(compile_fancy(r"\k<nobody>").is_err());
}

#[test]
fn fancy_engine_that_gives_up_ends_the_search() {
    let pattern = compile_fancy(r"(x+x+)+y\1").unwrap();
    assert_eq!(pattern.as_str(), r"(x+x+)+y\1");
    assert_eq!(pattern.group_labels(), &vec!["0", "1"]);
    let subject = "x".repeat(60);
    match enumerate_fancy(&pattern, &subject) {
        Err(SearchError::Backend(message)) => assert!(message.starts_with("Error executing regex")),
        other => panic!("unexpected outcome: {:?}", other),
    }
    let out = replace_all_fancy(r"(x+x+)+y\1", &subject, |_m: &MatchRecord| -> Result<String, String> {
        panic!("the transform is not to be called")
    });
    assert!(matches!(out, Err(FancyReplaceError::Search(SearchError::Backend(_)))));
}

#[test]
fn fancy_rewrite_wraps_digits() {
    let out = replace_all_fancy(r"\d+(?!\d)", "x1y22z", |m: &MatchRecord| -> Result<String, String> {
        Ok(format!("[{}]", m.captures[0].text))
    });
    assert_eq!(out.unwrap(), "x[1]y[22]z");
}

#[test]
fn fancy_failing_transform_stops_the_rewrite() {
    let out = replace_all_fancy(r"\d", "a1b2c3", |m: &MatchRecord| -> Result<String, u32> {
        if m.captures[0].start == 3 { Err(7) } else { Ok("#".to_string()) }
    });
    assert!(matches!(out, Err(FancyReplaceError::Transform(7))));
}

#[test]
fn fancy_returning_each_match_gives_the_subject_back() {
    for (pattern, subject) in [(r"(?<=\s)\w+", "one two  three"), ("", "añb"), (r"(.)\1", "aabbcd")] {
        let out = replace_all_fancy(pattern, subject, |m: &MatchRecord| -> Result<String, String> {
            Ok(m.captures[0].text.clone())
        });
        assert_eq!(out.unwrap(), subject);
    }
    let none = replace_all_fancy("z(?=z)", "abc", |_m: &MatchRecord| -> Result<String, String> {
        Err("never called".to_string())
    });
    assert_eq!(none.unwrap(), "abc");
}

#[test]
fn ranges_between_characters_are_accepted_and_others_are_not() {
    assert!(groups_lie_in(&vec![Some((0, 1)), None, Some((1, 3))], "aé"));
    assert!(groups_lie_in(&vec![], "aé"));
    assert!(!groups_lie_in(&vec![Some((1, 2))], "aé"));
    assert!(!groups_lie_in(&vec![Some((2, 3))], "aé"));
    assert!(!groups_lie_in(&vec![Some((2, 1))], "abc"));
    assert!(!groups_lie_in(&vec![Some((0, 4))], "abc"));
}

#[test]
fn matches_out_of_order_are_not_built_on() {
    let subject = "abcdef";
    assert!(in_order(&vec![], 1, subject));
    assert!(in_order(&vec![vec![Some((0, 2))], vec![Some((2, 3))]], 1, subject));
    assert!(in_order(&vec![vec![Some((0, 0))], vec![Some((0, 3))]], 1, subject));
    assert!(in_order(&vec![vec![Some((1, 2)), None], vec![Some((4, 6)), Some((5, 6))]], 2, subject));
    assert!(!in_order(&vec![vec![Some((0, 2))], vec![Some((1, 3))]], 1, subject));
    assert!(!in_order(&vec![vec![Some((0, 2))], vec![Some((2, 2))]], 1, subject));
    assert!(!in_order(&vec![vec![Some((2, 3))], vec![Some((0, 1))]], 1, subject));
    assert!(!in_order(&vec![vec![None]], 1, subject));
    assert!(!in_order(&vec![vec![]], 0, subject));
    assert!(!in_order(&vec![vec![Some((0, 1))]], 2, subject));
    assert!(!in_order(&vec![vec![Some((0, 7))]], 1, subject));
    assert!(!in_order(&vec![vec![Some((0, 1)), Some((3, 2))]], 2, subject));
}

#[test]
fn commands_run_the_engines() {
    let listed = StrMatch.run("b", "abcb").unwrap();
    assert_eq!(listed.len(), 2);
    assert_eq!(listed[1].captures, vec![capture("0", "b", 3, 4)]);
    assert!(StrMatch.run("(", "abcb").is_err());
    let upper = |m: &MatchRecord| -> Result<String, String> { Ok(m.captures[0].text.to_uppercase()) };
    assert_eq!(StrReplacer.run("b", "abcb", upper).unwrap(), "aBcB");
    assert_eq!(StrReplacer.run_fancy("b(?=c)", "abcb", upper).unwrap(), "aBcb");
    assert!(matches!(StrReplacer.run("(", "abcb", upper), Err(ReplaceError::Compile(_))));
    assert!(matches!(StrReplacer.run_fancy("(", "abcb", upper), Err(FancyReplaceError::Compile(_))));
}

#[test]
fn plugins_list_their_commands() {
    assert_eq!(ExtrasPlugin.commands(), vec!["str replacer", "str match"]);
    assert_eq!(ExtraCommandsPlugin.commands(), vec!["str replacer"]);
    assert_eq!(ExtraParsersPlugin.commands(), vec!["from html"]);
    assert_eq!(ReverseEngineeringPlugin.commands(), vec!["mt64"]);
}
