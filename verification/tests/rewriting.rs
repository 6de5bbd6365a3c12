use regex_rewrite::commands::{Clip, ClipGet, FromHtml, Mt64Command, StrMatch, StrReplacer};
use regex_rewrite::enumerate::list_matches;
use regex_rewrite::record::{Capture, MatchRecord};
use regex_rewrite::replace::{replace_all, replace_matches, splice, ReplaceError};
use std::cell::RefCell;

fn whole(text: &str, start: usize, end: usize) -> MatchRecord {
    MatchRecord {
        captures: vec![Capture { name: "0".to_string(), text: text.to_string(), start, end }],
    }
}

#[test]
fn digits_are_wrapped_in_brackets() {
    let out = replace_all(r"\d+", "x1y22z", |m: &MatchRecord| -> Result<String, String> {
        Ok(format!("[{}]", m.captures[0].text))
    });
    assert_eq!(out.unwrap(), "x[1]y[22]z");
}

#[test]
fn empty_pattern_calls_the_transform_at_each_position_once() {
    let seen: RefCell<Vec<(usize, usize)>> = RefCell::new(Vec::new());
    let out = replace_all("", "ab", |m: &MatchRecord| -> Result<String, String> {
        seen.borrow_mut().push((m.captures[0].start, m.captures[0].end));
        Ok("-".to_string())
    });
    assert_eq!(out.unwrap(), "-a-b-");
    assert_eq!(seen.into_inner(), vec![(0, 0), (1, 1), (2, 2)]);
}

#[test]
fn failing_transform_stops_the_rewrite_and_returns_no_text() {
    let calls: RefCell<Vec<String>> = RefCell::new(Vec::new());
    let out = replace_all(r"\d", "a1b2c3", |m: &MatchRecord| -> Result<String, String> {
        calls.borrow_mut().push(m.captures[0].text.clone());
        if m.captures[0].text == "2" {
            Err("no twos".to_string())
        } else {
            Ok("#".to_string())
        }
    });
    match out {
        Err(ReplaceError::Transform(error)) => assert_eq!(error, "no twos"),
        other => panic!("unexpected outcome: {:?}", other),
    }
    assert_eq!(calls.into_inner(), vec!["1", "2"]);
}

#[test]
fn invalid_pattern_is_refused_before_the_transform_is_called() {
    let calls: RefCell<usize> = RefCell::new(0);
    let out = replace_all("(", "", |_m: &MatchRecord| -> Result<String, String> {
        *calls.borrow_mut() += 1;
        Ok(String::new())
    });
    match out {
        Err(ReplaceError::Compile(error)) => assert!(!error.message.is_empty()),
        other => panic!("unexpected outcome: {:?}", other),
    }
    assert_eq!(calls.into_inner(), 0);
}

#[test]
fn subject_without_a_match_is_returned_as_it_is() {
    let out = replace_all("z+", "päper & ink", |_m: &MatchRecord| -> Result<String, String> {
        Err("never called".to_string())
    });
    assert_eq!(out.unwrap(), "päper & ink");
    let empty = replace_all("z+", "", |_m: &MatchRecord| -> Result<String, String> {
        Ok("x".to_string())
    });
    assert_eq!(empty.unwrap(), "");
}

#[test]
fn returning_each_match_gives_the_subject_back() {
    for (pattern, subject) in [
        (r"\w+", "one two  three"),
        ("", "añb"),
        ("a*", "baaab aa"),
        (r"(x)?(y)", "xy y zxy"),
        (".", "日本語"),
    ] {
        let out = replace_all(pattern, subject, |m: &MatchRecord| -> Result<String, String> {
            Ok(m.captures[0].text.clone())
        });
        assert_eq!(out.unwrap(), subject);
    }
}

#[test]
fn transform_sees_names_and_groups() {
    let out = replace_all(
        r"(?<k>\w+)=(\w+)?",
        "a=1 b= c=3",
        |m: &MatchRecord| -> Result<String, String> {
            let parts: Vec<String> =
                m.captures.iter().map(|c| format!("{}:{}", c.name, c.text)).collect();
            Ok(format!("<{}>", parts.join(",")))
        },
    );
    assert_eq!(out.unwrap(), "<0:a=1,k:a,2:1> <0:b=,k:b> <0:c=3,k:c,2:3>");
}

#[test]
fn replacement_is_taken_as_it_is() {
    let out = replace_all("b", "abc", |_m: &MatchRecord| -> Result<String, String> {
        Ok("$0\\1b".to_string())
    });
    assert_eq!(out.unwrap(), "a$0\\1bc");
}

#[test]
fn splice_puts_replacements_between_the_gaps() {
    let records = vec![whole("1", 1, 2), whole("22", 3, 5)];
    let replacements = vec!["[1]".to_string(), "".to_string()];
    assert_eq!(splice("x1y22z", &records, &replacements), "x[1]yz");
    assert_eq!(splice("x1y22z", &Vec::new(), &Vec::new()), "x1y22z");
    let at_ends = vec![whole("", 0, 0), whole("é", 1, 3)];
    let both = vec!["<".to_string(), ">".to_string()];
    assert_eq!(splice("aé", &at_ends, &both), "<a>");
}

#[test]
fn replace_matches_works_on_given_records() {
    let records = list_matches("o", "foo boo").unwrap();
    let out = replace_matches("foo boo", &records, |m: &MatchRecord| -> Result<String, u8> {
        Ok(m.captures[0].start.to_string())
    });
    assert_eq!(out.unwrap(), "f12 b56");
    let failed = replace_matches("foo boo", &records, |m: &MatchRecord| -> Result<String, u8> {
        if m.captures[0].start == 5 { Err(5) } else { Ok(String::new()) }
    });
    assert_eq!(failed, Err(5));
}

#[test]
fn commands_are_listed_under_their_names() {
    assert_eq!(StrMatch.name(), "str match");
    assert_eq!(StrReplacer.name(), "str replacer");
    assert_eq!(Clip.name(), "clip");
    assert_eq!(ClipGet.name(), "clip get");
    assert_eq!(FromHtml.name(), "from html");
    assert_eq!(Mt64Command.name(), "mt64");
    assert_eq!(StrMatch.description(), "Matches all occurrences of a regex pattern in a string.");
    assert_eq!(
        StrReplacer.description(),
        "Replaces all matches of a regex pattern with the result of a closure"
    );
    assert_eq!(Clip.description(), "Copy the input to the system clipboard.");
    assert_eq!(ClipGet.description(), "Get the content of the system clipboard.");
    assert_eq!(FromHtml.description(), "Convert HTML to a record");
    assert_eq!(
        Mt64Command.description(),
        "Generate random numbers using the Mersenne Twister 64-bit algorithm"
    );
}
