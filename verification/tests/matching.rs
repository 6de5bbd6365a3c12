use regex_rewrite::enumerate::{build_records, enumerate, list_matches};
use regex_rewrite::pattern::{compile, decimal, make_labels};
use regex_rewrite::record::{
    get_match_result, get_match_result_cap, match_result_type, Capture, FieldType, MatchRecord,
};
use regex_rewrite::text::slice_between;

fn capture(name: &str, text: &str, start: usize, end: usize) -> Capture {
    Capture { name: name.to_string(), text: text.to_string(), start, end }
}

#[test]
fn optional_group_is_left_out_when_it_takes_no_part() {
    let records = list_matches("a(b)?c", "ac-abc").unwrap();
    assert_eq!(records.len(), 2);
    assert_eq!(records[0], MatchRecord { captures: vec![capture("0", "ac", 0, 2)] });
    assert_eq!(
        records[1],
        MatchRecord { captures: vec![capture("0", "abc", 3, 6), capture("1", "b", 4, 5)] }
    );
}

#[test]
fn empty_pattern_matches_at_every_position() {
    let records = list_matches("", "ab").unwrap();
    let spans: Vec<(usize, usize)> =
        records.iter().map(|r| (r.captures[0].start, r.captures[0].end)).collect();
    assert_eq!(spans, vec![(0, 0), (1, 1), (2, 2)]);
    for record in &records {
        assert_eq!(record.captures.len(), 1);
        assert_eq!(record.captures[0].text, "");
    }
}

#[test]
fn pattern_without_a_match_lists_nothing() {
    assert_eq!(list_matches("z+", "abc abc").unwrap(), Vec::<MatchRecord>::new());
    assert_eq!(list_matches("z+", "").unwrap(), Vec::<MatchRecord>::new());
}

#[test]
fn invalid_pattern_is_refused_even_on_an_empty_subject() {
    let error = list_matches("a(b", "").unwrap_err();
    assert!(!error.message.is_empty());
    assert!(error.message.contains("unclosed group"));
    assert!(compile("[").is_err());
}

#[test]
fn named_groups_are_reported_by_name_and_the_others_by_index() {
    let pattern = compile(r"(?<year>\d{4})-(\d{2})(?<rest>x)?").unwrap();
    assert_eq!(pattern.group_labels(), &vec!["0", "year", "2", "rest"]);
    let records = enumerate(&pattern, "on 2024-05 and 1999-12x");
    assert_eq!(records.len(), 2);
    assert_eq!(
        records[0].captures,
        vec![capture("0", "2024-05", 3, 10), capture("year", "2024", 3, 7), capture("2", "05", 8, 10)]
    );
    assert_eq!(
        records[1].captures,
        vec![
            capture("0", "1999-12x", 15, 23),
            capture("year", "1999", 15, 19),
            capture("2", "12", 20, 22),
            capture("rest", "x", 22, 23),
        ]
    );
}

#[test]
fn ranges_count_bytes_not_characters() {
    let records = list_matches("β+", "αββγ β").unwrap();
    assert_eq!(records.len(), 2);
    assert_eq!(records[0].captures, vec![capture("0", "ββ", 2, 6)]);
    assert_eq!(records[1].captures, vec![capture("0", "β", 9, 11)]);
}

#[test]
fn every_capture_holds_the_text_in_its_range() {
    let subject = "key=value; other = thing; ünï=cödé";
    let records = list_matches(r"(\w+)\s*=\s*(\w+)", subject).unwrap();
    assert_eq!(records.len(), 3);
    for record in &records {
        for c in &record.captures {
            assert!(c.start <= c.end && c.end <= subject.len());
            assert_eq!(c.text, &subject[c.start..c.end]);
        }
    }
}

#[test]
fn matches_come_in_order_and_do_not_overlap() {
    let records = list_matches("a*", "baaab aa").unwrap();
    let spans: Vec<(usize, usize)> =
        records.iter().map(|r| (r.captures[0].start, r.captures[0].end)).collect();
    assert_eq!(spans, vec![(0, 0), (1, 4), (5, 5), (6, 8)]);
    for pair in spans.windows(2) {
        assert!(pair[0].1 <= pair[1].0);
        assert!(pair[0].0 < pair[1].0);
        assert!(pair[0].1 < pair[1].1);
    }
}

#[test]
fn a_pattern_can_be_used_on_several_subjects() {
    let pattern = compile("o").unwrap();
    assert_eq!(pattern.as_str(), "o");
    assert_eq!(enumerate(&pattern, "foo").len(), 2);
    assert_eq!(enumerate(&pattern, "bar").len(), 0);
    assert_eq!(enumerate(&pattern, "o").len(), 1);
}

#[test]
fn decimal_writes_numbers_without_leading_zeros() {
    assert_eq!(decimal(0), "0");
    assert_eq!(decimal(7), "7");
    assert_eq!(decimal(10), "10");
    assert_eq!(decimal(409), "409");
    assert_eq!(decimal(usize::MAX), usize::MAX.to_string());
}

#[test]
fn labels_are_names_or_indices() {
    let names = vec![None, Some("a".to_string()), None, Some("b".to_string())];
    assert_eq!(make_labels(&names), vec!["0", "a", "2", "b"]);
    assert_eq!(make_labels(&Vec::new()), Vec::<String>::new());
}

#[test]
fn record_is_built_from_the_groups_that_took_part() {
    let labels = vec!["0".to_string(), "word".to_string(), "2".to_string()];
    let groups = vec![Some((1, 5)), None, Some((3, 5))];
    let record = get_match_result(&labels, &groups, "abcdef");
    assert_eq!(record.captures, vec![capture("0", "bcde", 1, 5), capture("2", "de", 3, 5)]);
}

#[test]
fn records_are_built_one_per_match() {
    let labels = vec!["0".to_string(), "1".to_string()];
    let found = vec![vec![Some((0, 1)), Some((0, 1))], vec![Some((2, 3)), None]];
    let records = build_records(&labels, &found, "a-b");
    assert_eq!(records.len(), 2);
    assert_eq!(records[0].captures, vec![capture("0", "a", 0, 1), capture("1", "a", 0, 1)]);
    assert_eq!(records[1].captures, vec![capture("0", "b", 2, 3)]);
}

#[test]
fn slice_between_cuts_at_byte_offsets() {
    assert_eq!(slice_between("héllo", 1, 3), "é");
    assert_eq!(slice_between("héllo", 0, 6), "héllo");
    assert_eq!(slice_between("héllo", 3, 3), "");
}

#[test]
fn capture_is_cut_out_of_the_subject() {
    assert_eq!(get_match_result_cap("word", "a béc d", 2, 6), capture("word", "béc", 2, 6));
    assert_eq!(get_match_result_cap("0", "abc", 3, 3), capture("0", "", 3, 3));
}

#[test]
fn capture_has_name_text_and_range() {
    assert_eq!(
        match_result_type(),
        vec![("name", FieldType::Text), ("text", FieldType::Text), ("range", FieldType::Range)]
    );
}

#[test]
fn refused_pattern_carries_the_engines_words() {
    let error = list_matches("a(b", "abab").unwrap_err();
    assert_eq!(error.message, regex::Regex::new("a(b").unwrap_err().to_string());
}
