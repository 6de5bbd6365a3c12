use regex_rewrite::commands::{Failure, Mt64Command};
use regex_rewrite::mt64::{to_signed, to_unsigned, Mt64Iter};

#[test]
fn bits_are_read_as_signed_and_back() {
    assert_eq!(to_signed(0), 0);
    assert_eq!(to_signed(1), 1);
    assert_eq!(to_signed(0x7fff_ffff_ffff_ffff), i64::MAX);
    assert_eq!(to_signed(0x8000_0000_0000_0000), i64::MIN);
    assert_eq!(to_signed(u64::MAX), -1);
    assert_eq!(to_signed(14514284786278117030), -3932459287431434586);
    assert_eq!(to_unsigned(0), 0);
    assert_eq!(to_unsigned(-1), u64::MAX);
    assert_eq!(to_unsigned(i64::MIN), 0x8000_0000_0000_0000);
    assert_eq!(to_unsigned(i64::MAX), 0x7fff_ffff_ffff_ffff);
    assert_eq!(to_unsigned(5489), 5489);
}

#[test]
fn run_without_a_count_yields_one_number() {
    let mut run = Mt64Command.run(None, None);
    assert_eq!(run.left(), 1);
    let expected = rand_mt::Mt64::new_unseeded().next_u64();
    assert_eq!(run.next(), Some(i64::from_le_bytes(expected.to_le_bytes())));
    assert_eq!(run.left(), 0);
    assert_eq!(run.next(), None);
    assert_eq!(run.next(), None);
}

#[test]
fn seeded_run_yields_the_generators_numbers_in_order() {
    let mut run = Mt64Iter::new(Some(-42), Some(5));
    let mut direct = rand_mt::Mt64::new((-42i64) as u64);
    for left in (0..5u64).rev() {
        let n = direct.next_u64();
        assert_eq!(run.next(), Some(n as i64));
        assert_eq!(run.left(), left);
    }
    assert_eq!(run.next(), None);
}

#[test]
fn default_seed_is_the_generators_own() {
    let mut seeded = Mt64Iter::new(Some(5489), Some(3));
    let mut unseeded = Mt64Iter::new(None, Some(3));
    for _ in 0..3 {
        assert_eq!(seeded.next(), unseeded.next());
    }
    let mut first = Mt64Iter::new(None, Some(1));
    assert_eq!(first.next(), Some(-3932459287431434586));
}

#[test]
fn count_is_read_as_unsigned() {
    assert_eq!(Mt64Iter::new(None, Some(0)).left(), 0);
    assert_eq!(Mt64Iter::new(None, Some(7)).left(), 7);
    assert_eq!(Mt64Iter::new(None, Some(-1)).left(), u64::MAX);
    assert_eq!(Mt64Iter::new(Some(1), Some(0)).next(), None);
}

#[test]
fn failures_have_their_headlines_and_labels() {
    assert_eq!(Failure::InputNotString.headline(), "Expected String input from pipeline");
    assert_eq!(Failure::InvalidPattern.headline(), "Invalid regex pattern");
    assert_eq!(Failure::OutputNotString.headline(), "Expected String output from closure");
    assert_eq!(Failure::ClosureFailed.headline(), "Error evaluating closure");
    assert_eq!(Failure::ClipboardAccess.headline(), "Failed to access clipboard");
    assert_eq!(Failure::ClipboardSet.headline(), "Failed to set clipboard text");
    assert_eq!(Failure::ClipboardGet.headline(), "Failed to get clipboard text");
    assert_eq!(Failure::InputNotString.label("int"), "requires string input; got int");
    assert_eq!(Failure::OutputNotString.label("list<any>"), "requires string output; got list<any>");
    assert_eq!(Failure::InvalidPattern.label("unclosed group"), "Error: unclosed group");
    assert_eq!(Failure::ClosureFailed.label("x"), "Error: x");
    assert_eq!(Failure::ClipboardGet.label(""), "Error: ");
}
