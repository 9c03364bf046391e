use tree_of_thoughts::parse::{
    coherency_scores, decimal_of, get_current_number, judge_value, mean_score, tally_votes,
};
use tree_of_thoughts::reward::Ratio;

fn strings(v: &[&str]) -> Vec<String> {
    v.iter().map(|s| s.to_string()).collect()
}

#[test]
fn votes_map_to_zero_based_tallies() {
    let outputs = strings(&[
        "Choice 2 is clearer.\nThe best choice is 2",
        "Thus the best choice is 2.",
        "The best choice is 1",
    ]);
    assert_eq!(tally_votes(&outputs, 3), vec![1, 2, 0]);
}

#[test]
fn out_of_range_and_unmatched_votes_count_for_none() {
    let outputs = strings(&[
        "The best choice is 7",
        "The best choice is 0",
        "no decision",
        "The best choice is\n3",
        "The best choice is choice 3",
        "The best choice is 99999999999999999999999999",
    ]);
    assert_eq!(tally_votes(&outputs, 3), vec![0, 0, 1]);
}

#[test]
fn judgements_are_weighted() {
    let outputs = strings(&["4 6 12\nsure", "reasoning\nlikely\n", "x\nimpossible", "x\nmaybe", ""]);
    assert_eq!(judge_value(&outputs), 20000 + 1000 + 1);
    assert_eq!(judge_value(&strings(&["sure", "sure\r\n"])), 40000);
    assert_eq!(judge_value(&vec![]), 0);
}

#[test]
fn remaining_numbers_come_from_last_line() {
    assert_eq!(get_current_number("4 + 8 = 12 (left: 4 6 12)"), "4 6 12");
    assert_eq!(get_current_number("4 + 8 = 12 (left: 4 6 12)\n6 * 4 = 24 (left: 12 24)\n"), "12 24");
    assert_eq!(get_current_number("4 4 6 8"), "4 4 6 8");
    assert_eq!(get_current_number(""), "");
}

#[test]
fn coherency_scores_are_read_and_averaged() {
    let outputs = strings(&[
        "Good flow.\nThus the coherency score is 7",
        "Thus the coherency score is 10.",
        "I cannot score this.",
        "Thus the coherency score is ten",
    ]);
    assert_eq!(coherency_scores(&outputs), vec![7, 10]);
    let (mean, scores) = mean_score(&outputs);
    assert_eq!(scores, vec![7, 10]);
    assert_eq!(mean, Ratio { num: 17, den: 2 });
    let (none, empty) = mean_score(&strings(&["nothing"]));
    assert!(empty.is_empty());
    assert_eq!(none, Ratio { num: 0, den: 1 });
}

#[test]
fn numerals_are_decimal() {
    let s: String = decimal_of(0).into_iter().collect();
    assert_eq!(s, "0");
    let s: String = decimal_of(1207).into_iter().collect();
    assert_eq!(s, "1207");
}
