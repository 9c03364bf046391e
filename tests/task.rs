use tree_of_thoughts::grid::{GridError, Puzzle};
use tree_of_thoughts::reward::{Ratio, TOutput};
use tree_of_thoughts::task::{get_task, task_kind, Task, TaskError, TaskKind};

fn strings(v: &[&str]) -> Vec<String> {
    v.iter().map(|s| s.to_string()).collect()
}

fn puzzle() -> Puzzle {
    let clues: Vec<String> = (1..=10).map(|i| format!("clue {}", i)).collect();
    let cells: Vec<String> = "RILLEABCDEFGHIJKMNOPQSTUV".chars().map(|c| c.to_string()).collect();
    Puzzle::new(clues, cells).unwrap()
}

fn crosswords() -> Task {
    get_task("crosswords", vec![], vec![puzzle()]).unwrap()
}

#[test]
fn task_names_select_variants() {
    assert_eq!(task_kind("game24"), Ok(TaskKind::Game24));
    assert_eq!(task_kind("text"), Ok(TaskKind::Text));
    assert_eq!(task_kind("crosswords"), Ok(TaskKind::MiniCrossword));
    assert!(matches!(get_task("chess", vec![], vec![]), Err(TaskError::InvalidTask)));
}

#[test]
fn step_counts_are_fixed_per_variant() {
    assert_eq!(get_task("game24", vec![], vec![]).unwrap().get_steps(), 4);
    assert_eq!(get_task("text", vec![], vec![]).unwrap().get_steps(), 2);
    assert_eq!(crosswords().get_steps(), 10);
}

#[test]
fn inputs_come_from_the_dataset() {
    let mut t = get_task("game24", strings(&["1 1 4 6", "4 4 6 8"]), vec![]).unwrap();
    assert_eq!(t.get_input(1), Ok("4 4 6 8".to_string()));
    assert_eq!(t.get_input(2), Err(TaskError::ItemNotFound));
    let mut c = crosswords();
    let clues = c.get_input(0).unwrap();
    assert!(clues.starts_with("h1. clue 1\n"));
    assert!(clues.ends_with("v5. clue 10\n"));
    assert_eq!(c.get_input(3), Err(TaskError::ItemNotFound));
}

#[test]
fn prompts_wrap_the_input() {
    let t = get_task("text", vec![], vec![]).unwrap();
    let p = t.standard_prompt_wrap("It ends.", "Passage:\n");
    assert_eq!(p, "\nWrite a coherent passage of 4 short paragraphs. The end sentence of each paragraph must be: It ends.\nPassage:\n");
    let c = t.cot_prompt_wrap("It ends.", "");
    assert!(c.contains("must be: It ends.\n\nMake a plan then write."));
    assert_eq!(t.sample_prompt("It ends.", "", "cot"), Ok(c));
    assert_eq!(t.sample_prompt("It ends.", "", "fancy"), Err(TaskError::InvalidMode));
    assert_eq!(t.sample_prompt("It ends.", "", ""), Err(TaskError::InvalidMode));
}

#[test]
fn samples_follow_their_parent() {
    let t = get_task("text", vec![], vec![]).unwrap();
    assert_eq!(t.get_samples("Plan: ", &strings(&["a", "b"])), strings(&["Plan: a", "Plan: b"]));
}

#[test]
fn vote_prompt_numbers_choices_from_one() {
    let t = get_task("text", vec![], vec![]).unwrap();
    let p = t.vote_prompt_wrap(&strings(&["first", "second"]));
    assert!(p.ends_with("\nChoice 1:\nfirst\nChoice 2:\nsecond\n"));
    assert!(p.starts_with("\nGiven an instruction and several choices"));
    let votes = t.get_votes(&strings(&["a", "b", "c"]), &strings(&["the best choice is 2", "the best choice is 2", "the best choice is 1"]));
    assert_eq!(votes, vec![1, 2, 0]);
}

#[test]
fn proposals_are_split_by_line() {
    let t = get_task("game24", vec![], vec![]).unwrap();
    let props = t.get_proposals("", &strings(&["4 + 8 = 12 (left: 4 6 12)\r\n6 - 4 = 2 (left: 2 8 4)\n"])).unwrap();
    assert_eq!(props, strings(&["4 + 8 = 12 (left: 4 6 12)\n", "6 - 4 = 2 (left: 2 8 4)\n"]));
    let more = t.get_proposals("a\n", &strings(&["b"])).unwrap();
    assert_eq!(more, strings(&["a\nb\n"]));
    assert_eq!(t.get_proposals("", &vec![]), Err(TaskError::NoOutputs));
}

#[test]
fn arithmetic_proposal_prompt_uses_numbers_left() {
    let mut t = get_task("game24", strings(&["4 4 6 8"]), vec![]).unwrap();
    let p = t.propose_prompt_wrap("4 4 6 8", "").unwrap();
    assert!(p.ends_with("Input: 4 4 6 8\nPossible next steps:\n"));
    let p = t.propose_prompt_wrap("4 4 6 8", "4 + 8 = 12 (left: 4 6 12)\n").unwrap();
    assert!(p.ends_with("Input: 4 6 12\nPossible next steps:\n"));
    let y = "a (left: 2 12)\n2 * 12 = 24 (left: 24)\n";
    let p = t.propose_prompt_wrap("4 4 6 8", y).unwrap();
    assert!(p.ends_with(&format!("Input: 4 4 6 8\nSteps:{}", y)));
    let mut text = get_task("text", vec![], vec![]).unwrap();
    assert_eq!(text.propose_prompt_wrap("x", "y"), Err(TaskError::InvalidMode));
}

#[test]
fn grid_proposal_prompt_shows_status() {
    let mut t = crosswords();
    let x = t.get_input(0).unwrap();
    let p = t.propose_prompt_wrap(&x, "Output:\nR I L L E\n").unwrap();
    assert!(p.starts_with("Let's play a 5 x 5 mini crossword"));
    assert!(p.contains("Current board:\nRILLE\n_____\n"));
    assert!(p.contains("\nFilled:\nh1. clue 1: RILLE\n"));
    assert_eq!(t.propose_prompt_wrap("unknown clues", ""), Err(TaskError::ItemNotFound));
}

#[test]
fn grid_status_replays_rows() {
    let mut t = crosswords();
    let x = t.get_input(0).unwrap();
    let info = t.set_status(&x, "thoughts\nOutput:\nR I L L E\nA B C D E\nF G\n").unwrap();
    assert_eq!(info.r_letter, Ratio { num: 12, den: 25 });
    assert_eq!(info.r_word, Ratio { num: 2, den: 10 });
    assert!(matches!(t.set_status(&x, "Output:\nABCDEF"), Err(TaskError::Grid(GridError::WordLength))));
    let mut g = get_task("game24", vec![], vec![]).unwrap();
    assert!(matches!(g.set_status("x", "y"), Err(TaskError::InvalidMode)));
}

#[test]
fn grid_output_is_graded_by_words() {
    let mut t = crosswords();
    let solved = "Output:\nR I L L E\nA B C D E\nF G H I J\nK M N O P\nQ S T U V";
    let info = t.test_output(0, solved, &vec![]).unwrap();
    assert!(info.r_game);
    assert_eq!(info.r_letter, Ratio { num: 25, den: 25 });
    assert_eq!(info.r, Ratio { num: 10, den: 10 });
    let partial = t.test_output(0, "Output:\nr i l l e\nx", &vec![]).unwrap();
    assert_eq!(partial.r_word, Ratio { num: 1, den: 10 });
    assert_eq!(partial.r, partial.r_word);
    assert!(matches!(t.test_output(5, solved, &vec![]), Err(TaskError::ItemNotFound)));
}

#[test]
fn text_output_is_graded_by_judges() {
    let mut t = get_task("text", strings(&["It ends."]), vec![]).unwrap();
    let prompt = t.grading_prompt("Plan:\nx\nPassage:\nThe story.").unwrap();
    assert!(prompt.ends_with("an integer from 1 to 10.\nThe story."));
    let info = t
        .test_output(0, "Passage:\nThe story.", &strings(&["Thus the coherency score is 6", "Thus the coherency score is 9", "?"]))
        .unwrap();
    assert_eq!(info.rs, vec![6, 9]);
    assert_eq!(info.r, Ratio { num: 15, den: 2 });
    let none = t.test_output(0, "x", &strings(&["?"])).unwrap();
    assert_eq!(none.r, Ratio { num: 0, den: 1 });
    assert!(get_task("game24", vec![], vec![]).unwrap().grading_prompt("x").is_none());
}

#[test]
fn arithmetic_output_earns_nothing() {
    let mut t = get_task("game24", strings(&["4 4 6 8"]), vec![]).unwrap();
    let info = t.test_output(0, "Answer: (4 + 8) * (6 - 4) = 24", &vec![]).unwrap();
    assert_eq!(info.r, Ratio { num: 0, den: 1 });
    assert!(!info.r_game);
    assert!(matches!(t.test_output(1, "", &vec![]), Err(TaskError::ItemNotFound)));
    let fresh = TOutput::new();
    assert_eq!(fresh.r, Ratio { num: 0, den: 1 });
    assert!(fresh.rs.is_empty());
}
