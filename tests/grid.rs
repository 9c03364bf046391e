use tree_of_thoughts::grid::{FillStatus, GridError, MiniCrosswordEnv, Puzzle};
use tree_of_thoughts::reward::Ratio;

fn clues() -> Vec<String> {
    (1..=10).map(|i| format!("clue {}", i)).collect()
}

fn cells(rows: [&str; 5]) -> Vec<String> {
    rows.iter().flat_map(|r| r.chars().map(|c| c.to_string())).collect()
}

fn env_with(rows: [&str; 5]) -> MiniCrosswordEnv {
    let p = Puzzle::new(clues(), cells(rows)).unwrap();
    let mut env = MiniCrosswordEnv::new(vec![p]);
    env.reset(0).unwrap();
    env
}

#[test]
fn first_row_match_gives_five_letters() {
    let mut env = env_with(["RILLE", "ABCDE", "FGHIJ", "KMNOP", "QSTUV"]);
    let out = env.step("h1. rille").unwrap();
    assert_eq!(out.letter.r_letter, Ratio { num: 5, den: 25 });
    assert_eq!(out.letter.r_word, Ratio { num: 1, den: 10 });
    assert!(!out.letter.r_game);
    assert!(!out.r_all);
    assert!(!out.all);
    let board: String = env.board_cells().into_iter().collect();
    assert_eq!(board, format!("RILLE{}", "_".repeat(20)));
}

#[test]
fn replaying_rows_rebuilds_board() {
    let rows = ["RILLE", "ABCDE", "FGHIJ", "KMNOP", "QSTUV"];
    let mut env = env_with(rows);
    for (i, r) in rows.iter().enumerate() {
        env.step(&format!("h{}. {}", i + 1, r.to_lowercase())).unwrap();
    }
    let board: String = env.board_cells().into_iter().collect();
    assert_eq!(board, rows.concat());
    let out = env.step("h5. qstuv").unwrap();
    assert!(out.r_all);
    assert!(out.letter.r_game);
    assert_eq!(out.letter.r_letter, Ratio { num: 25, den: 25 });
    assert_eq!(out.letter.r_word, Ratio { num: 10, den: 10 });
}

#[test]
fn first_write_fills_and_crossing_change_flips_column() {
    let mut env = env_with(["RILLE", "ABCDE", "FGHIJ", "KMNOP", "QSTUV"]);
    env.step("h1. rille").unwrap();
    assert_eq!(env.statuses()[0], FillStatus::Filled);
    assert_eq!(env.statuses()[5], FillStatus::Unfilled);
    env.step("v1. rafkq").unwrap();
    assert_eq!(env.statuses()[5], FillStatus::Filled);
    env.step("h2. zbcde").unwrap();
    assert_eq!(env.statuses()[1], FillStatus::Filled);
    assert_eq!(env.statuses()[5], FillStatus::Changed);
    env.step("v1. rafkq").unwrap();
    assert_eq!(env.statuses()[5], FillStatus::Changed);
    assert_eq!(env.statuses()[1], FillStatus::Changed);
}

#[test]
fn vertical_write_fills_column() {
    let mut env = env_with(["RILLE", "ABCDE", "FGHIJ", "KMNOP", "QSTUV"]);
    env.step("v2. hello").unwrap();
    let board = env.board_cells();
    let col: String = (0..5).map(|r| board[r * 5 + 1]).collect();
    assert_eq!(col, "HELLO");
    assert_eq!(board[0], '_');
}

#[test]
fn only_last_line_of_action_counts() {
    let mut env = env_with(["RILLE", "ABCDE", "FGHIJ", "KMNOP", "QSTUV"]);
    env.step("  thinking...\nh3. fghij  \n").unwrap();
    let board: String = env.board_cells().into_iter().collect();
    assert_eq!(&board[10..15], "FGHIJ");
}

#[test]
fn malformed_actions_are_refused() {
    let mut env = env_with(["RILLE", "ABCDE", "FGHIJ", "KMNOP", "QSTUV"]);
    assert_eq!(env.step("h1 apple").err(), Some(GridError::Format));
    assert_eq!(env.step("h1. app").err(), Some(GridError::WordLength));
    assert_eq!(env.step("h1. apples").err(), Some(GridError::WordLength));
    assert_eq!(env.step("h6. apple").err(), Some(GridError::Position));
    assert_eq!(env.step("x1. apple").err(), Some(GridError::Position));
    assert_eq!(env.step("h0. apple").err(), Some(GridError::Position));
    let board: String = env.board_cells().into_iter().collect();
    assert_eq!(board, "_".repeat(25));
}

#[test]
fn reset_out_of_range_is_refused() {
    let mut env = env_with(["RILLE", "ABCDE", "FGHIJ", "KMNOP", "QSTUV"]);
    assert_eq!(env.reset(1).err(), Some(GridError::NoPuzzle));
    assert_eq!(env.len(), 1);
}

#[test]
fn puzzle_shape_is_checked() {
    let short: Vec<String> = clues().into_iter().take(9).collect();
    assert!(matches!(Puzzle::new(short, cells(["RILLE", "ABCDE", "FGHIJ", "KMNOP", "QSTUV"])), Err(GridError::PuzzleShape)));
    let mut bad = cells(["RILLE", "ABCDE", "FGHIJ", "KMNOP", "QSTUV"]);
    bad[3] = "LL".to_string();
    assert!(matches!(Puzzle::new(clues(), bad), Err(GridError::PuzzleShape)));
}

#[test]
fn renders_board_and_clues() {
    let mut env = env_with(["RILLE", "ABCDE", "FGHIJ", "KMNOP", "QSTUV"]);
    assert_eq!(env.render_board(), "Current board:\n_____\n_____\n_____\n_____\n_____\n");
    let clues = env.render_clues(None);
    assert!(clues.starts_with("h1. clue 1\nh2. clue 2\n"));
    assert!(clues.ends_with("v5. clue 10\n"));
    env.step("h1. rille").unwrap();
    assert_eq!(env.render_ans(Some(FillStatus::Filled)), "h1. clue 1: RILLE\n");
    assert_eq!(env.render_clues(Some(FillStatus::Filled)), "h1. clue 1\n");
    let view = env.render(Some(true));
    assert!(view.contains("\nFilled:\nh1. clue 1: RILLE\n\nChanged:\n"));
    assert!(view.contains("\nUnfilled:\nh2. clue 2: _____\n"));
    let plain = env.render(None);
    assert!(plain.starts_with("Current board:\nRILLE\n"));
    assert!(plain.contains("\nv1. clue 6: R____\n"));
}
