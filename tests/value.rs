use tree_of_thoughts::task::{get_task, Task};
use tree_of_thoughts::value::{
    final_answer_prompt, lacks_answer, short_circuits, value_prompt_of, ValueAction, ValueCache,
    ValueRun,
};

fn strings(v: &[&str]) -> Vec<String> {
    v.iter().map(|s| s.to_string()).collect()
}

fn game24() -> Task {
    get_task("game24", strings(&["4 4 6 8"]), vec![]).unwrap()
}

fn cache_of(task: &mut Task) -> &mut ValueCache {
    match task {
        Task::Game24 { value_cache, .. } => value_cache,
        _ => panic!("not the arithmetic task"),
    }
}

#[test]
fn step_candidate_is_scored_from_judgements() {
    let mut task = game24();
    let ys = strings(&["4 + 8 = 12 (left: 4 6 12)\n"]);
    let mut run = task.get_values("4 4 6 8", &ys, 3, None).unwrap();
    let prompt = match run.step(cache_of(&mut task)) {
        ValueAction::Ask { prompt, n } => {
            assert_eq!(n, 3);
            prompt
        }
        _ => panic!("expected a request to the model"),
    };
    assert!(prompt.ends_with("4 6 12\n"));
    assert!(prompt.contains("Evaluate if given numbers can reach 24"));
    let judgements = strings(&["4 6 12\nsure", "12 * 2\nlikely", "no\nimpossible"]);
    run.answer(cache_of(&mut task), &judgements);
    assert!(matches!(run.step(cache_of(&mut task)), ValueAction::Done));
    assert_eq!(run.values(), vec![21001]);
}

#[test]
fn scored_prompt_is_reused_without_asking() {
    let mut task = game24();
    let ys = strings(&["4 + 8 = 12 (left: 4 6 12)\n"]);
    let mut run = task.get_values("4 4 6 8", &ys, 3, None).unwrap();
    assert!(matches!(run.step(cache_of(&mut task)), ValueAction::Ask { .. }));
    run.answer(cache_of(&mut task), &strings(&["sure", "sure"]));
    assert_eq!(run.values(), vec![40000]);

    let mut again = task.get_values("4 4 6 8", &ys, 3, None).unwrap();
    assert!(matches!(again.step(cache_of(&mut task)), ValueAction::Scored(40000)));
    assert!(matches!(again.step(cache_of(&mut task)), ValueAction::Done));
    assert_eq!(again.values(), vec![40000]);
}

#[test]
fn same_prompt_within_a_batch_shares_its_score() {
    let mut task = game24();
    let ys = strings(&["4 + 8 = 12 (left: 4 6 12)", "8 + 4 = 12 (left: 4 6 12)"]);
    let mut run = task.get_values("4 4 6 8", &ys, 1, Some(false)).unwrap();
    assert!(matches!(run.step(cache_of(&mut task)), ValueAction::Ask { .. }));
    run.answer(cache_of(&mut task), &strings(&["likely"]));
    assert!(matches!(run.step(cache_of(&mut task)), ValueAction::Scored(1000)));
    assert_eq!(run.values(), vec![1000, 1000]);
    assert_eq!(cache_of(&mut task).get(&value_prompt_of("4 4 6 8", &ys[0])), None);
}

#[test]
fn four_steps_without_answer_score_zero() {
    let y = "4 + 8 = 12 (left: 4 6 12)\n6 - 4 = 2 (left: 2 12)\n2 * 12 = 24 (left: 24)\nx (left: 24)\n";
    assert!(short_circuits(y));
    assert!(!short_circuits("a\nb\nc\nAnswer: (4 + 8) * (6 - 4) = 24\n"));
    assert!(!short_circuits("a\nb\nc\n"));
    let mut task = game24();
    let ys = strings(&[y]);
    let mut run = task.get_values("4 4 6 8", &ys, 3, None).unwrap();
    assert!(matches!(run.step(cache_of(&mut task)), ValueAction::Scored(0)));
    assert_eq!(run.values(), vec![0]);
}

#[test]
fn finished_answer_is_judged_lower_cased() {
    let y = "4 + 8 = 12 (left: 4 6 12)\nAnswer: (4 + 8) * (6 - 4) = 24";
    let prompt = value_prompt_of("4 4 6 8", y);
    assert!(prompt.ends_with("Input: 4 4 6 8\nAnswer: (4 + 8) * (6 - 4) = 24\nJudge:"));
    let direct = final_answer_prompt("1 2 3 4", "answer: abc answer: ");
    assert!(direct.ends_with("Input: 1 2 3 4\nAnswer: abc \nJudge:"));
    let upper = value_prompt_of("1 1 1 1", "ANSWER: XY");
    assert!(upper.ends_with("Answer: xy\nJudge:"));
    assert!(lacks_answer("no final line"));
    assert!(!lacks_answer("the answer: 24"));
}

#[test]
fn cache_keeps_first_score() {
    let mut c = ValueCache::new();
    assert_eq!(c.get("p"), None);
    c.insert("p".to_string(), 5);
    c.insert("p".to_string(), 9);
    c.insert("q".to_string(), 1);
    assert_eq!(c.get("p"), Some(5));
    assert_eq!(c.get("q"), Some(1));
}

#[test]
fn run_reports_its_setup() {
    let ys = strings(&["a"]);
    let mut run = ValueRun::new("x", &ys, 2, Some(true));
    let mut cache = ValueCache::new();
    match run.step(&mut cache) {
        ValueAction::Ask { n, .. } => assert_eq!(n, 2),
        _ => panic!("expected a request"),
    }
    match run.step(&mut cache) {
        ValueAction::Ask { n, .. } => assert_eq!(n, 2),
        _ => panic!("expected the same request"),
    }
}
