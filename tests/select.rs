use tree_of_thoughts::search::{pick, select_ids, EvaluateMethod, GenerateMethod, Search, SelectMethod};
use tree_of_thoughts::select::{greedy, select_greedy, select_sample, SelectError};

#[test]
fn greedy_orders_by_score_stably() {
    assert_eq!(greedy(&vec![1, 3, 3, 2]), vec![1, 2, 3, 0]);
    assert_eq!(greedy(&vec![]), Vec::<usize>::new());
    assert_eq!(greedy(&vec![5, 5, 5]), vec![0, 1, 2]);
    assert_eq!(greedy(&vec![0, 7, 1]), vec![1, 2, 0]);
}

#[test]
fn greedy_selection_keeps_the_best() {
    assert_eq!(select_greedy(&vec![1, 3, 3, 2], 2), vec![1, 2]);
    assert_eq!(select_greedy(&vec![4, 9], 5), vec![1, 0]);
    assert_eq!(select_ids(SelectMethod::Greedy, &vec![2, 8, 5], 1), Ok(vec![1]));
}

#[test]
fn sampling_needs_positive_total() {
    assert_eq!(select_sample(&vec![0, 0], 3), Err(SelectError::ZeroSum));
    assert_eq!(select_sample(&vec![], 3), Err(SelectError::ZeroSum));
    assert_eq!(select_sample(&vec![u64::MAX, 1], 1), Err(SelectError::TooLarge));
}

#[test]
fn sampling_never_draws_zero_scores() {
    let ids = select_sample(&vec![0, 4, 0], 50).unwrap();
    assert_eq!(ids.len(), 50);
    assert!(ids.iter().all(|&i| i == 1));
}

#[test]
fn sampling_follows_normalized_scores() {
    let draws = 40000;
    let ids = select_ids(SelectMethod::Sample, &vec![2, 1, 1], draws).unwrap();
    let mut counts = [0usize; 3];
    for i in ids {
        counts[i] += 1;
    }
    let expected = [0.5f64, 0.25, 0.25];
    for k in 0..3 {
        let freq = counts[k] as f64 / draws as f64;
        assert!((freq - expected[k]).abs() < 0.02, "index {} drawn at {}", k, freq);
    }
}

#[test]
fn picks_candidates_by_index() {
    let ys = vec!["a".to_string(), "b".to_string(), "c".to_string()];
    assert_eq!(pick(&ys, &vec![2, 0, 2]), vec!["c".to_string(), "a".to_string(), "c".to_string()]);
}

#[test]
fn method_names_map_to_choices() {
    assert_eq!(GenerateMethod::from_name("propose"), Some(GenerateMethod::Propose));
    assert_eq!(GenerateMethod::from_name("sample"), Some(GenerateMethod::Sample));
    assert_eq!(GenerateMethod::from_name("other"), None);
    assert_eq!(EvaluateMethod::from_name("vote"), Some(EvaluateMethod::Vote));
    assert_eq!(EvaluateMethod::from_name("value"), Some(EvaluateMethod::Value));
    assert_eq!(EvaluateMethod::from_name("Value"), None);
    assert_eq!(SelectMethod::from_name("greedy"), Some(SelectMethod::Greedy));
    assert_eq!(SelectMethod::from_name("sample"), Some(SelectMethod::Sample));
    assert_eq!(SelectMethod::from_name(""), None);
}

#[test]
fn search_keeps_selected_candidates_and_records_steps() {
    let mut search = Search::new("4 4 6 8", 2);
    assert!(!search.is_done());
    assert_eq!(search.ys(), vec![String::new()]);
    let new_ys: Vec<String> = vec!["a".into(), "b".into(), "c".into()];
    let ids = search.advance(new_ys, vec![1, 5, 3], SelectMethod::Greedy, 2).unwrap();
    assert_eq!(ids, vec![1, 2]);
    assert_eq!(search.ys(), vec!["b".to_string(), "c".to_string()]);
    assert_eq!(
        search.advance(vec!["bx".into(), "cx".into()], vec![0, 0], SelectMethod::Sample, 1).err(),
        Some(SelectError::ZeroSum)
    );
    assert!(!search.is_done());
    search.advance(vec!["bx".into(), "cx".into()], vec![0, 2], SelectMethod::Sample, 3).unwrap();
    assert!(search.is_done());
    let (ys, trace) = search.finish();
    assert_eq!(ys, vec!["cx".to_string(); 3]);
    assert_eq!(trace.len(), 2);
    assert_eq!(trace[0].step, 0);
    assert_eq!(trace[0].ys, vec![String::new()]);
    assert_eq!(trace[0].values, vec![1, 5, 3]);
    assert_eq!(trace[0].select_new_ys, vec!["b".to_string(), "c".to_string()]);
    assert_eq!(trace[1].step, 1);
    assert_eq!(trace[1].x, "4 4 6 8");
    assert_eq!(trace[1].new_ys, vec!["bx".to_string(), "cx".to_string()]);
}
