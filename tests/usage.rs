use tree_of_thoughts::usage::{batch_sizes, gpt_usage, Backend, Usage};

#[test]
fn requests_are_split_into_batches_of_twenty() {
    assert_eq!(batch_sizes(45), vec![20, 20, 5]);
    assert_eq!(batch_sizes(20), vec![20]);
    assert_eq!(batch_sizes(0), Vec::<u64>::new());
}

#[test]
fn usage_accumulates_and_saturates() {
    let mut u = Usage::new();
    u.record(1500, 2500);
    u.record(600, 0);
    assert_eq!(u, Usage { completion_tokens: 2100, prompt_tokens: 2500 });
    u.record(u64::MAX, 1);
    assert_eq!(u.completion_tokens, u64::MAX);
    assert_eq!(u.prompt_tokens, 2501);
}

#[test]
fn cost_depends_on_backend() {
    let u = Usage { completion_tokens: 2100, prompt_tokens: 2500 };
    assert_eq!(gpt_usage(&u, Backend::Gpt4), (2100, 2500, 2 * 60000 + 2 * 30000));
    assert_eq!(gpt_usage(&u, Backend::Gpt35Turbo), (2100, 2500, 4 * 200));
    assert_eq!(Backend::from_name("gpt-4"), Some(Backend::Gpt4));
    assert_eq!(Backend::from_name("gpt-3.5-turbo"), Some(Backend::Gpt35Turbo));
    assert_eq!(Backend::from_name("gpt-5"), None);
}
