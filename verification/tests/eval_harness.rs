use tpt_ai_agents::eval_harness::{
    dataset_lines, ContainsScorer, EvalConfig, EvalError, EvalMetrics, EvalSample, ExactMatchScorer,
    ParallelExecutor,
};

#[test]
fn test_executor() {
    let executor = ParallelExecutor::new(2);
    let samples = vec![
        EvalSample::new("q1", "a", "a"),
        EvalSample::new("q2", "b", "b"),
        EvalSample::new("q3", "c", "wrong"),
    ];
    let metrics = executor.execute(samples, |s| EvalSample {
        input: s.input.clone(),
        expected: s.expected.clone(),
        output: s.expected.clone(),
        prompt_tokens: 10,
        completion_tokens: 5,
    });
    assert_eq!(metrics.correct, 3);
    assert_eq!(metrics.token_usage.total_tokens, 45);
}

#[test]
fn test_eval_harness() {
    let samples = vec![
        EvalSample::new("q1", "yes", "yes"),
        EvalSample::new("q2", "no", "yes"),
        EvalSample::new("q3", "maybe", "maybe"),
    ];
    let passed: Vec<bool> = samples
        .iter()
        .map(|s| ExactMatchScorer.judge(&s.output, &s.expected).0)
        .collect();
    let metrics = EvalMetrics::tally(&samples, &passed);
    assert_eq!(metrics.total_samples, 3);
    assert_eq!(metrics.correct, 2);
}

#[test]
fn tally_sums_tokens() {
    let mut a = EvalSample::new("q", "x", "x");
    a.prompt_tokens = 5;
    a.completion_tokens = 2;
    let mut b = EvalSample::new("q", "x", "y");
    b.prompt_tokens = 1;
    let m = EvalMetrics::tally(&[a, b], &[true, false]);
    assert_eq!(m.correct, 1);
    assert_eq!(m.token_usage.prompt_tokens, 6);
    assert_eq!(m.token_usage.completion_tokens, 2);
    assert_eq!(m.token_usage.total_tokens, 8);
    assert_eq!(m.latency_ms, 0);
}

#[test]
fn exact_match_trims_both_sides() {
    let (ok, details) = ExactMatchScorer.judge("  yes\n", "yes ");
    assert!(ok);
    assert_eq!(details, "exact match");
    let (ok, details) = ExactMatchScorer.judge("no", "yes");
    assert!(!ok);
    assert_eq!(details, "mismatch: predicted='no', expected='yes'");
}

#[test]
fn contains_match_looks_for_trimmed_expected() {
    let (ok, details) = ContainsScorer.judge("the answer is 42.", " 42 ");
    assert!(ok);
    assert_eq!(details, "contains match");
    let (ok, details) = ContainsScorer.judge("nothing", "42");
    assert!(!ok);
    assert_eq!(details, "not contained: '42' not in 'nothing'");
}

#[test]
fn dataset_lines_skip_blank_lines_and_keep_numbers() {
    let text = "{\"a\":1}\n\n  {\"b\":2}  \r\n\n";
    let lines = dataset_lines(text);
    assert_eq!(lines, vec![(1, "{\"a\":1}".to_string()), (3, "{\"b\":2}".to_string())]);
    assert!(dataset_lines("").is_empty());
    assert_eq!(dataset_lines("x"), vec![(1, "x".to_string())]);
}

#[test]
fn eval_config_defaults_and_errors() {
    let c = EvalConfig::default();
    assert_eq!((c.max_concurrency, c.timeout_ms, c.retry_count), (8, 30000, 3));
    let d = EvalConfig::new(2, 10, 1);
    assert_eq!((d.max_concurrency, d.timeout_ms, d.retry_count), (2, 10, 1));
    assert_eq!(EvalError::Dataset("x".to_string()).message(), "dataset error: x");
    assert_eq!(EvalError::Evaluation("x".to_string()).message(), "evaluation error: x");
    assert_eq!(EvalError::Scoring("x".to_string()).message(), "scoring error: x");
    assert_eq!(EvalError::Config("x".to_string()).message(), "config error: x");
}
