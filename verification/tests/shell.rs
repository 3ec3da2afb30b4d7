//! Tests of the launcher and the process pool, from the outside.

use smallsh::launcher::{build_plan, extract_input_redirection, extract_output_redirection,
    replace_with_pid};
use smallsh::pool::ProcessPool;

fn strings(tokens: &[&str]) -> Vec<String> {
    tokens.iter().map(|t| t.to_string()).collect()
}

#[test]
fn trailing_ampersand_sets_background_and_is_stripped() {
    let plan = build_plan("sleep", strings(&["2", "&"]), 77, false);
    assert!(plan.background);
    assert_eq!(plan.args, strings(&["2"]));
    assert!(!plan.args.iter().any(|a| a == "&"));
}

#[test]
fn no_trailing_ampersand_stays_foreground() {
    let plan = build_plan("sleep", strings(&["2"]), 77, false);
    assert!(!plan.background);
    assert_eq!(plan.args, strings(&["2"]));
}

#[test]
fn interior_ampersand_is_not_a_background_request() {
    let plan = build_plan("echo", strings(&["&", "x"]), 77, false);
    assert!(!plan.background);
    assert_eq!(plan.args, strings(&["&", "x"]));
}

#[test]
fn pid_token_is_substituted() {
    let out = replace_with_pid(strings(&["echo", "$$", "x"]), 1234);
    assert_eq!(out, strings(&["echo", "1234", "x"]));
}

#[test]
fn pid_token_substitution_is_whole_token_only() {
    let out = replace_with_pid(strings(&["a$$b", "$$$", "$$"]), 9);
    assert_eq!(out, strings(&["a$$b", "$$$", "9"]));
}

#[test]
fn pid_zero_and_largest_pid_render_in_decimal() {
    assert_eq!(replace_with_pid(strings(&["$$"]), 0), strings(&["0"]));
    assert_eq!(
        replace_with_pid(strings(&["$$"]), u64::MAX),
        strings(&["18446744073709551615"])
    );
}

#[test]
fn input_redirection_is_extracted() {
    let (path, rest) = extract_input_redirection(strings(&["<", "in.txt"]));
    assert_eq!(path, Some("in.txt".to_string()));
    assert!(rest.is_empty());
}

#[test]
fn output_redirection_is_extracted() {
    let (path, rest) = extract_output_redirection(strings(&["words.txt", ">", "out.txt"]));
    assert_eq!(path, Some("out.txt".to_string()));
    assert_eq!(rest, strings(&["words.txt"]));
}

#[test]
fn marker_without_path_is_left_alone() {
    let (path, rest) = extract_input_redirection(strings(&["a", "<"]));
    assert_eq!(path, None);
    assert_eq!(rest, strings(&["a", "<"]));
}

#[test]
fn last_marker_wins() {
    let (path, rest) = extract_input_redirection(strings(&["<", "a", "<", "b"]));
    assert_eq!(path, Some("b".to_string()));
    assert_eq!(rest, strings(&["<", "a"]));
}

#[test]
fn full_plan_combines_all_transformations() {
    let plan = build_plan("prog", strings(&["$$", "<", "in", ">", "out", "&"]), 42, false);
    assert!(plan.background);
    assert_eq!(plan.program, "prog".to_string());
    assert_eq!(plan.args, strings(&["42"]));
    assert_eq!(plan.input_path, Some("in".to_string()));
    assert_eq!(plan.output_path, Some("out".to_string()));
}

#[test]
fn new_pool_is_empty_and_permits_background() {
    let pool = ProcessPool::new();
    assert_eq!(pool.len(), 0);
    assert_eq!(pool.last_exit_code(), None);
    assert!(!pool.foreground_only());
}

#[test]
fn pool_size_is_idempotent() {
    let mut pool = ProcessPool::new();
    pool.register_background(11);
    let first = pool.len();
    let second = pool.len();
    assert_eq!(first, second);
    assert_eq!(first, 1);
}

#[test]
fn background_spawn_then_reap_empties_the_pool() {
    let mut pool = ProcessPool::new();
    let plan = pool.add("sleep", strings(&["2", "&"]), 77);
    assert!(plan.background);
    assert!(!pool.is_tracked(4242));
    pool.register_background(4242);
    assert_eq!(pool.len(), 1);
    assert!(pool.is_tracked(4242));
    pool.reap(4242);
    assert_eq!(pool.len(), 0);
    assert!(!pool.is_tracked(4242));
}

#[test]
fn one_reaper_pass_removes_every_exited_child() {
    let mut pool = ProcessPool::new();
    pool.register_background(1);
    pool.register_background(2);
    pool.register_background(3);
    pool.reap_exited(&vec![3, 1, 99]);
    assert_eq!(pool.len(), 1);
    assert!(pool.is_tracked(2));
    assert!(!pool.is_tracked(1));
    assert!(!pool.is_tracked(3));
}

#[test]
fn reaping_an_unknown_pid_changes_nothing() {
    let mut pool = ProcessPool::new();
    pool.register_background(8);
    pool.reap(9);
    assert_eq!(pool.len(), 1);
    assert!(pool.is_tracked(8));
}

#[test]
fn foreground_exit_codes_are_recorded_in_order() {
    let mut pool = ProcessPool::new();
    pool.record_foreground_exit(Some(1));
    assert_eq!(pool.last_exit_code(), Some(1));
    assert_ne!(pool.last_exit_code(), Some(0));
    pool.record_foreground_exit(Some(0));
    assert_eq!(pool.last_exit_code(), Some(0));
}

#[test]
fn reaping_never_touches_the_last_exit_code() {
    let mut pool = ProcessPool::new();
    pool.record_foreground_exit(Some(0));
    pool.register_background(21);
    pool.reap(21);
    assert_eq!(pool.last_exit_code(), Some(0));
}

#[test]
fn foreground_only_downgrades_background_requests() {
    let mut pool = ProcessPool::new();
    pool.set_foreground();
    assert!(pool.foreground_only());
    let plan = pool.add("sleep", strings(&["2", "&"]), 77);
    assert!(!plan.background);
    assert_eq!(plan.args, strings(&["2"]));
    pool.set_background();
    assert!(!pool.foreground_only());
    let plan = pool.add("sleep", strings(&["2", "&"]), 77);
    assert!(plan.background);
}

#[test]
fn redirection_open_failures_are_the_callers_business() {
    let plan = build_plan("cat", strings(&["<", "no-such-file.txt"]), 77, false);
    assert_eq!(plan.input_path, Some("no-such-file.txt".to_string()));
    assert!(plan.args.is_empty());
}
