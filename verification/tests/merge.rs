use story::aggregate::aggregate;
use story::jira::FetchError;
use story::select::{select_task, SelectionResult};
use story::task::Task;

fn task(key: &str, title: &str, priority: i64) -> Task {
    Task {
        key: key.to_string(),
        title: title.to_string(),
        priority,
        href: String::new(),
    }
}

fn keys(tasks: &[Task]) -> Vec<String> {
    tasks.iter().map(|t| t.key.clone()).collect()
}

#[test]
fn two_sources_merge_by_priority_descending() {
    // Sources return [{A,1},{B,5}] and [{C,3}]: merged order B(5), C(3), A(1).
    let first = vec![task("A", "x", 1), task("B", "y", 5)];
    let second = vec![task("C", "z", 3)];
    let merged = aggregate(vec![Ok(first), Ok(second)]);
    assert_eq!(keys(&merged), vec!["B", "C", "A"]);
    assert_eq!(merged[0].priority, 5);
    assert_eq!(merged[1].priority, 3);
    assert_eq!(merged[2].priority, 1);
}

#[test]
fn completion_order_does_not_change_the_output() {
    let a = || vec![task("A", "x", 1), task("B", "y", 5)];
    let b = || vec![task("C", "z", 3), task("D", "w", 5)];
    let one = aggregate(vec![Ok(a()), Ok(b())]);
    let other = aggregate(vec![Ok(b()), Ok(a())]);
    assert_eq!(keys(&one), keys(&other));
    assert_eq!(keys(&one), vec!["B", "D", "C", "A"]);
}

#[test]
fn one_failing_source_of_three_is_dropped_silently() {
    let first = vec![task("A", "x", 1)];
    let third = vec![task("C", "z", 9)];
    let merged = aggregate(vec![Ok(first), Err(FetchError::Transport), Ok(third)]);
    assert_eq!(keys(&merged), vec!["C", "A"]);
}

#[test]
fn all_sources_failing_yields_an_empty_list() {
    let merged = aggregate(vec![
        Err(FetchError::Transport),
        Err(FetchError::Status(500)),
        Err(FetchError::Decode),
    ]);
    assert!(merged.is_empty());
    // The selector takes the empty list in stride.
    let choice = select_task(&merged, Some(0));
    assert!(choice == SelectionResult::NoneChosen);
}

#[test]
fn no_sources_yield_an_empty_list() {
    let merged = aggregate(Vec::new());
    assert!(merged.is_empty());
}

#[test]
fn equal_priorities_sort_by_key_ascending() {
    let tasks = vec![task("K-2", "b", 4), task("K-10", "c", 4), task("K-1", "a", 4)];
    let merged = aggregate(vec![Ok(tasks)]);
    // Keys compare lexicographically: "K-1" < "K-10" < "K-2".
    assert_eq!(keys(&merged), vec!["K-1", "K-10", "K-2"]);
}

#[test]
fn duplicate_tasks_survive_the_merge() {
    let first = vec![task("A", "x", 1)];
    let second = vec![task("A", "x", 1)];
    let merged = aggregate(vec![Ok(first), Ok(second)]);
    assert_eq!(keys(&merged), vec!["A", "A"]);
}
