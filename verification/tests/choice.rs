use story::persist::state_file_content;
use story::select::{select_task, SelectionResult};
use story::task::Task;

fn task(key: &str, title: &str, priority: i64) -> Task {
    Task {
        key: key.to_string(),
        title: title.to_string(),
        priority,
        href: String::new(),
    }
}

#[test]
fn choosing_an_entry_returns_its_key() {
    let tasks = vec![task("A", "x", 2), task("B", "y", 1)];
    let r = select_task(&tasks, Some(1));
    assert!(r == SelectionResult::Chosen("B".to_string()));
}

#[test]
fn dismissing_the_menu_chooses_nothing() {
    let tasks = vec![task("A", "x", 2)];
    assert!(select_task(&tasks, None) == SelectionResult::NoneChosen);
}

#[test]
fn a_choice_outside_the_list_chooses_nothing() {
    let tasks = vec![task("A", "x", 2)];
    assert!(select_task(&tasks, Some(5)) == SelectionResult::NoneChosen);
}

#[test]
fn an_empty_list_always_chooses_nothing() {
    let tasks: Vec<Task> = Vec::new();
    assert!(select_task(&tasks, Some(0)) == SelectionResult::NoneChosen);
    assert!(select_task(&tasks, None) == SelectionResult::NoneChosen);
}

#[test]
fn chosen_keys_become_the_state_line() {
    let content = state_file_content(&SelectionResult::Chosen("PROJ-42".to_string()));
    assert_eq!(content.as_deref(), Some("story_id=PROJ-42"));
}

#[test]
fn no_choice_writes_nothing() {
    assert!(state_file_content(&SelectionResult::NoneChosen).is_none());
}

#[test]
fn persisting_twice_overwrites() {
    // Model the state file as its full content: each write truncates.
    let mut file: Option<String> = None;
    for key in ["PROJ-42", "PROJ-99"] {
        if let Some(content) = state_file_content(&SelectionResult::Chosen(key.to_string())) {
            file = Some(content);
        }
    }
    assert_eq!(file.as_deref(), Some("story_id=PROJ-99"));
    // A later run that chooses nothing leaves the file as it is.
    if let Some(content) = state_file_content(&SelectionResult::NoneChosen) {
        file = Some(content);
    }
    assert_eq!(file.as_deref(), Some("story_id=PROJ-99"));
}
