use vstd::prelude::*;

use crate::task::Task;

verus! {

/// The terminal outcome of one selection run.
pub enum SelectionResult {
    /// The user picked the task with this key.
    Chosen(String),
    /// Nothing was picked: the list was empty, the menu was dismissed,
    /// or the choice pointed outside the list.
    NoneChosen,
}

impl PartialEq for SelectionResult {
    fn eq(&self, other: &SelectionResult) -> (r: bool) {
        match (self, other) {
            (SelectionResult::Chosen(a), SelectionResult::Chosen(b)) => *a == *b,
            (SelectionResult::NoneChosen, SelectionResult::NoneChosen) => true,
            _ => false,
        }
    }
}

impl vstd::std_specs::cmp::PartialEqSpecImpl for SelectionResult {
    open spec fn obeys_eq_spec() -> bool {
        true
    }

    open spec fn eq_spec(&self, other: &SelectionResult) -> bool {
        match (self, other) {
            (SelectionResult::Chosen(a), SelectionResult::Chosen(b)) => a@ == b@,
            (SelectionResult::NoneChosen, SelectionResult::NoneChosen) => true,
            _ => false,
        }
    }
}

/// What a run returns for a presented list and the choice made on it:
/// the key of the pointed-at task, or nothing when there was no choice
/// or the choice points outside the list.
pub open spec fn selection_spec(tasks: Seq<Task>, choice: Option<usize>) -> SelectionResult {
    match choice {
        Some(i) => if i < tasks.len() {
            SelectionResult::Chosen(tasks[i as int].key)
        } else {
            SelectionResult::NoneChosen
        },
        None => SelectionResult::NoneChosen,
    }
}

/// Resolves the user's choice against the presented list. An empty list
/// always resolves to `NoneChosen`: it is a defined outcome, never a
/// crash.
pub fn select_task(tasks: &Vec<Task>, choice: Option<usize>) -> (r: SelectionResult)
    ensures
        r == selection_spec(tasks@, choice),
        tasks@.len() == 0 ==> r is NoneChosen,
{
    match choice {
        Some(i) => {
            if i < tasks.len() {
                SelectionResult::Chosen(tasks[i].key.clone())
            } else {
                SelectionResult::NoneChosen
            }
        },
        None => SelectionResult::NoneChosen,
    }
}

} // verus!
