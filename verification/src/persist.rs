use vstd::prelude::*;
use vstd::string::StringExecFns;

use crate::select::SelectionResult;

verus! {

/// The exact line the state file holds after a chosen key is persisted.
pub open spec fn state_line(key: Seq<char>) -> Seq<char> {
    "story_id="@ + key
}

/// The state file's content after persisting `result` over `prev`: a
/// chosen key replaces whatever was there (truncate-and-write, never
/// append); no choice leaves the file untouched, and the write succeeds
/// trivially.
pub open spec fn persisted_content(prev: Option<Seq<char>>, result: SelectionResult) -> Option<
    Seq<char>,
> {
    match result {
        SelectionResult::Chosen(key) => Some(state_line(key@)),
        SelectionResult::NoneChosen => prev,
    }
}

/// Renders what the state file must be made to contain for `result`:
/// `Some` content to write over the old file, or `None` for no write.
pub fn state_file_content(result: &SelectionResult) -> (c: Option<String>)
    ensures
        result matches SelectionResult::Chosen(key) ==> (c matches Some(s) && s@ == state_line(
            key@,
        )),
        result is NoneChosen ==> c is None,
{
    match result {
        SelectionResult::Chosen(key) => {
            let mut s = String::from_str("story_id=");
            s.append(key.as_str());
            Some(s)
        },
        SelectionResult::NoneChosen => None,
    }
}

/// Persisting overwrites: after one key is persisted and then another,
/// the file holds exactly the second key's state line, whatever it held
/// before either write.
pub proof fn lemma_persist_overwrites(prev: Option<Seq<char>>, k1: String, k2: String)
    ensures
        persisted_content(
            persisted_content(prev, SelectionResult::Chosen(k1)),
            SelectionResult::Chosen(k2),
        ) == Some(state_line(k2@)),
{
}

} // verus!
