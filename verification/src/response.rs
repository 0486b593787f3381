use vstd::prelude::*;

use crate::jira::FetchError;
use crate::task::Task;

verus! {

/// The fields one `issues` element exposes, as plain values: `key` from
/// the element's `key` member, `title` from `fields.summary`, `href` from
/// `self`, `priority` from `position` — each `None` where the member is
/// missing or not of the expected type.
pub struct IssueFields {
    pub key: Option<String>,
    pub title: Option<String>,
    pub href: Option<String>,
    pub priority: Option<i64>,
}

/// What the serde_json decode makes of a response body: `None` unless the
/// body is JSON whose `issues` member is an array; otherwise, in array
/// order, the fields each element exposes. A function of the body text
/// alone, so two calls on equal bodies decode to equal field lists.
pub uninterp spec fn issues_of(body: Seq<char>) -> Option<Seq<IssueFields>>;

/// Relies on `serde_json::from_str::<Value>`, `Value::get`,
/// `Value::as_array`, `Value::as_str` and `Value::as_i64`: parses the
/// body and projects each `issues` element through the fixed field
/// mapping (`key`, `fields.summary`, `self`, `position`), all of it pure
/// in the body text.
#[verifier::external_body]
fn decode_issues(body: &str) -> (r: Option<Vec<IssueFields>>)
    ensures
        r matches Some(items) ==> issues_of(body@) == Some(items@),
        r is None ==> issues_of(body@) is None,
{
    let v: serde_json::Value = serde_json::from_str(body).ok()?;
    let items = v.get("issues")?.as_array()?;
    Some(items.iter().map(|issue| IssueFields {
        key: issue.get("key").and_then(|m| m.as_str()).map(|s| s.to_string()),
        title: issue.get("fields").and_then(|f| f.get("summary")).and_then(|m| m.as_str()).map(
            |s| s.to_string(),
        ),
        href: issue.get("self").and_then(|m| m.as_str()).map(|s| s.to_string()),
        priority: issue.get("position").and_then(|m| m.as_i64()),
    }).collect())
}

/// A missing priority hint defaults to the least urgency.
pub open spec fn priority_or_default(priority: Option<i64>) -> i64 {
    match priority {
        Some(p) => p,
        None => 0,
    }
}

/// What one decoded element becomes: a task exactly when every required
/// field — key, title, href — is present, `None` otherwise.
pub open spec fn projected_task(item: IssueFields) -> Option<Task> {
    match (item.key, item.title, item.href) {
        (Some(k), Some(t), Some(h)) => Some(
            Task { key: k, title: t, priority: priority_or_default(item.priority), href: h },
        ),
        _ => None,
    }
}

/// The tasks a decoded response contributes: in array order, one per
/// element whose required fields are all present; incomplete elements
/// are dropped.
pub open spec fn projected_seq(items: Seq<IssueFields>) -> Seq<Task>
    decreases items.len(),
{
    if items.len() == 0 {
        Seq::<Task>::empty()
    } else {
        match projected_task(items[0]) {
            Some(t) => seq![t] + projected_seq(items.drop_first()),
            None => projected_seq(items.drop_first()),
        }
    }
}

/// Builds a task from the fields one response element exposed. The
/// element yields a task exactly when every required field — key, title,
/// href — was present; the optional priority defaults when absent. An
/// incomplete element yields `None`: it is dropped from its source's
/// contribution, never an error for the whole call.
pub fn task_from_fields(item: IssueFields) -> (r: Option<Task>)
    ensures
        r == projected_task(item),
{
    match (item.key, item.title, item.href) {
        (Some(k), Some(t), Some(h)) => {
            let p: i64 = match item.priority {
                Some(p) => p,
                None => 0,
            };
            Some(Task { key: k, title: t, priority: p, href: h })
        },
        _ => None,
    }
}

/// Decodes one source's response body. The call fails — always as
/// `FetchError::Decode`, the only error this step has — exactly when the
/// body is not JSON carrying an `issues` array; a well-shaped body yields
/// the projection of its elements, in array order, incomplete elements
/// dropped silently.
pub fn parse_response(body: &str) -> (r: Result<Vec<Task>, FetchError>)
    ensures
        (r is Err) == (issues_of(body@) is None),
        r matches Err(e) ==> e == FetchError::Decode,
        r matches Ok(ts) ==> (issues_of(body@) matches Some(items) && ts@ == projected_seq(items)),
{
    let mut rest = match decode_issues(body) {
        Some(items) => items,
        None => {
            return Err(FetchError::Decode);
        },
    };
    let ghost all = rest@;
    let mut tasks: Vec<Task> = Vec::new();
    proof {
        assert(projected_seq(all) =~= tasks@ + projected_seq(rest@));
    }
    while rest.len() > 0
        invariant
            projected_seq(all) == tasks@ + projected_seq(rest@),
        decreases rest@.len(),
    {
        let ghost rest_before = rest@;
        let item = rest.remove(0);
        proof {
            assert(rest@ =~= rest_before.drop_first());
        }
        match task_from_fields(item) {
            Some(t) => {
                let ghost tasks_before = tasks@;
                tasks.push(t);
                proof {
                    assert(tasks@ + projected_seq(rest@) =~= tasks_before + (seq![t]
                        + projected_seq(rest@)));
                }
            },
            None => {},
        }
    }
    proof {
        assert(projected_seq(rest@) =~= Seq::<Task>::empty());
        assert(tasks@ + projected_seq(rest@) =~= tasks@);
    }
    Ok(tasks)
}

} // verus!
