use vstd::prelude::*;
use vstd::string::StringExecFns;

verus! {

/// One remote work item, normalized to the fields the pipeline reads.
///
/// Tasks are immutable once constructed: sources produce them, the
/// aggregator orders them, the selector and the persister read them.
/// `href` is an informational back-reference to where the task came from;
/// it never takes part in ordering.
#[derive(Debug)]
pub struct Task {
    /// Opaque identifier, unique within one source's response.
    pub key: String,
    /// Human-readable summary text.
    pub title: String,
    /// Ordering hint; a higher value means more urgent.
    pub priority: i64,
    /// Back-reference to the task's origin; informational only.
    pub href: String,
}

impl Task {
    /// The menu line a task is shown as: `<key> - <title>`.
    pub fn render(&self) -> (r: String)
        ensures
            r@ == self.key@ + " - "@ + self.title@,
    {
        let mut r = self.key.clone();
        r.append(" - ");
        r.append(self.title.as_str());
        r
    }

    /// Decides whether `self` comes no later than `other` in the merge order.
    pub fn precedes_eq(&self, other: &Task) -> (r: bool)
        ensures
            r == task_le(*self, *other),
    {
        if self.priority > other.priority {
            true
        } else if self.priority == other.priority {
            str_le(self.key.as_str(), other.key.as_str())
        } else {
            false
        }
    }
}

/// Lexicographic order on character sequences, comparing unicode scalar
/// values position by position; a proper prefix comes first.
pub open spec fn lex_le(a: Seq<char>, b: Seq<char>) -> bool
    decreases a.len(),
{
    if a.len() == 0 {
        true
    } else if b.len() == 0 {
        false
    } else if a[0] == b[0] {
        lex_le(a.drop_first(), b.drop_first())
    } else {
        (a[0] as u32) < (b[0] as u32)
    }
}

/// The documented merge order on tasks: priority descending (higher value
/// is more urgent, so it comes first), ties broken by key ascending.
/// `title` and `href` never take part.
pub open spec fn task_le(a: Task, b: Task) -> bool {
    a.priority > b.priority || (a.priority == b.priority && lex_le(a.key@, b.key@))
}

/// Whether a sequence of tasks is in the merge order.
pub open spec fn tasks_sorted(s: Seq<Task>) -> bool {
    forall|p: int, q: int| 0 <= p < q < s.len() ==> task_le(#[trigger] s[p], #[trigger] s[q])
}

pub proof fn lemma_lex_le_reflexive(a: Seq<char>)
    ensures
        lex_le(a, a),
    decreases a.len(),
{
    if a.len() != 0 {
        lemma_lex_le_reflexive(a.drop_first());
    }
}

pub proof fn lemma_lex_le_total(a: Seq<char>, b: Seq<char>)
    ensures
        lex_le(a, b) || lex_le(b, a),
    decreases a.len(),
{
    if a.len() != 0 && b.len() != 0 {
        if a[0] == b[0] {
            lemma_lex_le_total(a.drop_first(), b.drop_first());
        } else {
            vstd::utf8::char_u32_cast(a[0], a[0] as u32);
            vstd::utf8::char_u32_cast(b[0], b[0] as u32);
        }
    }
}

pub proof fn lemma_lex_le_antisymmetric(a: Seq<char>, b: Seq<char>)
    requires
        lex_le(a, b),
        lex_le(b, a),
    ensures
        a == b,
    decreases a.len(),
{
    if a.len() == 0 {
        assert(a =~= b);
    } else {
        lemma_lex_le_antisymmetric(a.drop_first(), b.drop_first());
        assert(a =~= seq![a[0]] + a.drop_first());
        assert(b =~= seq![b[0]] + b.drop_first());
    }
}

pub proof fn lemma_lex_le_transitive(a: Seq<char>, b: Seq<char>, c: Seq<char>)
    requires
        lex_le(a, b),
        lex_le(b, c),
    ensures
        lex_le(a, c),
    decreases a.len(),
{
    if a.len() != 0 && a[0] == b[0] && b[0] == c[0] {
        lemma_lex_le_transitive(a.drop_first(), b.drop_first(), c.drop_first());
    }
}

pub proof fn lemma_task_le_reflexive(a: Task)
    ensures
        task_le(a, a),
{
    lemma_lex_le_reflexive(a.key@);
}

pub proof fn lemma_task_le_total(a: Task, b: Task)
    ensures
        task_le(a, b) || task_le(b, a),
{
    lemma_lex_le_total(a.key@, b.key@);
}

pub proof fn lemma_task_le_transitive(a: Task, b: Task, c: Task)
    requires
        task_le(a, b),
        task_le(b, c),
    ensures
        task_le(a, c),
{
    if a.priority == b.priority && b.priority == c.priority {
        lemma_lex_le_transitive(a.key@, b.key@, c.key@);
    }
}

/// Tasks that tie under the merge order agree on priority and key.
pub proof fn lemma_task_le_ties(a: Task, b: Task)
    requires
        task_le(a, b),
        task_le(b, a),
    ensures
        a.priority == b.priority,
        a.key@ == b.key@,
{
    lemma_lex_le_antisymmetric(a.key@, b.key@);
}

/// How far `lex_le` looks is settled by the first position where the two
/// sequences differ: a shared prefix can be skipped.
proof fn lemma_lex_le_skip(a: Seq<char>, b: Seq<char>, i: int)
    requires
        0 <= i <= a.len(),
        i <= b.len(),
        forall|j: int| 0 <= j < i ==> a[j] == b[j],
    ensures
        lex_le(a, b) == lex_le(a.skip(i), b.skip(i)),
    decreases i,
{
    if i > 0 {
        lemma_lex_le_skip(a.drop_first(), b.drop_first(), i - 1);
        assert(a.drop_first().skip(i - 1) =~= a.skip(i));
        assert(b.drop_first().skip(i - 1) =~= b.skip(i));
    } else {
        assert(a.skip(0) =~= a);
        assert(b.skip(0) =~= b);
    }
}

/// Decides the lexicographic order on two string slices.
pub fn str_le(a: &str, b: &str) -> (r: bool)
    ensures
        r == lex_le(a@, b@),
{
    let alen = a.unicode_len();
    let blen = b.unicode_len();
    let mut i: usize = 0;
    loop
        invariant
            i <= alen,
            i <= blen,
            alen == a@.len(),
            blen == b@.len(),
            forall|j: int| 0 <= j < i ==> a@[j] == b@[j],
        decreases alen - i,
    {
        proof {
            lemma_lex_le_skip(a@, b@, i as int);
        }
        if i == alen {
            return true;
        }
        if i == blen {
            assert(a@.skip(i as int).len() > 0);
            return false;
        }
        let ca = a.get_char(i);
        let cb = b.get_char(i);
        if ca != cb {
            assert(a@.skip(i as int)[0] == a@[i as int]);
            assert(b@.skip(i as int)[0] == b@[i as int]);
            return (ca as u32) < (cb as u32);
        }
        i = i + 1;
    }
}

} // verus!
