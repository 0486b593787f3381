use story::task::{str_le, Task};

fn task(key: &str, title: &str, priority: i64) -> Task {
    Task {
        key: key.to_string(),
        title: title.to_string(),
        priority,
        href: String::new(),
    }
}

#[test]
fn str_le_orders_lexicographically() {
    assert!(str_le("", ""));
    assert!(str_le("", "a"));
    assert!(!str_le("a", ""));
    assert!(str_le("abc", "abc"));
    assert!(str_le("abc", "abd"));
    assert!(!str_le("abd", "abc"));
    assert!(str_le("ab", "abc"));
    assert!(!str_le("abc", "ab"));
    assert!(str_le("PROJ-1", "PROJ-2"));
}

#[test]
fn higher_priority_comes_first() {
    let urgent = task("B", "y", 5);
    let relaxed = task("A", "x", 1);
    assert!(urgent.precedes_eq(&relaxed));
    assert!(!relaxed.precedes_eq(&urgent));
}

#[test]
fn equal_priority_ties_break_by_key() {
    let a = task("A", "x", 3);
    let b = task("B", "y", 3);
    assert!(a.precedes_eq(&b));
    assert!(!b.precedes_eq(&a));
    assert!(a.precedes_eq(&a));
}

#[test]
fn render_joins_key_and_title() {
    let t = task("PROJ-7", "Fix the build", 2);
    assert_eq!(t.render(), "PROJ-7 - Fix the build");
}
