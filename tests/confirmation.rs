use dir_renamer::{is_affirmative, plan_renames, DirListing, RenameBatch};

fn bytes(s: &str) -> Vec<u8> {
    s.as_bytes().to_vec()
}

fn dir(name: &str, children: &[&str]) -> DirListing {
    DirListing { name: bytes(name), children: children.iter().map(|c| bytes(c)).collect() }
}

#[test]
fn only_y_confirms() {
    assert!(is_affirmative(b"y"));
    assert!(is_affirmative(b"Y"));
    assert!(!is_affirmative(b"yes"));
    assert!(!is_affirmative(b"n"));
    assert!(!is_affirmative(b""));
    assert!(!is_affirmative(b" y"));
}

#[test]
fn refusal_renames_nothing() {
    for reply in [Some(&b"n"[..]), Some(&b""[..]), Some(&b"yes"[..]), None] {
        let plan = plan_renames(&vec![dir("foo", &["bar.mod"])]);
        let batch = RenameBatch::new(plan, reply);
        assert_eq!(batch.len(), 0);
        assert!(batch.next_rename().is_none());
        assert_eq!(batch.succeeded(), 0);
    }
}

#[test]
fn confirmed_single_rename() {
    let plan = plan_renames(&vec![dir("foo", &["bar.mod"])]);
    let mut batch = RenameBatch::new(plan, Some(b"y"));
    assert_eq!(batch.len(), 1);
    let e = batch.next_rename().unwrap();
    assert_eq!(e.from, bytes("foo"));
    assert_eq!(e.to, bytes("bar"));
    batch.record(true);
    assert!(batch.next_rename().is_none());
    assert_eq!(batch.succeeded(), 1);
}

#[test]
fn failure_does_not_stop_batch() {
    let plan = plan_renames(&vec![dir("a", &["taken.mod"]), dir("b", &["free.mod"])]);
    let mut batch = RenameBatch::new(plan, Some(b"Y"));
    let first = batch.next_rename().unwrap();
    assert_eq!((first.from, first.to), (bytes("a"), bytes("taken")));
    batch.record(false);
    let second = batch.next_rename().unwrap();
    assert_eq!((second.from, second.to), (bytes("b"), bytes("free")));
    batch.record(true);
    assert!(batch.next_rename().is_none());
    assert_eq!(batch.succeeded(), 1);
}
