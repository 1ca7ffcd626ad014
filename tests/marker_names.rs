use dir_renamer::{find_marker, marker_base};

fn bytes(s: &str) -> Vec<u8> {
    s.as_bytes().to_vec()
}

#[test]
fn base_of_plain_marker() {
    assert_eq!(marker_base(&bytes("bar.mod")), Some(bytes("bar")));
}

#[test]
fn base_keeps_earlier_dots() {
    assert_eq!(marker_base(&bytes("a.b.mod")), Some(bytes("a.b")));
}

#[test]
fn dot_file_is_no_marker() {
    assert_eq!(marker_base(&bytes(".mod")), None);
}

#[test]
fn other_extensions_are_no_marker() {
    assert_eq!(marker_base(&bytes("mod")), None);
    assert_eq!(marker_base(&bytes("bar.MOD")), None);
    assert_eq!(marker_base(&bytes("bar.mo")), None);
    assert_eq!(marker_base(&bytes("bar.mod.txt")), None);
    assert_eq!(marker_base(&bytes("barmod")), None);
    assert_eq!(marker_base(&bytes("")), None);
}

#[test]
fn first_marker_wins() {
    let children = vec![bytes("notes.txt"), bytes("x.mod"), bytes("y.mod")];
    assert_eq!(find_marker(&children), Some(bytes("x")));
}

#[test]
fn no_children_no_marker() {
    assert_eq!(find_marker(&Vec::new()), None);
    assert_eq!(find_marker(&vec![bytes("a.txt"), bytes(".mod")]), None);
}
