use brainshift::brackets::{find_matching_close, find_matching_open};

#[test]
fn matching_close_skips_nested_loops() {
    let p = b"[[-][+]]x";
    assert_eq!(find_matching_close(p, 0), Some(7));
    assert_eq!(find_matching_close(p, 1), Some(3));
    assert_eq!(find_matching_close(p, 4), Some(6));
}

#[test]
fn matching_open_skips_nested_loops() {
    let p = b"[[-][+]]x";
    assert_eq!(find_matching_open(p, 7), Some(0));
    assert_eq!(find_matching_open(p, 3), Some(1));
    assert_eq!(find_matching_open(p, 6), Some(4));
}

#[test]
fn unmatched_brackets_are_detected() {
    assert_eq!(find_matching_close(b"[[]", 0), None);
    assert_eq!(find_matching_open(b"[]]", 2), None);
}
