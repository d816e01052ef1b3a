use brainshift::labels::{label_operand, parse_labels, resolve_address};

#[test]
fn labels_count_lengths_of_non_label_lines() {
    let table = parse_labels(b"start:\n++\nloop:\n+J loop\nend:");
    assert_eq!(table.len(), 3);
    assert_eq!(resolve_address(&table, b"start"), Some(0));
    assert_eq!(resolve_address(&table, b"loop"), Some(2));
    assert_eq!(resolve_address(&table, b"end"), Some(9));
}

#[test]
fn label_line_content_after_colon_is_not_counted() {
    let table = parse_labels(b"a: +++\n++\nb:");
    assert_eq!(resolve_address(&table, b"a"), Some(0));
    assert_eq!(resolve_address(&table, b"b"), Some(2));
}

#[test]
fn label_names_are_trimmed() {
    let table = parse_labels(b"+\n  spaced \t:\n");
    assert_eq!(resolve_address(&table, b"spaced"), Some(1));
    assert_eq!(resolve_address(&table, b"  spaced \t"), None);
}

#[test]
fn later_declaration_wins() {
    let table = parse_labels(b"x:\n+++\nx:\n");
    assert_eq!(table.len(), 2);
    assert_eq!(resolve_address(&table, b"x"), Some(3));
}

#[test]
fn carriage_returns_before_newlines_are_not_counted() {
    let table = parse_labels(b"++\r\n+\r\nhere:\r\n");
    assert_eq!(resolve_address(&table, b"here"), Some(3));
}

#[test]
fn empty_program_has_no_labels() {
    let table = parse_labels(b"");
    assert_eq!(table.len(), 0);
    assert_eq!(resolve_address(&table, b""), None);
}

#[test]
fn unknown_label_is_unresolved() {
    let table = parse_labels(b"a:\n");
    assert_eq!(resolve_address(&table, b"b"), None);
}

#[test]
fn operand_skips_blanks_and_sigils() {
    let p = b"J \t**name rest";
    assert_eq!(label_operand(p, 0), (5, 9));
    assert_eq!(&p[5..9], b"name");
}

#[test]
fn operand_without_name_is_empty() {
    let p = b"J\n";
    assert_eq!(label_operand(p, 0), (1, 1));
}
