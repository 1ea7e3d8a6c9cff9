use pass_inst::edit::{apply_edits, check_applicable, dedup_edits, sort_edits, Edit};

#[test]
fn apply_order_independent_and_length() {
    let buf: Vec<u8> = b"hello world".to_vec();
    let one = vec![
        Edit::new_insert("XY".to_string(), 3),
        Edit::new_replace("Z".to_string(), 6, 9),
    ];
    let other = vec![
        Edit::new_replace("Z".to_string(), 6, 9),
        Edit::new_insert("XY".to_string(), 3),
    ];
    let s1 = sort_edits(one);
    let s2 = sort_edits(other);
    assert!(check_applicable(&s1, buf.len()));
    assert!(check_applicable(&s2, buf.len()));
    let out1 = apply_edits(&buf, &s1);
    let out2 = apply_edits(&buf, &s2);
    assert_eq!(out1, out2);
    assert_eq!(out1, b"helXYlo Zld".to_vec());
    // length = original - removed + inserted
    assert_eq!(out1.len(), buf.len() - (9 - 6) + (2 + 1));
}

#[test]
fn apply_insert_at_ends() {
    let buf: Vec<u8> = b"abc".to_vec();
    let edits = vec![
        Edit::new_insert(">".to_string(), 3),
        Edit::new_insert("<".to_string(), 0),
    ];
    let s = sort_edits(edits);
    assert!(check_applicable(&s, buf.len()));
    assert_eq!(apply_edits(&buf, &s), b"<abc>".to_vec());
}

#[test]
fn apply_empty_batch_keeps_buffer() {
    let buf: Vec<u8> = b"abc".to_vec();
    let edits: Vec<Edit> = vec![];
    assert!(check_applicable(&edits, buf.len()));
    assert_eq!(apply_edits(&buf, &edits), b"abc".to_vec());
}

#[test]
fn dedup_drops_repeated_identity() {
    let edits = vec![
        Edit::new_insert("A".to_string(), 5),
        Edit::new_insert("A".to_string(), 5),
        Edit::new_insert("A".to_string(), 6),
        Edit::new_insert("B".to_string(), 5),
    ];
    let d = dedup_edits(edits);
    assert_eq!(d.len(), 3);
    assert_eq!(d[0].content, "A");
    assert_eq!(d[0].start_pos, 5);
    assert_eq!(d[1].start_pos, 6);
    assert_eq!(d[2].content, "B");
}

#[test]
fn dedup_treats_insert_and_replace_alike() {
    // An insertion and a replacement with the same start and content share
    // one identity; the first collected wins.
    let edits = vec![
        Edit::new_insert("A".to_string(), 5),
        Edit::new_replace("A".to_string(), 5, 9),
    ];
    let d = dedup_edits(edits);
    assert_eq!(d.len(), 1);
}

#[test]
fn overlap_is_rejected() {
    let edits = vec![
        Edit::new_replace("X".to_string(), 4, 8),
        Edit::new_replace("Y".to_string(), 2, 6),
    ];
    let s = sort_edits(edits);
    assert!(!check_applicable(&s, 20));
    // Out-of-bounds edits are rejected too.
    let far = vec![Edit::new_insert("X".to_string(), 21)];
    assert!(!check_applicable(&far, 20));
}

#[test]
fn sort_orders_by_descending_start() {
    let edits = vec![
        Edit::new_insert("a".to_string(), 1),
        Edit::new_insert("b".to_string(), 9),
        Edit::new_insert("c".to_string(), 4),
    ];
    let s = sort_edits(edits);
    assert_eq!(s[0].start_pos, 9);
    assert_eq!(s[1].start_pos, 4);
    assert_eq!(s[2].start_pos, 1);
}
