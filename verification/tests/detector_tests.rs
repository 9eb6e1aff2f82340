use dx_forge::detector::{Detector, PathAction};
use dx_forge::ops::OperationType;
use dx_forge::queue::{EventQueue, BACKLOG_WARN_THRESHOLD, QUEUE_CAPACITY};
use dx_forge::watchtypes::truncate_with_preview;

fn fresh() -> Detector {
    // rapid mode off: every event runs full detection, deterministically
    Detector::new("actor-a".to_string(), true)
}

fn detect(d: &mut Detector, path: &str, content: &str) -> Vec<dx_forge::ops::Operation> {
    d.detect_operations(&path.to_string(), Some(content.to_string()))
}

#[test]
fn create_then_modify_chains_operations() {
    let mut d = fresh();
    let ops = detect(&mut d, "a.txt", "hello");
    assert_eq!(ops.len(), 1);
    let create_id = ops[0].id;
    match &ops[0].op_type {
        OperationType::FileCreate { content } => assert_eq!(content, "hello"),
        other => panic!("expected FileCreate, got {:?}", kind_of(other)),
    }
    assert!(ops[0].parent_ops.is_empty());

    let ops = detect(&mut d, "a.txt", "hello world");
    assert_eq!(ops.len(), 1);
    match &ops[0].op_type {
        OperationType::Insert { position, content, length } => {
            assert_eq!(position.offset, 5);
            assert_eq!(content, " world");
            assert_eq!(*length, 6);
        }
        other => panic!("expected Insert, got {:?}", kind_of(other)),
    }
    assert_eq!(ops[0].parent_ops, vec![create_id]);
}

#[test]
fn delete_tail_emits_one_delete() {
    let mut d = fresh();
    detect(&mut d, "a.txt", "abcdef");
    let ops = detect(&mut d, "a.txt", "abc");
    assert_eq!(ops.len(), 1);
    match &ops[0].op_type {
        OperationType::Delete { position, length } => {
            assert_eq!(position.offset, 3);
            assert_eq!(*length, 3);
        }
        other => panic!("expected Delete, got {:?}", kind_of(other)),
    }
}

#[test]
fn mid_string_replace_emits_one_replace() {
    let mut d = fresh();
    detect(&mut d, "a.txt", "foo bar baz");
    let ops = detect(&mut d, "a.txt", "foo QUX baz");
    assert_eq!(ops.len(), 1);
    match &ops[0].op_type {
        OperationType::Replace { position, old_content, new_content } => {
            assert_eq!(position.offset, 4);
            assert_eq!(old_content, "bar");
            assert_eq!(new_content, "QUX");
        }
        other => panic!("expected Replace, got {:?}", kind_of(other)),
    }
}

#[test]
fn atomic_save_collapses_to_one_edit() {
    let mut d = fresh();
    detect(&mut d, "a.txt", "hello");
    // the editor writes the temp artifact, whose content is captured
    assert!(matches!(
        d.on_path_event(&"a.txt.tmp".to_string()),
        PathAction::CacheTemp
    ));
    d.store_temp_content(&"a.txt.tmp".to_string(), "hello world".to_string());
    // then renames it onto the real file
    let (ops, follow_up) = d.on_rename(&"a.txt.tmp".to_string(), &"a.txt".to_string());
    assert!(follow_up.is_none());
    assert_eq!(ops.len(), 1);
    match &ops[0].op_type {
        OperationType::Insert { position, content, .. } => {
            assert_eq!(position.offset, 5);
            assert_eq!(content, " world");
        }
        other => panic!("expected Insert, got {:?}", kind_of(other)),
    }
    assert_eq!(ops[0].file_path, "a.txt");
}

#[test]
fn rename_moves_state_and_emits_one_rename() {
    let mut d = fresh();
    let create_ops = detect(&mut d, "old.txt", "x");
    let (ops, follow_up) = d.on_rename(&"old.txt".to_string(), &"new.txt".to_string());
    assert!(follow_up.is_none());
    assert_eq!(ops.len(), 1);
    match &ops[0].op_type {
        OperationType::FileRename { old_path, new_path } => {
            assert_eq!(old_path, "old.txt");
            assert_eq!(new_path, "new.txt");
        }
        other => panic!("expected FileRename, got {:?}", kind_of(other)),
    }
    // the rename continues the renamed file's chain
    assert_eq!(ops[0].parent_ops, vec![create_ops[0].id]);
    let rename_id = ops[0].id;

    // a later edit of the new path descends from the rename
    let ops = detect(&mut d, "new.txt", "xy");
    assert_eq!(ops.len(), 1);
    assert_eq!(ops[0].parent_ops, vec![rename_id]);
    // and the old path reads as gone
    assert!(d.snapshots.get(&"old.txt".to_string()).is_none());
}

#[test]
fn ignored_paths_produce_nothing() {
    let mut d = fresh();
    assert!(matches!(
        d.on_path_event(&".git/HEAD".to_string()),
        PathAction::Skip
    ));
    let ops = detect(&mut d, ".git/HEAD", "ref: refs/heads/main");
    assert!(ops.is_empty());
    assert!(d.snapshots.get(&".git/HEAD".to_string()).is_none());
}

#[test]
fn oversize_files_are_dropped_until_they_shrink() {
    let mut d = fresh();
    let big = "a".repeat(2 * 1024 * 1024);
    let ops = detect(&mut d, "big.txt", &big);
    assert!(ops.is_empty());
    assert!(d.snapshots.get(&"big.txt".to_string()).is_none());

    let smaller = "b".repeat(900 * 1024);
    let ops = detect(&mut d, "big.txt", &smaller);
    assert_eq!(ops.len(), 1);
    assert!(matches!(ops[0].op_type, OperationType::FileCreate { .. }));
}

#[test]
fn unreadable_content_skips_the_event() {
    let mut d = fresh();
    let ops = d.detect_operations(&"a.bin".to_string(), None);
    assert!(ops.is_empty());
    assert!(d.snapshots.get(&"a.bin".to_string()).is_none());
}

#[test]
fn queue_overflow_drops_and_warns_once_per_cycle() {
    let mut q: EventQueue<u32> = EventQueue::new();
    let mut warns = 0;
    for i in 0..(QUEUE_CAPACITY as u32 + 1) {
        let (_accepted, warn) = q.offer(i);
        if warn {
            warns += 1;
        }
    }
    assert_eq!(q.dropped(), 1);
    assert_eq!(warns, 1);

    // drain below half the threshold: the warning rearms
    while q.len() >= BACKLOG_WARN_THRESHOLD / 2 {
        q.take_next();
    }
    let mut warns_again = 0;
    while q.len() < QUEUE_CAPACITY {
        let (_, warn) = q.offer(7);
        if warn {
            warns_again += 1;
        }
    }
    assert_eq!(warns_again, 1);
}

#[test]
fn identical_write_emits_nothing() {
    let mut d = fresh();
    detect(&mut d, "a.txt", "same");
    let ops = detect(&mut d, "a.txt", "same");
    assert!(ops.is_empty());
}

#[test]
fn lamport_times_increase_across_edits() {
    let mut d = fresh();
    detect(&mut d, "a.txt", "a");
    detect(&mut d, "b.txt", "b");
    let first = detect(&mut d, "a.txt", "ab");
    let second = detect(&mut d, "b.txt", "bc");
    let third = detect(&mut d, "a.txt", "abc");
    let l1 = first[0].lamport().unwrap();
    let l2 = second[0].lamport().unwrap();
    let l3 = third[0].lamport().unwrap();
    assert!(l1 < l2 && l2 < l3);
}

#[test]
fn delete_ends_the_causal_chain() {
    let mut d = fresh();
    let created = detect(&mut d, "a.txt", "x");
    let removed = d.on_remove(&"a.txt".to_string());
    assert_eq!(removed.len(), 1);
    assert!(matches!(removed[0].op_type, OperationType::FileDelete));
    assert_eq!(removed[0].parent_ops, vec![created[0].id]);

    // the next observation is a fresh create with no parents
    let recreated = detect(&mut d, "a.txt", "y");
    assert!(matches!(
        recreated[0].op_type,
        OperationType::FileCreate { .. }
    ));
    assert!(recreated[0].parent_ops.is_empty());
}

#[test]
fn publish_follows_append_result_exactly() {
    let mut d = fresh();
    let (publish, _) = d.after_append(true);
    assert!(publish);
    let (publish, _) = d.after_append(false);
    assert!(!publish);
}

#[test]
fn rapid_mode_suppresses_near_duplicates() {
    let mut d = Detector::new("actor-a".to_string(), false);
    assert!(d.rapid_check(&"a.txt".to_string()));
    assert!(!d.rapid_check(&"a.txt".to_string()));
    // far enough apart in the sequence, the same path passes again
    for i in 0..200 {
        d.rapid_check(&format!("other-{i}.txt"));
    }
    assert!(d.rapid_check(&"a.txt".to_string()));
}

#[test]
fn snapshot_store_stays_bounded() {
    let mut d = fresh();
    for i in 0..2300 {
        detect(&mut d, &format!("file-{i}.txt"), "x");
    }
    assert!(d.snapshots.len() <= 2048 + 100);
}

#[test]
fn temp_cache_stays_bounded() {
    let mut d = fresh();
    for i in 0..300 {
        d.store_temp_content(&format!("scratch-{i}.tmp"), "captured".to_string());
    }
    assert!(d.temp_cache.len() <= 256);
}

#[test]
fn rename_away_from_tracked_space_deletes() {
    let mut d = fresh();
    detect(&mut d, "kept.txt", "x");
    let (ops, follow_up) = d.on_rename(&"kept.txt".to_string(), &".git/kept.txt".to_string());
    assert!(follow_up.is_none());
    assert_eq!(ops.len(), 1);
    assert!(matches!(ops[0].op_type, OperationType::FileDelete));
    assert_eq!(ops[0].file_path, "kept.txt");
}

#[test]
fn empty_file_growing_inserts_at_origin() {
    let mut d = fresh();
    detect(&mut d, "a.txt", "");
    let ops = detect(&mut d, "a.txt", "hi");
    match &ops[0].op_type {
        OperationType::Insert { position, content, .. } => {
            assert_eq!(position.offset, 0);
            assert_eq!(position.line, 1);
            assert_eq!(position.column, 1);
            assert_eq!(content, "hi");
        }
        other => panic!("expected Insert, got {:?}", kind_of(other)),
    }
}

#[test]
fn emptying_a_file_deletes_the_whole_range() {
    let mut d = fresh();
    detect(&mut d, "a.txt", "abc");
    let ops = detect(&mut d, "a.txt", "");
    match &ops[0].op_type {
        OperationType::Delete { position, length } => {
            assert_eq!(position.offset, 0);
            assert_eq!(*length, 3);
        }
        other => panic!("expected Delete, got {:?}", kind_of(other)),
    }
}

#[test]
fn multibyte_text_diffs_by_characters() {
    let mut d = fresh();
    detect(&mut d, "a.txt", "caf\u{e9} au lait");
    let ops = detect(&mut d, "a.txt", "caf\u{e9} au th\u{e9}");
    match &ops[0].op_type {
        OperationType::Replace { position, old_content, new_content } => {
            assert_eq!(position.offset, 8);
            assert_eq!(old_content, "lait");
            assert_eq!(new_content, "th\u{e9}");
        }
        other => panic!("expected Replace, got {:?}", kind_of(other)),
    }
}

#[test]
fn display_window_suppresses_atomic_save_spikes() {
    assert!(!dx_forge::detector::display_suppressed(4999));
    assert!(dx_forge::detector::display_suppressed(5000));
    assert!(dx_forge::detector::display_suppressed(15000));
    assert!(!dx_forge::detector::display_suppressed(15001));
}

#[test]
fn previews_escape_and_truncate() {
    assert_eq!(truncate_with_preview("a\nb\tc", 40), "a\\nb\\tc");
    assert_eq!(truncate_with_preview("abcdefgh", 4), "abcd...");
}

#[test]
fn stable_ids_join_actor_clock_and_offset() {
    let p = dx_forge::ops::Position::new(3, 9, 7, "actor-a".to_string(), 41);
    assert_eq!(p.stable_id(), "actor-a:41:7");
}

fn kind_of(t: &OperationType) -> &'static str {
    match t {
        OperationType::Insert { .. } => "Insert",
        OperationType::Delete { .. } => "Delete",
        OperationType::Replace { .. } => "Replace",
        OperationType::FileCreate { .. } => "FileCreate",
        OperationType::FileDelete => "FileDelete",
        OperationType::FileRename { .. } => "FileRename",
    }
}
