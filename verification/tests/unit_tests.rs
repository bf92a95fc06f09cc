use cover_store::bucket::{hash_candidates, FileMeta};
use cover_store::bytes::{bytes_eq, bytes_lt, copy_bytes, parse_i64, to_hex};
use cover_store::dedup::{plan_duplicates, HashedFile};
use cover_store::hashing::{hash_bytes, hash_chunks, StreamingHasher};
use cover_store::merge::{group_tracks_by_path, plan_updates_for_class, select_merge_groups, TrackCover};
use cover_store::paths::{get_lrc_path, get_state_file_path, resolve_path};
use cover_store::boundary::is_valid_url;
use cover_store::records::{combine_cleared_counts, record_delete_outcome, record_migrate_outcome, DeleteOutcome, MergeCoverResult};
use cover_store::state::{classify_cover, CoverState};
use cover_store::sync::parse_cover_name;

fn b(s: &str) -> Vec<u8> {
    s.as_bytes().to_vec()
}

#[test]
fn parse_i64_reads_plain_decimals() {
    assert_eq!(parse_i64(b"123"), Some(123));
    assert_eq!(parse_i64(b"0"), Some(0));
    assert_eq!(parse_i64(b"-7"), Some(-7));
    assert_eq!(parse_i64(b"+42"), Some(42));
    assert_eq!(parse_i64(b"9223372036854775807"), Some(i64::MAX));
    assert_eq!(parse_i64(b"-9223372036854775808"), Some(i64::MIN));
}

#[test]
fn parse_i64_rejects_non_numbers() {
    assert_eq!(parse_i64(b""), None);
    assert_eq!(parse_i64(b"12a"), None);
    assert_eq!(parse_i64(b"-"), None);
    assert_eq!(parse_i64(b"+"), None);
    assert_eq!(parse_i64(b" 1"), None);
    assert_eq!(parse_i64(b"9223372036854775808"), None);
    assert_eq!(parse_i64(b"-9223372036854775809"), None);
    assert_eq!(parse_i64(b"99999999999999999999999"), None);
}

#[test]
fn byte_order_is_lexicographic() {
    assert!(bytes_lt(&b("/covers/1.jpg"), &b("/covers/2.jpg")));
    assert!(!bytes_lt(&b("/covers/2.jpg"), &b("/covers/1.jpg")));
    assert!(bytes_lt(&b("abc"), &b("abcd")));
    assert!(!bytes_lt(&b("abc"), &b("abc")));
    assert!(bytes_eq(&b("same"), &b("same")));
    assert!(!bytes_eq(&b("same"), &b("sane")));
    assert_eq!(copy_bytes(&b("path")), b("path"));
}

#[test]
fn hex_renders_two_digits_per_byte() {
    assert_eq!(to_hex(&vec![0xbe, 0xef]), b("beef"));
    assert_eq!(to_hex(&vec![0x00, 0x0a]), b("000a"));
    assert_eq!(to_hex(&Vec::new()), b(""));
}

#[test]
fn sha256_matches_known_vector() {
    let digest = hash_bytes(&b("abc"));
    let hex = to_hex(&digest);
    assert_eq!(
        hex,
        b("ba7816bf8f01cfea414140de5dae2223b00361a396177a9cb410ff61f20015ad")
    );
}

#[test]
fn hashing_is_deterministic() {
    let d1 = hash_bytes(&b("the same content"));
    let d2 = hash_bytes(&b("the same content"));
    assert_eq!(d1, d2);
}

#[test]
fn one_changed_byte_changes_the_digest() {
    let d1 = hash_bytes(&b("content a"));
    let d2 = hash_bytes(&b("content b"));
    assert_ne!(d1, d2);
}

#[test]
fn chunking_does_not_change_the_digest() {
    let whole = hash_bytes(&b("abcdef"));
    let chunked = hash_chunks(&vec![b("ab"), b("cd"), b("ef")]);
    assert_eq!(whole, chunked);
    let mut h = StreamingHasher::new();
    h.update(b"abc");
    h.update(b"def");
    assert_eq!(h.finalize(), whole);
}

#[test]
fn resolve_path_joins_and_normalizes() {
    assert_eq!(resolve_path(&b("/base"), &b("a/b")).unwrap(), b("/base/a/b"));
    assert_eq!(resolve_path(&b("/base"), &b("a/../c")).unwrap(), b("/base/c"));
    assert_eq!(resolve_path(&b("/base/"), &b("./x")).unwrap(), b("/base/x"));
}

#[test]
fn resolve_path_refuses_traversal() {
    assert!(resolve_path(&b("/base"), &b("../etc/passwd")).is_err());
    assert!(resolve_path(&b("/base"), &b("a/../../x")).is_err());
    assert!(resolve_path(&b("/base"), &b("/elsewhere/x")).is_err());
}

#[test]
fn lrc_path_replaces_the_extension() {
    assert_eq!(get_lrc_path(&b("/music/song.mp3")), b("/music/song.lrc"));
    assert_eq!(get_lrc_path(&b("/music/song")), b("/music/song.lrc"));
    assert_eq!(get_lrc_path(&b("/music/a.b/song.flac")), b("/music/a.b/song.lrc"));
}

#[test]
fn state_file_lives_inside_the_plugin_dir() {
    assert_eq!(get_state_file_path(&b("/plugins")), b("/plugins/plugin_state.json"));
    assert_eq!(get_state_file_path(&b("/plugins/")), b("/plugins/plugin_state.json"));
}

#[test]
fn url_scheme_check() {
    assert!(is_valid_url("http://example.test/a.jpg"));
    assert!(is_valid_url("https://example.test/a.jpg"));
    assert!(!is_valid_url("ftp://example.test/a.jpg"));
    assert!(!is_valid_url("/local/path.jpg"));
    assert!(!is_valid_url("http:/missing.test"));
}

#[test]
fn cover_names_parse_to_ids() {
    assert_eq!(parse_cover_name(&b("123.jpg")), Some(123));
    assert_eq!(parse_cover_name(&b("123.JPG")), Some(123));
    assert_eq!(parse_cover_name(&b("7.jpeg")), Some(7));
    assert_eq!(parse_cover_name(&b("8.png")), Some(8));
    assert_eq!(parse_cover_name(&b("9.webp")), Some(9));
    assert_eq!(parse_cover_name(&b("cover.jpg")), None);
    assert_eq!(parse_cover_name(&b("123.gif")), None);
    assert_eq!(parse_cover_name(&b("123")), None);
    assert_eq!(parse_cover_name(&b(".jpg")), None);
}

#[test]
fn classify_cover_states() {
    assert_eq!(classify_cover(true, false), CoverState::InlineOnly);
    assert_eq!(classify_cover(false, true), CoverState::PathOnly);
    assert_eq!(classify_cover(true, true), CoverState::Both);
    assert_eq!(classify_cover(false, false), CoverState::Neither);
}

#[test]
fn prefilter_marks_only_shared_buckets() {
    let files = vec![
        FileMeta { path: b("/covers/1.jpg"), size: 500_001 },
        FileMeta { path: b("/covers/2.jpg"), size: 500_001 },
        FileMeta { path: b("/covers/3.jpg"), size: 500_050 },
        FileMeta { path: b("/covers/4.jpg"), size: 1_000 },
    ];
    // 500_001 and 500_050 share the bucket 500_001 / 1024 == 500_050 / 1024;
    // 1_000 is alone in its bucket and is never hashed.
    let flags = hash_candidates(&files);
    assert_eq!(flags, vec![true, true, true, false]);
}

#[test]
fn prefilter_skips_unique_sizes() {
    let files = vec![
        FileMeta { path: b("/a"), size: 10_000 },
        FileMeta { path: b("/b"), size: 50_000 },
    ];
    let flags = hash_candidates(&files);
    assert_eq!(flags, vec![false, false]);
}

#[test]
fn duplicate_classes_converge_on_smallest_path() {
    let d1 = hash_bytes(&b("same bytes"));
    let d2 = hash_bytes(&b("same bytes"));
    let d3 = hash_bytes(&b("other bytes"));
    let files = vec![
        HashedFile { path: b("/covers/2.jpg"), size: 10, digest: d1 },
        HashedFile { path: b("/covers/1.jpg"), size: 10, digest: d2 },
        HashedFile { path: b("/covers/3.jpg"), size: 11, digest: d3 },
    ];
    let plans = plan_duplicates(&files);
    assert_eq!(plans.len(), 1);
    assert_eq!(plans[0].canonical, b("/covers/1.jpg"));
    assert_eq!(plans[0].removals.len(), 1);
    assert_eq!(plans[0].removals[0].path, b("/covers/2.jpg"));
    assert_eq!(plans[0].removals[0].size, 10);
}

#[test]
fn track_groups_carry_exactly_their_ids() {
    let tracks = vec![
        TrackCover { id: 1, path: b("/covers/1.jpg") },
        TrackCover { id: 2, path: b("/covers/2.jpg") },
        TrackCover { id: 3, path: b("/covers/1.jpg") },
    ];
    let groups = group_tracks_by_path(&tracks);
    assert_eq!(groups.len(), 2);
    assert_eq!(groups[0].path, b("/covers/1.jpg"));
    assert_eq!(groups[0].track_ids, vec![1, 3]);
    assert_eq!(groups[1].path, b("/covers/2.jpg"));
    assert_eq!(groups[1].track_ids, vec![2]);
}

#[test]
fn class_plans_expand_to_row_updates() {
    let d = hash_bytes(&b("same"));
    let files = vec![
        HashedFile { path: b("/covers/1.jpg"), size: 4, digest: d.clone() },
        HashedFile { path: b("/covers/2.jpg"), size: 4, digest: d },
    ];
    let plans = plan_duplicates(&files);
    let tracks = vec![
        TrackCover { id: 1, path: b("/covers/1.jpg") },
        TrackCover { id: 2, path: b("/covers/2.jpg") },
        TrackCover { id: 5, path: b("/covers/2.jpg") },
    ];
    let groups = group_tracks_by_path(&tracks);
    let updates = plan_updates_for_class(&plans[0], &groups);
    assert_eq!(updates.len(), 2);
    assert_eq!(updates[0].track_id, 2);
    assert_eq!(updates[0].new_path, b("/covers/1.jpg"));
    assert_eq!(updates[1].track_id, 5);
    assert_eq!(updates[1].new_path, b("/covers/1.jpg"));
}

#[test]
fn missing_file_deletion_is_silent() {
    let mut res = MergeCoverResult {
        covers_merged: 3,
        space_saved_bytes: 100,
        albums_processed: 1,
        errors: Vec::new(),
    };
    record_delete_outcome(&mut res, DeleteOutcome::Missing, 500_001);
    assert_eq!(res.covers_merged, 3);
    assert_eq!(res.space_saved_bytes, 100);
    assert!(res.errors.is_empty());
}

#[test]
fn confirmed_deletion_counts_space() {
    let mut res = MergeCoverResult {
        covers_merged: 0,
        space_saved_bytes: 0,
        albums_processed: 1,
        errors: Vec::new(),
    };
    record_delete_outcome(&mut res, DeleteOutcome::Deleted, 500_001);
    assert_eq!(res.covers_merged, 1);
    assert_eq!(res.space_saved_bytes, 500_001);
    assert!(res.errors.is_empty());
    record_delete_outcome(&mut res, DeleteOutcome::Failed("locked".to_string()), 9);
    assert_eq!(res.covers_merged, 1);
    assert_eq!(res.space_saved_bytes, 500_001);
    assert_eq!(res.errors.len(), 1);
}

#[test]
fn albums_not_worth_checking_are_skipped() {
    let single = vec![TrackCover { id: 1, path: b("/covers/1.jpg") }];
    assert!(select_merge_groups(&single).is_none());
    let shared = vec![
        TrackCover { id: 1, path: b("/covers/1.jpg") },
        TrackCover { id: 2, path: b("/covers/1.jpg") },
    ];
    assert!(select_merge_groups(&shared).is_none());
    let distinct = vec![
        TrackCover { id: 1, path: b("/covers/1.jpg") },
        TrackCover { id: 2, path: b("/covers/2.jpg") },
    ];
    let groups = select_merge_groups(&distinct).unwrap();
    assert_eq!(groups.len(), 2);
}

#[test]
fn migrate_outcomes_fold_exactly() {
    let mut migrated = 0usize;
    let mut errors: Vec<String> = Vec::new();
    record_migrate_outcome(&mut migrated, &mut errors, &Ok(Ok(1)), String::new());
    assert_eq!(migrated, 1);
    assert!(errors.is_empty());
    record_migrate_outcome(
        &mut migrated,
        &mut errors,
        &Ok(Err("row gone".to_string())),
        "update failed".to_string(),
    );
    assert_eq!(migrated, 1);
    assert_eq!(errors, vec!["update failed".to_string()]);
    record_migrate_outcome(
        &mut migrated,
        &mut errors,
        &Err("disk full".to_string()),
        "write failed".to_string(),
    );
    assert_eq!(migrated, 1);
    assert_eq!(errors.len(), 2);
}

#[test]
fn cleared_counts_combine_saturating() {
    assert_eq!(combine_cleared_counts(2, 3), 5);
    assert_eq!(combine_cleared_counts(0, 0), 0);
    assert_eq!(combine_cleared_counts(usize::MAX, 1), usize::MAX);
}
