use std::cell::RefCell;
use std::collections::HashMap;

use cover_store::engine::{
    clear_inline_after_migration, merge_duplicate_covers, migrate_inline_to_files,
    sync_paths_from_files,
};
use cover_store::hashing::hash_bytes;
use cover_store::records::DeleteOutcome;
use cover_store::sync::{DirEntry, DirScan};

fn b(s: &str) -> Vec<u8> {
    s.as_bytes().to_vec()
}

fn open_store() -> rusqlite::Connection {
    let conn = rusqlite::Connection::open_in_memory().unwrap();
    conn.execute(
        "CREATE TABLE tracks (id INTEGER PRIMARY KEY, album TEXT, track_cover TEXT, track_cover_path TEXT)",
        [],
    )
    .unwrap();
    conn.execute(
        "CREATE TABLE albums (id INTEGER PRIMARY KEY, art_data TEXT, art_path TEXT)",
        [],
    )
    .unwrap();
    conn
}

fn track_path(conn: &rusqlite::Connection, id: i64) -> Option<String> {
    conn.query_row(
        "SELECT track_cover_path FROM tracks WHERE id = ?",
        [id],
        |row| row.get::<_, Option<String>>(0),
    )
    .unwrap()
}

fn write_track_stub(id: i64, _data: &Vec<u8>) -> Result<Vec<u8>, String> {
    Ok(format!("/covers/tracks/{}.jpg", id).into_bytes())
}

fn write_album_stub(id: i64, _data: &Vec<u8>) -> Result<Vec<u8>, String> {
    Ok(format!("/covers/albums/{}.jpg", id).into_bytes())
}

#[test]
fn migration_moves_inline_payloads_to_paths() {
    let mut conn = open_store();
    conn.execute(
        "INSERT INTO tracks (id, album, track_cover) VALUES (1, 'X', 'payloadA')",
        [],
    )
    .unwrap();
    conn.execute(
        "INSERT INTO tracks (id, album, track_cover) VALUES (2, 'X', 'payloadB')",
        [],
    )
    .unwrap();
    conn.execute("INSERT INTO albums (id, art_data) VALUES (7, 'artC')", [])
        .unwrap();

    let p = migrate_inline_to_files(&mut conn, &write_track_stub, &write_album_stub).unwrap();
    assert_eq!(p.total, 3);
    assert_eq!(p.processed, 3);
    assert_eq!(p.tracks_migrated, 2);
    assert_eq!(p.albums_migrated, 1);
    assert!(p.errors.is_empty());
    assert_eq!(track_path(&conn, 1), Some("/covers/tracks/1.jpg".to_string()));
    assert_eq!(track_path(&conn, 2), Some("/covers/tracks/2.jpg".to_string()));
}

#[test]
fn migration_is_idempotent() {
    let mut conn = open_store();
    conn.execute(
        "INSERT INTO tracks (id, album, track_cover) VALUES (1, 'X', 'payloadA')",
        [],
    )
    .unwrap();
    conn.execute("INSERT INTO albums (id, art_data) VALUES (7, 'artC')", [])
        .unwrap();

    let first = migrate_inline_to_files(&mut conn, &write_track_stub, &write_album_stub).unwrap();
    assert_eq!(first.tracks_migrated + first.albums_migrated, 2);
    assert!(first.errors.is_empty());

    // A second run selects nothing: every row already carries its path.
    let second = migrate_inline_to_files(&mut conn, &write_track_stub, &write_album_stub).unwrap();
    assert_eq!(second.total, 0);
    assert_eq!(second.processed, 0);
    assert_eq!(second.tracks_migrated, 0);
    assert_eq!(second.albums_migrated, 0);
    assert!(second.errors.is_empty());
}

#[test]
fn migration_records_failures_and_continues() {
    let mut conn = open_store();
    conn.execute(
        "INSERT INTO tracks (id, album, track_cover) VALUES (1, 'X', 'payloadA')",
        [],
    )
    .unwrap();
    conn.execute(
        "INSERT INTO tracks (id, album, track_cover) VALUES (2, 'X', 'payloadB')",
        [],
    )
    .unwrap();
    let failing_write = |id: i64, _data: &Vec<u8>| -> Result<Vec<u8>, String> {
        if id == 1 {
            Err("disk full".to_string())
        } else {
            Ok(format!("/covers/tracks/{}.jpg", id).into_bytes())
        }
    };
    let p = migrate_inline_to_files(&mut conn, &failing_write, &write_album_stub).unwrap();
    assert_eq!(p.total, 2);
    assert_eq!(p.processed, 2);
    assert_eq!(p.tracks_migrated, 1);
    assert_eq!(p.errors.len(), 1);
    assert_eq!(track_path(&conn, 1), None);
    assert_eq!(track_path(&conn, 2), Some("/covers/tracks/2.jpg".to_string()));
}

#[test]
fn clear_inline_touches_only_migrated_rows() {
    let mut conn = open_store();
    conn.execute(
        "INSERT INTO tracks (id, album, track_cover, track_cover_path) VALUES (1, 'X', 'p', '/covers/1.jpg')",
        [],
    )
    .unwrap();
    conn.execute(
        "INSERT INTO tracks (id, album, track_cover) VALUES (2, 'X', 'q')",
        [],
    )
    .unwrap();
    let cleared = clear_inline_after_migration(&mut conn).unwrap();
    assert_eq!(cleared, 1);
    let still_inline: Option<String> = conn
        .query_row("SELECT track_cover FROM tracks WHERE id = 2", [], |row| {
            row.get(0)
        })
        .unwrap();
    assert_eq!(still_inline, Some("q".to_string()));
}

fn entry(name: &str, dir: &str) -> DirEntry {
    DirEntry {
        name: b(name),
        path: b(&format!("{}/{}", dir, name)),
        is_file: true,
    }
}

#[test]
fn sync_applies_discovered_files() {
    let mut conn = open_store();
    conn.execute("INSERT INTO tracks (id, album) VALUES (5, 'X')", [])
        .unwrap();
    conn.execute("INSERT INTO albums (id) VALUES (9)", []).unwrap();

    let tracks_scan = DirScan::Listed(vec![entry("5.jpg", "/covers/tracks")]);
    let albums_scan = DirScan::Listed(vec![entry("9.png", "/covers/albums")]);
    let p = sync_paths_from_files(&mut conn, tracks_scan, albums_scan).unwrap();
    assert_eq!(p.tracks_migrated, 1);
    assert_eq!(p.albums_migrated, 1);
    assert_eq!(p.total, 2);
    assert!(p.errors.is_empty());
    assert_eq!(track_path(&conn, 5), Some("/covers/tracks/5.jpg".to_string()));
}

#[test]
fn sync_skips_unmatched_ids() {
    let mut conn = open_store();
    conn.execute("INSERT INTO tracks (id, album) VALUES (5, 'X')", [])
        .unwrap();

    let tracks_scan = DirScan::Listed(vec![entry("99999.jpg", "/covers/tracks")]);
    let p = sync_paths_from_files(&mut conn, tracks_scan, DirScan::Missing).unwrap();
    // The file is a candidate and is attempted, but no row matches:
    // nothing is synced and nothing is an error.
    assert_eq!(p.total, 1);
    assert_eq!(p.processed, 1);
    assert_eq!(p.tracks_migrated, 0);
    assert_eq!(p.albums_migrated, 0);
    assert!(p.errors.is_empty());
    assert_eq!(track_path(&conn, 5), None);
}

#[test]
fn sync_with_missing_directories_is_a_no_op() {
    let mut conn = open_store();
    let p = sync_paths_from_files(&mut conn, DirScan::Missing, DirScan::Missing).unwrap();
    assert_eq!(p.total, 0);
    assert_eq!(p.processed, 0);
    assert_eq!(p.tracks_migrated, 0);
    assert_eq!(p.albums_migrated, 0);
    assert!(p.errors.is_empty());
}

#[test]
fn sync_ignores_non_cover_files_and_missing_dirs() {
    let mut conn = open_store();
    conn.execute("INSERT INTO tracks (id, album) VALUES (5, 'X')", [])
        .unwrap();
    let tracks_scan = DirScan::Listed(vec![
        entry("notes.txt", "/covers/tracks"),
        entry("cover.jpg", "/covers/tracks"),
        DirEntry { name: b("5.jpg"), path: b("/covers/tracks/5.jpg"), is_file: false },
    ]);
    let p = sync_paths_from_files(&mut conn, tracks_scan, DirScan::Missing).unwrap();
    assert_eq!(p.total, 0);
    assert_eq!(p.processed, 0);
    assert!(p.errors.is_empty());
}

#[test]
fn sync_records_unreadable_directories() {
    let mut conn = open_store();
    let p = sync_paths_from_files(
        &mut conn,
        DirScan::Unreadable("permission denied".to_string()),
        DirScan::Missing,
    )
    .unwrap();
    assert_eq!(p.total, 0);
    assert_eq!(p.errors.len(), 1);
}

struct FakeFs {
    contents: HashMap<Vec<u8>, Vec<u8>>,
    deleted: RefCell<Vec<Vec<u8>>>,
}

impl FakeFs {
    fn stat(&self, p: &Vec<u8>) -> Result<u64, String> {
        self.contents
            .get(p)
            .map(|c| c.len() as u64)
            .ok_or_else(|| "no such file".to_string())
    }

    fn hash(&self, p: &Vec<u8>) -> Result<Vec<u8>, String> {
        self.contents
            .get(p)
            .map(hash_bytes)
            .ok_or_else(|| "no such file".to_string())
    }

    fn delete(&self, p: &Vec<u8>) -> DeleteOutcome {
        if self.contents.contains_key(p) {
            self.deleted.borrow_mut().push(p.clone());
            DeleteOutcome::Deleted
        } else {
            DeleteOutcome::Missing
        }
    }
}

#[test]
fn merge_collapses_identical_covers() {
    let mut conn = open_store();
    conn.execute(
        "INSERT INTO tracks (id, album, track_cover_path) VALUES (1, 'X', '/covers/1.jpg')",
        [],
    )
    .unwrap();
    conn.execute(
        "INSERT INTO tracks (id, album, track_cover_path) VALUES (2, 'X', '/covers/2.jpg')",
        [],
    )
    .unwrap();
    conn.execute(
        "INSERT INTO tracks (id, album, track_cover_path) VALUES (3, 'X', '/covers/3.jpg')",
        [],
    )
    .unwrap();

    let mut contents = HashMap::new();
    contents.insert(b("/covers/1.jpg"), vec![7u8; 500_001]);
    contents.insert(b("/covers/2.jpg"), vec![7u8; 500_001]);
    contents.insert(b("/covers/3.jpg"), vec![9u8; 500_050]);
    let fs = FakeFs { contents, deleted: RefCell::new(Vec::new()) };

    let r = merge_duplicate_covers(
        &mut conn,
        &|p: &Vec<u8>| fs.stat(p),
        &|p: &Vec<u8>| fs.hash(p),
        &|p: &Vec<u8>| fs.delete(p),
    )
    .unwrap();

    assert_eq!(r.covers_merged, 1);
    assert_eq!(r.space_saved_bytes, 500_001);
    assert_eq!(r.albums_processed, 1);
    assert!(r.errors.is_empty());
    assert_eq!(track_path(&conn, 1), Some("/covers/1.jpg".to_string()));
    assert_eq!(track_path(&conn, 2), Some("/covers/1.jpg".to_string()));
    assert_eq!(track_path(&conn, 3), Some("/covers/3.jpg".to_string()));
    assert_eq!(*fs.deleted.borrow(), vec![b("/covers/2.jpg")]);
}

#[test]
fn merge_tolerates_out_of_band_deletion() {
    let mut conn = open_store();
    conn.execute(
        "INSERT INTO tracks (id, album, track_cover_path) VALUES (1, 'X', '/covers/1.jpg')",
        [],
    )
    .unwrap();
    conn.execute(
        "INSERT INTO tracks (id, album, track_cover_path) VALUES (2, 'X', '/covers/2.jpg')",
        [],
    )
    .unwrap();

    let mut contents = HashMap::new();
    contents.insert(b("/covers/1.jpg"), vec![7u8; 1000]);
    contents.insert(b("/covers/2.jpg"), vec![7u8; 1000]);
    let fs = FakeFs { contents, deleted: RefCell::new(Vec::new()) };

    // The duplicate disappears out of band before the engine deletes it:
    // deletion reports it missing, which is neither an error nor saved
    // space.
    let r = merge_duplicate_covers(
        &mut conn,
        &|p: &Vec<u8>| fs.stat(p),
        &|p: &Vec<u8>| fs.hash(p),
        &|_p: &Vec<u8>| DeleteOutcome::Missing,
    )
    .unwrap();

    assert_eq!(r.covers_merged, 0);
    assert_eq!(r.space_saved_bytes, 0);
    assert!(r.errors.is_empty());
    assert_eq!(track_path(&conn, 1), Some("/covers/1.jpg".to_string()));
    assert_eq!(track_path(&conn, 2), Some("/covers/1.jpg".to_string()));
}

#[test]
fn merge_skips_albums_without_duplicates() {
    let mut conn = open_store();
    conn.execute(
        "INSERT INTO tracks (id, album, track_cover_path) VALUES (1, 'X', '/covers/1.jpg')",
        [],
    )
    .unwrap();
    conn.execute(
        "INSERT INTO tracks (id, album, track_cover_path) VALUES (2, 'Y', '/covers/2.jpg')",
        [],
    )
    .unwrap();
    let mut contents = HashMap::new();
    contents.insert(b("/covers/1.jpg"), vec![1u8; 10]);
    contents.insert(b("/covers/2.jpg"), vec![2u8; 10]);
    let fs = FakeFs { contents, deleted: RefCell::new(Vec::new()) };
    let r = merge_duplicate_covers(
        &mut conn,
        &|p: &Vec<u8>| fs.stat(p),
        &|p: &Vec<u8>| fs.hash(p),
        &|p: &Vec<u8>| fs.delete(p),
    )
    .unwrap();
    assert_eq!(r.covers_merged, 0);
    assert_eq!(r.albums_processed, 2);
    assert!(r.errors.is_empty());
    assert!(fs.deleted.borrow().is_empty());
}

#[test]
fn merge_records_stat_failures_and_continues() {
    let mut conn = open_store();
    conn.execute(
        "INSERT INTO tracks (id, album, track_cover_path) VALUES (1, 'X', '/covers/1.jpg')",
        [],
    )
    .unwrap();
    conn.execute(
        "INSERT INTO tracks (id, album, track_cover_path) VALUES (2, 'X', '/covers/2.jpg')",
        [],
    )
    .unwrap();
    // Neither file can be statted: both drop out, nothing is merged, and
    // each contributes one error.
    let fs = FakeFs { contents: HashMap::new(), deleted: RefCell::new(Vec::new()) };
    let r = merge_duplicate_covers(
        &mut conn,
        &|p: &Vec<u8>| fs.stat(p),
        &|p: &Vec<u8>| fs.hash(p),
        &|p: &Vec<u8>| fs.delete(p),
    )
    .unwrap();
    assert_eq!(r.covers_merged, 0);
    assert_eq!(r.errors.len(), 2);
    assert_eq!(track_path(&conn, 1), Some("/covers/1.jpg".to_string()));
    assert_eq!(track_path(&conn, 2), Some("/covers/2.jpg".to_string()));
}
