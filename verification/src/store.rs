//! The relational store, reached through the rusqlite crate. Every call
//! into the store stands behind a trusted wrapper; what comes back
//! depends on the store's state, so the wrappers promise nothing about
//! row content and the engines handle every outcome. Paths travel as
//! bytes here and as TEXT in the store.

use vstd::prelude::*;

verus! {

#[verifier::external_type_specification]
#[verifier::external_body]
pub struct ExConnection(rusqlite::Connection);

#[verifier::external_type_specification]
#[verifier::external_body]
pub struct ExTransaction<'a>(rusqlite::Transaction<'a>);

/// A row still carrying its inline payload and no path pointer.
pub struct InlineRow {
    pub id: i64,
    pub payload: Vec<u8>,
}

/// Relies on rusqlite's Connection::prepare and Statement::query_map:
/// selects the track rows with an inline cover and no cover path — the
/// rows in the `InlineOnly` state of the `state` module's row-state
/// machine, the ones eligible for migration.
#[verifier::external_body]
pub(crate) fn query_migratable_tracks(conn: &rusqlite::Connection) -> (r: Result<
    Vec<InlineRow>,
    String,
>) {
    let mut stmt = conn.prepare(
        "SELECT id, track_cover FROM tracks WHERE track_cover IS NOT NULL AND track_cover_path IS NULL",
    ).map_err(|e| e.to_string())?;
    let rows = stmt.query_map([], |row| {
        Ok((row.get::<_, i64>(0)?, row.get::<_, String>(1)?))
    }).map_err(|e| e.to_string())?;
    Ok(rows.filter_map(|r| r.ok()).map(|(id, data)| InlineRow {
        id,
        payload: data.into_bytes(),
    }).collect())
}

/// Relies on rusqlite's Connection::prepare and Statement::query_map:
/// selects the album rows with inline art and no art path — the rows in
/// the `InlineOnly` state of the `state` module's row-state machine, the
/// ones eligible for migration.
#[verifier::external_body]
pub(crate) fn query_migratable_albums(conn: &rusqlite::Connection) -> (r: Result<
    Vec<InlineRow>,
    String,
>) {
    let mut stmt = conn.prepare(
        "SELECT id, art_data FROM albums WHERE art_data IS NOT NULL AND art_path IS NULL",
    ).map_err(|e| e.to_string())?;
    let rows = stmt.query_map([], |row| {
        Ok((row.get::<_, i64>(0)?, row.get::<_, String>(1)?))
    }).map_err(|e| e.to_string())?;
    Ok(rows.filter_map(|r| r.ok()).map(|(id, data)| InlineRow {
        id,
        payload: data.into_bytes(),
    }).collect())
}

/// Relies on rusqlite's Connection::execute: points one track row at a
/// cover file; yields the affected-row count.
#[verifier::external_body]
pub(crate) fn update_track_cover_path(conn: &rusqlite::Connection, id: i64, path: &Vec<u8>) -> (r:
    Result<usize, String>) {
    let p = String::from_utf8_lossy(path.as_slice()).into_owned();
    conn.execute("UPDATE tracks SET track_cover_path = ?1 WHERE id = ?2", (p, id)).map_err(
        |e| e.to_string(),
    )
}

/// Relies on rusqlite's Connection::execute: points one album row at an
/// art file; yields the affected-row count.
#[verifier::external_body]
pub(crate) fn update_album_art_path(conn: &rusqlite::Connection, id: i64, path: &Vec<u8>) -> (r: Result<
    usize,
    String,
>) {
    let p = String::from_utf8_lossy(path.as_slice()).into_owned();
    conn.execute("UPDATE albums SET art_path = ?1 WHERE id = ?2", (p, id)).map_err(
        |e| e.to_string(),
    )
}

/// Relies on rusqlite's Connection::prepare and Statement::query_map:
/// the distinct album names among the tracks.
#[verifier::external_body]
pub(crate) fn query_album_names(conn: &rusqlite::Connection) -> (r: Result<Vec<String>, String>) {
    let mut stmt = conn.prepare(
        "SELECT DISTINCT album FROM tracks WHERE album IS NOT NULL",
    ).map_err(|e| e.to_string())?;
    let rows = stmt.query_map([], |row| row.get::<_, String>(0)).map_err(|e| e.to_string())?;
    Ok(rows.filter_map(|r| r.ok()).collect())
}

/// Relies on rusqlite's Connection::prepare and Statement::query_map:
/// the tracks of one album that carry a non-empty cover path.
#[verifier::external_body]
pub(crate) fn query_album_tracks_with_covers(conn: &rusqlite::Connection, album: &String) -> (r: Result<
    Vec<crate::merge::TrackCover>,
    String,
>) {
    let mut stmt = conn.prepare(
        "SELECT id, track_cover_path FROM tracks WHERE album = ? AND track_cover_path IS NOT NULL AND track_cover_path != ''",
    ).map_err(|e| e.to_string())?;
    let rows = stmt.query_map([album.as_str()], |row| {
        Ok((row.get::<_, i64>(0)?, row.get::<_, String>(1)?))
    }).map_err(|e| e.to_string())?;
    Ok(rows.filter_map(|r| r.ok()).map(|(id, path)| crate::merge::TrackCover {
        id,
        path: path.into_bytes(),
    }).collect())
}

/// Relies on rusqlite's Connection::transaction: opens a transaction on
/// the connection.
#[verifier::external_body]
pub(crate) fn begin_tx<'a>(conn: &'a mut rusqlite::Connection) -> (r: Result<
    rusqlite::Transaction<'a>,
    String,
>) {
    conn.transaction().map_err(|e| e.to_string())
}

/// Relies on rusqlite's Connection::execute through the transaction:
/// points one track row at a cover file inside the transaction; yields
/// the affected-row count.
#[verifier::external_body]
pub(crate) fn tx_update_track_cover_path(tx: &rusqlite::Transaction<'_>, id: i64, path: &Vec<u8>) -> (r:
    Result<usize, String>) {
    let p = String::from_utf8_lossy(path.as_slice()).into_owned();
    tx.execute("UPDATE tracks SET track_cover_path = ?1 WHERE id = ?2", (p, id)).map_err(
        |e| e.to_string(),
    )
}

/// Relies on rusqlite's Connection::execute through the transaction:
/// points one album row at an art file inside the transaction; yields
/// the affected-row count.
#[verifier::external_body]
pub(crate) fn tx_update_album_art_path(tx: &rusqlite::Transaction<'_>, id: i64, path: &Vec<u8>) -> (r:
    Result<usize, String>) {
    let p = String::from_utf8_lossy(path.as_slice()).into_owned();
    tx.execute("UPDATE albums SET art_path = ?1 WHERE id = ?2", (p, id)).map_err(
        |e| e.to_string(),
    )
}

/// Relies on rusqlite's Transaction::commit: commits the batch; on
/// failure the dropped transaction rolls back.
#[verifier::external_body]
pub(crate) fn commit_tx(tx: rusqlite::Transaction<'_>) -> (r: Result<(), String>) {
    tx.commit().map_err(|e| e.to_string())
}

/// Relies on rusqlite's Connection::execute: clears the inline cover of
/// every track row that already carries a cover path; yields the
/// affected-row count.
#[verifier::external_body]
pub(crate) fn clear_track_inline(conn: &rusqlite::Connection) -> (r: Result<usize, String>) {
    conn.execute(
        "UPDATE tracks SET track_cover = NULL WHERE track_cover_path IS NOT NULL",
        [],
    ).map_err(|e| e.to_string())
}

/// Relies on rusqlite's Connection::execute: clears the inline art of
/// every album row that already carries an art path; yields the
/// affected-row count.
#[verifier::external_body]
pub(crate) fn clear_album_inline(conn: &rusqlite::Connection) -> (r: Result<usize, String>) {
    conn.execute(
        "UPDATE albums SET art_data = NULL WHERE art_path IS NOT NULL",
        [],
    ).map_err(|e| e.to_string())
}

/// Relies on std's format!: a per-row diagnostic with the row id.
#[verifier::external_body]
pub(crate) fn fmt_id_err(context: &str, id: i64, detail: &String) -> String {
    format!("{}{}: {}", context, id, detail)
}

/// Relies on std's format!: a per-file diagnostic with the path.
#[verifier::external_body]
pub(crate) fn fmt_path_err(context: &str, path: &Vec<u8>, detail: &String) -> String {
    format!("{}{}: {}", context, String::from_utf8_lossy(path.as_slice()), detail)
}

/// Relies on std's format!: a diagnostic with a detail message.
#[verifier::external_body]
pub(crate) fn fmt_plain_err(context: &str, detail: &String) -> String {
    format!("{}{}", context, detail)
}

} // verus!
