use foobar1974::db::{
    search_statement, ALL_PATHS_SQL, DELETE_TRACK_SQL, LIST_SEARCH_HEAD, MIGRATION_SQL,
    TEXT_SEARCH_HEAD, TRACK_BY_ID_SQL, UPSERT_TRACK_SQL,
};
use foobar1974::models::Track;
use rusqlite::Connection;

fn run(conn: &Connection, query: &str, sort: &str, dir: &str, offset: i64, limit: i64) -> Vec<Track> {
    let st = search_statement(query, sort, dir);
    let mut stmt = conn.prepare(&st.sql).unwrap();
    let map = |row: &rusqlite::Row<'_>| -> rusqlite::Result<Track> {
        Ok(Track {
            id: row.get(0)?,
            path: row.get(1)?,
            title: row.get(2)?,
            artist: row.get(3)?,
            album: row.get(4)?,
            album_artist: row.get(5)?,
            duration_ms: row.get(6)?,
        })
    };
    let rows: Vec<Track> = match &st.pattern {
        None => stmt.query_map((limit, offset), map).unwrap().flatten().collect(),
        Some(p) => stmt.query_map((p.as_str(), limit, offset), map).unwrap().flatten().collect(),
    };
    rows
}

fn library() -> Connection {
    let conn = Connection::open_in_memory().unwrap();
    conn.execute_batch(MIGRATION_SQL).unwrap();
    conn.execute("INSERT INTO tracks(path,title,artist,album,album_artist,file_mtime) VALUES (?1,?2,?3,?4,?5,?6)",
        ("/tmp/a.flac", "Song A", "Artist A", "Album A", "Artist A", 1_i64)).unwrap();
    conn.execute("INSERT INTO tracks(path,title,artist,album,album_artist,file_mtime) VALUES (?1,?2,?3,?4,?5,?6)",
        ("/tmp/b.flac", "Song B", "Artist B", "Album B", "Artist B", 1_i64)).unwrap();
    conn
}

#[test]
fn migration_and_search_work() {
    let conn = library();
    let results = run(&conn, "Song", "title", "asc", 0, 20);
    assert_eq!(results.len(), 2);

    let results2 = run(&conn, "", "artist", "asc", 0, 1);
    assert_eq!(results2.len(), 1);
}

#[test]
fn search_sorts_descending_and_pages() {
    let conn = library();
    let results = run(&conn, "   ", "title", "DeSc", 0, 20);
    let titles: Vec<&str> = results.iter().map(|t| t.title.as_str()).collect();
    assert_eq!(titles, vec!["Song B", "Song A"]);
    let page = run(&conn, "", "title", "asc", 1, 20);
    assert_eq!(page.len(), 1);
    assert_eq!(page[0].title, "Song B");
}

#[test]
fn search_matches_prefix_and_ignores_quotes() {
    let conn = library();
    let results = run(&conn, "\"Artis\"", "artist", "asc", 0, 20);
    assert_eq!(results.len(), 2);
    let none = run(&conn, "Nothing", "artist", "asc", 0, 20);
    assert!(none.is_empty());
}

#[test]
fn search_statement_for_blank_query_lists_all() {
    let st = search_statement(" \t", "album", "asc");
    assert!(st.pattern.is_none());
    assert_eq!(st.sql, format!("{LIST_SEARCH_HEAD}album ASC LIMIT ?1 OFFSET ?2"));
}

#[test]
fn search_statement_for_text_query_uses_index() {
    let st = search_statement("say \"hi\"", "title", "DESC");
    assert_eq!(st.pattern.as_deref(), Some("say hi*"));
    assert_eq!(st.sql, format!("{TEXT_SEARCH_HEAD}title DESC LIMIT ?2 OFFSET ?3"));
}

#[test]
fn search_statement_sort_column_is_whitelisted() {
    let st = search_statement("", "title; DROP TABLE tracks", "asc");
    assert!(st.sql.ends_with("ORDER BY artist ASC LIMIT ?1 OFFSET ?2"));
    assert!(!st.sql.contains("DROP"));
    let st = search_statement("", "Title", "descending");
    assert!(st.sql.ends_with("ORDER BY artist ASC LIMIT ?1 OFFSET ?2"));
}

#[test]
fn scan_statements_keep_the_index_in_step() {
    let conn = Connection::open_in_memory().unwrap();
    conn.execute_batch(MIGRATION_SQL).unwrap();
    conn.execute_batch(MIGRATION_SQL).unwrap();
    conn.execute(UPSERT_TRACK_SQL, ("/m/a.mp3", "Old", "Unknown artist", "Unknown album", "", 3_i64)).unwrap();
    conn.execute(UPSERT_TRACK_SQL, ("/m/a.mp3", "Fresh", "Unknown artist", "Unknown album", "", 4_i64)).unwrap();
    conn.execute(UPSERT_TRACK_SQL, ("/m/b.mp3", "Other", "Unknown artist", "Unknown album", "", 4_i64)).unwrap();
    assert!(run(&conn, "Old", "title", "asc", 0, 20).is_empty());
    assert_eq!(run(&conn, "Fresh", "title", "asc", 0, 20).len(), 1);
    let paths: Vec<String> = conn
        .prepare(ALL_PATHS_SQL)
        .unwrap()
        .query_map([], |r| r.get::<_, String>(0))
        .unwrap()
        .flatten()
        .collect();
    assert_eq!(paths.len(), 2);
    conn.execute(DELETE_TRACK_SQL, ["/m/b.mp3"]).unwrap();
    assert!(run(&conn, "Other", "title", "asc", 0, 20).is_empty());
    let id: i64 = run(&conn, "", "title", "asc", 0, 20)[0].id;
    let title: String = conn
        .prepare(TRACK_BY_ID_SQL)
        .unwrap()
        .query_row([id], |r| r.get(2))
        .unwrap();
    assert_eq!(title, "Fresh");
}
