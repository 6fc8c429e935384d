//! The track database's schema and the statements that search it.
//!
//! The user's sort column is never written into a statement as given: it is
//! mapped onto a fixed list of columns, and the search text only ever goes
//! in as a bound parameter.
use vstd::prelude::*;

use crate::text::{blank, eq_ignore_ascii_case, is_blank, push_char, same_ignoring_ascii_case, str_equal};

verus! {

/// The schema of the track database: the tracks table, a full-text index
/// over its tag columns, and the triggers that keep the index in step.
pub const MIGRATION_SQL: &'static str = "CREATE TABLE IF NOT EXISTS tracks (id INTEGER PRIMARY KEY AUTOINCREMENT, path TEXT NOT NULL UNIQUE, title TEXT, artist TEXT, album TEXT, album_artist TEXT, duration_ms INTEGER, year INTEGER, file_mtime INTEGER); CREATE INDEX IF NOT EXISTS tracks_artist_album ON tracks(artist, album, path); CREATE VIRTUAL TABLE IF NOT EXISTS tracks_fts USING fts5(title, artist, album, album_artist, content='tracks', content_rowid='id'); CREATE TRIGGER IF NOT EXISTS tracks_ai AFTER INSERT ON tracks BEGIN INSERT INTO tracks_fts(rowid, title, artist, album, album_artist) VALUES (new.id, new.title, new.artist, new.album, new.album_artist); END; CREATE TRIGGER IF NOT EXISTS tracks_ad AFTER DELETE ON tracks BEGIN INSERT INTO tracks_fts(tracks_fts, rowid, title, artist, album, album_artist) VALUES ('delete', old.id, old.title, old.artist, old.album, old.album_artist); END; CREATE TRIGGER IF NOT EXISTS tracks_au AFTER UPDATE ON tracks BEGIN INSERT INTO tracks_fts(tracks_fts, rowid, title, artist, album, album_artist) VALUES ('delete', old.id, old.title, old.artist, old.album, old.album_artist); INSERT INTO tracks_fts(rowid, title, artist, album, album_artist) VALUES (new.id, new.title, new.artist, new.album, new.album_artist); END;";

/// The rows of the library tree, ordered by artist, album and path.
pub const LIBRARY_ROWS_SQL: &'static str = "SELECT COALESCE(artist,''), COALESCE(album,''), path FROM tracks ORDER BY artist ASC, album ASC, path ASC";

/// One track by its id.
pub const TRACK_BY_ID_SQL: &'static str = "SELECT id,path,COALESCE(title,''),COALESCE(artist,''),COALESCE(album,''),COALESCE(album_artist,''),duration_ms FROM tracks WHERE id=?1";

/// One track by its id, with its year.
pub const TRACK_DETAILS_SQL: &'static str = "SELECT id,path,COALESCE(title,''),COALESCE(artist,''),COALESCE(album,''),COALESCE(album_artist,''),duration_ms,year FROM tracks WHERE id=?1";

/// Inserts a scanned file, or updates the track stored under its path.
pub const UPSERT_TRACK_SQL: &'static str = "INSERT INTO tracks(path,title,artist,album,album_artist,file_mtime) VALUES (?1,?2,?3,?4,?5,?6) ON CONFLICT(path) DO UPDATE SET title=excluded.title, artist=excluded.artist, album=excluded.album, album_artist=excluded.album_artist, file_mtime=excluded.file_mtime";

/// The paths of all stored tracks.
pub const ALL_PATHS_SQL: &'static str = "SELECT path FROM tracks";

/// Deletes the track stored under a path.
pub const DELETE_TRACK_SQL: &'static str = "DELETE FROM tracks WHERE path=?1";

/// The start of a search over all tracks; the sort column follows.
pub const LIST_SEARCH_HEAD: &'static str = "SELECT id, path, COALESCE(title,''), COALESCE(artist,''), COALESCE(album,''), COALESCE(album_artist,''), duration_ms FROM tracks ORDER BY ";

/// The end of a search over all tracks: limit, then offset.
pub const LIST_SEARCH_TAIL: &'static str = " LIMIT ?1 OFFSET ?2";

/// The start of a full-text search; the sort column follows.
pub const TEXT_SEARCH_HEAD: &'static str = "SELECT t.id, t.path, COALESCE(t.title,''), COALESCE(t.artist,''), COALESCE(t.album,''), COALESCE(t.album_artist,''), t.duration_ms FROM tracks_fts f JOIN tracks t ON t.id = f.rowid WHERE tracks_fts MATCH ?1 ORDER BY t.";

/// The end of a full-text search: limit, then offset.
pub const TEXT_SEARCH_TAIL: &'static str = " LIMIT ?2 OFFSET ?3";

/// One row of the library tree.
#[derive(Debug, Clone)]
pub struct LibraryTrackRow {
    pub artist: String,
    pub album: String,
    pub path: String,
}

/// A search as it is sent to the database: the statement, and the
/// full-text pattern bound as its first parameter when there is one. The
/// limit and the offset follow.
#[derive(Debug, Clone)]
pub struct SearchStatement {
    pub sql: String,
    pub pattern: Option<String>,
}

/// The column a search sorts by: `title`, `artist` or `album` as asked,
/// `artist` for anything else.
pub open spec fn sort_column(sort: Seq<char>) -> Seq<char> {
    if sort == "title"@ || sort == "artist"@ || sort == "album"@ {
        sort
    } else {
        "artist"@
    }
}

/// The sort direction: descending when asked for `desc` in any ASCII case,
/// ascending otherwise.
pub open spec fn sort_keyword(direction: Seq<char>) -> Seq<char> {
    if eq_ignore_ascii_case(direction, "desc"@) {
        "DESC"@
    } else {
        "ASC"@
    }
}

/// The statement of a search: over all tracks when the query is blank,
/// through the full-text index otherwise.
pub open spec fn search_sql(query: Seq<char>, sort: Seq<char>, direction: Seq<char>) -> Seq<char> {
    let order = sort_column(sort) + " "@ + sort_keyword(direction);
    if is_blank(query) {
        LIST_SEARCH_HEAD@ + order + LIST_SEARCH_TAIL@
    } else {
        TEXT_SEARCH_HEAD@ + order + TEXT_SEARCH_TAIL@
    }
}

/// `s` without its double quotes.
pub open spec fn without_quotes(s: Seq<char>) -> Seq<char>
    decreases s.len(),
{
    if s.len() == 0 {
        s
    } else if s.last() == '"' {
        without_quotes(s.drop_last())
    } else {
        without_quotes(s.drop_last()).push(s.last())
    }
}

/// The full-text pattern of a query: the query without double quotes, as a
/// prefix match.
pub open spec fn match_pattern(query: Seq<char>) -> Seq<char> {
    without_quotes(query) + "*"@
}

/// The column to sort by.
fn sort_column_of(sort: &str) -> (r: &'static str)
    ensures
        r@ == sort_column(sort@),
{
    if str_equal(sort, "title") {
        "title"
    } else if str_equal(sort, "album") {
        "album"
    } else {
        "artist"
    }
}

/// The full-text pattern of `query`.
pub fn match_pattern_of(query: &str) -> (r: String)
    ensures
        r@ == match_pattern(query@),
{
    let n = query.unicode_len();
    let mut out = String::new();
    let mut i: usize = 0;
    while i < n
        invariant
            n == query@.len(),
            i <= n,
            out@ == without_quotes(query@.subrange(0, i as int)),
        decreases n - i,
    {
        let c = query.get_char(i);
        assert(query@.subrange(0, i + 1).drop_last() =~= query@.subrange(0, i as int));
        if c != '"' {
            push_char(&mut out, c);
        }
        i = i + 1;
    }
    assert(query@.subrange(0, n as int) =~= query@);
    out.append("*");
    out
}

/// The statement that searches the library for `query`, sorted by `sort`
/// in `direction`.
pub fn search_statement(query: &str, sort: &str, direction: &str) -> (r: SearchStatement)
    ensures
        r.sql@ == search_sql(query@, sort@, direction@),
        r.pattern is None <==> is_blank(query@),
        r.pattern matches Some(p) ==> p@ == match_pattern(query@),
{
    let column = sort_column_of(sort);
    let keyword = if same_ignoring_ascii_case(direction, "desc") {
        "DESC"
    } else {
        "ASC"
    };
    let list_all = blank(query);
    let mut sql = if list_all {
        String::from_str(LIST_SEARCH_HEAD)
    } else {
        String::from_str(TEXT_SEARCH_HEAD)
    };
    sql.append(column);
    sql.append(" ");
    sql.append(keyword);
    if list_all {
        sql.append(LIST_SEARCH_TAIL);
        SearchStatement { sql, pattern: None }
    } else {
        sql.append(TEXT_SEARCH_TAIL);
        SearchStatement { sql, pattern: Some(match_pattern_of(query)) }
    }
}

proof fn lemma_without_quotes_concat(p: Seq<char>, q: Seq<char>)
    ensures
        without_quotes(p + q) == without_quotes(p) + without_quotes(q),
    decreases q.len(),
{
    if q.len() == 0 {
        assert(p + q =~= p);
        assert(without_quotes(p) + without_quotes(q) =~= without_quotes(p));
    } else {
        lemma_without_quotes_concat(p, q.drop_last());
        assert((p + q).drop_last() =~= p + q.drop_last());
        if q.last() != '"' {
            assert(without_quotes(p) + without_quotes(q) =~= (without_quotes(p) + without_quotes(
                q.drop_last(),
            )).push(q.last()));
        }
    }
}

proof fn lemma_without_quotes_facts(s: Seq<char>)
    ensures
        !without_quotes(s).contains('"'),
        without_quotes(s).len() <= s.len(),
        !s.contains('"') ==> without_quotes(s) == s,
    decreases s.len(),
{
    if s.len() > 0 {
        let d = s.drop_last();
        lemma_without_quotes_facts(d);
        assert(d.push(s.last()) =~= s);
        let w = without_quotes(d);
        if s.last() != '"' {
            assert forall|j: int| 0 <= j < w.push(s.last()).len() implies w.push(s.last())[j]
                != '"' by {
                if j < w.len() {
                    assert(!w.contains(w[j]) || w[j] != '"');
                }
            }
        }
        if !s.contains('"') {
            assert(!d.contains('"')) by {
                if d.contains('"') {
                    let j = choose|j: int| 0 <= j < d.len() && d[j] == '"';
                    assert(s[j] == '"');
                }
            }
            assert(s[s.len() - 1] == s.last());
        }
    }
}

/// The full-text pattern is the query with its double quotes taken out and
/// `*` added: it holds no double quote before the `*`, a query without
/// double quotes is kept whole, and the quotes of each part of a query are
/// taken out independently.
pub proof fn law_match_pattern_strips_quotes(query: Seq<char>, rest: Seq<char>)
    ensures
        match_pattern(query).last() == '*',
        !match_pattern(query).drop_last().contains('"'),
        !query.contains('"') ==> match_pattern(query) == query + "*"@,
        match_pattern(query + rest) == without_quotes(query) + match_pattern(rest),
{
    reveal_strlit("*");
    lemma_without_quotes_facts(query);
    lemma_without_quotes_concat(query, rest);
    assert(match_pattern(query).drop_last() =~= without_quotes(query));
    assert(match_pattern(query + rest) =~= without_quotes(query) + match_pattern(rest));
}

/// A search sorts only by `title`, `artist` or `album`, whatever it is
/// asked, and by the asked column when it is one of these.
pub proof fn law_sort_column_is_whitelisted(sort: Seq<char>)
    ensures
        sort_column(sort) == "title"@ || sort_column(sort) == "artist"@ || sort_column(sort)
            == "album"@,
        (sort == "title"@ || sort == "artist"@ || sort == "album"@) ==> sort_column(sort) == sort,
        sort_keyword(sort) == "DESC"@ || sort_keyword(sort) == "ASC"@,
{
}

} // verus!
