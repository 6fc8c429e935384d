//! What the track list and the details panel show: row names that carry a
//! track's id, one-line summaries, and field values.
use vstd::prelude::*;

use crate::models::Track;
use crate::text::{blank, decimal, is_blank, push_char, push_decimal, ascii_upper, to_ascii_uppercase};

verus! {

/// The prefix of a track row's name; the track's id follows.
pub const ROW_PREFIX: &'static str = "track-";

/// The decimal rendering of a signed integer, with `-` before a negative one.
pub open spec fn signed_decimal(n: int) -> Seq<char> {
    if n < 0 {
        seq!['-'] + decimal((-n) as nat)
    } else {
        decimal(n as nat)
    }
}

/// The name of the list row that shows the track with id `id`.
pub open spec fn row_name_of(id: i64) -> Seq<char> {
    ROW_PREFIX@ + signed_decimal(id as int)
}

/// Whether `c` is an ASCII digit.
pub open spec fn is_digit(c: char) -> bool {
    '0' <= c && c <= '9'
}

/// The value of a string of decimal digits.
pub open spec fn digits_value(s: Seq<char>) -> nat
    decreases s.len(),
{
    if s.len() == 0 {
        0
    } else {
        digits_value(s.drop_last()) * 10 + ((s.last() as u32) - 48) as nat
    }
}

/// The magnitude part of a signed number: what follows a leading sign.
pub open spec fn unsigned_part(s: Seq<char>) -> Seq<char> {
    if s.len() > 0 && (s[0] == '-' || s[0] == '+') {
        s.drop_first()
    } else {
        s
    }
}

/// `s.parse::<i64>()`, when it succeeds: an optional sign, then one or more
/// digits, for a value in the range of `i64`.
pub open spec fn parse_i64(s: Seq<char>) -> Option<i64> {
    let digits = unsigned_part(s);
    let negative = s.len() > 0 && s[0] == '-';
    if digits.len() == 0 || exists|i: int| 0 <= i < digits.len() && !is_digit(#[trigger] digits[i]) {
        None
    } else {
        let v: int = if negative {
            -(digits_value(digits) as int)
        } else {
            digits_value(digits) as int
        };
        if i64::MIN <= v && v <= i64::MAX {
            Some(v as i64)
        } else {
            None
        }
    }
}

/// The track id that a row's name carries: the name after the row prefix,
/// read as a signed integer.
pub open spec fn row_track_id(name: Seq<char>) -> Option<i64> {
    if name.len() >= ROW_PREFIX@.len() && name.subrange(0, ROW_PREFIX@.len() as int)
        == ROW_PREFIX@ {
        parse_i64(name.subrange(ROW_PREFIX@.len() as int, name.len() as int))
    } else {
        None
    }
}

/// The text of a field's label: blank text shows as nothing.
pub open spec fn shown_value(text: Seq<char>) -> Seq<char> {
    if is_blank(text) {
        Seq::empty()
    } else {
        text
    }
}

/// `text`, or `fallback` when `text` is empty.
pub open spec fn or_else(text: Seq<char>, fallback: Seq<char>) -> Seq<char> {
    if text.len() == 0 {
        fallback
    } else {
        text
    }
}

/// The one-line summary of a track in the search results:
/// `artist — title (album)`, with a placeholder for each empty tag.
pub open spec fn summary_of(artist: Seq<char>, title: Seq<char>, album: Seq<char>) -> Seq<char> {
    or_else(artist, "Unknown Artist"@) + " — "@ + or_else(title, "Unknown Title"@) + " ("@
        + or_else(album, "Unknown Album"@) + ")"@
}

proof fn lemma_digits_value_push(s: Seq<char>, c: char)
    ensures
        digits_value(s.push(c)) == digits_value(s) * 10 + ((c as u32) - 48) as nat,
{
    assert(s.push(c).drop_last() =~= s);
}

proof fn lemma_digits_value_grows(s: Seq<char>, k: int)
    requires
        0 <= k <= s.len(),
    ensures
        digits_value(s.subrange(0, k)) <= digits_value(s),
    decreases s.len() - k,
{
    if k < s.len() {
        lemma_digits_value_grows(s, k + 1);
        assert(s.subrange(0, k + 1).drop_last() =~= s.subrange(0, k));
    } else {
        assert(s.subrange(0, k) =~= s);
    }
}

proof fn lemma_decimal_digits(n: nat)
    ensures
        decimal(n).len() > 0,
        forall|i: int| 0 <= i < decimal(n).len() ==> is_digit(#[trigger] decimal(n)[i]),
        digits_value(decimal(n)) == n,
    decreases n,
{
    let c = crate::text::digit_char(n % 10);
    assert((c as u32) == (n % 10) + 48);
    if n >= 10 {
        lemma_decimal_digits(n / 10);
        lemma_digits_value_push(decimal(n / 10), c);
    } else {
        lemma_digits_value_push(Seq::<char>::empty(), c);
        assert(Seq::<char>::empty().push(c) =~= seq![c]);
    }
}

/// The name of the list row that shows the track with id `id`.
pub fn track_row_name(id: i64) -> (r: String)
    ensures
        r@ == row_name_of(id),
{
    let mut r = String::from_str(ROW_PREFIX);
    if id < 0 {
        push_char(&mut r, '-');
        let magnitude: u64 = ((-(id + 1)) as u64) + 1;
        push_decimal(&mut r, magnitude);
        assert(r@ =~= ROW_PREFIX@ + signed_decimal(id as int));
    } else {
        push_decimal(&mut r, id as u64);
    }
    r
}

/// The track id that the row named `name` carries, if it is a track row.
pub fn track_id_from_row_name(name: &str) -> (r: Option<i64>)
    ensures
        r == row_track_id(name@),
{
    let n = name.unicode_len();
    let p = ROW_PREFIX.unicode_len();
    if n < p {
        return None;
    }
    let mut i: usize = 0;
    while i < p
        invariant
            p == ROW_PREFIX@.len(),
            n == name@.len(),
            p <= n,
            i <= p,
            forall|j: int| 0 <= j < i ==> name@[j] == ROW_PREFIX@[j],
        decreases p - i,
    {
        if name.get_char(i) != ROW_PREFIX.get_char(i) {
            assert(name@.subrange(0, p as int)[i as int] != ROW_PREFIX@[i as int]);
            return None;
        }
        i = i + 1;
    }
    assert(name@.subrange(0, p as int) =~= ROW_PREFIX@);
    let ghost rest = name@.subrange(p as int, n as int);
    let mut start = p;
    let mut negative = false;
    if p < n {
        let c = name.get_char(p);
        if c == '-' || c == '+' {
            negative = c == '-';
            start = p + 1;
        }
    }
    let ghost digits = unsigned_part(rest);
    assert(digits =~= name@.subrange(start as int, n as int));
    assert(row_track_id(name@) == parse_i64(rest));
    if start == n {
        return None;
    }
    // The magnitude read so far; it only grows as digits are read.
    let limit: u64 = 9223372036854775808;
    let mut acc: u64 = 0;
    let mut k: usize = start;
    while k < n
        invariant
            n == name@.len(),
            start <= k <= n,
            start < n,
            digits =~= name@.subrange(start as int, n as int),
            digits == unsigned_part(rest),
            row_track_id(name@) == parse_i64(rest),
            acc as nat == digits_value(digits.subrange(0, k - start)),
            acc <= limit,
            limit == 9223372036854775808,
            forall|j: int| 0 <= j < k - start ==> is_digit(#[trigger] digits[j]),
        decreases n - k,
    {
        let c = name.get_char(k);
        if !('0' <= c && c <= '9') {
            assert(!is_digit(digits[k - start]));
            assert(exists|j: int| 0 <= j < digits.len() && !is_digit(#[trigger] digits[j]));
            assert(parse_i64(rest) == None::<i64>);
            return None;
        }
        let d: u64 = (c as u32 - 48) as u64;
        proof {
            lemma_digits_value_push(digits.subrange(0, k - start), c);
            assert(digits.subrange(0, k - start).push(c) =~= digits.subrange(0, k + 1 - start));
        }
        if acc > (limit - d) / 10 {
            proof {
                lemma_digits_value_grows(digits, k + 1 - start);
                assert(digits_value(digits) > limit) by (nonlinear_arith)
                    requires
                        acc > (limit - d) / 10,
                        d <= 9,
                        digits_value(digits.subrange(0, k + 1 - start)) == acc * 10 + d,
                        digits_value(digits.subrange(0, k + 1 - start)) <= digits_value(digits),
                ;
                assert(parse_i64(rest) == None::<i64>);
            }
            return None;
        }
        acc = acc * 10 + d;
        k = k + 1;
    }
    assert(digits.subrange(0, n - start) =~= digits);
    if negative {
        if acc == limit {
            Some(-9223372036854775807 - 1)
        } else {
            Some(-(acc as i64))
        }
    } else if acc < limit {
        Some(acc as i64)
    } else {
        None
    }
}

/// What a field's label shows for `text`: nothing when it is blank.
pub fn label_value(text: &str) -> (r: &str)
    ensures
        r@ == shown_value(text@),
{
    if blank(text) {
        proof {
            reveal_strlit("");
        }
        ""
    } else {
        text
    }
}

/// The codec shown for a file: its extension in capitals, or nothing.
pub fn codec_from_extension(extension: Option<&str>) -> (r: String)
    ensures
        r@ == (match extension {
            Some(e) => e@.map_values(|c: char| ascii_upper(c)),
            None => Seq::empty(),
        }),
{
    match extension {
        Some(e) => to_ascii_uppercase(e),
        None => String::new(),
    }
}

/// The one-line summary of `track` in the search results.
pub fn track_summary(track: &Track) -> (r: String)
    ensures
        r@ == summary_of(track.artist@, track.title@, track.album@),
{
    let mut r = if track.artist.as_str().unicode_len() == 0 {
        String::from_str("Unknown Artist")
    } else {
        track.artist.clone()
    };
    r.append(" — ");
    if track.title.as_str().unicode_len() == 0 {
        r.append("Unknown Title");
    } else {
        r.append(track.title.as_str());
    }
    r.append(" (");
    if track.album.as_str().unicode_len() == 0 {
        r.append("Unknown Album");
    } else {
        r.append(track.album.as_str());
    }
    r.append(")");
    r
}

/// A track row's name carries the track's id back: reading the id from the
/// name given to a row gives the id it was named for.
pub proof fn law_row_name_round_trip(id: i64)
    ensures
        row_track_id(row_name_of(id)) == Some(id),
{
    let name = row_name_of(id);
    let p = ROW_PREFIX@.len();
    let rest = signed_decimal(id as int);
    assert(name.subrange(0, p as int) =~= ROW_PREFIX@);
    assert(name.subrange(p as int, name.len() as int) =~= rest);
    if id < 0 {
        let m: nat = (-(id as int)) as nat;
        lemma_decimal_digits(m);
        assert(rest[0] == '-');
        assert(unsigned_part(rest) =~= decimal(m));
    } else {
        lemma_decimal_digits(id as nat);
        assert(decimal(id as nat)[0] != '-' && decimal(id as nat)[0] != '+') by {
            assert(is_digit(decimal(id as nat)[0]));
        }
        assert(unsigned_part(rest) =~= decimal(id as nat));
    }
}

/// Each placeholder of a summary depends on its own field only: the
/// artist, or `Unknown Artist` exactly when the artist is empty; then the
/// title, or `Unknown Title`; then the album in brackets, or
/// `Unknown Album` exactly when the album is empty.
pub proof fn law_summary_placeholders(artist: Seq<char>, title: Seq<char>, album: Seq<char>)
    ensures
        summary_of(artist, title, album) == (if artist.len() == 0 {
            "Unknown Artist"@
        } else {
            artist
        }) + " — "@ + (if title.len() == 0 {
            "Unknown Title"@
        } else {
            title
        }) + " ("@ + (if album.len() == 0 {
            "Unknown Album"@
        } else {
            album
        }) + ")"@,
        album.len() > 0 ==> summary_of(artist, title, album) == summary_of(artist, title, Seq::empty()).subrange(
            0,
            summary_of(artist, title, Seq::empty()).len() - ("Unknown Album)"@).len(),
        ) + album + ")"@,
{
    reveal_strlit("Unknown Album)");
    reveal_strlit("Unknown Album");
    reveal_strlit(")");
    let head = or_else(artist, "Unknown Artist"@) + " — "@ + or_else(title, "Unknown Title"@)
        + " ("@;
    assert(summary_of(artist, title, Seq::empty()) =~= head + ("Unknown Album)"@));
    assert((head + ("Unknown Album)"@)).subrange(0, head.len() as int) =~= head);
}

/// Decimal renderings read back: they are non-empty strings of digits whose
/// value is the number rendered, and a row's name reads back the id it was
/// made from.
pub proof fn law_decimal_reads_back(n: nat)
    ensures
        decimal(n).len() > 0,
        forall|i: int| 0 <= i < decimal(n).len() ==> is_digit(#[trigger] decimal(n)[i]),
        digits_value(decimal(n)) == n,
        n > 0 ==> decimal(n)[0] != '0',
    decreases n,
{
    lemma_decimal_digits(n);
    if n >= 10 {
        law_decimal_reads_back(n / 10);
        assert(decimal(n)[0] == decimal(n / 10)[0]);
    } else if n > 0 {
        assert((crate::text::digit_char(n) as u32) == n + 48);
    }
}

/// The codec label keeps the extension's length and every character that is
/// not a small ASCII letter, and writes small ASCII letters as capitals.
pub proof fn law_codec_is_capitalised_extension(e: Seq<char>, i: int)
    requires
        0 <= i < e.len(),
    ensures
        e.map_values(|c: char| ascii_upper(c)).len() == e.len(),
        !('a' <= e[i] && e[i] <= 'z') ==> e.map_values(|c: char| ascii_upper(c))[i] == e[i],
        ('a' <= e[i] && e[i] <= 'z') ==> (e.map_values(|c: char| ascii_upper(c))[i] as u32) == (
        e[i] as u32) - 32,
{
}

/// A field shows its text unless the text is all whitespace, in which case
/// it shows nothing.
pub proof fn law_label_shows_text_unless_blank(text: Seq<char>, i: int)
    ensures
        (0 <= i < text.len() && !crate::text::is_whitespace_char(text[i])) ==> shown_value(text)
            == text,
        (forall|j: int| 0 <= j < text.len() ==> crate::text::is_whitespace_char(#[trigger] text[j]))
            ==> shown_value(text).len() == 0,
{
}

} // verus!
