//! The command lines sent to VLC's remote-control interface.
use vstd::prelude::*;

use crate::text::{decimal, push_decimal};

verus! {

/// Toggles pause.
pub const PAUSE: &'static str = "pause";

/// Resumes playback.
pub const PLAY: &'static str = "play";

/// Stops playback.
pub const STOP: &'static str = "stop";

/// Skips to the next entry of VLC's playlist.
pub const NEXT: &'static str = "next";

/// Goes back to the previous entry of VLC's playlist.
pub const PREVIOUS: &'static str = "prev";

/// Empties VLC's playlist.
pub const CLEAR: &'static str = "clear";

/// Ends the VLC process.
pub const SHUTDOWN: &'static str = "shutdown";

/// VLC's volume for a volume of `percent` percent: 256 is 100 %, rounded to
/// the nearest step.
pub open spec fn volume_level_of(percent: nat) -> nat {
    (256 * percent + 50) / 100
}

/// `s` with each space written as `%20`.
pub open spec fn escape_spaces(s: Seq<char>) -> Seq<char>
    decreases s.len(),
{
    if s.len() == 0 {
        s
    } else if s.last() == ' ' {
        escape_spaces(s.drop_last()) + "%20"@
    } else {
        escape_spaces(s.drop_last()).push(s.last())
    }
}

/// The `file://` URI of an absolute path.
pub open spec fn file_uri_of(path: Seq<char>) -> Seq<char> {
    "file://"@ + escape_spaces(path)
}

/// VLC's volume for a volume of `percent` percent.
pub fn volume_level(percent: u8) -> (r: u32)
    ensures
        r == volume_level_of(percent as nat),
{
    let p = percent as u32;
    (256 * p + 50) / 100
}

/// The `file://` URI of the absolute path `path`.
pub fn file_uri(path: &str) -> (r: String)
    ensures
        r@ == file_uri_of(path@),
{
    let n = path.unicode_len();
    let mut out = String::from_str("file://");
    let mut i: usize = 0;
    while i < n
        invariant
            n == path@.len(),
            i <= n,
            out@ == "file://"@ + escape_spaces(path@.subrange(0, i as int)),
        decreases n - i,
    {
        let c = path.get_char(i);
        let ghost before = out@;
        assert(path@.subrange(0, i + 1).drop_last() =~= path@.subrange(0, i as int));
        if c == ' ' {
            out.append("%20");
            assert(out@ =~= "file://"@ + escape_spaces(path@.subrange(0, i + 1)));
        } else {
            crate::text::push_char(&mut out, c);
            assert(out@ =~= "file://"@ + escape_spaces(path@.subrange(0, i + 1)));
        }
        i = i + 1;
    }
    assert(path@.subrange(0, n as int) =~= path@);
    out
}

/// The commands that play the file at the absolute path `path`: empty the
/// playlist, then add the file, which starts it.
pub fn play_file_commands(path: &str) -> (r: Vec<String>)
    ensures
        r@.len() == 2,
        r@[0]@ == CLEAR@,
        r@[1]@ == "add "@ + file_uri_of(path@),
{
    let mut add = String::from_str("add ");
    let uri = file_uri(path);
    add.append(uri.as_str());
    let mut r: Vec<String> = Vec::new();
    r.push(String::from_str(CLEAR));
    r.push(add);
    r
}

/// The command that seeks to `seconds` into the current track.
pub fn seek_command(seconds: u32) -> (r: String)
    ensures
        r@ == "seek "@ + decimal(seconds as nat),
{
    let mut r = String::from_str("seek ");
    push_decimal(&mut r, seconds as u64);
    r
}

/// The command that sets the volume to `percent` percent.
pub fn volume_command(percent: u8) -> (r: String)
    ensures
        r@ == "volume "@ + decimal(volume_level_of(percent as nat)),
{
    let mut r = String::from_str("volume ");
    push_decimal(&mut r, volume_level(percent) as u64);
    r
}

/// VLC's volume is the percentage scaled to 256 and rounded to the nearest
/// step: it is within half a step of the exact value, and 100 % is 256.
pub proof fn law_volume_level_is_nearest(percent: nat)
    ensures
        -50 <= 100 * volume_level_of(percent) - 256 * percent <= 50,
        volume_level_of(100) == 256,
{
}

proof fn lemma_escape_concat(p: Seq<char>, q: Seq<char>)
    ensures
        escape_spaces(p + q) == escape_spaces(p) + escape_spaces(q),
    decreases q.len(),
{
    if q.len() == 0 {
        assert(p + q =~= p);
        assert(escape_spaces(p) + escape_spaces(q) =~= escape_spaces(p));
    } else {
        lemma_escape_concat(p, q.drop_last());
        assert((p + q).drop_last() =~= p + q.drop_last());
        assert((p + q).last() == q.last());
        if q.last() == ' ' {
            assert(escape_spaces(p) + escape_spaces(q) =~= escape_spaces(p) + escape_spaces(
                q.drop_last(),
            ) + "%20"@);
        } else {
            assert(escape_spaces(p) + escape_spaces(q) =~= (escape_spaces(p) + escape_spaces(
                q.drop_last(),
            )).push(q.last()));
        }
    }
}

proof fn lemma_escape_no_space(p: Seq<char>)
    requires
        !p.contains(' '),
    ensures
        escape_spaces(p) == p,
    decreases p.len(),
{
    if p.len() > 0 {
        assert(!p.drop_last().contains(' ')) by {
            if p.drop_last().contains(' ') {
                let j = choose|j: int| 0 <= j < p.drop_last().len() && p.drop_last()[j] == ' ';
                assert(p[j] == ' ');
            }
        }
        lemma_escape_no_space(p.drop_last());
        assert(p.last() != ' ') by {
            assert(p[p.len() - 1] == p.last());
        }
        assert(p.drop_last().push(p.last()) =~= p);
    }
}

/// The URI of a path keeps every character of the path, capitals and all,
/// and writes each space as `%20`: a path without spaces follows
/// `file://` unchanged, and a space between two parts becomes `%20` between
/// their renderings.
pub proof fn law_file_uri_keeps_the_path(p: Seq<char>, q: Seq<char>)
    ensures
        !p.contains(' ') ==> file_uri_of(p) == "file://"@ + p,
        !q.contains(' ') ==> file_uri_of(p + seq![' '] + q) == file_uri_of(p) + "%20"@ + q,
        file_uri_of(p + q) == file_uri_of(p) + escape_spaces(q),
{
    lemma_escape_concat(p, q);
    assert(file_uri_of(p + q) =~= file_uri_of(p) + escape_spaces(q));
    if !p.contains(' ') {
        lemma_escape_no_space(p);
    }
    if !q.contains(' ') {
        lemma_escape_no_space(q);
        lemma_escape_concat(p + seq![' '], q);
        lemma_escape_concat(p, seq![' ']);
        assert(seq![' '].drop_last() =~= Seq::<char>::empty());
        assert(seq![' '].last() == ' ');
        assert(escape_spaces(Seq::<char>::empty()) == Seq::<char>::empty());
        assert(Seq::<char>::empty() + "%20"@ =~= "%20"@);
        assert(escape_spaces(seq![' ']) =~= "%20"@);
        assert(file_uri_of(p + seq![' '] + q) =~= file_uri_of(p) + "%20"@ + q);
    }
}

} // verus!
