//! The library scanner's bookkeeping: which files are audio, what each
//! file is recorded as, when progress is reported, and which stored tracks
//! have gone missing from the folders.
use vstd::hash_set::StringHashSet;
use vstd::prelude::*;

use crate::text::{ascii_lower, str_equal, to_ascii_lowercase};

verus! {

/// The title of a file whose name gives none.
pub const UNKNOWN_TITLE: &'static str = "Unknown title";

/// The artist the scanner records.
pub const UNKNOWN_ARTIST: &'static str = "Unknown artist";

/// The album the scanner records.
pub const UNKNOWN_ALBUM: &'static str = "Unknown album";

/// How many indexed files lie between two progress reports.
pub const PROGRESS_EVERY: usize = 100;

/// The file extensions of audio files, in lower case.
pub open spec fn audio_extensions() -> Seq<Seq<char>> {
    seq!["mp3"@, "flac"@, "ogg"@, "wav"@, "m4a"@, "opus"@, "aac"@]
}

/// A file is audio when its extension, in lower case, is one of the audio
/// extensions; a file without an extension is not.
pub open spec fn is_audio(extension: Option<Seq<char>>) -> bool {
    match extension {
        Some(e) => audio_extensions().contains(e.map_values(|c: char| ascii_lower(c))),
        None => false,
    }
}

/// The title recorded for a file: its name without the extension, or
/// `Unknown title` when there is none.
pub open spec fn title_of(stem: Option<Seq<char>>) -> Seq<char> {
    match stem {
        Some(s) => s,
        None => UNKNOWN_TITLE@,
    }
}

/// The paths of `paths` that are not in `seen`, in their order.
pub open spec fn unseen(paths: Seq<Seq<char>>, seen: Set<Seq<char>>) -> Seq<Seq<char>>
    decreases paths.len(),
{
    if paths.len() == 0 {
        paths
    } else if seen.contains(paths.last()) {
        unseen(paths.drop_last(), seen)
    } else {
        unseen(paths.drop_last(), seen).push(paths.last())
    }
}

/// The counters that a progress report carries.
#[derive(Debug, Clone, Copy, PartialEq, Eq, Structural)]
pub struct ScanProgress {
    pub discovered: usize,
    pub indexed: usize,
}

/// What the scanner writes for one audio file, and the progress report due
/// after it, if one is.
#[derive(Debug, Clone)]
pub struct IndexedFile {
    pub path: String,
    pub title: String,
    pub artist: String,
    pub album: String,
    pub album_artist: String,
    pub progress: Option<ScanProgress>,
}

/// The state of one scan: how many audio files were found and indexed, and
/// the paths seen.
pub struct ScanState {
    discovered: usize,
    indexed: usize,
    seen_paths: StringHashSet,
}

/// A scan's state as a value.
pub struct ScanView {
    pub discovered: nat,
    pub indexed: nat,
    pub seen: Set<Seq<char>>,
}

impl View for ScanState {
    type V = ScanView;

    closed spec fn view(&self) -> ScanView {
        ScanView {
            discovered: self.discovered as nat,
            indexed: self.indexed as nat,
            seen: self.seen_paths@,
        }
    }
}

/// Whether a file with this extension is an audio file.
pub fn is_audio_extension(extension: Option<&str>) -> (r: bool)
    ensures
        r == is_audio(
            match extension {
                Some(e) => Some(e@),
                None => None,
            },
        ),
{
    match extension {
        None => false,
        Some(e) => {
            let lowered = to_ascii_lowercase(e);
            let l = lowered.as_str();
            let r = str_equal(l, "mp3") || str_equal(l, "flac") || str_equal(l, "ogg")
                || str_equal(l, "wav") || str_equal(l, "m4a") || str_equal(l, "opus")
                || str_equal(l, "aac");
            proof {
                let exts = audio_extensions();
                let x = e@.map_values(|c: char| ascii_lower(c));
                assert(l@ == x);
                if r {
                    if x == "mp3"@ {
                        assert(exts[0] == x);
                    } else if x == "flac"@ {
                        assert(exts[1] == x);
                    } else if x == "ogg"@ {
                        assert(exts[2] == x);
                    } else if x == "wav"@ {
                        assert(exts[3] == x);
                    } else if x == "m4a"@ {
                        assert(exts[4] == x);
                    } else if x == "opus"@ {
                        assert(exts[5] == x);
                    } else {
                        assert(exts[6] == x);
                    }
                } else {
                    assert forall|i: int| 0 <= i < exts.len() implies exts[i] != x by {
                        if i == 0 {
                            assert(exts[0] == "mp3"@);
                        } else if i == 1 {
                            assert(exts[1] == "flac"@);
                        } else if i == 2 {
                            assert(exts[2] == "ogg"@);
                        } else if i == 3 {
                            assert(exts[3] == "wav"@);
                        } else if i == 4 {
                            assert(exts[4] == "m4a"@);
                        } else if i == 5 {
                            assert(exts[5] == "opus"@);
                        } else {
                            assert(exts[6] == "aac"@);
                        }
                    }
                }
            }
            r
        },
    }
}

impl ScanState {
    /// A scan that has seen nothing yet.
    pub fn new() -> (r: Self)
        ensures
            r@.discovered == 0,
            r@.indexed == 0,
            r@.seen == Set::<Seq<char>>::empty(),
    {
        ScanState { discovered: 0, indexed: 0, seen_paths: StringHashSet::new() }
    }

    /// How many audio files were found.
    pub fn discovered(&self) -> (r: usize)
        ensures
            r == self@.discovered,
    {
        self.discovered
    }

    /// How many audio files were indexed.
    pub fn indexed(&self) -> (r: usize)
        ensures
            r == self@.indexed,
    {
        self.indexed
    }

    /// Records the audio file at `path`, whose name without extension is
    /// `stem`: counts it as found and indexed, remembers its path, and says
    /// what to write for it. A progress report is due each time the count of
    /// indexed files reaches a multiple of 100.
    pub fn record_audio_file(&mut self, path: String, stem: Option<&str>) -> (r: IndexedFile)
        requires
            old(self)@.discovered < usize::MAX,
            old(self)@.indexed < usize::MAX,
        ensures
            final(self)@.discovered == old(self)@.discovered + 1,
            final(self)@.indexed == old(self)@.indexed + 1,
            final(self)@.seen == old(self)@.seen.insert(path@),
            r.path@ == path@,
            r.title@ == title_of(
                match stem {
                    Some(s) => Some(s@),
                    None => None,
                },
            ),
            r.artist@ == UNKNOWN_ARTIST@,
            r.album@ == UNKNOWN_ALBUM@,
            r.album_artist@ == Seq::<char>::empty(),
            r.progress == (if final(self)@.indexed % 100 == 0 {
                Some(
                    ScanProgress {
                        discovered: final(self)@.discovered as usize,
                        indexed: final(self)@.indexed as usize,
                    },
                )
            } else {
                None
            }),
    {
        self.discovered = self.discovered + 1;
        let title = match stem {
            Some(s) => String::from_str(s),
            None => String::from_str(UNKNOWN_TITLE),
        };
        self.seen_paths.insert(path.clone());
        self.indexed = self.indexed + 1;
        let progress = if self.indexed % PROGRESS_EVERY == 0 {
            Some(ScanProgress { discovered: self.discovered, indexed: self.indexed })
        } else {
            None
        };
        IndexedFile {
            path,
            title,
            artist: String::from_str(UNKNOWN_ARTIST),
            album: String::from_str(UNKNOWN_ALBUM),
            album_artist: String::new(),
            progress,
        }
    }

    /// The stored paths that this scan did not see, in their order: the
    /// tracks to delete once the scan is over.
    pub fn stale_paths(&self, stored: &Vec<String>) -> (r: Vec<String>)
        ensures
            r.deep_view() == unseen(stored.deep_view(), self@.seen),
    {
        let n = stored.len();
        let mut out: Vec<String> = Vec::new();
        let mut i: usize = 0;
        while i < n
            invariant
                n == stored@.len(),
                i <= n,
                out.deep_view() == unseen(stored.deep_view().subrange(0, i as int), self@.seen),
            decreases n - i,
        {
            let p = &stored[i];
            assert(stored.deep_view().subrange(0, i + 1).drop_last() =~= stored.deep_view().subrange(
                0,
                i as int,
            ));
            if !self.seen_paths.contains(p.as_str()) {
                out.push(p.clone());
                assert(out.deep_view() =~= unseen(
                    stored.deep_view().subrange(0, i as int),
                    self@.seen,
                ).push(p@));
            }
            i = i + 1;
        }
        assert(stored.deep_view().subrange(0, n as int) =~= stored.deep_view());
        out
    }
}

proof fn lemma_unseen_contains(paths: Seq<Seq<char>>, seen: Set<Seq<char>>, p: Seq<char>)
    ensures
        unseen(paths, seen).contains(p) <==> (paths.contains(p) && !seen.contains(p)),
    decreases paths.len(),
{
    if paths.len() > 0 {
        let d = paths.drop_last();
        let l = paths.last();
        lemma_unseen_contains(d, seen, p);
        assert(paths =~= d.push(l));
        let rest = unseen(d, seen);
        if d.contains(p) {
            let j = choose|j: int| 0 <= j < d.len() && d[j] == p;
            assert(paths[j] == p);
        }
        if paths.contains(p) {
            let j = choose|j: int| 0 <= j < paths.len() && paths[j] == p;
            if j < d.len() {
                assert(d[j] == p);
            }
        }
        if !seen.contains(l) {
            if rest.contains(p) {
                let j = choose|j: int| 0 <= j < rest.len() && rest[j] == p;
                assert(rest.push(l)[j] == p);
            }
            if l == p {
                assert(rest.push(l)[rest.len() as int] == p);
            }
            if rest.push(l).contains(p) {
                let j = choose|j: int| 0 <= j < rest.push(l).len() && rest.push(l)[j] == p;
                if j < rest.len() {
                    assert(rest[j] == p);
                }
            }
        }
    }
}

proof fn lemma_unseen_len(paths: Seq<Seq<char>>, seen: Set<Seq<char>>)
    ensures
        unseen(paths, seen).len() <= paths.len(),
    decreases paths.len(),
{
    if paths.len() > 0 {
        lemma_unseen_len(paths.drop_last(), seen);
    }
}

/// A stored path is stale exactly when the scan did not see it, wherever
/// it stands among the stored paths; seen paths are never stale, and the
/// stale list is no longer than the stored one.
pub proof fn law_stale_paths_are_exactly_the_unseen(
    stored: Seq<Seq<char>>,
    seen: Set<Seq<char>>,
    i: int,
    p: Seq<char>,
)
    ensures
        0 <= i < stored.len() && !seen.contains(stored[i]) ==> unseen(stored, seen).contains(
            stored[i],
        ),
        seen.contains(p) ==> !unseen(stored, seen).contains(p),
        unseen(stored, seen).contains(p) ==> stored.contains(p),
        unseen(stored, seen).len() <= stored.len(),
{
    lemma_unseen_contains(stored, seen, p);
    lemma_unseen_len(stored, seen);
    if 0 <= i < stored.len() {
        lemma_unseen_contains(stored, seen, stored[i]);
        assert(stored.contains(stored[i]));
    }
}

/// With no stored path seen, every stored path is stale, in order; with
/// every stored path seen, none is.
pub proof fn law_stale_paths_extremes(stored: Seq<Seq<char>>)
    ensures
        unseen(stored, Set::empty()) == stored,
        unseen(stored, stored.to_set()).len() == 0,
    decreases stored.len(),
{
    if stored.len() > 0 {
        law_stale_paths_extremes(stored.drop_last());
        assert(stored.drop_last().push(stored.last()) =~= stored);
        let s = stored.to_set();
        let d = stored.drop_last();
        assert(s.contains(stored.last())) by {
            assert(stored[stored.len() - 1] == stored.last());
        }
        // Every path of the shorter list is also in the larger set.
        lemma_unseen_subset(d, d.to_set(), s);
    }
}

proof fn lemma_unseen_subset(paths: Seq<Seq<char>>, small: Set<Seq<char>>, big: Set<Seq<char>>)
    requires
        unseen(paths, small).len() == 0,
        small.subset_of(big),
    ensures
        unseen(paths, big).len() == 0,
    decreases paths.len(),
{
    if paths.len() > 0 {
        let d = paths.drop_last();
        if !small.contains(paths.last()) {
            assert(unseen(paths, small).len() == unseen(d, small).len() + 1);
        }
        lemma_unseen_subset(d, small, big);
    }
}

} // verus!
