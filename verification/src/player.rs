//! The play queue: its tracks, the current position, shuffle and repeat,
//! and how the next track is chosen.
use std::collections::VecDeque;
use vstd::prelude::*;

use crate::models::{copy_track, QueueItem, RepeatMode, Track};
use crate::random::{seeded_rng, shuffle_in_place};
use crate::text::{decimal, push_decimal, str_equal};

verus! {

broadcast use vstd::seq_lib::group_to_multiset_ensures;

/// The seed of the generator that orders a shuffled queue; a fixed seed
/// makes the shuffled order the same for the same queue length.
pub const SHUFFLE_SEED: u64 = 1974;

/// What the player reports about playback.
#[derive(Debug, Clone)]
pub struct PlaybackState {
    pub status: String,
    pub position_sec: u32,
    pub length_sec: u32,
    pub volume_percent: u8,
    pub shuffle: bool,
    pub repeat_mode: RepeatMode,
}

/// The play queue.
pub struct QueueModel {
    pub items: VecDeque<Track>,
    pub current_index: Option<usize>,
    pub shuffle: bool,
    pub repeat_mode: RepeatMode,
    shuffle_order: Vec<usize>,
}

/// The queue as a value: its tracks, the current position, the settings,
/// and the order in which a shuffled queue is played.
pub struct QueueView {
    pub items: Seq<Track>,
    pub current: Option<usize>,
    pub shuffle: bool,
    pub repeat: RepeatMode,
    pub order: Seq<usize>,
}

impl View for QueueModel {
    type V = QueueView;

    closed spec fn view(&self) -> QueueView {
        QueueView {
            items: self.items@,
            current: self.current_index,
            shuffle: self.shuffle,
            repeat: self.repeat_mode,
            order: self.shuffle_order@,
        }
    }
}

/// The position of the first `x` in `s`, or `s.len()` when `x` does not occur.
pub open spec fn first_index_of(s: Seq<usize>, x: usize) -> int
    decreases s.len(),
{
    if s.len() == 0 {
        0
    } else if s[0] == x {
        0
    } else {
        1 + first_index_of(s.drop_first(), x)
    }
}

/// The entry of the shuffle order that comes after `current`: the one after
/// the first occurrence of `current`, or the second entry when `current` does
/// not occur; `None` when there is no such entry.
pub open spec fn shuffle_successor(order: Seq<usize>, current: usize) -> Option<usize> {
    let found = first_index_of(order, current);
    let pos = if found < order.len() {
        found
    } else {
        0
    };
    if pos + 1 < order.len() {
        Some(order[pos + 1])
    } else {
        None
    }
}

/// Where the queue goes when the candidate position is missing or past the end.
pub open spec fn past_the_end(repeat: RepeatMode) -> Option<usize> {
    if repeat == RepeatMode::All {
        Some(0)
    } else {
        None
    }
}

/// The index that `next_index` moves to, for a queue of `len` tracks with
/// current position `current`, the given shuffle and repeat settings and the
/// shuffle order `order`.
pub open spec fn next_step(
    len: nat,
    current: Option<usize>,
    shuffle: bool,
    repeat: RepeatMode,
    order: Seq<usize>,
) -> Option<usize> {
    match current {
        None => None,
        Some(c) => if len == 0 {
            None
        } else if repeat == RepeatMode::One {
            Some(c)
        } else {
            let candidate: Option<int> = if shuffle {
                match shuffle_successor(order, c) {
                    Some(n) => Some(n as int),
                    None => None,
                }
            } else {
                Some(c + 1)
            };
            match candidate {
                Some(n) => if n < len {
                    Some(n as usize)
                } else {
                    past_the_end(repeat)
                },
                None => past_the_end(repeat),
            }
        },
    }
}

/// `order` lists each of the indices `0..n` exactly once.
pub open spec fn is_index_permutation(order: Seq<usize>, n: nat) -> bool {
    &&& order.len() == n
    &&& order.no_duplicates()
    &&& forall|i: int| 0 <= i < n ==> #[trigger] order[i] < n
    &&& forall|k: usize| k < n ==> #[trigger] order.contains(k)
}

/// The track at position `current`, when there is one.
pub open spec fn now_playing(items: Seq<Track>, current: Option<usize>) -> Option<Track> {
    match current {
        Some(i) => if i < items.len() {
            Some(items[i as int])
        } else {
            None
        },
        None => None,
    }
}

/// `items` after the entry at `from` is taken out and put back in at `to`.
pub open spec fn moved<A>(items: Seq<A>, from: int, to: int) -> Seq<A> {
    items.remove(from).insert(to, items[from])
}

/// The repeat mode that a setting's name selects: `"all"`, `"one"`, and
/// anything else for off.
pub open spec fn repeat_mode_named(name: Seq<char>) -> RepeatMode {
    if name == "all"@ {
        RepeatMode::All
    } else if name == "one"@ {
        RepeatMode::One
    } else {
        RepeatMode::Off
    }
}

/// The identifier of the queue entry at position `i`.
pub open spec fn queue_id_of(i: nat) -> Seq<char> {
    "q-"@ + decimal(i)
}

/// The value of `seq![0, 1, .., n - 1]`.
pub open spec fn index_range(n: nat) -> Seq<usize> {
    Seq::new(n, |k: int| k as usize)
}

proof fn lemma_first_index_of(s: Seq<usize>, x: usize, i: int)
    requires
        0 <= i <= s.len(),
        forall|j: int| 0 <= j < i ==> s[j] != x,
        i < s.len() ==> s[i] == x,
    ensures
        first_index_of(s, x) == i,
    decreases i,
{
    if s.len() != 0 && i != 0 {
        lemma_first_index_of(s.drop_first(), x, i - 1);
    }
}

proof fn lemma_permutation_of_range(order: Seq<usize>, n: nat)
    requires
        n <= usize::MAX,
        order.to_multiset() == index_range(n).to_multiset(),
    ensures
        is_index_permutation(order, n),
{
    let range = index_range(n);
    assert(order.to_multiset().len() == range.to_multiset().len());
    assert(order.len() == n);
    assert(range.no_duplicates());
    range.lemma_multiset_has_no_duplicates();
    order.lemma_multiset_has_no_duplicates_conv();
    assert forall|i: int| 0 <= i < n implies #[trigger] order[i] < n by {
        assert(order.contains(order[i]));
        assert(order.to_multiset().count(order[i]) > 0);
        assert(range.to_multiset().count(order[i]) > 0);
        assert(range.contains(order[i]));
    }
    assert forall|k: usize| k < n implies #[trigger] order.contains(k) by {
        assert(range[k as int] == k);
        assert(range.contains(k));
        assert(range.to_multiset().count(k) > 0);
        assert(order.to_multiset().count(k) > 0);
    }
}

impl QueueModel {
    /// An empty queue: nothing current, shuffle off, repeat off.
    pub fn new() -> (r: Self)
        ensures
            r@.items == Seq::<Track>::empty(),
            r@.current == None::<usize>,
            !r@.shuffle,
            r@.repeat == RepeatMode::Off,
            r@.order == Seq::<usize>::empty(),
    {
        QueueModel {
            items: VecDeque::new(),
            current_index: None,
            shuffle: false,
            repeat_mode: RepeatMode::Off,
            shuffle_order: Vec::new(),
        }
    }

    /// Appends `track`, makes it the current track, and draws a new shuffle
    /// order; returns its position.
    pub fn enqueue_and_play_index(&mut self, track: Track) -> (idx: usize)
        ensures
            final(self)@.items == old(self)@.items.push(track),
            idx == old(self)@.items.len(),
            final(self)@.current == Some(idx),
            final(self)@.shuffle == old(self)@.shuffle,
            final(self)@.repeat == old(self)@.repeat,
            is_index_permutation(final(self)@.order, final(self)@.items.len()),
    {
        self.items.push_back(track);
        let idx = self.items.len() - 1;
        self.current_index = Some(idx);
        self.rebuild_shuffle_order();
        idx
    }

    /// The first position of `x` in the shuffle order, or 0 when it does not occur.
    fn position_in_order(&self, x: usize) -> (r: usize)
        ensures
            r == (if first_index_of(self@.order, x) < self@.order.len() {
                first_index_of(self@.order, x)
            } else {
                0
            }),
            r == 0 || r < self@.order.len(),
    {
        let n = self.shuffle_order.len();
        let mut i: usize = 0;
        while i < n
            invariant
                n == self.shuffle_order@.len(),
                i <= n,
                forall|j: int| 0 <= j < i ==> self.shuffle_order@[j] != x,
            decreases n - i,
        {
            if self.shuffle_order[i] == x {
                proof {
                    lemma_first_index_of(self.shuffle_order@, x, i as int);
                }
                return i;
            }
            i = i + 1;
        }
        proof {
            lemma_first_index_of(self.shuffle_order@, x, n as int);
        }
        0
    }

    /// Moves to the next track and returns its position: the same track on
    /// repeat-one; otherwise the next position, in shuffle order when
    /// shuffling; past the end, the first position on repeat-all and nothing
    /// otherwise. With no current track or an empty queue, nothing. Stepping
    /// on from the largest position in plain order would overflow, so that
    /// state is excluded.
    pub fn next_index(&mut self) -> (r: Option<usize>)
        requires
            !(old(self)@.current == Some(usize::MAX) && !old(self)@.shuffle && old(self)@.repeat
                != RepeatMode::One && old(self)@.items.len() > 0),
        ensures
            r == next_step(
                old(self)@.items.len(),
                old(self)@.current,
                old(self)@.shuffle,
                old(self)@.repeat,
                old(self)@.order,
            ),
            final(self)@.current == (match r {
                Some(n) => Some(n),
                None => old(self)@.current,
            }),
            final(self)@.items == old(self)@.items,
            final(self)@.shuffle == old(self)@.shuffle,
            final(self)@.repeat == old(self)@.repeat,
            final(self)@.order == old(self)@.order,
    {
        let len = self.items.len();
        let current = match self.current_index {
            Some(c) => c,
            None => {
                return None;
            },
        };
        if len == 0 {
            return None;
        }
        if self.repeat_mode == RepeatMode::One {
            return Some(current);
        }
        let candidate: Option<usize> = if self.shuffle {
            let pos = self.position_in_order(current);
            let order_len = self.shuffle_order.len();
            if order_len > 0 && pos < order_len - 1 {
                Some(self.shuffle_order[pos + 1])
            } else {
                None
            }
        } else if current < len - 1 {
            Some(current + 1)
        } else {
            None
        };
        if let Some(n) = candidate {
            if n < len {
                self.current_index = Some(n);
                return Some(n);
            }
        }
        if self.repeat_mode == RepeatMode::All {
            self.current_index = Some(0);
            Some(0)
        } else {
            None
        }
    }

    /// Draws a new shuffle order over the current positions.
    pub fn rebuild_shuffle_order(&mut self)
        ensures
            is_index_permutation(final(self)@.order, final(self)@.items.len()),
            final(self)@.items == old(self)@.items,
            final(self)@.current == old(self)@.current,
            final(self)@.shuffle == old(self)@.shuffle,
            final(self)@.repeat == old(self)@.repeat,
    {
        let n = self.items.len();
        let mut order: Vec<usize> = Vec::new();
        let mut i: usize = 0;
        while i < n
            invariant
                i <= n,
                order@ =~= index_range(i as nat),
            decreases n - i,
        {
            order.push(i);
            i = i + 1;
        }
        let mut rng = seeded_rng(SHUFFLE_SEED);
        shuffle_in_place(&mut order, &mut rng);
        proof {
            lemma_permutation_of_range(order@, n as nat);
        }
        self.shuffle_order = order;
    }

    /// Appends `track` to the queue; nothing else changes.
    pub fn enqueue(&mut self, track: Track)
        ensures
            final(self)@.items == old(self)@.items.push(track),
            final(self)@.current == old(self)@.current,
            final(self)@.shuffle == old(self)@.shuffle,
            final(self)@.repeat == old(self)@.repeat,
            final(self)@.order == old(self)@.order,
    {
        self.items.push_back(track);
    }

    /// Removes the entry at `index` when there is one; nothing else changes.
    pub fn remove_from_queue(&mut self, index: usize)
        ensures
            final(self)@.items == (if index < old(self)@.items.len() {
                old(self)@.items.remove(index as int)
            } else {
                old(self)@.items
            }),
            final(self)@.current == old(self)@.current,
            final(self)@.shuffle == old(self)@.shuffle,
            final(self)@.repeat == old(self)@.repeat,
            final(self)@.order == old(self)@.order,
    {
        if index < self.items.len() {
            self.items.remove(index);
        }
    }

    /// Moves the entry at `from` to position `to`, when both are positions of
    /// the queue; nothing else changes.
    pub fn move_queue_item(&mut self, from: usize, to: usize)
        ensures
            final(self)@.items == (if from < old(self)@.items.len() && to < old(self)@.items.len() {
                moved(old(self)@.items, from as int, to as int)
            } else {
                old(self)@.items
            }),
            final(self)@.current == old(self)@.current,
            final(self)@.shuffle == old(self)@.shuffle,
            final(self)@.repeat == old(self)@.repeat,
            final(self)@.order == old(self)@.order,
    {
        if from >= self.items.len() || to >= self.items.len() {
            return;
        }
        if let Some(item) = self.items.remove(from) {
            self.items.insert(to, item);
        }
    }

    /// Empties the queue; the current position and the settings stay.
    pub fn clear_queue(&mut self)
        ensures
            final(self)@.items == Seq::<Track>::empty(),
            final(self)@.current == old(self)@.current,
            final(self)@.shuffle == old(self)@.shuffle,
            final(self)@.repeat == old(self)@.repeat,
            final(self)@.order == old(self)@.order,
    {
        self.items.clear();
    }

    /// Turns shuffling on or off and draws a new shuffle order.
    pub fn set_shuffle(&mut self, enabled: bool)
        ensures
            final(self)@.shuffle == enabled,
            is_index_permutation(final(self)@.order, final(self)@.items.len()),
            final(self)@.items == old(self)@.items,
            final(self)@.current == old(self)@.current,
            final(self)@.repeat == old(self)@.repeat,
    {
        self.shuffle = enabled;
        self.rebuild_shuffle_order();
    }

    /// Sets the repeat mode by its name: `"all"`, `"one"`, anything else off.
    pub fn set_repeat_mode(&mut self, mode: &str)
        ensures
            final(self)@.repeat == repeat_mode_named(mode@),
            final(self)@.items == old(self)@.items,
            final(self)@.current == old(self)@.current,
            final(self)@.shuffle == old(self)@.shuffle,
            final(self)@.order == old(self)@.order,
    {
        self.repeat_mode = if str_equal(mode, "all") {
            RepeatMode::All
        } else if str_equal(mode, "one") {
            RepeatMode::One
        } else {
            RepeatMode::Off
        };
    }

    /// The current track, when the current position is a position of the queue.
    pub fn get_now_playing(&self) -> (r: Option<Track>)
        ensures
            r == now_playing(self@.items, self@.current),
    {
        match self.current_index {
            Some(i) => if i < self.items.len() {
                Some(copy_track(&self.items[i]))
            } else {
                None
            },
            None => None,
        }
    }

    /// The queue as listed: entry `i` is named `q-i` and carries the track at
    /// position `i` with its id.
    pub fn queue_items(&self) -> (r: Vec<QueueItem>)
        ensures
            r@.len() == self@.items.len(),
            forall|i: int|
                0 <= i < r@.len() ==> {
                    &&& (#[trigger] r@[i]).queue_id@ == queue_id_of(i as nat)
                    &&& r@[i].track_id == self@.items[i].id
                    &&& r@[i].track == self@.items[i]
                },
    {
        let n = self.items.len();
        let mut out: Vec<QueueItem> = Vec::new();
        let mut i: usize = 0;
        while i < n
            invariant
                n == self.items@.len(),
                i <= n,
                out@.len() == i,
                forall|j: int|
                    0 <= j < i ==> {
                        &&& (#[trigger] out@[j]).queue_id@ == queue_id_of(j as nat)
                        &&& out@[j].track_id == self.items@[j].id
                        &&& out@[j].track == self.items@[j]
                    },
            decreases n - i,
        {
            let track = copy_track(&self.items[i]);
            let mut queue_id = String::from_str("q-");
            push_decimal(&mut queue_id, i as u64);
            out.push(QueueItem { queue_id, track_id: track.id, track });
            i = i + 1;
        }
        out
    }
}

/// The positions that `steps` successive calls of `next_index` return,
/// starting at position `current`, up to the first call that returns nothing.
pub open spec fn played(
    len: nat,
    current: usize,
    shuffle: bool,
    repeat: RepeatMode,
    order: Seq<usize>,
    steps: nat,
) -> Seq<usize>
    decreases steps,
{
    if steps == 0 {
        Seq::empty()
    } else {
        match next_step(len, Some(current), shuffle, repeat, order) {
            Some(n) => seq![n] + played(len, n, shuffle, repeat, order, (steps - 1) as nat),
            None => Seq::empty(),
        }
    }
}

/// After `enqueue_and_play_index`, the track now playing is the one just
/// enqueued.
pub proof fn law_enqueued_track_is_now_playing(items: Seq<Track>, track: Track)
    requires
        items.len() < usize::MAX,
    ensures
        now_playing(items.push(track), Some(items.len() as usize)) == Some(track),
{
}

/// Moving an entry and moving it back restores the queue.
pub proof fn law_move_back_restores<A>(items: Seq<A>, from: int, to: int)
    requires
        0 <= from < items.len(),
        0 <= to < items.len(),
    ensures
        moved(moved(items, from, to), to, from) == items,
{
    let x = items[from];
    let once = moved(items, from, to);
    assert(once[to] == x);
    assert(once.remove(to) =~= items.remove(from));
    assert(items.remove(from).insert(from, x) =~= items);
}

/// Moving an entry keeps every track of the queue, each as often as before.
pub proof fn law_move_keeps_tracks<A>(items: Seq<A>, from: int, to: int)
    requires
        0 <= from < items.len(),
        0 <= to < items.len(),
    ensures
        moved(items, from, to).len() == items.len(),
        moved(items, from, to).to_multiset() == items.to_multiset(),
{
    assert(items.remove(from).to_multiset() == items.to_multiset().remove(items[from]));
    assert(items.remove(from).insert(to, items[from]).to_multiset() == items.remove(
        from,
    ).to_multiset().insert(items[from]));
    assert(items.to_multiset().remove(items[from]).insert(items[from]) =~= items.to_multiset());
}

/// On repeat-one, the next track is the current one, whatever else is set.
pub proof fn law_repeat_one_repeats(
    len: nat,
    current: usize,
    shuffle: bool,
    order: Seq<usize>,
)
    requires
        len > 0,
    ensures
        next_step(len, Some(current), shuffle, RepeatMode::One, order) == Some(current),
{
}

/// On repeat-all, a non-empty queue with a current track always has a next track.
pub proof fn law_repeat_all_never_stops(
    len: nat,
    current: usize,
    shuffle: bool,
    order: Seq<usize>,
)
    requires
        len > 0,
    ensures
        next_step(len, Some(current), shuffle, RepeatMode::All, order) is Some,
{
}

/// Unless repeat-one keeps a stale position, the next track is a position
/// of the queue.
pub proof fn law_next_is_in_queue(
    len: nat,
    current: Option<usize>,
    shuffle: bool,
    repeat: RepeatMode,
    order: Seq<usize>,
)
    requires
        repeat != RepeatMode::One,
    ensures
        next_step(len, current, shuffle, repeat, order) matches Some(n) ==> n < len,
{
}

/// Without shuffle, the queue plays in order: the next position is one
/// further, and past the last track it wraps to the first on repeat-all and
/// stops otherwise.
pub proof fn law_sequential_order(len: nat, current: usize, repeat: RepeatMode, order: Seq<usize>)
    requires
        repeat != RepeatMode::One,
        len > 0,
    ensures
        next_step(len, Some(current), false, repeat, order) == (if current + 1 < len {
            Some((current + 1) as usize)
        } else {
            past_the_end(repeat)
        }),
{
}

/// With shuffle on and a freshly drawn order, the track after the one at
/// place `k` of the order is the one at place `k + 1`; after the last place
/// the queue wraps to position 0 on repeat-all and stops otherwise.
pub proof fn law_shuffle_follows_order(len: nat, order: Seq<usize>, repeat: RepeatMode, k: int)
    requires
        is_index_permutation(order, len),
        repeat != RepeatMode::One,
        0 <= k < len,
    ensures
        next_step(len, Some(order[k]), true, repeat, order) == (if k + 1 < len {
            Some(order[k + 1])
        } else {
            past_the_end(repeat)
        }),
{
    lemma_first_index_of(order, order[k], k);
    if k + 1 < len {
        assert(order[k + 1] < len);
    }
}

proof fn lemma_shuffled_run(len: nat, order: Seq<usize>, k: int)
    requires
        is_index_permutation(order, len),
        0 <= k < len,
    ensures
        played(len, order[k], true, RepeatMode::Off, order, (len - k) as nat) == order.subrange(
            k + 1,
            len as int,
        ),
    decreases len - k,
{
    law_shuffle_follows_order(len, order, RepeatMode::Off, k);
    if k + 1 < len {
        lemma_shuffled_run(len, order, k + 1);
        assert(seq![order[k + 1]] + order.subrange(k + 2, len as int) =~= order.subrange(
            k + 1,
            len as int,
        ));
    } else {
        assert(order.subrange(k + 1, len as int) =~= Seq::<usize>::empty());
    }
}

/// With shuffle on, repeat off and a freshly drawn order, starting from the
/// first track of the order, successive calls of `next_index` play the rest
/// of the order and then stop: every track of the queue is played exactly
/// once.
pub proof fn law_shuffle_plays_each_track_once(len: nat, order: Seq<usize>)
    requires
        is_index_permutation(order, len),
        len > 0,
    ensures
        seq![order[0]] + played(len, order[0], true, RepeatMode::Off, order, len) == order,
{
    lemma_shuffled_run(len, order, 0);
    assert(seq![order[0]] + order.subrange(1, len as int) =~= order);
}

/// The track now playing is the track at the current position, for every
/// position of the queue; with no current position, or one past the end,
/// nothing is playing.
pub proof fn law_now_playing_is_track_at_current(items: Seq<Track>, current: Option<usize>)
    ensures
        current matches Some(i) && i < items.len() ==> now_playing(items, current) == Some(
            items[current->0 as int],
        ),
        current matches Some(i) && i >= items.len() ==> now_playing(items, current) is None,
        current is None ==> now_playing(items, current) is None,
{
}

/// Moving an entry puts it at the target position and keeps the order of
/// the other entries.
pub proof fn law_moved_entry_lands_at_target<A>(items: Seq<A>, from: int, to: int)
    requires
        0 <= from < items.len(),
        0 <= to < items.len(),
    ensures
        moved(items, from, to)[to] == items[from],
        moved(items, from, to).remove(to) == items.remove(from),
{
    assert(moved(items, from, to).remove(to) =~= items.remove(from));
}

} // verus!
