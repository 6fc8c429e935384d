use foobar1974::models::{RepeatMode, Track};
use foobar1974::player::QueueModel;

fn track(id: i64) -> Track {
    Track {
        id,
        path: format!("/music/{id}.flac"),
        title: format!("Title {id}"),
        artist: format!("Artist {id}"),
        album: format!("Album {id}"),
        album_artist: String::new(),
        duration_ms: Some(1000 * id),
    }
}

fn queue_of(n: i64) -> QueueModel {
    let mut q = QueueModel::new();
    for id in 0..n {
        q.enqueue(track(id));
    }
    q
}

#[test]
fn new_queue_is_empty() {
    let q = QueueModel::new();
    assert!(q.items.is_empty());
    assert_eq!(q.current_index, None);
    assert!(!q.shuffle);
    assert_eq!(q.repeat_mode, RepeatMode::Off);
}

#[test]
fn enqueue_and_play_index_makes_track_current() {
    let mut q = queue_of(2);
    let idx = q.enqueue_and_play_index(track(7));
    assert_eq!(idx, 2);
    assert_eq!(q.items.len(), 3);
    assert_eq!(q.current_index, Some(2));
    let now = q.get_now_playing().expect("a track is playing");
    assert_eq!(now.id, 7);
    assert_eq!(now.path, "/music/7.flac");
}

#[test]
fn next_index_without_current_is_none() {
    let mut q = queue_of(3);
    assert_eq!(q.next_index(), None);
    assert_eq!(q.current_index, None);
}

#[test]
fn next_index_sequential_then_stops() {
    let mut q = queue_of(3);
    q.current_index = Some(0);
    assert_eq!(q.next_index(), Some(1));
    assert_eq!(q.next_index(), Some(2));
    assert_eq!(q.next_index(), None);
    assert_eq!(q.current_index, Some(2));
}

#[test]
fn next_index_repeat_all_wraps_to_first() {
    let mut q = queue_of(3);
    q.repeat_mode = RepeatMode::All;
    q.current_index = Some(2);
    assert_eq!(q.next_index(), Some(0));
    assert_eq!(q.current_index, Some(0));
}

#[test]
fn next_index_repeat_one_stays() {
    let mut q = queue_of(3);
    q.set_repeat_mode("one");
    q.current_index = Some(1);
    assert_eq!(q.next_index(), Some(1));
    assert_eq!(q.next_index(), Some(1));
    // A stale position is kept on repeat-one.
    q.current_index = Some(9);
    assert_eq!(q.next_index(), Some(9));
}

#[test]
fn next_index_on_empty_queue_is_none() {
    let mut q = QueueModel::new();
    q.current_index = Some(0);
    q.repeat_mode = RepeatMode::All;
    assert_eq!(q.next_index(), None);
}

#[test]
fn next_index_past_end_position() {
    let mut q = queue_of(2);
    q.current_index = Some(5);
    assert_eq!(q.next_index(), None);
    q.repeat_mode = RepeatMode::All;
    assert_eq!(q.next_index(), Some(0));
}

#[test]
fn shuffle_visits_distinct_tracks() {
    let mut q = queue_of(10);
    q.set_shuffle(true);
    assert!(q.shuffle);
    for start in 0..10usize {
        q.current_index = Some(start);
        let mut seen = vec![start];
        while let Some(n) = q.next_index() {
            assert!(n < 10);
            assert!(!seen.contains(&n), "position {n} played twice");
            seen.push(n);
        }
    }
}

#[test]
fn shuffle_plays_every_track_once_from_its_first() {
    let mut q = queue_of(8);
    q.set_shuffle(true);
    // The first track of the shuffled order is the one no other track leads to.
    let mut successors = Vec::new();
    for start in 0..8usize {
        q.current_index = Some(start);
        if let Some(n) = q.next_index() {
            successors.push(n);
        }
    }
    let first = (0..8usize).find(|i| !successors.contains(i)).expect("a first track");
    q.current_index = Some(first);
    let mut played = vec![first];
    while let Some(n) = q.next_index() {
        played.push(n);
    }
    played.sort();
    assert_eq!(played, (0..8usize).collect::<Vec<_>>());
}

#[test]
fn shuffled_order_is_not_the_plain_order() {
    let mut q = queue_of(10);
    q.set_shuffle(true);
    q.current_index = Some(0);
    let mut played = Vec::new();
    while let Some(n) = q.next_index() {
        played.push(n);
    }
    assert_ne!(played, (1..10usize).collect::<Vec<_>>());
}

#[test]
fn shuffle_repeat_all_wraps_to_position_zero() {
    let mut q = queue_of(6);
    q.set_shuffle(true);
    q.repeat_mode = RepeatMode::All;
    // Walk to the last track of the shuffled order.
    q.repeat_mode = RepeatMode::Off;
    q.current_index = Some(0);
    while q.next_index().is_some() {}
    q.repeat_mode = RepeatMode::All;
    assert_eq!(q.next_index(), Some(0));
}

#[test]
fn remove_from_queue_in_and_out_of_range() {
    let mut q = queue_of(3);
    q.current_index = Some(2);
    q.remove_from_queue(1);
    let ids: Vec<i64> = q.items.iter().map(|t| t.id).collect();
    assert_eq!(ids, vec![0, 2]);
    assert_eq!(q.current_index, Some(2));
    q.remove_from_queue(5);
    assert_eq!(q.items.len(), 2);
}

#[test]
fn move_queue_item_and_back_restores() {
    let mut q = queue_of(4);
    q.move_queue_item(0, 3);
    let ids: Vec<i64> = q.items.iter().map(|t| t.id).collect();
    assert_eq!(ids, vec![1, 2, 3, 0]);
    q.move_queue_item(3, 0);
    let ids: Vec<i64> = q.items.iter().map(|t| t.id).collect();
    assert_eq!(ids, vec![0, 1, 2, 3]);
    q.move_queue_item(1, 4);
    let ids: Vec<i64> = q.items.iter().map(|t| t.id).collect();
    assert_eq!(ids, vec![0, 1, 2, 3]);
}

#[test]
fn clear_queue_keeps_position_and_settings() {
    let mut q = queue_of(3);
    q.current_index = Some(1);
    q.repeat_mode = RepeatMode::All;
    q.clear_queue();
    assert!(q.items.is_empty());
    assert_eq!(q.current_index, Some(1));
    assert_eq!(q.repeat_mode, RepeatMode::All);
    assert!(q.get_now_playing().is_none());
}

#[test]
fn set_repeat_mode_by_name() {
    let mut q = QueueModel::new();
    q.set_repeat_mode("all");
    assert_eq!(q.repeat_mode, RepeatMode::All);
    q.set_repeat_mode("one");
    assert_eq!(q.repeat_mode, RepeatMode::One);
    q.set_repeat_mode("ALL");
    assert_eq!(q.repeat_mode, RepeatMode::Off);
    q.set_repeat_mode("");
    assert_eq!(q.repeat_mode, RepeatMode::Off);
}

#[test]
fn get_now_playing_out_of_range_is_none() {
    let mut q = queue_of(2);
    q.current_index = Some(2);
    assert!(q.get_now_playing().is_none());
    q.current_index = Some(1);
    assert_eq!(q.get_now_playing().map(|t| t.id), Some(1));
}

#[test]
fn queue_items_are_named_by_position() {
    let mut q = QueueModel::new();
    for id in [40, 41, 42, 43, 44, 45, 46, 47, 48, 49, 50, 51] {
        q.enqueue(track(id));
    }
    let items = q.queue_items();
    assert_eq!(items.len(), 12);
    assert_eq!(items[0].queue_id, "q-0");
    assert_eq!(items[0].track_id, 40);
    assert_eq!(items[11].queue_id, "q-11");
    assert_eq!(items[11].track_id, 51);
    assert_eq!(items[11].track.title, "Title 51");
}
