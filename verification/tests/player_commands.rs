use foobar1974::vlc::{
    file_uri, play_file_commands, seek_command, volume_command, volume_level, CLEAR, PAUSE, PREVIOUS,
};

#[test]
fn file_uri_escapes_spaces() {
    assert_eq!(file_uri("/music/my song.flac"), "file:///music/my%20song.flac");
    assert_eq!(file_uri("/a  b"), "file:///a%20%20b");
    assert_eq!(file_uri(""), "file://");
}

#[test]
fn play_file_clears_then_adds() {
    let cmds = play_file_commands("/m/x y.mp3");
    assert_eq!(cmds, vec!["clear".to_string(), "add file:///m/x%20y.mp3".to_string()]);
    assert_eq!(CLEAR, "clear");
    assert_eq!(PAUSE, "pause");
    assert_eq!(PREVIOUS, "prev");
}

#[test]
fn seek_command_text() {
    assert_eq!(seek_command(0), "seek 0");
    assert_eq!(seek_command(90), "seek 90");
    assert_eq!(seek_command(u32::MAX), "seek 4294967295");
}

#[test]
fn volume_levels_round_to_nearest() {
    assert_eq!(volume_level(100), 256);
    assert_eq!(volume_level(50), 128);
    assert_eq!(volume_level(0), 0);
    assert_eq!(volume_level(1), 3);
    assert_eq!(volume_level(255), 653);
    for p in 0..=255u8 {
        let exact = ((p as f64 / 100.0) * 256.0).round() as u32;
        assert_eq!(volume_level(p), exact, "percent {p}");
    }
}

#[test]
fn volume_command_text() {
    assert_eq!(volume_command(100), "volume 256");
    assert_eq!(volume_command(33), "volume 84");
}
