use foobar1974::library::{is_audio_extension, ScanProgress, ScanState, UNKNOWN_TITLE};

#[test]
fn audio_extensions_in_any_case() {
    for ext in ["mp3", "FLAC", "Ogg", "wav", "m4a", "OPUS", "aac"] {
        assert!(is_audio_extension(Some(ext)), "{ext}");
    }
    for ext in ["txt", "mp33", "", "flac ", "jpg"] {
        assert!(!is_audio_extension(Some(ext)), "{ext}");
    }
    assert!(!is_audio_extension(None));
}

#[test]
fn record_audio_file_counts_and_names() {
    let mut scan = ScanState::new();
    let rec = scan.record_audio_file("/m/a song.mp3".to_string(), Some("a song"));
    assert_eq!(rec.path, "/m/a song.mp3");
    assert_eq!(rec.title, "a song");
    assert_eq!(rec.artist, "Unknown artist");
    assert_eq!(rec.album, "Unknown album");
    assert_eq!(rec.album_artist, "");
    assert_eq!(rec.progress, None);
    let rec = scan.record_audio_file("/m/x.ogg".to_string(), None);
    assert_eq!(rec.title, UNKNOWN_TITLE);
    assert_eq!(scan.discovered(), 2);
    assert_eq!(scan.indexed(), 2);
}

#[test]
fn progress_every_hundred_files() {
    let mut scan = ScanState::new();
    let mut reports = Vec::new();
    for i in 0..250 {
        let rec = scan.record_audio_file(format!("/m/{i}.flac"), Some("t"));
        if let Some(p) = rec.progress {
            reports.push(p);
        }
    }
    assert_eq!(
        reports,
        vec![
            ScanProgress { discovered: 100, indexed: 100 },
            ScanProgress { discovered: 200, indexed: 200 },
        ]
    );
    assert_eq!(scan.indexed(), 250);
}

#[test]
fn stale_paths_are_the_unseen_ones() {
    let mut scan = ScanState::new();
    scan.record_audio_file("/m/a.mp3".to_string(), Some("a"));
    scan.record_audio_file("/m/c.mp3".to_string(), Some("c"));
    let stored = vec![
        "/m/a.mp3".to_string(),
        "/m/b.mp3".to_string(),
        "/m/c.mp3".to_string(),
        "/m/d.mp3".to_string(),
    ];
    assert_eq!(scan.stale_paths(&stored), vec!["/m/b.mp3".to_string(), "/m/d.mp3".to_string()]);
    assert!(ScanState::new().stale_paths(&Vec::new()).is_empty());
}
