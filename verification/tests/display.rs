use foobar1974::models::Track;
use foobar1974::text::{blank, same_ignoring_ascii_case, str_equal};
use foobar1974::ui::{codec_from_extension, label_value, track_id_from_row_name, track_row_name, track_summary};

#[test]
fn row_names_carry_ids() {
    assert_eq!(track_row_name(42), "track-42");
    assert_eq!(track_row_name(0), "track-0");
    assert_eq!(track_row_name(-7), "track--7");
    for id in [0, 1, -1, 42, 1234567890123, i64::MAX, i64::MIN, i64::MIN + 1] {
        assert_eq!(track_id_from_row_name(&track_row_name(id)), Some(id));
    }
}

#[test]
fn row_names_parse_like_i64() {
    assert_eq!(track_id_from_row_name("track-15"), Some(15));
    assert_eq!(track_id_from_row_name("track-+5"), Some(5));
    assert_eq!(track_id_from_row_name("track-007"), Some(7));
    assert_eq!(track_id_from_row_name("track-"), None);
    assert_eq!(track_id_from_row_name("track--"), None);
    assert_eq!(track_id_from_row_name("track-1a"), None);
    assert_eq!(track_id_from_row_name("track- 1"), None);
    assert_eq!(track_id_from_row_name("row-1"), None);
    assert_eq!(track_id_from_row_name("trac"), None);
    assert_eq!(track_id_from_row_name("track-9223372036854775807"), Some(i64::MAX));
    assert_eq!(track_id_from_row_name("track-9223372036854775808"), None);
    assert_eq!(track_id_from_row_name("track--9223372036854775808"), Some(i64::MIN));
    assert_eq!(track_id_from_row_name("track--9223372036854775809"), None);
    assert_eq!(track_id_from_row_name("track-99999999999999999999x"), None);
    for s in ["12", "-3", "+4", "", "-", "1e3", "00", "99999999999999999999"] {
        let name = format!("track-{s}");
        assert_eq!(track_id_from_row_name(&name), s.parse::<i64>().ok(), "{s}");
    }
}

#[test]
fn label_value_hides_blank_text() {
    assert_eq!(label_value("   "), "");
    assert_eq!(label_value(""), "");
    assert_eq!(label_value("\u{3000}\t"), "");
    assert_eq!(label_value(" Abba "), " Abba ");
}

#[test]
fn codec_is_upper_case_extension() {
    assert_eq!(codec_from_extension(Some("flac")), "FLAC");
    assert_eq!(codec_from_extension(Some("Mp3")), "MP3");
    assert_eq!(codec_from_extension(Some("ogg_é")), "OGG_é");
    assert_eq!(codec_from_extension(None), "");
}

#[test]
fn summary_uses_placeholders() {
    let mut t = Track {
        id: 1,
        path: "/m/x.mp3".to_string(),
        title: "Song".to_string(),
        artist: "Band".to_string(),
        album: "Record".to_string(),
        album_artist: String::new(),
        duration_ms: None,
    };
    assert_eq!(track_summary(&t), "Band — Song (Record)");
    t.artist.clear();
    t.title.clear();
    t.album.clear();
    assert_eq!(track_summary(&t), "Unknown Artist — Unknown Title (Unknown Album)");
}

#[test]
fn text_helpers() {
    assert!(blank(" \n\t\u{a0}"));
    assert!(!blank(" x "));
    assert!(same_ignoring_ascii_case("DeSc", "desc"));
    assert!(!same_ignoring_ascii_case("desc ", "desc"));
    assert!(str_equal("all", "all"));
    assert!(!str_equal("all", "al"));
    for s in ["", " ", "\u{85}", "\u{2000}x", "\u{200b}"] {
        assert_eq!(blank(s), s.trim().is_empty(), "{s:?}");
    }
}
