use handler::command::PlaybackState;
use handler::config::UnresolvedConfig;
use handler::text::{parse_bool, parse_u64, text_contains};
use handler::filesystem::{
    change_cover_capitalization, cover_candidates, metadata_from_lines, playback_from_fields,
    recapitalized_file_name, cover_url, file_update, parse_metadata,
    parse_playback, plugin_available, FileUpdate, MalformedFile,
};

#[test]
fn playback_file() {
    assert_eq!(
        parse_playback("playing\n1234").unwrap(),
        Some(PlaybackState::Playing { progress: Some(1234) })
    );
    assert_eq!(
        parse_playback("  paused \n5").unwrap(),
        Some(PlaybackState::Paused { progress: Some(5) })
    );
    assert_eq!(parse_playback("stopped\n0").unwrap(), Some(PlaybackState::Stopped));
    assert_eq!(
        parse_playback("playing\r\n12\r\n").unwrap(),
        Some(PlaybackState::Playing { progress: Some(12) })
    );
    assert_eq!(parse_playback("loading\n0").unwrap(), None);
    assert_eq!(parse_playback("").unwrap(), None);
}

#[test]
fn malformed_playback_file() {
    assert!(matches!(parse_playback("bogus\n5"), Err(MalformedFile::Playback(s)) if s == "bogus"));
    assert!(matches!(parse_playback("playing\nx"), Err(MalformedFile::Number(s)) if s == "x"));
    assert!(matches!(parse_playback(" playing \n"), Err(MalformedFile::Playback(s)) if s == "playing"));
    assert!(matches!(parse_playback("a\nb\nc"), Err(MalformedFile::Playback(s)) if s == "a\nb\nc"));
}

#[test]
fn metadata_file() {
    let m = parse_metadata("Title\nAlbum\nArtist\nC:\\cover.jpg\n1000").unwrap().unwrap();
    assert_eq!(m.title, "Title");
    assert_eq!(m.album, "Album");
    assert_eq!(m.artist, "Artist");
    assert_eq!(m.cover, "C:\\cover.jpg");
    assert_eq!(m.duration, 1000);
    let m = parse_metadata("T\nAl\nAr\n\n+7").unwrap().unwrap();
    assert_eq!(m.cover, "");
    assert_eq!(m.duration, 7);
    assert!(parse_metadata("").unwrap().is_none());
}

#[test]
fn malformed_metadata_file() {
    assert!(matches!(parse_metadata("a\nb"), Err(MalformedFile::Metadata(s)) if s == "a\nb"));
    assert!(matches!(parse_metadata("T\nAl\nAr\n\nxyz"), Err(MalformedFile::Number(s)) if s == "xyz"));
    assert!(matches!(
        parse_metadata("T\nAl\nAr\n\n18446744073709551616"),
        Err(MalformedFile::Number(_))
    ));
}

#[test]
fn plugin_activation_file() {
    assert_eq!(plugin_available("true").unwrap(), Some(true));
    assert_eq!(plugin_available("false").unwrap(), Some(false));
    assert_eq!(plugin_available("").unwrap(), None);
    assert!(matches!(plugin_available("yes"), Err(MalformedFile::PluginActivation(s)) if s == "yes"));
    assert!(matches!(plugin_available("true\n"), Err(MalformedFile::PluginActivation(_))));
}

#[test]
fn file_names() {
    assert_eq!(file_update("metadata"), Some(FileUpdate::Metadata));
    assert_eq!(file_update("playback"), Some(FileUpdate::Playback));
    assert_eq!(file_update("volume"), Some(FileUpdate::Volume));
    assert_eq!(file_update("plugin-activated"), Some(FileUpdate::PluginActivation));
    assert_eq!(file_update("action"), None);
}

#[test]
fn cover_capitalization() {
    assert_eq!(change_cover_capitalization("/m/a/folder.jpg").as_deref(), Some("/m/a/Folder.jpg"));
    assert_eq!(change_cover_capitalization("/m/a/Cover.png").as_deref(), Some("/m/a/cover.png"));
    assert_eq!(change_cover_capitalization("/m/a/folder").as_deref(), Some("/m/a/Folder"));
    assert_eq!(change_cover_capitalization("/m/a/front.jpg"), None);
}

#[test]
fn cover_candidates_in_order() {
    let config = UnresolvedConfig::defaults().resolve("/home/alice");
    assert!(cover_candidates("", &config).is_empty());
    assert_eq!(
        cover_candidates("C:\\Users\\alice\\Music\\x\\folder.jpg", &config),
        vec!["/home/alice/Music/x/folder.jpg", "/home/alice/Music/x/Folder.jpg"]
    );
    assert_eq!(
        cover_candidates("C:\\Users\\alice\\Music\\x\\art.jpg", &config),
        vec!["/home/alice/Music/x/art.jpg"]
    );
}

#[test]
fn cover_locator() {
    assert_eq!(cover_url("/home/alice/a b.jpg").as_deref(), Some("file:///home/alice/a%20b.jpg"));
    assert_eq!(cover_url("rel.jpg"), None);
}

#[test]
fn playback_fields() {
    assert_eq!(
        playback_from_fields("playing", "12").unwrap(),
        Some(PlaybackState::Playing { progress: Some(12) })
    );
    assert_eq!(playback_from_fields("loading", "0").unwrap(), None);
    assert!(matches!(playback_from_fields("Playing", "1"), Err(MalformedFile::Playback(s)) if s == "Playing"));
    assert!(matches!(playback_from_fields("stopped", " 1"), Err(MalformedFile::Number(s)) if s == " 1"));
}

#[test]
fn metadata_lines() {
    let ls: Vec<String> = ["T", "Al", "Ar", "c.jpg", "9"].iter().map(|s| s.to_string()).collect();
    let m = metadata_from_lines(ls, "whole").unwrap().unwrap();
    assert_eq!((m.title.as_str(), m.album.as_str(), m.artist.as_str(), m.cover.as_str()), ("T", "Al", "Ar", "c.jpg"));
    assert_eq!(m.duration, 9);
    let short: Vec<String> = vec!["T".to_string()];
    assert!(matches!(metadata_from_lines(short, "whole"), Err(MalformedFile::Metadata(s)) if s == "whole"));
}

#[test]
fn recapitalized_names() {
    assert_eq!(recapitalized_file_name("cover", Some("jpg".to_string())).as_deref(), Some("Cover.jpg"));
    assert_eq!(recapitalized_file_name("Folder", None).as_deref(), Some("folder"));
    assert_eq!(recapitalized_file_name("front", Some("jpg".to_string())), None);
}

#[test]
fn booleans() {
    assert_eq!(parse_bool("true"), Some(true));
    assert_eq!(parse_bool("false"), Some(false));
    assert_eq!(parse_bool("True"), None);
    assert_eq!(parse_bool(""), None);
}

#[test]
fn unsigned_numbers() {
    assert_eq!(parse_u64("0"), Some(0));
    assert_eq!(parse_u64("+5"), Some(5));
    assert_eq!(parse_u64("007"), Some(7));
    assert_eq!(parse_u64("18446744073709551615"), Some(u64::MAX));
    assert_eq!(parse_u64("18446744073709551616"), None);
    assert_eq!(parse_u64("99999999999999999999x"), None);
    assert_eq!(parse_u64("+"), None);
    assert_eq!(parse_u64(""), None);
    assert_eq!(parse_u64("-1"), None);
    assert_eq!(parse_u64("1a"), None);
    assert_eq!(parse_u64(" 1"), None);
}

#[test]
fn substrings() {
    assert!(text_contains("C:/Temp/x", "Temp"));
    assert!(text_contains("abc", ""));
    assert!(text_contains("Temp", "Temp"));
    assert!(!text_contains("Tem", "Temp"));
    assert!(!text_contains("temp", "Temp"));
    assert!(text_contains("aaab", "aab"));
}
