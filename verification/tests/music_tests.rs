use waveform::music::downloader::{download_output_path, download_report, sanitize_file_name, tagged_file_path};
use waveform::music::info::{playlist_label, song_label};
use waveform::youtube::video::{search_parameters, video_details_url};

#[test]
fn file_names_lose_slashes() {
    assert_eq!(sanitize_file_name("AC/DC - T.N.T"), "AC-DC - T.N.T");
    assert!(!sanitize_file_name("a/b/c").contains('/'));
    assert_eq!(download_output_path("a/b"), "songs/a-b");
    assert_eq!(tagged_file_path("a/b"), "songs/a/b.mp3");
}

#[test]
fn download_reports() {
    assert_eq!(download_report(Ok(String::from("x"))), "Download Completed: x");
    assert_eq!(download_report(Err(String::from("Wave Error: songs/x"))), "Download Completed: Wave Error: songs/x");
}

#[test]
fn song_labels() {
    assert_eq!(song_label("./songs/My Song.mp3").as_deref(), Some("My Song"));
    assert_eq!(song_label("./songs/notes.txt").as_deref(), Some("notes.txt"));
    assert_eq!(song_label("./songs/").as_deref(), Some(""));
    assert_eq!(song_label("./a.mp3"), None);
    assert_eq!(song_label("./so\u{e9}gs/x.mp3").as_deref(), Some("/x"));
    assert_eq!(song_label("./s\u{e9}\u{e9}\u{e9}x.mp3"), None);
}

#[test]
fn playlist_labels() {
    assert_eq!(playlist_label("abcdefghij", true).as_deref(), Some("abcdefghij"));
    assert_eq!(playlist_label("abcdefghij", false).as_deref(), Some("ij"));
    assert_eq!(playlist_label("short", false), None);
}

#[test]
fn search_query() {
    let err = search_parameters("x", &None, 1).unwrap_err();
    assert_eq!(err.log, "No api key provided!");
    assert_eq!(err.message(), "Wave Error: No api key provided!");
    let ps = search_parameters("never gonna", &Some(String::from("K")), 1).unwrap();
    let expected: Vec<(String, String)> = [("part", "snippet"), ("q", "never gonna"), ("key", "K"), ("type", "video"), ("maxResults", "1")]
        .iter()
        .map(|(a, b)| (a.to_string(), b.to_string()))
        .collect();
    assert_eq!(ps, expected);
}

#[test]
fn details_address() {
    assert_eq!(
        video_details_url("abc", "KEY"),
        "https://www.googleapis.com/youtube/v3/videos?part=contentDetails&id=abc&key=KEY"
    );
}
