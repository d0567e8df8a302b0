use waveform::music::song::{meta_data_from_tag, MetaData, Queue, Song};

fn song(title: &str) -> Song {
    Song::new(title.to_string(), format!("./songs/{title}.mp3"))
}

#[test]
fn meta_data_keeps_fields() {
    let m = MetaData::new(Some("a".into()), None, Some("g".into()), None, Some("2020".into()));
    assert_eq!(m.artist.as_deref(), Some("a"));
    assert_eq!(m.album, None);
    assert_eq!(m.genere.as_deref(), Some("g"));
    assert_eq!(m.release_date.as_deref(), Some("2020"));
}

#[test]
fn tag_fields_use_unknown() {
    let t = MetaData::new(Some("Artist".into()), None, None, None, None).tag_fields();
    assert_eq!(t.artist, "Artist");
    assert_eq!(t.album, "Unknown");
    assert_eq!(t.genre, "Unknown");
}

#[test]
fn meta_data_from_tag_defaults() {
    let m = meta_data_from_tag(None, Some("Album"), None);
    assert_eq!(m.artist.as_deref(), Some("Unknown Artist"));
    assert_eq!(m.album.as_deref(), Some("Album"));
    assert_eq!(m.genere.as_deref(), Some("Unknown Genre"));
    assert_eq!(m.release_date, None);
}

#[test]
fn songs_equal_by_title() {
    let a = Song::new("t".into(), "p1".into());
    let b = Song::new("t".into(), "p2".into());
    let c = Song::new("u".into(), "p1".into());
    assert!(a == b);
    assert!(a != c);
}

#[test]
fn queue_is_first_in_first_out() {
    let mut q = Queue::new();
    assert!(q.is_empty());
    q.push(song("a"));
    q.push(song("b"));
    q.add_front(song("c"));
    assert_eq!(q.size(), 3);
    assert_eq!(q.get_first().map(|s| s.title), Some("c".to_string()));
    assert_eq!(q.get_first().map(|s| s.title), Some("a".to_string()));
    assert_eq!(q.get_first().map(|s| s.title), Some("b".to_string()));
    assert!(q.get_first().is_none());
    assert!(q.is_empty());
}

#[test]
fn queue_contains_by_title() {
    let mut q = Queue::new();
    assert!(!q.contains(&song("a")));
    q.push(song("a"));
    assert!(q.contains(&Song::new("a".into(), "elsewhere".into())));
    assert!(!q.contains(&song("b")));
}

#[test]
fn queue_remove_at_and_clear() {
    let mut q = Queue::new();
    q.push(song("a"));
    q.push(song("b"));
    q.push(song("c"));
    assert_eq!(q.remove_at(1).map(|s| s.title), Some("b".to_string()));
    assert!(q.remove_at(5).is_none());
    assert_eq!(q.size(), 2);
    q.clear();
    assert!(q.is_empty());
}

#[test]
fn queue_text() {
    let mut q = Queue::new();
    assert_eq!(q.describe(), "[]");
    q.push(song("a"));
    assert_eq!(q.describe(), "[[a]]");
    q.push(song("b"));
    assert_eq!(q.describe(), "[[a], [b]]");
    assert_eq!(song("x").describe(), "[x]");
}
