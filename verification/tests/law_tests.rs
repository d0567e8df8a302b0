use waveform::helper::{ascii_lines, get_command_args};
use waveform::music::info::{audio_url, local_song_entries, playlist_entries, ListedName};
use waveform::music::song::{Queue, Song};
use waveform::text::{split_whitespace_words, trim_text};
use waveform::ui::{next_to_play, seek_target, Key, KeyModifier, UiState};
use waveform::wave::WaveSettings;

fn args(line: &str) -> Vec<String> {
    get_command_args(String::from(line))
}

fn words(line: &str) -> Vec<String> {
    split_whitespace_words(line)
}

fn labels(entries: &[ListedName]) -> Vec<(String, bool)> {
    entries.iter().map(|e| (e.label.clone(), e.selected)).collect()
}

#[test]
fn arguments_joined_are_the_words_joined() {
    for line in ["download never gonna -an rick astley", "a -x b  c -y -z d", "  play\tit  ", "", "-x"] {
        assert_eq!(args(line).join(" "), words(line).join(" "), "line {:?}", line);
    }
}

#[test]
fn splitting_the_joined_arguments_again_changes_nothing() {
    for line in ["download never gonna -an rick astley", "a -x b  c -y -z d", "x -a -b c"] {
        let first = args(line);
        assert_eq!(args(&first.join(" ")), first, "line {:?}", line);
    }
    assert_eq!(args("a -x b  c"), args(" a\t-x b c \n"));
}

#[test]
fn grouped_example_lines() {
    assert_eq!(args("download never gonna -an rick astley"), vec!["download", "never", "gonna", "-an", "rick astley"]);
    assert_eq!(args("a -x b  c -y -z d"), vec!["a", "-x", "b c", "-y", "-z", "d"]);
}

#[test]
fn picture_lines_rejoin_to_the_text() {
    for text in ["ab\ncd\n", "ab\ncd", "\n\nx", "", "\n", "one"] {
        let lines = ascii_lines(text);
        let mut back = lines.join("\n");
        if text.ends_with('\n') {
            back.push('\n');
        }
        assert_eq!(back, text, "text {:?}", text);
        assert!(lines.iter().all(|l| !l.contains('\n')));
        assert_eq!(lines.is_empty(), text.is_empty());
    }
}

#[test]
fn focus_is_three_plus_rights_minus_lefts() {
    let mut settings = WaveSettings::new();
    settings.border_color_0 = [1, 1, 1];
    settings.border_color_1 = [9, 9, 9];
    let mut ui = UiState::new(&settings);
    let keys = [
        (Key::Right, KeyModifier::NoModifier),
        (Key::Char('x'), KeyModifier::NoModifier),
        (Key::Right, KeyModifier::Shift),
        (Key::Right, KeyModifier::NoModifier),
        (Key::Left, KeyModifier::NoModifier),
        (Key::Right, KeyModifier::NoModifier),
        (Key::Right, KeyModifier::NoModifier),
        (Key::Left, KeyModifier::Shift),
        (Key::Right, KeyModifier::NoModifier),
    ];
    let mut rights: i64 = 0;
    let mut lefts: i64 = 0;
    for (key, modifier) in keys {
        ui.handle_key(key, modifier, 3);
        if matches!(modifier, KeyModifier::NoModifier) {
            match key {
                Key::Right => rights += 1,
                Key::Left => lefts += 1,
                _ => {}
            }
        }
        let f = (3 + rights - lefts).rem_euclid(4) as usize;
        assert_eq!(ui.current_block, f);
        for i in 0..4 {
            let expected = if i == f { [9, 9, 9] } else { [1, 1, 1] };
            assert_eq!(ui.border_color[i], expected);
        }
    }
    assert_eq!((rights, lefts), (5, 1));
    assert_eq!(ui.current_block, 3);
}

#[test]
fn seeking_moves_ten_seconds() {
    assert_eq!(seek_target(5, 250, true), (15, 250));
    assert_eq!(seek_target(25, 7, false), (15, 7));
    assert_eq!(seek_target(10, 7, false), (0, 7));
    assert_eq!(seek_target(9, 999, false), (0, 0));
}

#[test]
fn next_song_only_when_idle() {
    let mut q = Queue::new();
    q.push(Song::new(String::from("a"), String::from("./songs/a.mp3")));
    q.push(Song::new(String::from("b"), String::from("./songs/b.mp3")));
    assert!(next_to_play(&mut q, false).is_none());
    assert_eq!(q.size(), 2);
    let first = next_to_play(&mut q, true).unwrap();
    assert_eq!(first.title, "a");
    assert_eq!(q.size(), 1);
    assert_eq!(next_to_play(&mut q, true).unwrap().title, "b");
    assert!(next_to_play(&mut q, true).is_none());
    assert!(q.is_empty());
}

#[test]
fn local_songs_listed_with_highlight() {
    let paths = vec![
        Some(String::from("./songs/One.mp3")),
        None,
        Some(String::from("./songs/Two.mp3")),
        Some(String::from("./songs/notes.txt")),
    ];
    let listed = local_song_entries(&paths, 2).unwrap();
    assert_eq!(
        labels(&listed),
        vec![(String::from("One"), false), (String::from("Two"), true), (String::from("notes.txt"), false)]
    );
    assert!(local_song_entries(&vec![Some(String::from("./s\u{e9}\u{e9}\u{e9}x.mp3"))], 0).is_none());
    assert!(local_song_entries(&Vec::new(), 0).unwrap().is_empty());
}

#[test]
fn playlists_listed_with_selected_whole() {
    let names = vec![String::from("./songs/rock"), String::from("./songs/jazz")];
    let listed = playlist_entries(&names, 1).unwrap();
    assert_eq!(labels(&listed), vec![(String::from("rock"), false), (String::from("./songs/jazz"), true)]);
    let odd = vec![String::from("./s\u{e9}\u{e9}\u{e9}x"), String::from("./songs/pop")];
    assert!(playlist_entries(&odd, 1).is_none());
    assert_eq!(labels(&playlist_entries(&odd, 0).unwrap()), vec![(String::from("./s\u{e9}\u{e9}\u{e9}x"), true), (String::from("pop"), false)]);
}

#[test]
fn trimming_removes_outer_whitespace_only() {
    assert_eq!(trim_text("  https://a.example/x?y=1 \n"), "https://a.example/x?y=1");
    assert_eq!(trim_text("\u{a0}a b\u{3000}"), "a b");
    assert_eq!(trim_text(" \t\n "), "");
    assert_eq!(trim_text(""), "");
    assert_eq!(trim_text("x"), "x");
    for t in ["  a  b ", "\n\nz", "q\r\n"] {
        assert_eq!(trim_text(t), t.trim());
    }
}

#[test]
fn audio_address_from_downloader_output() {
    assert_eq!(audio_url(true, "https://audio.example/1\n"), Ok(String::from("https://audio.example/1")));
    assert_eq!(audio_url(false, "anything"), Err(String::from("Failed to download audio")));
}

#[test]
fn focus_ignores_song_count_changes() {
    let mut settings = WaveSettings::new();
    settings.border_color_0 = [1, 1, 1];
    settings.border_color_1 = [9, 9, 9];
    let mut ui = UiState::new(&settings);
    ui.handle_key(Key::Right, KeyModifier::NoModifier, 5);
    ui.handle_key(Key::Down, KeyModifier::NoModifier, 5);
    ui.handle_key(Key::Right, KeyModifier::NoModifier, 2);
    ui.handle_key(Key::Left, KeyModifier::NoModifier, 7);
    ui.handle_key(Key::Left, KeyModifier::NoModifier, 1);
    assert_eq!(ui.current_block, 3);
    assert_eq!(ui.border_color, [[1, 1, 1], [1, 1, 1], [1, 1, 1], [9, 9, 9]]);
}
