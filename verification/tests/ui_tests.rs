use waveform::music::song::{Queue, Song};
use waveform::ui::components::{create_block, BlockLook};
use waveform::ui::{
    enqueue_song, format_song_length, now_playing_message, progress_bar, song_for_title, title_from_path,
    update_interval, Key, KeyModifier, PlayerControl, UiAction, UiState, WaveMeter,
};
use waveform::wave::WaveSettings;

fn settings() -> WaveSettings {
    let mut s = WaveSettings::new();
    s.border_color_0 = [1, 1, 1];
    s.border_color_1 = [9, 9, 9];
    s
}

fn press(ui: &mut UiState, key: Key) -> UiAction {
    ui.handle_key(key, KeyModifier::NoModifier, 3)
}

fn shift(ui: &mut UiState, key: Key) -> UiAction {
    ui.handle_key(key, KeyModifier::Shift, 3)
}

#[test]
fn starts_in_command_input() {
    let ui = UiState::new(&settings());
    assert_eq!(ui.current_block, 3);
    assert_eq!(ui.border_color, [[1, 1, 1], [1, 1, 1], [1, 1, 1], [9, 9, 9]]);
}

#[test]
fn focus_moves_in_a_ring() {
    let mut ui = UiState::new(&settings());
    press(&mut ui, Key::Right);
    assert_eq!(ui.current_block, 0);
    assert_eq!(ui.border_color, [[9, 9, 9], [1, 1, 1], [1, 1, 1], [1, 1, 1]]);
    press(&mut ui, Key::Left);
    assert_eq!(ui.current_block, 3);
    press(&mut ui, Key::Left);
    assert_eq!(ui.current_block, 2);
    assert_eq!(ui.border_color, [[1, 1, 1], [1, 1, 1], [9, 9, 9], [1, 1, 1]]);
}

#[test]
fn typing_and_running_a_command() {
    let mut ui = UiState::new(&settings());
    for c in "download x".chars() {
        press(&mut ui, Key::Char(c));
    }
    shift(&mut ui, Key::Char('Y'));
    press(&mut ui, Key::Backspace);
    assert_eq!(ui.input, "download x");
    match press(&mut ui, Key::Enter) {
        UiAction::RunCommand(args) => assert_eq!(args, vec!["download", "x"]),
        _ => panic!(),
    }
    assert_eq!(ui.input, "");
}

#[test]
fn shift_letters_type_and_control_the_player() {
    let mut ui = UiState::new(&settings());
    assert!(matches!(shift(&mut ui, Key::Char('P')), UiAction::Player(PlayerControl::TogglePause)));
    assert_eq!(ui.input, "P");
    assert!(matches!(shift(&mut ui, Key::Right), UiAction::SeekForward));
    assert!(matches!(shift(&mut ui, Key::Left), UiAction::SeekBackward));
    assert!(matches!(press(&mut ui, Key::Esc), UiAction::Quit));
}

#[test]
fn song_list_keys() {
    let mut ui = UiState::new(&settings());
    press(&mut ui, Key::Right);
    press(&mut ui, Key::Char('z'));
    assert_eq!(ui.input, "");
    press(&mut ui, Key::Up);
    assert_eq!(ui.current_song, 2);
    press(&mut ui, Key::Down);
    assert_eq!(ui.current_song, 0);
    press(&mut ui, Key::Down);
    assert_eq!(ui.current_song, 1);
    assert!(matches!(press(&mut ui, Key::Enter), UiAction::PlaySelected));
    assert!(matches!(shift(&mut ui, Key::Char('A')), UiAction::QueueSelected { at_front: false }));
    assert!(matches!(shift(&mut ui, Key::Char('S')), UiAction::QueueSelected { at_front: true }));
    assert!(matches!(shift(&mut ui, Key::Char('X')), UiAction::Player(PlayerControl::Stop)));
    assert!(matches!(ui.handle_key(Key::Char('a'), KeyModifier::Other, 3), UiAction::Nothing));
}

#[test]
fn queueing_songs() {
    let mut q = Queue::new();
    let o = enqueue_song(&mut q, song_for_title("a"), false);
    assert!(o.added);
    assert_eq!(o.messages, vec!["Appends >> Queue", "  a"]);
    let o = enqueue_song(&mut q, song_for_title("b"), true);
    assert_eq!(o.messages, vec!["Prepends >> Queue", "  b"]);
    let o = enqueue_song(&mut q, song_for_title("a"), true);
    assert!(!o.added);
    assert_eq!(o.messages, vec!["Already in the Queue, press Enter to play now"]);
    assert_eq!(q.describe(), "[[b], [a]]");
}

#[test]
fn song_paths_and_titles() {
    let s: Song = song_for_title("Song \u{e9}");
    assert_eq!(s.path, "./songs/Song \u{e9}.mp3");
    assert_eq!(title_from_path(&s.path).as_deref(), Some("Song \u{e9}"));
    assert_eq!(title_from_path("./songs/.mp3").as_deref(), Some(""));
    assert_eq!(title_from_path("./s.mp3"), None);
    assert_eq!(title_from_path("abc"), None);
    assert_eq!(now_playing_message("x"), "Now playing --> x");
}

#[test]
fn song_lengths() {
    assert_eq!(format_song_length(0), "0:00");
    assert_eq!(format_song_length(5), "00:05");
    assert_eq!(format_song_length(65), "01:05");
    assert_eq!(format_song_length(3600), "60:00");
    assert_eq!(format_song_length(u64::MAX), format!("{}:{:02}", u32::MAX, u64::MAX % 60));
}

#[test]
fn redraw_interval() {
    assert_eq!(update_interval(0), 0);
    assert_eq!(update_interval(180_000), 900);
    assert_eq!(update_interval(199), 0);
}

#[test]
fn progress_bar_has_one_marker() {
    let bar = progress_bar(3);
    assert_eq!(bar.chars().count(), 100);
    assert_eq!(bar.chars().nth(3), Some('\u{29BF}'));
    assert_eq!(bar.chars().filter(|c| *c == '\u{25A0}').count(), 99);
}

#[test]
fn blocks() {
    assert!(matches!(create_block("t", [1, 2, 3], 0), BlockLook::Framed { ref title, color: [1, 2, 3] } if title == "t"));
    assert!(matches!(create_block("t", [1, 2, 3], 1), BlockLook::Bare { .. }));
    assert!(matches!(create_block("t", [1, 2, 3], 7), BlockLook::Plain));
}

#[test]
fn wave_meter_averages_columns() {
    let mut m = WaveMeter::new();
    let mut shown = None;
    let mut fed = 0;
    while shown.is_none() {
        shown = m.feed(10);
        fed += 1;
    }
    // The first column takes 129 amplitudes, the others 128; 149 columns.
    assert_eq!(fed, 129 + 148 * 128);
    let (upper, lower) = shown.unwrap();
    assert_eq!(upper[0], 10);
    assert_eq!(lower[0], 40);
    assert_eq!(upper[148], 10);
    assert_eq!(upper[149], 0);
    assert_eq!(lower[149], 50);
    assert!((0..150).all(|i| upper[i] + lower[i] == 50));
    assert_eq!(m.counter, 0);
}
