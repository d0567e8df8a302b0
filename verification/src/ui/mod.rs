//! The decisions of the player's screen: which box has the focus, which
//! song is selected, what a key press does, how songs join the queue, how
//! the sound wave is averaged and how times are shown. Drawing, reading
//! keys and playing sound are done around these functions.
use vstd::prelude::*;

use crate::helper::{command_args, get_command_args};
use crate::music::song::{holds_title, Queue, Song};
use crate::text::{
    byte_range, cuts_at, decimal_repr, decimal_string, decimal_value, digit_value, is_digit,
    lemma_decimal_repr, push_char, slice_between, without_last_char,
};
use crate::wave::WaveSettings;
use vstd::utf8::{
    encode_scalar, encode_utf8, encode_utf8_decode_utf8, encode_utf8_first_scalar,
    encode_utf8_valid_utf8, is_ascii_chars, is_ascii_chars_encode_utf8,
    is_char_boundary_iff_is_leading_byte, is_leading_byte_width_1,
};

pub mod components;

verus! {

/// The box that gets the focus after box `b` (boxes 0 to 3 in a ring:
/// the song list, the task list, the command history, the command input).
pub open spec fn next_block(b: int) -> int {
    if b == 3 {
        0
    } else {
        b + 1
    }
}

/// The box that gets the focus before box `b`.
pub open spec fn previous_block(b: int) -> int {
    if b == 0 {
        3
    } else {
        b - 1
    }
}

/// The song selected after moving up from song `c` in a list of `n` songs:
/// the one above, or the last one from the top.
pub open spec fn song_above(c: int, n: int) -> int {
    if c == 0 {
        n - 1
    } else {
        c - 1
    }
}

/// The song selected after moving down from song `c` in a list of `n`
/// songs: the one below, or the first one from the bottom.
pub open spec fn song_below(c: int, n: int) -> int {
    if c == n - 1 {
        0
    } else {
        c + 1
    }
}

/// A key that was pressed.
#[derive(Clone, Copy, Debug)]
pub enum Key {
    Char(char),
    Backspace,
    Enter,
    Esc,
    Left,
    Right,
    Up,
    Down,
    Other,
}

/// The modifier keys held with a key.
#[derive(Clone, Copy, Debug)]
pub enum KeyModifier {
    NoModifier,
    Shift,
    Other,
}

/// A command to the sound player.
#[derive(PartialEq, Eq, Structural, Clone, Copy, Debug)]
pub enum PlayerControl {
    TogglePause,
    Stop,
    VolumeDown,
    VolumeUp,
    SpeedDown,
    SpeedUp,
}

/// The player command of Shift and the letter `c`: P pauses or resumes, X
/// stops, N and M lower and raise the volume, K and L lower and raise the
/// speed.
pub open spec fn player_control(c: char) -> Option<PlayerControl> {
    if c == 'P' {
        Some(PlayerControl::TogglePause)
    } else if c == 'X' {
        Some(PlayerControl::Stop)
    } else if c == 'N' {
        Some(PlayerControl::VolumeDown)
    } else if c == 'M' {
        Some(PlayerControl::VolumeUp)
    } else if c == 'K' {
        Some(PlayerControl::SpeedDown)
    } else if c == 'L' {
        Some(PlayerControl::SpeedUp)
    } else {
        None
    }
}

fn control_for(c: char) -> (r: Option<PlayerControl>)
    ensures
        r == player_control(c),
{
    if c == 'P' {
        Some(PlayerControl::TogglePause)
    } else if c == 'X' {
        Some(PlayerControl::Stop)
    } else if c == 'N' {
        Some(PlayerControl::VolumeDown)
    } else if c == 'M' {
        Some(PlayerControl::VolumeUp)
    } else if c == 'K' {
        Some(PlayerControl::SpeedDown)
    } else if c == 'L' {
        Some(PlayerControl::SpeedUp)
    } else {
        None
    }
}

/// What the screen asks of the rest of the player after a key press.
pub enum UiAction {
    Nothing,
    Quit,
    /// Run the command typed, split into its arguments.
    RunCommand(Vec<String>),
    /// Play the selected song now.
    PlaySelected,
    /// Add the selected song to the queue, first or last.
    QueueSelected { at_front: bool },
    Player(PlayerControl),
    SeekForward,
    SeekBackward,
}

/// The kind of an action, without the arguments of a command.
pub enum ActionKind {
    Nothing,
    Quit,
    RunCommand,
    PlaySelected,
    QueueSelected(bool),
    Player(PlayerControl),
    SeekForward,
    SeekBackward,
}

/// The kind of the action `a`.
pub open spec fn action_kind(a: UiAction) -> ActionKind {
    match a {
        UiAction::Nothing => ActionKind::Nothing,
        UiAction::Quit => ActionKind::Quit,
        UiAction::RunCommand(_) => ActionKind::RunCommand,
        UiAction::PlaySelected => ActionKind::PlaySelected,
        UiAction::QueueSelected { at_front } => ActionKind::QueueSelected(at_front),
        UiAction::Player(p) => ActionKind::Player(p),
        UiAction::SeekForward => ActionKind::SeekForward,
        UiAction::SeekBackward => ActionKind::SeekBackward,
    }
}

/// The focus, the selected song and the typed text.
pub struct UiView {
    pub block: int,
    pub song: int,
    pub input: Seq<char>,
}

/// The state of the screen after pressing `key` with `modifier`, in a song
/// list of `n` songs.
pub open spec fn after_key(v: UiView, key: Key, modifier: KeyModifier, n: int) -> UiView {
    match modifier {
        KeyModifier::NoModifier => match key {
            Key::Char(c) => if v.block == 3 {
                UiView { input: v.input.push(c), ..v }
            } else {
                v
            },
            Key::Backspace => UiView {
                input: if v.input.len() > 0 {
                    v.input.drop_last()
                } else {
                    v.input
                },
                ..v
            },
            Key::Enter => if v.block == 3 {
                UiView { input: seq![], ..v }
            } else {
                v
            },
            Key::Right => UiView { block: next_block(v.block), ..v },
            Key::Left => UiView { block: previous_block(v.block), ..v },
            Key::Up => if v.block == 0 {
                UiView { song: song_above(v.song, n), ..v }
            } else {
                v
            },
            Key::Down => if v.block == 0 {
                UiView { song: song_below(v.song, n), ..v }
            } else {
                v
            },
            _ => v,
        },
        KeyModifier::Shift => match key {
            Key::Char(c) => if v.block == 3 {
                UiView { input: v.input.push(c), ..v }
            } else {
                v
            },
            _ => v,
        },
        KeyModifier::Other => v,
    }
}

/// The kind of action that pressing `key` with `modifier` asks for, when the
/// box `block` has the focus: Enter runs the typed command or plays the
/// selected song, Esc quits, Shift with A or S in the song list queues the
/// selected song last or first, Shift with a player letter controls the
/// player, Shift with an arrow seeks.
pub open spec fn key_action(block: int, key: Key, modifier: KeyModifier) -> ActionKind {
    match modifier {
        KeyModifier::NoModifier => match key {
            Key::Enter => if block == 3 {
                ActionKind::RunCommand
            } else if block == 0 {
                ActionKind::PlaySelected
            } else {
                ActionKind::Nothing
            },
            Key::Esc => ActionKind::Quit,
            _ => ActionKind::Nothing,
        },
        KeyModifier::Shift => match key {
            Key::Char(c) => if block == 0 && (c == 'A' || c == 'S') {
                ActionKind::QueueSelected(c == 'S')
            } else {
                match player_control(c) {
                    Some(p) => ActionKind::Player(p),
                    None => ActionKind::Nothing,
                }
            },
            Key::Right => ActionKind::SeekForward,
            Key::Left => ActionKind::SeekBackward,
            _ => ActionKind::Nothing,
        },
        KeyModifier::Other => ActionKind::Nothing,
    }
}

/// Whether moving through a list of `n` songs from song `c` can be done:
/// the list is not empty when the selection wraps around, and the next
/// position exists.
pub open spec fn selection_move_ok(c: int, n: int, key: Key) -> bool {
    match key {
        Key::Up => c == 0 ==> n > 0,
        Key::Down => n > 0 && (c != n - 1 ==> c + 1 <= usize::MAX),
        _ => true,
    }
}

/// The screen's state: the box with the focus, the selected song, the
/// typed text, the colour of each box's frame, and the two frame colours.
pub struct UiState {
    pub current_block: usize,
    pub current_song: usize,
    pub border_color: [[u8; 3]; 4],
    pub input: String,
    pub normal_border: [u8; 3],
    pub focused_border: [u8; 3],
}

impl UiState {
    /// The focus is on one of the four boxes, and exactly that box's frame
    /// has the focus colour.
    pub open spec fn wf(&self) -> bool {
        &&& self.current_block < 4
        &&& forall|i: int|
            0 <= i < 4 ==> #[trigger] self.border_color@[i] == if i == self.current_block {
                self.focused_border
            } else {
                self.normal_border
            }
    }

    /// The focus, the selected song and the typed text.
    pub open spec fn view(&self) -> UiView {
        UiView {
            block: self.current_block as int,
            song: self.current_song as int,
            input: self.input@,
        }
    }

    /// The screen at start: the command input has the focus, the first song
    /// is selected, nothing is typed; frames use the settings' first border
    /// colour, and the second one for the box with the focus.
    pub fn new(settings: &WaveSettings) -> (s: UiState)
        ensures
            s.wf(),
            s.current_block == 3,
            s.current_song == 0,
            s.input@ == Seq::<char>::empty(),
            s.normal_border == settings.border_color_0,
            s.focused_border == settings.border_color_1,
    {
        let mut s = UiState {
            current_block: 3,
            current_song: 0,
            border_color: [settings.border_color_0; 4],
            input: String::new(),
            normal_border: settings.border_color_0,
            focused_border: settings.border_color_1,
        };
        s.recolor();
        s
    }

    /// Gives the focus colour to the focused box's frame and the other
    /// colour to the others.
    fn recolor(&mut self)
        requires
            old(self).current_block < 4,
        ensures
            final(self).wf(),
            final(self).current_block == old(self).current_block,
            final(self).current_song == old(self).current_song,
            final(self).input == old(self).input,
            final(self).normal_border == old(self).normal_border,
            final(self).focused_border == old(self).focused_border,
    {
        let mut colors = [self.normal_border; 4];
        colors[self.current_block] = self.focused_border;
        self.border_color = colors;
    }

    /// Handles a key press with `song_count` songs listed (see `after_key`
    /// and `key_action`). The command typed is split by `get_command_args`.
    pub fn handle_key(&mut self, key: Key, modifier: KeyModifier, song_count: usize) -> (action:
        UiAction)
        requires
            old(self).wf(),
            modifier is NoModifier && old(self).current_block == 0 ==> selection_move_ok(
                old(self).current_song as int,
                song_count as int,
                key,
            ),
        ensures
            final(self).wf(),
            final(self).normal_border == old(self).normal_border,
            final(self).focused_border == old(self).focused_border,
            final(self).view() == after_key(old(self).view(), key, modifier, song_count as int),
            action_kind(action) == key_action(old(self).current_block as int, key, modifier),
            action matches UiAction::RunCommand(args) ==> args.deep_view() == command_args(
                old(self).input@,
            ),
    {
        match modifier {
            KeyModifier::NoModifier => match key {
                Key::Char(c) => {
                    if self.current_block == 3 {
                        push_char(&mut self.input, c);
                    }
                    UiAction::Nothing
                },
                Key::Backspace => {
                    self.input = without_last_char(&self.input);
                    UiAction::Nothing
                },
                Key::Enter => {
                    if self.current_block == 3 {
                        let args = get_command_args(self.input.clone());
                        self.input = String::new();
                        assert(self.input@ =~= seq![]);
                        UiAction::RunCommand(args)
                    } else if self.current_block == 0 {
                        UiAction::PlaySelected
                    } else {
                        UiAction::Nothing
                    }
                },
                Key::Esc => UiAction::Quit,
                Key::Right => {
                    if self.current_block == 3 {
                        self.current_block = 0;
                    } else {
                        self.current_block = self.current_block + 1;
                    }
                    self.recolor();
                    UiAction::Nothing
                },
                Key::Left => {
                    if self.current_block == 0 {
                        self.current_block = 3;
                    } else {
                        self.current_block = self.current_block - 1;
                    }
                    self.recolor();
                    UiAction::Nothing
                },
                Key::Up => {
                    if self.current_block == 0 {
                        if self.current_song == 0 {
                            self.current_song = song_count - 1;
                        } else {
                            self.current_song = self.current_song - 1;
                        }
                    }
                    UiAction::Nothing
                },
                Key::Down => {
                    if self.current_block == 0 {
                        if self.current_song == song_count - 1 {
                            self.current_song = 0;
                        } else {
                            self.current_song = self.current_song + 1;
                        }
                    }
                    UiAction::Nothing
                },
                Key::Other => UiAction::Nothing,
            },
            KeyModifier::Shift => match key {
                Key::Char(c) => {
                    if self.current_block == 0 && (c == 'A' || c == 'S') {
                        UiAction::QueueSelected { at_front: c == 'S' }
                    } else {
                        if self.current_block == 3 {
                            push_char(&mut self.input, c);
                        }
                        match control_for(c) {
                            Some(p) => UiAction::Player(p),
                            None => UiAction::Nothing,
                        }
                    }
                },
                Key::Right => UiAction::SeekForward,
                Key::Left => UiAction::SeekBackward,
                _ => UiAction::Nothing,
            },
            KeyModifier::Other => UiAction::Nothing,
        }
    }
}

/// The song played for the list entry `title`: its file is
/// `./songs/<title>.mp3`.
pub fn song_for_title(title: &str) -> (s: Song)
    ensures
        s.title@ == title@,
        s.path@ == "./songs/"@ + title@ + ".mp3"@,
{
    let mut path = String::from_str("./songs/");
    path.append(title);
    path.append(".mp3");
    Song::new(title.to_owned(), path)
}

/// The number of bytes of the text `s`, as `str::len` reports it.
pub open spec fn byte_count(s: Seq<char>) -> int {
    (encode_utf8(s).len() as usize) as int
}

/// The title shown while the song at `path` plays: the path without its
/// first eight and last four bytes, or `None` where those cuts cannot be
/// made.
pub fn title_from_path(path: &str) -> (r: Option<String>)
    ensures
        r is Some <==> (byte_count(path@) >= 4 && 8 <= byte_count(path@) - 4 && cuts_at(
            path@,
            8,
        ) && cuts_at(path@, byte_count(path@) - 4)),
        r matches Some(t) ==> t@ == byte_range(path@, 8, byte_count(path@) - 4),
{
    let len = path.len();
    if len < 4 {
        return None;
    }
    slice_between(path, 8, len - 4)
}

/// The task message when a song starts: `Now playing --> ` and its title.
pub fn now_playing_message(title: &str) -> (m: String)
    ensures
        m@ == "Now playing --> "@ + title@,
{
    let mut m = String::from_str("Now playing --> ");
    m.append(title);
    m
}

/// The outcome of asking to queue a song: whether it was added, and the
/// task messages to show.
pub struct EnqueueOutcome {
    pub added: bool,
    pub messages: Vec<String>,
}

/// Queues `song` first or last unless a song with its title is already
/// waiting; the messages say what happened.
pub fn enqueue_song(queue: &mut Queue, song: Song, at_front: bool) -> (o: EnqueueOutcome)
    ensures
        final(queue)@ == enqueued(old(queue)@, song, at_front),
        holds_title(old(queue)@, song) ==> !o.added && final(queue)@ == old(queue)@
            && o.messages.deep_view() == seq!["Already in the Queue, press Enter to play now"@],
        !holds_title(old(queue)@, song) ==> o.added && final(queue)@ == (if at_front {
            seq![song] + old(queue)@
        } else {
            old(queue)@.push(song)
        }) && o.messages.deep_view() == seq![
            if at_front {
                "Prepends >> Queue"@
            } else {
                "Appends >> Queue"@
            },
            "  "@ + song.title@,
        ],
{
    let mut messages: Vec<String> = Vec::new();
    if queue.contains(&song) {
        messages.push(String::from_str("Already in the Queue, press Enter to play now"));
        assert(messages.deep_view() =~= seq!["Already in the Queue, press Enter to play now"@]);
        return EnqueueOutcome { added: false, messages };
    }
    let mut line = String::from_str("  ");
    line.append(song.title.as_str());
    if at_front {
        messages.push(String::from_str("Prepends >> Queue"));
        queue.add_front(song);
    } else {
        messages.push(String::from_str("Appends >> Queue"));
        queue.push(song);
    }
    messages.push(line);
    assert(messages.deep_view() =~= seq![
        if at_front {
            "Prepends >> Queue"@
        } else {
            "Appends >> Queue"@
        },
        "  "@ + song.title@,
    ]);
    EnqueueOutcome { added: true, messages }
}

/// A number written with at least two digits.
pub open spec fn two_digits(n: nat) -> Seq<char> {
    if n < 10 {
        seq!['0'] + decimal_repr(n)
    } else {
        decimal_repr(n)
    }
}

fn two_digit_string(n: u64) -> (r: String)
    ensures
        r@ == two_digits(n as nat),
{
    let digits = decimal_string(n);
    if n < 10 {
        let mut r = String::from_str("0");
        r.append(digits.as_str());
        proof {
            reveal_strlit("0");
        }
        r
    } else {
        digits
    }
}

/// The minutes shown for a song of `total_secs` seconds (at most the
/// largest `u32`).
pub open spec fn shown_minutes(total_secs: nat) -> nat {
    if total_secs / 60 > u32::MAX {
        u32::MAX as nat
    } else {
        total_secs / 60
    }
}

/// The length shown for a song of `total_secs` seconds: `0:00` for none,
/// else minutes and seconds, each with at least two digits.
pub open spec fn song_length_text(total_secs: nat) -> Seq<char> {
    if total_secs == 0 {
        "0:00"@
    } else {
        two_digits(shown_minutes(total_secs)) + ":"@ + two_digits(total_secs % 60)
    }
}

/// Writes the length of a song of `total_secs` seconds (see
/// `song_length_text`).
pub fn format_song_length(total_secs: u64) -> (r: String)
    ensures
        r@ == song_length_text(total_secs as nat),
{
    if total_secs == 0 {
        return String::from_str("0:00");
    }
    let minutes: u64 = if total_secs / 60 > 4294967295 {
        4294967295
    } else {
        total_secs / 60
    };
    let mut r = two_digit_string(minutes);
    r.append(":");
    let secs = two_digit_string(total_secs % 60);
    r.append(secs.as_str());
    r
}

/// The number of milliseconds between two redraws while a song of
/// `duration_ms` milliseconds plays: a two-hundredth of it.
pub fn update_interval(duration_ms: u128) -> (r: u64)
    ensures
        r == (duration_ms / 200) as u64,
{
    (duration_ms / 200) as u64
}

/// The marker that shows how far the song has played.
pub open spec fn marker_char() -> char {
    '\u{29BF}'
}

/// A square of the progress bar.
pub open spec fn bar_char() -> char {
    '\u{25A0}'
}

/// The progress bar: one hundred squares, with the marker at `marker`.
pub open spec fn progress_bar_text(marker: int) -> Seq<char> {
    Seq::new(100, |i: int| if i == marker { marker_char() } else { bar_char() })
}

/// Draws the progress bar with the marker at `marker`.
pub fn progress_bar(marker: usize) -> (r: String)
    requires
        marker < 100,
    ensures
        r@ == progress_bar_text(marker as int),
{
    let mut r = String::new();
    for i in 0..100usize
        invariant
            marker < 100,
            r@ == progress_bar_text(marker as int).take(i as int),
    {
        if i == marker {
            push_char(&mut r, '\u{29BF}');
        } else {
            push_char(&mut r, '\u{25A0}');
        }
        assert(progress_bar_text(marker as int).take(i + 1) == progress_bar_text(
            marker as int,
        ).take(i as int).push(progress_bar_text(marker as int)[i as int]));
    }
    assert(progress_bar_text(marker as int).take(100) == progress_bar_text(marker as int));
    r
}

/// The number of columns of the sound wave.
pub const WAVE_SIZE: usize = 150;

/// The number of amplitudes averaged into one column.
pub const SAMPLE_COUNT: u64 = 128;

/// The height of the sound wave.
pub const WAVE_HEIGHT: u64 = 50;

/// Averages the amplitudes of a playing song into the columns of the sound
/// wave: every `SAMPLE_COUNT` amplitudes give one column, whose upper part
/// is the average and whose lower part is the rest of `WAVE_HEIGHT`; once
/// all but the last column are written, the wave is shown and writing
/// starts again from the first column.
pub struct WaveMeter {
    pub counter: usize,
    pub sample_count: u64,
    pub sum: u64,
    pub upper: [u64; 150],
    pub lower: [u64; 150],
}

impl WaveMeter {
    /// The column being written is one of the first 149, at most
    /// `SAMPLE_COUNT` amplitudes are pending, and every column's two parts
    /// add up to `WAVE_HEIGHT`.
    pub open spec fn wf(&self) -> bool {
        &&& self.counter < 149
        &&& self.sample_count <= 128
        &&& forall|i: int| 0 <= i < 150 ==> #[trigger] self.upper@[i] + self.lower@[i] == 50
    }

    /// A meter with a flat wave: every upper part 0, every lower part 50.
    pub fn new() -> (m: WaveMeter)
        ensures
            m.wf(),
            m.counter == 0,
            m.sample_count == 0,
            m.sum == 0,
            forall|i: int| 0 <= i < 150 ==> m.upper@[i] == 0 && m.lower@[i] == 50,
    {
        WaveMeter { counter: 0, sample_count: 0, sum: 0, upper: [0; 150], lower: [50; 150] }
    }

    /// Adds one amplitude. When the amplitudes pending make a column, the
    /// column is written; when all but the last column are written, the
    /// wave is returned and the next column is the first.
    pub fn feed(&mut self, amplitude: u64) -> (shown: Option<([u64; 150], [u64; 150])>)
        requires
            old(self).wf(),
            old(self).sum + amplitude <= u64::MAX,
            old(self).sample_count == 128 ==> (old(self).sum + amplitude) / 128 <= 50,
        ensures
            final(self).wf(),
            ({
                let total = old(self).sum + amplitude;
                let full = old(self).sample_count == 128;
                let avg = total / 128;
                let upper = if full {
                    old(self).upper@.update(old(self).counter as int, avg as u64)
                } else {
                    old(self).upper@
                };
                let lower = if full {
                    old(self).lower@.update(old(self).counter as int, (50 - avg) as u64)
                } else {
                    old(self).lower@
                };
                let counter = if full {
                    old(self).counter + 1
                } else {
                    old(self).counter as int
                };
                &&& final(self).upper@ == upper
                &&& final(self).lower@ == lower
                &&& final(self).sum == (if full {
                    0
                } else {
                    total
                })
                &&& final(self).sample_count == (if full {
                    1
                } else {
                    old(self).sample_count + 1
                })
                &&& final(self).counter == (if counter == 149 {
                    0
                } else {
                    counter
                })
                &&& (counter == 149 ==> (shown matches Some((u, l)) && u@ == upper && l@ == lower))
                &&& (counter != 149 ==> shown is None)
            }),
    {
        self.sum = self.sum + amplitude;
        if self.sample_count == SAMPLE_COUNT {
            let avg = self.sum / SAMPLE_COUNT;
            self.upper[self.counter] = avg;
            self.lower[self.counter] = WAVE_HEIGHT - avg;
            self.sample_count = 0;
            self.sum = 0;
            self.counter = self.counter + 1;
        }
        let mut shown = None;
        if self.counter == WAVE_SIZE - 1 {
            shown = Some((self.upper, self.lower));
            self.counter = 0;
        }
        self.sample_count = self.sample_count + 1;
        shown
    }
}

} // verus!

verus! {

/// Moving the focus right and then left gives it back to the same box, and
/// the other way round; four moves right go all the way round.
pub proof fn lemma_focus_ring(v: UiView, n: int)
    requires
        0 <= v.block < 4,
    ensures
        after_key(after_key(v, Key::Right, KeyModifier::NoModifier, n), Key::Left, KeyModifier::NoModifier, n) == v,
        after_key(after_key(v, Key::Left, KeyModifier::NoModifier, n), Key::Right, KeyModifier::NoModifier, n) == v,
        0 <= next_block(v.block) < 4,
        0 <= previous_block(v.block) < 4,
        next_block(next_block(next_block(next_block(v.block)))) == v.block,
{
}

/// In the song list, moving the selection up and then down (or down and then
/// up) selects the same song again, and the selection stays in the list.
pub proof fn lemma_selection_round_trip(v: UiView, n: int)
    requires
        v.block == 0,
        0 <= v.song < n,
    ensures
        after_key(after_key(v, Key::Up, KeyModifier::NoModifier, n), Key::Down, KeyModifier::NoModifier, n) == v,
        after_key(after_key(v, Key::Down, KeyModifier::NoModifier, n), Key::Up, KeyModifier::NoModifier, n) == v,
        0 <= song_above(v.song, n) < n,
        0 <= song_below(v.song, n) < n,
{
}

/// In the command input, typing a character and then pressing Backspace
/// gives back the text typed before.
pub proof fn lemma_backspace_undoes_typing(v: UiView, c: char, n: int)
    requires
        v.block == 3,
    ensures
        after_key(after_key(v, Key::Char(c), KeyModifier::NoModifier, n), Key::Backspace, KeyModifier::NoModifier, n) == v,
{
    assert(v.input.push(c).drop_last() =~= v.input);
}

/// The queue after asking to queue `song`: unchanged when its title is
/// already waiting, else with the song first or last.
pub open spec fn enqueued(q: Seq<Song>, song: Song, at_front: bool) -> Seq<Song> {
    if holds_title(q, song) {
        q
    } else if at_front {
        seq![song] + q
    } else {
        q.push(song)
    }
}

/// No title waits twice.
pub open spec fn distinct_titles(q: Seq<Song>) -> bool {
    forall|i: int, j: int| 0 <= i < j < q.len() ==> (#[trigger] q[i]).title@ != (#[trigger] q[j]).title@
}

/// Queueing a song (as `enqueue_song` does) never makes a title wait twice.
pub proof fn lemma_enqueue_keeps_titles_distinct(q: Seq<Song>, song: Song, at_front: bool)
    requires
        distinct_titles(q),
    ensures
        distinct_titles(enqueued(q, song, at_front)),
{
    if !holds_title(q, song) {
        let r = enqueued(q, song, at_front);
        assert forall|i: int, j: int| 0 <= i < j < r.len() implies (#[trigger] r[i]).title@ != (
        #[trigger] r[j]).title@ by {
            if at_front {
                if i == 0 {
                    assert(r[j] == q[j - 1]);
                } else {
                    assert(r[i] == q[i - 1] && r[j] == q[j - 1]);
                }
            } else {
                if j == q.len() {
                    assert(r[i] == q[i]);
                } else {
                    assert(r[i] == q[i] && r[j] == q[j]);
                }
            }
        }
    }
}

/// The UTF-8 encoding of joined texts is the joined encodings.
proof fn lemma_encode_concat(a: Seq<char>, b: Seq<char>)
    ensures
        encode_utf8(a + b) == encode_utf8(a) + encode_utf8(b),
    decreases a.len(),
{
    if a.len() == 0 {
        assert(a + b =~= b);
        assert(encode_utf8(a) =~= Seq::<u8>::empty());
        assert(encode_utf8(a) + encode_utf8(b) =~= encode_utf8(b));
    } else {
        lemma_encode_concat(a.drop_first(), b);
        assert((a + b).drop_first() =~= a.drop_first() + b);
        assert((a + b)[0] == a[0]);
        assert(encode_scalar(a[0] as u32) + (encode_utf8(a.drop_first()) + encode_utf8(b))
            =~= (encode_scalar(a[0] as u32) + encode_utf8(a.drop_first())) + encode_utf8(b));
    }
}

/// The title shown while a song from the list plays is the title of its
/// entry: `title_from_path` gives back what `song_for_title` put in the
/// path, for any title whose path fits in memory.
pub proof fn lemma_title_round_trip(t: Seq<char>)
    requires
        encode_utf8(t).len() + 12 <= usize::MAX,
    ensures
        ({
            let p = "./songs/"@ + t + ".mp3"@;
            &&& byte_count(p) >= 4
            &&& 8 <= byte_count(p) - 4
            &&& cuts_at(p, 8)
            &&& cuts_at(p, byte_count(p) - 4)
            &&& byte_range(p, 8, byte_count(p) - 4) == t
        }),
{
    reveal_strlit("./songs/");
    reveal_strlit(".mp3");
    let pre = "./songs/"@;
    let suf = ".mp3"@;
    let p = pre + t + suf;
    assert(is_ascii_chars(pre));
    assert(is_ascii_chars(suf));
    is_ascii_chars_encode_utf8(pre);
    is_ascii_chars_encode_utf8(suf);
    lemma_encode_concat(pre, t);
    lemma_encode_concat(pre + t, suf);
    let bytes = encode_utf8(p);
    let eb = encode_utf8(pre);
    let et = encode_utf8(t);
    let es = encode_utf8(suf);
    assert(bytes == eb + et + es);
    assert(bytes.len() == 12 + et.len());
    encode_utf8_valid_utf8(p);
    let hi = bytes.len() - 4;
    assert(bytes[hi] == es[0]);
    assert(es[0] == suf[0] as u8);
    assert(is_leading_byte_width_1(bytes[hi]));
    is_char_boundary_iff_is_leading_byte(bytes, hi);
    if t.len() > 0 {
        encode_utf8_first_scalar(t);
        assert(bytes[8] == et[0]);
        is_char_boundary_iff_is_leading_byte(bytes, 8);
    } else {
        assert(bytes[8] == es[0]);
        is_char_boundary_iff_is_leading_byte(bytes, 8);
    }
    assert(bytes.subrange(8, hi) =~= et);
    encode_utf8_decode_utf8(t);
}

} // verus!

verus! {

/// The state after the key presses `keys`, in order, each a key, its
/// modifiers and the number of songs listed when it was pressed.
pub open spec fn after_keys(v: UiView, keys: Seq<(Key, KeyModifier, int)>) -> UiView
    decreases keys.len(),
{
    if keys.len() == 0 {
        v
    } else {
        after_key(after_keys(v, keys.drop_last()), keys.last().0, keys.last().1, keys.last().2)
    }
}

/// The number of presses in `keys` of Right (`right`) or of Left (not
/// `right`) without modifiers.
pub open spec fn arrow_presses(keys: Seq<(Key, KeyModifier, int)>, right: bool) -> int
    decreases keys.len(),
{
    if keys.len() == 0 {
        0
    } else {
        let k = keys.last();
        let counted = k.1 is NoModifier && (if right {
            k.0 is Right
        } else {
            k.0 is Left
        });
        arrow_presses(keys.drop_last(), right) + if counted {
            1int
        } else {
            0int
        }
    }
}

/// Whatever keys are pressed, and however the song list changes between
/// them, the box with the focus is the first one plus
/// the presses of Right minus those of Left, around the ring of four boxes;
/// from the start (the command input, box 3) it is 3 + rights - lefts,
/// modulo 4. `UiState::handle_key` follows `after_key` and keeps that box's
/// frame, and only it, in the focus colour.
pub proof fn lemma_focus_counts_arrows(v: UiView, keys: Seq<(Key, KeyModifier, int)>)
    requires
        0 <= v.block < 4,
    ensures
        after_keys(v, keys).block == (v.block + arrow_presses(keys, true) - arrow_presses(
            keys,
            false,
        )) % 4,
    decreases keys.len(),
{
    if keys.len() > 0 {
        let rest = keys.drop_last();
        lemma_focus_counts_arrows(v, rest);
        let before = after_keys(v, rest);
        let t = v.block + arrow_presses(rest, true) - arrow_presses(rest, false);
        assert(before.block == t % 4);
        assert(0 <= before.block < 4);
        assert((t + 1) % 4 == if t % 4 == 3 { 0 } else { t % 4 + 1 });
        assert((t - 1) % 4 == if t % 4 == 0 { 3 } else { t % 4 - 1 });
    }
}

/// From the start of the screen (the command input has the focus), after
/// any keys with `r` presses of Right and `l` of Left, however many songs
/// were listed at each press, the frame of box (3 + r - l) mod 4 has the
/// focus colour and the other three frames the normal colour.
pub proof fn lemma_focus_frames(s: UiState, start: UiView, keys: Seq<(Key, KeyModifier, int)>)
    requires
        s.wf(),
        start.block == 3,
        s.view() == after_keys(start, keys),
    ensures
        forall|i: int|
            0 <= i < 4 ==> #[trigger] s.border_color@[i] == if i == (3 + arrow_presses(keys, true)
                - arrow_presses(keys, false)) % 4 {
                s.focused_border
            } else {
                s.normal_border
            },
{
    lemma_focus_counts_arrows(start, keys);
}

} // verus!

verus! {

/// Where a seek lands from a position of `secs` seconds and `nanos`
/// nanoseconds: ten seconds on when `forward`, else ten seconds back but not
/// before the start.
pub fn seek_target(secs: u64, nanos: u32, forward: bool) -> (r: (u64, u32))
    requires
        forward ==> secs + 10 <= u64::MAX,
    ensures
        forward ==> r == ((secs + 10) as u64, nanos),
        !forward ==> r == (if secs < 10 {
            (0u64, 0u32)
        } else {
            ((secs - 10) as u64, nanos)
        }),
{
    if forward {
        (secs + 10, nanos)
    } else if secs < 10 {
        (0, 0)
    } else {
        (secs - 10, nanos)
    }
}

/// The song to start: when the player is idle, the first waiting song (taken
/// out of the queue); otherwise none, and the queue is unchanged.
pub fn next_to_play(queue: &mut Queue, idle: bool) -> (r: Option<Song>)
    ensures
        !idle ==> r is None && final(queue)@ == old(queue)@,
        idle && old(queue)@.len() == 0 ==> r is None && final(queue)@ == old(queue)@,
        idle && old(queue)@.len() > 0 ==> r == Some(old(queue)@[0])
            && final(queue)@ == old(queue)@.drop_first(),
{
    if idle {
        queue.get_first()
    } else {
        None
    }
}

} // verus!

verus! {

/// Whatever box has the focus, Shift with P pauses or resumes, with X stops,
/// with M raises and with N lowers the volume, with L raises and with K
/// lowers the speed; Shift with any other letter asks for nothing, except A
/// and S in the song list, which queue the selected song last and first.
pub proof fn lemma_player_letters(block: int, c: char)
    requires
        0 <= block < 4,
    ensures
        key_action(block, Key::Char('P'), KeyModifier::Shift) == ActionKind::Player(
            PlayerControl::TogglePause,
        ),
        key_action(block, Key::Char('X'), KeyModifier::Shift) == ActionKind::Player(
            PlayerControl::Stop,
        ),
        key_action(block, Key::Char('M'), KeyModifier::Shift) == ActionKind::Player(
            PlayerControl::VolumeUp,
        ),
        key_action(block, Key::Char('N'), KeyModifier::Shift) == ActionKind::Player(
            PlayerControl::VolumeDown,
        ),
        key_action(block, Key::Char('L'), KeyModifier::Shift) == ActionKind::Player(
            PlayerControl::SpeedUp,
        ),
        key_action(block, Key::Char('K'), KeyModifier::Shift) == ActionKind::Player(
            PlayerControl::SpeedDown,
        ),
        key_action(0, Key::Char('A'), KeyModifier::Shift) == ActionKind::QueueSelected(false),
        key_action(0, Key::Char('S'), KeyModifier::Shift) == ActionKind::QueueSelected(true),
        c != 'P' && c != 'X' && c != 'M' && c != 'N' && c != 'L' && c != 'K' && !(block == 0 && (c
            == 'A' || c == 'S')) ==> key_action(block, Key::Char(c), KeyModifier::Shift)
            == ActionKind::Nothing,
{
}

} // verus!

verus! {

/// A number written with at least two digits is only digits, denotes the
/// number, and has exactly two digits below one hundred.
proof fn lemma_two_digits(n: nat)
    ensures
        two_digits(n).len() >= 2,
        n < 100 ==> two_digits(n).len() == 2,
        forall|i: int| 0 <= i < two_digits(n).len() ==> is_digit(#[trigger] two_digits(n)[i]),
        decimal_value(two_digits(n)) == n,
{
    lemma_decimal_repr(n);
    let d = decimal_repr(n);
    if n < 10 {
        let t = seq!['0'] + d;
        assert(d =~= seq![d[0]]);
        assert(t.drop_last() =~= seq!['0']);
        assert(seq!['0'].drop_last() =~= Seq::<char>::empty());
        assert(t.last() == d[0]);
        assert(decimal_value(seq!['0']) == 0) by {
            let z = seq!['0'];
            assert(z.drop_last() =~= Seq::<char>::empty());
            assert(z.last() == '0');
            assert(decimal_value(Seq::<char>::empty()) == 0);
            assert(decimal_value(z.drop_last()) == 0);
            assert(('0' as u32) == 48);
            assert(decimal_value(z) == decimal_value(z.drop_last()) * 10 + digit_value(z.last()));
        }
        assert(decimal_value(d.drop_last()) == 0) by {
            assert(d.drop_last() =~= Seq::<char>::empty());
        }
        assert forall|i: int| 0 <= i < t.len() implies is_digit(#[trigger] t[i]) by {
            if i > 0 {
                assert(t[i] == d[i - 1]);
            }
        }
    } else {
        assert(d.len() >= 2) by {
            lemma_decimal_repr(n / 10);
        }
        if n < 100 {
            assert(n / 10 < 10);
            assert(decimal_repr(n / 10).len() == 1);
            assert(d.len() == 2);
        }
    }
}

/// The length shown for a song of `m` minutes and `s` seconds reads back as
/// that length: the digits before the colon denote `m`, the two digits after
/// it denote `s`, so the shown minutes times sixty plus the shown seconds
/// give the song's length in seconds.
pub proof fn lemma_song_length_reads_back(m: nat, s: nat)
    requires
        m <= u32::MAX,
        s < 60,
        60 * m + s > 0,
    ensures
        song_length_text(60 * m + s) == two_digits(m) + ":"@ + two_digits(s),
        ({
            let t = song_length_text(60 * m + s);
            let k = two_digits(m).len() as int;
            &&& t[k] == ':'
            &&& forall|i: int| 0 <= i < k ==> is_digit(#[trigger] t[i])
            &&& decimal_value(t.take(k)) == m
            &&& t.skip(k + 1).len() == 2
            &&& decimal_value(t.skip(k + 1)) == s
            &&& 60 * decimal_value(t.take(k)) + decimal_value(t.skip(k + 1)) == 60 * m + s
        }),
{
    reveal_strlit(":");
    assert((60 * m + s) / 60 == m) by (nonlinear_arith)
        requires
            s < 60,
    ;
    assert((60 * m + s) % 60 == s) by (nonlinear_arith)
        requires
            s < 60,
    ;
    lemma_two_digits(m);
    lemma_two_digits(s);
    let t = song_length_text(60 * m + s);
    let k = two_digits(m).len() as int;
    assert(t.take(k) =~= two_digits(m));
    assert(t.skip(k + 1) =~= two_digits(s));
    assert forall|i: int| 0 <= i < k implies is_digit(#[trigger] t[i]) by {
        assert(t[i] == two_digits(m)[i]);
    }
}

} // verus!

verus! {

/// A song counts as already waiting exactly when a waiting song has the very
/// same title (not merely one that starts or ends like it): then asking to
/// queue it leaves the queue as it is, and otherwise the song is added first
/// or last. `Queue::contains` answers the same question.
pub proof fn lemma_enqueue_by_exact_title(q: Seq<Song>, song: Song, at_front: bool, i: int)
    ensures
        (forall|j: int| 0 <= j < q.len() ==> (#[trigger] q[j]).title@ != song.title@) ==> (
        !holds_title(q, song) && enqueued(q, song, at_front) == if at_front {
            seq![song] + q
        } else {
            q.push(song)
        }),
        0 <= i < q.len() && q[i].title@ == song.title@ ==> (holds_title(q, song) && enqueued(
            q,
            song,
            at_front,
        ) == q),
{
}

} // verus!
