//! Settings, errors and commands of the player.
use vstd::prelude::*;

pub mod command;
pub mod config;

verus! {

/// The look of the player and the key of the video service.
#[derive(Debug)]
pub struct WaveSettings {
    pub api_key: Option<String>,
    pub border_color_0: [u8; 3],
    pub border_color_1: [u8; 3],
    pub border_color_2: [u8; 3],
    pub border_color_3: [u8; 3],
    pub color_0: [u8; 3],
    pub color_1: [u8; 3],
    pub color_2: [u8; 3],
    pub command_history_length: u64,
}

/// The settings as values: the key's text and each colour's three channels.
pub struct SettingsView {
    pub api_key: Option<Seq<char>>,
    pub border_color_0: Seq<u8>,
    pub border_color_1: Seq<u8>,
    pub border_color_2: Seq<u8>,
    pub border_color_3: Seq<u8>,
    pub color_0: Seq<u8>,
    pub color_1: Seq<u8>,
    pub color_2: Seq<u8>,
    pub command_history_length: u64,
}

impl View for WaveSettings {
    type V = SettingsView;

    open spec fn view(&self) -> SettingsView {
        SettingsView {
            api_key: match self.api_key {
                Some(k) => Some(k@),
                None => None,
            },
            border_color_0: self.border_color_0@,
            border_color_1: self.border_color_1@,
            border_color_2: self.border_color_2@,
            border_color_3: self.border_color_3@,
            color_0: self.color_0@,
            color_1: self.color_1@,
            color_2: self.color_2@,
            command_history_length: self.command_history_length,
        }
    }
}

/// White, as three channels.
pub open spec fn white() -> Seq<u8> {
    seq![255u8, 255u8, 255u8]
}

/// The settings that hold when nothing is configured: no key, every colour
/// white and a history of ten commands.
pub open spec fn default_settings() -> SettingsView {
    SettingsView {
        api_key: None,
        border_color_0: white(),
        border_color_1: white(),
        border_color_2: white(),
        border_color_3: white(),
        color_0: white(),
        color_1: white(),
        color_2: white(),
        command_history_length: 10,
    }
}

impl WaveSettings {
    /// The default settings (see `default_settings`).
    pub fn new() -> (s: Self)
        ensures
            s@ == default_settings(),
    {
        let s = WaveSettings {
            api_key: None,
            border_color_0: [255, 255, 255],
            border_color_1: [255, 255, 255],
            border_color_2: [255, 255, 255],
            border_color_3: [255, 255, 255],
            color_0: [255, 255, 255],
            color_1: [255, 255, 255],
            color_2: [255, 255, 255],
            command_history_length: 10,
        };
        assert(s.border_color_0@ =~= white());
        assert(s.border_color_1@ =~= white());
        assert(s.border_color_2@ =~= white());
        assert(s.border_color_3@ =~= white());
        assert(s.color_0@ =~= white());
        assert(s.color_1@ =~= white());
        assert(s.color_2@ =~= white());
        s
    }
}

/// An error of the player, with the text that explains it.
#[derive(Debug)]
pub struct WaveErr {
    pub log: String,
}

/// The text shown for an error with the explanation `log`.
pub open spec fn wave_error_text(log: Seq<char>) -> Seq<char> {
    "Wave Error: "@ + log
}

impl WaveErr {
    /// An error explained by `log`.
    pub fn new(log: String) -> (e: Self)
        ensures
            e.log == log,
    {
        WaveErr { log }
    }

    /// The text shown for this error: `Wave Error: ` and the explanation.
    pub fn message(&self) -> (m: String)
        ensures
            m@ == wave_error_text(self.log@),
    {
        let mut m = String::from_str("Wave Error: ");
        m.append(self.log.as_str());
        m
    }
}

} // verus!
