use waveform::wave::config::{classify_env_key, settings_from_vars, EnvKey};
use waveform::wave::{WaveErr, WaveSettings};

fn vars(v: &[(&str, &str)]) -> Vec<(String, String)> {
    v.iter().map(|(k, v)| (k.to_string(), v.to_string())).collect()
}

#[test]
fn default_settings() {
    let s = WaveSettings::new();
    assert_eq!(s.api_key, None);
    assert_eq!(s.border_color_0, [255, 255, 255]);
    assert_eq!(s.color_2, [255, 255, 255]);
    assert_eq!(s.command_history_length, 10);
}

#[test]
fn variables_after_marker_are_read() {
    let s = settings_from_vars(&vars(&[
        ("COLOR_0", "1,1,1"),
        ("WAVE_FORM", "yes"),
        ("YOUTUBE_API_KEY", "k"),
        ("BORDER_COLOR_0", "1,2,3"),
        ("BORDER_COLOR_3", "4"),
        ("COLOR_1", "0,0,0"),
        ("COMMAND_HISTORY_LENGTH", "25"),
        ("OTHER", "x"),
    ]))
    .unwrap();
    assert_eq!(s.api_key.as_deref(), Some("k"));
    assert_eq!(s.border_color_0, [1, 2, 3]);
    assert_eq!(s.border_color_3, [4, 255, 255]);
    assert_eq!(s.color_0, [255, 255, 255]);
    assert_eq!(s.color_1, [0, 0, 0]);
    assert_eq!(s.command_history_length, 25);
}

#[test]
fn no_marker_gives_defaults() {
    let s = settings_from_vars(&vars(&[("COLOR_0", "bad"), ("YOUTUBE_API_KEY", "k")])).unwrap();
    assert_eq!(s.api_key, None);
    assert_eq!(s.color_0, [255, 255, 255]);
}

#[test]
fn last_value_wins() {
    let s = settings_from_vars(&vars(&[("WAVE_FORM", ""), ("COLOR_2", "1,1,1"), ("COLOR_2", "2,2,2")])).unwrap();
    assert_eq!(s.color_2, [2, 2, 2]);
}

#[test]
fn bad_colour_is_reported() {
    let e = settings_from_vars(&vars(&[("WAVE_FORM", ""), ("COLOR_0", "1,2,300"), ("COLOR_1", "x")])).unwrap_err();
    assert_eq!(e.key, "COLOR_0");
    assert_eq!(e.value, "1,2,300");
}

#[test]
fn bad_history_length_is_reported() {
    let e = settings_from_vars(&vars(&[("WAVE_FORM", ""), ("COMMAND_HISTORY_LENGTH", "-3")])).unwrap_err();
    assert_eq!(e.key, "COMMAND_HISTORY_LENGTH");
}

#[test]
fn keys_are_classified() {
    assert_eq!(classify_env_key("BORDER_COLOR_2"), EnvKey::BorderColor2);
    assert_eq!(classify_env_key("YOUTUBE_API_KEY"), EnvKey::ApiKey);
    assert_eq!(classify_env_key("color_0"), EnvKey::Other);
}

#[test]
fn error_text() {
    let e = WaveErr::new(String::from("No Source found!"));
    assert_eq!(e.log, "No Source found!");
    assert_eq!(e.message(), "Wave Error: No Source found!");
}
