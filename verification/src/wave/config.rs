//! Settings from the environment: after the variable `WAVE_FORM`, the
//! variables that name a setting give its value.
use vstd::prelude::*;

use crate::helper::{parse_rgb, rgb_is_valid, rgb_value};
use crate::text::{parse_unsigned, parses_unsigned, same_text, unsigned_value};
use crate::wave::{default_settings, SettingsView, WaveSettings};

verus! {

/// The setting that an environment variable names.
#[derive(PartialEq, Eq, Structural, Clone, Copy, Debug)]
pub enum EnvKey {
    ApiKey,
    BorderColor0,
    BorderColor1,
    BorderColor2,
    BorderColor3,
    Color0,
    Color1,
    Color2,
    HistoryLength,
    Other,
}

/// The setting that the variable named `k` gives.
pub open spec fn env_key(k: Seq<char>) -> EnvKey {
    if k == "YOUTUBE_API_KEY"@ {
        EnvKey::ApiKey
    } else if k == "BORDER_COLOR_0"@ {
        EnvKey::BorderColor0
    } else if k == "BORDER_COLOR_1"@ {
        EnvKey::BorderColor1
    } else if k == "BORDER_COLOR_2"@ {
        EnvKey::BorderColor2
    } else if k == "BORDER_COLOR_3"@ {
        EnvKey::BorderColor3
    } else if k == "COLOR_0"@ {
        EnvKey::Color0
    } else if k == "COLOR_1"@ {
        EnvKey::Color1
    } else if k == "COLOR_2"@ {
        EnvKey::Color2
    } else if k == "COMMAND_HISTORY_LENGTH"@ {
        EnvKey::HistoryLength
    } else {
        EnvKey::Other
    }
}

/// The setting that the variable named `k` gives.
pub fn classify_env_key(k: &str) -> (r: EnvKey)
    ensures
        r == env_key(k@),
{
    if same_text(k, "YOUTUBE_API_KEY") {
        EnvKey::ApiKey
    } else if same_text(k, "BORDER_COLOR_0") {
        EnvKey::BorderColor0
    } else if same_text(k, "BORDER_COLOR_1") {
        EnvKey::BorderColor1
    } else if same_text(k, "BORDER_COLOR_2") {
        EnvKey::BorderColor2
    } else if same_text(k, "BORDER_COLOR_3") {
        EnvKey::BorderColor3
    } else if same_text(k, "COLOR_0") {
        EnvKey::Color0
    } else if same_text(k, "COLOR_1") {
        EnvKey::Color1
    } else if same_text(k, "COLOR_2") {
        EnvKey::Color2
    } else if same_text(k, "COMMAND_HISTORY_LENGTH") {
        EnvKey::HistoryLength
    } else {
        EnvKey::Other
    }
}

/// Whether the variable `key` holds a colour.
pub open spec fn is_color_key(key: EnvKey) -> bool {
    !(key is ApiKey) && !(key is HistoryLength) && !(key is Other)
}

/// `s` with the colour named by `key` set to `c`.
pub open spec fn with_color(s: SettingsView, key: EnvKey, c: Seq<u8>) -> SettingsView {
    match key {
        EnvKey::BorderColor0 => SettingsView { border_color_0: c, ..s },
        EnvKey::BorderColor1 => SettingsView { border_color_1: c, ..s },
        EnvKey::BorderColor2 => SettingsView { border_color_2: c, ..s },
        EnvKey::BorderColor3 => SettingsView { border_color_3: c, ..s },
        EnvKey::Color0 => SettingsView { color_0: c, ..s },
        EnvKey::Color1 => SettingsView { color_1: c, ..s },
        EnvKey::Color2 => SettingsView { color_2: c, ..s },
        _ => s,
    }
}

/// The settings read so far from the environment, whether `WAVE_FORM` has
/// been seen, and the first variable whose value is not accepted.
pub struct EnvProgress {
    pub settings: SettingsView,
    pub found: bool,
    pub failed: Option<(Seq<char>, Seq<char>)>,
}

/// Reading one more variable `k` with value `v`.
pub open spec fn env_step(p: EnvProgress, k: Seq<char>, v: Seq<char>) -> EnvProgress {
    if p.failed is Some {
        p
    } else {
        let found = p.found || k == "WAVE_FORM"@;
        let key = env_key(k);
        if !found {
            p
        } else if key is ApiKey {
            EnvProgress {
                settings: SettingsView { api_key: Some(v), ..p.settings },
                found: true,
                failed: None,
            }
        } else if key is HistoryLength {
            if parses_unsigned(v, u64::MAX as nat) {
                EnvProgress {
                    settings: SettingsView {
                        command_history_length: unsigned_value(v) as u64,
                        ..p.settings
                    },
                    found: true,
                    failed: None,
                }
            } else {
                EnvProgress { settings: p.settings, found: true, failed: Some((k, v)) }
            }
        } else if is_color_key(key) {
            if rgb_is_valid(v) {
                EnvProgress {
                    settings: with_color(p.settings, key, rgb_value(v)),
                    found: true,
                    failed: None,
                }
            } else {
                EnvProgress { settings: p.settings, found: true, failed: Some((k, v)) }
            }
        } else {
            EnvProgress { settings: p.settings, found: true, failed: None }
        }
    }
}

/// The progress after reading all of `vars`, in order, from the defaults.
pub open spec fn env_progress(vars: Seq<(Seq<char>, Seq<char>)>) -> EnvProgress
    decreases vars.len(),
{
    if vars.len() == 0 {
        EnvProgress { settings: default_settings(), found: false, failed: None }
    } else {
        let last = vars.last();
        env_step(env_progress(vars.drop_last()), last.0, last.1)
    }
}

/// Once a variable is refused, reading more variables changes nothing.
pub proof fn lemma_failure_persists(vars: Seq<(Seq<char>, Seq<char>)>, i: int)
    requires
        0 <= i <= vars.len(),
        env_progress(vars.take(i)).failed is Some,
    ensures
        env_progress(vars) == env_progress(vars.take(i)),
    decreases vars.len(),
{
    if i < vars.len() {
        assert(vars.drop_last().take(i) == vars.take(i));
        lemma_failure_persists(vars.drop_last(), i);
    } else {
        assert(vars.take(i) == vars);
    }
}

/// The names and values of environment variables, as text.
pub open spec fn vars_view(vars: Seq<(String, String)>) -> Seq<(Seq<char>, Seq<char>)> {
    vars.map_values(|p: (String, String)| (p.0@, p.1@))
}

/// A variable whose value cannot be read: a colour that is not three
/// numbers up to 255, or a history length that is not a number.
#[derive(Debug)]
pub struct EnvVarError {
    pub key: String,
    pub value: String,
}

/// The settings that the environment variables `vars` give, read in order
/// (see `env_progress`), or the first variable whose value is not accepted.
pub fn settings_from_vars(vars: &Vec<(String, String)>) -> (r: Result<WaveSettings, EnvVarError>)
    ensures
        match r {
            Ok(s) => env_progress(vars_view(vars@)).failed is None && s@ == env_progress(
                vars_view(vars@),
            ).settings,
            Err(e) => env_progress(vars_view(vars@)).failed == Some((e.key@, e.value@)),
        },
{
    let ghost vs = vars_view(vars@);
    let mut wave = WaveSettings::new();
    let mut found = false;
    let n = vars.len();
    assert(vs.take(0) =~= seq![]);
    for i in 0..n
        invariant
            n == vars@.len(),
            vs == vars_view(vars@),
            env_progress(vs.take(i as int)) == (EnvProgress {
                settings: wave@,
                found,
                failed: None,
            }),
    {
        let k = &vars[i].0;
        let v = &vars[i].1;
        let ghost before = env_progress(vs.take(i as int));
        proof {
            assert(vs.take(i + 1).drop_last() == vs.take(i as int));
            assert(vs.take(i + 1).last() == vs[i as int]);
            assert(vs[i as int] == (k@, v@));
        }
        if same_text(k.as_str(), "WAVE_FORM") {
            found = true;
        }
        if found {
            let key = classify_env_key(k.as_str());
            match key {
                EnvKey::ApiKey => {
                    wave.api_key = Some(v.clone());
                },
                EnvKey::HistoryLength => {
                    match parse_unsigned(v.as_str(), u64::MAX) {
                        Some(len) => {
                            wave.command_history_length = len;
                        },
                        None => {
                            proof {
                                lemma_failure_persists(vs, i + 1);
                            }
                            return Err(EnvVarError { key: k.clone(), value: v.clone() });
                        },
                    }
                },
                EnvKey::Other => {},
                _ => {
                    match parse_rgb(v.as_str()) {
                        Some(c) => {
                            match key {
                                EnvKey::BorderColor0 => {
                                    wave.border_color_0 = c;
                                },
                                EnvKey::BorderColor1 => {
                                    wave.border_color_1 = c;
                                },
                                EnvKey::BorderColor2 => {
                                    wave.border_color_2 = c;
                                },
                                EnvKey::BorderColor3 => {
                                    wave.border_color_3 = c;
                                },
                                EnvKey::Color0 => {
                                    wave.color_0 = c;
                                },
                                EnvKey::Color1 => {
                                    wave.color_1 = c;
                                },
                                _ => {
                                    wave.color_2 = c;
                                },
                            }
                        },
                        None => {
                            proof {
                                lemma_failure_persists(vs, i + 1);
                            }
                            return Err(EnvVarError { key: k.clone(), value: v.clone() });
                        },
                    }
                },
            }
        }
        assert(env_progress(vs.take(i + 1)) == (EnvProgress {
            settings: wave@,
            found,
            failed: None,
        }));
    }
    assert(vs.take(n as int) == vs);
    Ok(wave)
}

} // verus!

verus! {

/// Whether no variable among `vars` is named `WAVE_FORM`.
pub open spec fn lacks_marker(vars: Seq<(Seq<char>, Seq<char>)>) -> bool {
    forall|i: int| 0 <= i < vars.len() ==> (#[trigger] vars[i]).0 != "WAVE_FORM"@
}

proof fn lemma_unmarked_vars_change_nothing(vars: Seq<(Seq<char>, Seq<char>)>)
    requires
        lacks_marker(vars),
    ensures
        env_progress(vars) == (EnvProgress { settings: default_settings(), found: false, failed: None }),
    decreases vars.len(),
{
    if vars.len() > 0 {
        let rest = vars.drop_last();
        assert forall|i: int| 0 <= i < rest.len() implies (#[trigger] rest[i]).0 != "WAVE_FORM"@ by {
            assert(rest[i] == vars[i]);
        }
        lemma_unmarked_vars_change_nothing(rest);
        assert(vars.last() == vars[vars.len() - 1]);
    }
}

/// The variables that come before `WAVE_FORM` have no effect: reading them
/// and then the others gives what reading the others alone gives.
pub proof fn lemma_vars_before_marker_ignored(
    before: Seq<(Seq<char>, Seq<char>)>,
    after: Seq<(Seq<char>, Seq<char>)>,
)
    requires
        lacks_marker(before),
    ensures
        env_progress(before + after) == env_progress(after),
    decreases after.len(),
{
    if after.len() == 0 {
        assert(before + after =~= before);
        lemma_unmarked_vars_change_nothing(before);
    } else {
        lemma_vars_before_marker_ignored(before, after.drop_last());
        assert((before + after).drop_last() =~= before + after.drop_last());
        assert((before + after).last() == after.last());
    }
}

/// Without a variable named `WAVE_FORM` the settings are the defaults.
pub proof fn lemma_no_marker_gives_defaults(vars: Seq<(Seq<char>, Seq<char>)>)
    requires
        lacks_marker(vars),
    ensures
        env_progress(vars).failed is None,
        env_progress(vars).settings == default_settings(),
{
    lemma_unmarked_vars_change_nothing(vars);
}

} // verus!

verus! {

/// The name of colour variable number `i`: the four frame colours
/// `BORDER_COLOR_0` to `BORDER_COLOR_3`, then the text colours `COLOR_0` to
/// `COLOR_2`.
pub open spec fn color_var_name(i: int) -> Seq<char> {
    if i == 0 {
        "BORDER_COLOR_0"@
    } else if i == 1 {
        "BORDER_COLOR_1"@
    } else if i == 2 {
        "BORDER_COLOR_2"@
    } else if i == 3 {
        "BORDER_COLOR_3"@
    } else if i == 4 {
        "COLOR_0"@
    } else if i == 5 {
        "COLOR_1"@
    } else {
        "COLOR_2"@
    }
}

/// The seven colours of some settings, in the order of `color_var_name`.
pub open spec fn colors_of(s: SettingsView) -> Seq<Seq<u8>> {
    seq![
        s.border_color_0,
        s.border_color_1,
        s.border_color_2,
        s.border_color_3,
        s.color_0,
        s.color_1,
        s.color_2,
    ]
}

/// After `WAVE_FORM`, a colour variable with an accepted value sets the
/// colour of the same name, and only it, to the three numbers it holds:
/// `BORDER_COLOR_k` sets `border_color_k` and `COLOR_k` sets `color_k`; the
/// other colours, the key and the history length stay as they were.
pub proof fn lemma_color_variable_sets_its_color(
    vars: Seq<(Seq<char>, Seq<char>)>,
    i: int,
    v: Seq<char>,
)
    requires
        0 <= i < 7,
        env_progress(vars).found,
        env_progress(vars).failed is None,
        rgb_is_valid(v),
    ensures
        ({
            let before = env_progress(vars);
            let after = env_progress(vars.push((color_var_name(i), v)));
            &&& after.failed is None
            &&& after.found
            &&& colors_of(after.settings) == colors_of(before.settings).update(i, rgb_value(v))
            &&& after.settings.api_key == before.settings.api_key
            &&& after.settings.command_history_length == before.settings.command_history_length
        }),
{
    reveal_strlit("YOUTUBE_API_KEY");
    reveal_strlit("BORDER_COLOR_0");
    reveal_strlit("BORDER_COLOR_1");
    reveal_strlit("BORDER_COLOR_2");
    reveal_strlit("BORDER_COLOR_3");
    reveal_strlit("COLOR_0");
    reveal_strlit("COLOR_1");
    reveal_strlit("COLOR_2");
    reveal_strlit("COMMAND_HISTORY_LENGTH");
    let b0 = "BORDER_COLOR_0"@;
    let b1 = "BORDER_COLOR_1"@;
    let b2 = "BORDER_COLOR_2"@;
    let b3 = "BORDER_COLOR_3"@;
    let c0 = "COLOR_0"@;
    let c1 = "COLOR_1"@;
    let c2 = "COLOR_2"@;
    assert(b0[13] != b1[13] && b0[13] != b2[13] && b0[13] != b3[13] && b1[13] != b2[13]
        && b1[13] != b3[13] && b2[13] != b3[13]);
    assert(c0[6] != c1[6] && c0[6] != c2[6] && c1[6] != c2[6]);
    assert(b0 != b1 && b0 != b2 && b0 != b3 && b1 != b2 && b1 != b3 && b2 != b3);
    assert(c0 != c1 && c0 != c2 && c1 != c2);
    let name = color_var_name(i);
    assert(name != "YOUTUBE_API_KEY"@ && name != "COMMAND_HISTORY_LENGTH"@);
    let vars2 = vars.push((color_var_name(i), v));
    assert(vars2.drop_last() =~= vars);
    assert(vars2.last() == (color_var_name(i), v));
    let before = env_progress(vars);
    let after = env_progress(vars2);
    assert(colors_of(after.settings) =~= colors_of(before.settings).update(i, rgb_value(v)));
}

} // verus!
