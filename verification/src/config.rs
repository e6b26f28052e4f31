//! Settings of the widget that involve no measurements: the window effect,
//! the progress bar style, the default values of the switches, and the
//! choices that the settings window steps through.
use vstd::prelude::*;
use vstd::string::StringExecFns;
use crate::text::str_eq;

verus! {

pub const APP_VERSION: &'static str = "1.0.0";

pub const APP_AUTHOR: &'static str = "Eatgrapes";

pub const APP_HOMEPAGE: &'static str = "https://github.com/Eatgrapes/WinIsland";

pub const WINDOW_TITLE: &'static str = "WinIsland";

pub const TOP_OFFSET: i32 = 10;

/// How the background of the island is drawn.
#[derive(Clone, Copy, Debug, PartialEq, Eq, Structural)]
pub enum WindowEffect {
    /// No effect: the plain theme background.
    NoEffect,
    Acrylic,
    Mica,
    LiquidGlass,
}

#[derive(Clone, Copy, Debug, PartialEq, Eq, Structural)]
pub enum ProgressBarStyle {
    Gradient,
    Solid,
}

impl WindowEffect {
    /// The effect that the settings button switches to next:
    /// none, acrylic, mica, liquid glass, and round again.
    pub open spec fn spec_next(self) -> WindowEffect {
        match self {
            WindowEffect::NoEffect => WindowEffect::Acrylic,
            WindowEffect::Acrylic => WindowEffect::Mica,
            WindowEffect::Mica => WindowEffect::LiquidGlass,
            WindowEffect::LiquidGlass => WindowEffect::NoEffect,
        }
    }

    #[verifier::when_used_as_spec(spec_next)]
    pub fn next(self) -> (r: WindowEffect)
        ensures
            r == self.spec_next(),
    {
        match self {
            WindowEffect::NoEffect => WindowEffect::Acrylic,
            WindowEffect::Acrylic => WindowEffect::Mica,
            WindowEffect::Mica => WindowEffect::LiquidGlass,
            WindowEffect::LiquidGlass => WindowEffect::NoEffect,
        }
    }
}

impl ProgressBarStyle {
    pub open spec fn spec_toggled(self) -> ProgressBarStyle {
        match self {
            ProgressBarStyle::Gradient => ProgressBarStyle::Solid,
            ProgressBarStyle::Solid => ProgressBarStyle::Gradient,
        }
    }

    /// The other style.
    #[verifier::when_used_as_spec(spec_toggled)]
    pub fn toggled(self) -> (r: ProgressBarStyle)
        ensures
            r == self.spec_toggled(),
    {
        match self {
            ProgressBarStyle::Gradient => ProgressBarStyle::Solid,
            ProgressBarStyle::Solid => ProgressBarStyle::Gradient,
        }
    }
}

/// Law: stepping through the window effects comes back to the start after
/// four steps, and not before.
pub proof fn lemma_window_effect_cycle(e: WindowEffect)
    ensures
        e.spec_next().spec_next().spec_next().spec_next() == e,
        e.spec_next() != e,
        e.spec_next().spec_next() != e,
        e.spec_next().spec_next().spec_next() != e,
{
}

/// Law: toggling the progress bar style twice gives it back.
pub proof fn lemma_progress_bar_toggle(s: ProgressBarStyle)
    ensures
        s.spec_toggled().spec_toggled() == s,
        s.spec_toggled() != s,
{
}

pub fn default_show_lyrics() -> (r: bool)
    ensures
        r,
{
    true
}

pub fn default_custom_font() -> (r: Option<String>)
    ensures
        r is None,
{
    None
}

pub fn default_auto_start() -> (r: bool)
    ensures
        !r,
{
    false
}

pub fn default_auto_hide() -> (r: bool)
    ensures
        !r,
{
    false
}

pub fn default_check_for_updates() -> (r: bool)
    ensures
        r,
{
    true
}

pub fn default_language() -> (r: String)
    ensures
        r@ == "auto"@,
{
    String::from_str("auto")
}

pub fn default_lyrics_source() -> (r: String)
    ensures
        r@ == "163"@,
{
    String::from_str("163")
}

pub fn default_lyrics_fallback() -> (r: bool)
    ensures
        r,
{
    true
}

pub fn default_fps_limit() -> (r: i32)
    ensures
        r == 60,
{
    60
}

pub fn default_use_gpu() -> (r: bool)
    ensures
        r,
{
    true
}

pub fn default_window_effect() -> (r: WindowEffect)
    ensures
        r == WindowEffect::NoEffect,
{
    WindowEffect::NoEffect
}

pub fn default_smooth_transition() -> (r: bool)
    ensures
        r,
{
    true
}

pub fn default_show_progress_bar() -> (r: bool)
    ensures
        r,
{
    true
}

pub fn default_progress_bar_style() -> (r: ProgressBarStyle)
    ensures
        r == ProgressBarStyle::Gradient,
{
    ProgressBarStyle::Gradient
}

pub fn default_is_solid_theme() -> (r: bool)
    ensures
        !r,
{
    false
}

pub fn default_show_fps() -> (r: bool)
    ensures
        r,
{
    true
}

pub fn default_show_gpu_status() -> (r: bool)
    ensures
        r,
{
    true
}

/// The frame rate limits that the settings offer, 0 standing for none.
pub open spec fn fps_options() -> Seq<i32> {
    seq![0, 30, 60, 120, 144, 160, 240]
}

/// Where a limit stands among the options; a limit that is not one of
/// them counts as 60.
pub open spec fn fps_index(limit: i32) -> int {
    if limit == 0 {
        0
    } else if limit == 30 {
        1
    } else if limit == 60 {
        2
    } else if limit == 120 {
        3
    } else if limit == 144 {
        4
    } else if limit == 160 {
        5
    } else if limit == 240 {
        6
    } else {
        2
    }
}

fn fps_option(i: usize) -> (r: i32)
    requires
        i < 7,
    ensures
        r == fps_options()[i as int],
{
    if i == 0 {
        0
    } else if i == 1 {
        30
    } else if i == 2 {
        60
    } else if i == 3 {
        120
    } else if i == 4 {
        144
    } else if i == 5 {
        160
    } else {
        240
    }
}

/// Position of `limit` among the options (60 when it is none of them).
pub fn fps_position(limit: i32) -> (r: usize)
    ensures
        r == fps_index(limit),
        r < 7,
{
    let mut i: usize = 0;
    while i < 7
        invariant
            i <= 7,
            forall|j: int| 0 <= j < i ==> fps_options()[j] != limit,
        decreases 7 - i,
    {
        if fps_option(i) == limit {
            return i;
        }
        i += 1;
    }
    assert(fps_options()[0] != limit && fps_options()[1] != limit && fps_options()[2] != limit
        && fps_options()[3] != limit && fps_options()[4] != limit && fps_options()[5] != limit
        && fps_options()[6] != limit);
    2
}

/// The next larger frame rate limit, after the largest the first.
pub fn next_fps_limit(limit: i32) -> (r: i32)
    ensures
        r == fps_options()[(fps_index(limit) + 1) % 7],
{
    let i = fps_position(limit);
    fps_option((i + 1) % 7)
}

/// The next smaller frame rate limit, before the first the largest.
pub fn prev_fps_limit(limit: i32) -> (r: i32)
    ensures
        r == fps_options()[if fps_index(limit) == 0 {
            6
        } else {
            fps_index(limit) - 1
        }],
{
    let i = fps_position(limit);
    fps_option(if i == 0 {
        6
    } else {
        i - 1
    })
}

/// Law: a step up and a step down through the frame rate limits cancel
/// out on every offered limit.
pub proof fn lemma_fps_steps_cancel(limit: i32)
    requires
        fps_options().contains(limit),
    ensures
        ({
            let up = fps_options()[(fps_index(limit) + 1) % 7];
            fps_options()[if fps_index(up) == 0 {
                6
            } else {
                fps_index(up) - 1
            }] == limit
        }),
        ({
            let down = fps_options()[if fps_index(limit) == 0 {
                6
            } else {
                fps_index(limit) - 1
            }];
            fps_options()[(fps_index(down) + 1) % 7] == limit
        }),
{
    let k = choose|k: int| 0 <= k < 7 && fps_options()[k] == limit;
    assert(fps_options()[k] == limit);
}

/// The language that the language button switches to: English from
/// Chinese, Chinese from anything else.
pub open spec fn spec_toggled_language(current: Seq<char>) -> Seq<char> {
    if current == "zh"@ {
        "en"@
    } else {
        "zh"@
    }
}

/// Law: pressing the language button twice comes back to English or
/// Chinese, whichever was set.
pub proof fn lemma_language_toggle_twice(current: Seq<char>)
    requires
        current == "en"@ || current == "zh"@,
    ensures
        spec_toggled_language(spec_toggled_language(current)) == current,
{
    reveal_strlit("zh");
    reveal_strlit("en");
    assert("en"@[0] != "zh"@[0]);
}

pub fn toggled_language(current: &str) -> (r: String)
    ensures
        r@ == spec_toggled_language(current@),
{
    if str_eq(current, "zh") {
        String::from_str("en")
    } else {
        String::from_str("zh")
    }
}

/// The colour presets of the appearance page: a name and the two colours
/// (RGBA) of the gradient.
pub open spec fn theme_presets() -> Seq<(Seq<char>, (u8, u8, u8, u8), (u8, u8, u8, u8))> {
    seq![
        ("Azure"@, (0u8, 120u8, 215u8, 255u8), (76u8, 194u8, 255u8, 255u8)),
        ("Sunset"@, (255u8, 82u8, 82u8, 255u8), (255u8, 171u8, 145u8, 255u8)),
        ("Forest"@, (0u8, 180u8, 70u8, 255u8), (130u8, 255u8, 100u8, 255u8)),
        ("Royal"@, (101u8, 31u8, 255u8, 255u8), (224u8, 64u8, 251u8, 255u8)),
        ("Monochrome"@, (66u8, 66u8, 66u8, 255u8), (180u8, 180u8, 180u8, 255u8)),
    ]
}

pub const THEME_PRESET_COUNT: usize = 5;

/// The name and the two colours of preset `i`.
pub fn theme_preset(i: usize) -> (r: (String, (u8, u8, u8, u8), (u8, u8, u8, u8)))
    requires
        i < THEME_PRESET_COUNT,
    ensures
        r.0@ == theme_presets()[i as int].0,
        r.1 == theme_presets()[i as int].1,
        r.2 == theme_presets()[i as int].2,
{
    if i == 0 {
        (String::from_str("Azure"), (0, 120, 215, 255), (76, 194, 255, 255))
    } else if i == 1 {
        (String::from_str("Sunset"), (255, 82, 82, 255), (255, 171, 145, 255))
    } else if i == 2 {
        (String::from_str("Forest"), (0, 180, 70, 255), (130, 255, 100, 255))
    } else if i == 3 {
        (String::from_str("Royal"), (101, 31, 255, 255), (224, 64, 251, 255))
    } else {
        (String::from_str("Monochrome"), (66, 66, 66, 255), (180, 180, 180, 255))
    }
}

/// Whether preset `i` is the one in use: the theme has at least two
/// colours and the first has the preset's red, green and blue.
pub fn preset_selected(i: usize, theme_color_count: usize, first: (u8, u8, u8)) -> (r: bool)
    requires
        i < THEME_PRESET_COUNT,
    ensures
        r == (theme_color_count >= 2 && first.0 == theme_presets()[i as int].1.0 && first.1
            == theme_presets()[i as int].1.1 && first.2 == theme_presets()[i as int].1.2),
{
    if theme_color_count < 2 {
        return false;
    }
    let (_, c1, _) = theme_preset(i);
    first.0 == c1.0 && first.1 == c1.1 && first.2 == c1.2
}

} // verus!
