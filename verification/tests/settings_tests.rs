use winisland::color::{colorref, colorref_channels, sample_grid_totals};
use winisland::config::{
    default_check_for_updates, default_custom_font, default_fps_limit, default_language,
    default_lyrics_source, default_progress_bar_style, default_window_effect, fps_position,
    next_fps_limit, preset_selected, prev_fps_limit, theme_preset, toggled_language,
    ProgressBarStyle, WindowEffect,
};
use winisland::render::{
    background_fill, background_shader, font_runs, font_style_key, has_glass_layers, BackgroundFill,
    GlassShader,
};
use winisland::tray::{toggle_item_text, tray_action, TrayAction};
use winisland::i18n::I18n;
use winisland::updater::{fill_in_text, needs_update, update_prompt, update_script, VersionInfo};

#[test]
fn defaults() {
    assert!(default_check_for_updates());
    assert_eq!(default_custom_font(), None);
    assert_eq!(default_fps_limit(), 60);
    assert_eq!(default_language(), "auto");
    assert_eq!(default_lyrics_source(), "163");
    assert_eq!(default_window_effect(), WindowEffect::NoEffect);
    assert_eq!(default_progress_bar_style(), ProgressBarStyle::Gradient);
}

#[test]
fn window_effects_cycle() {
    let mut e = WindowEffect::NoEffect;
    let mut seen = vec![];
    for _ in 0..4 {
        e = e.next();
        seen.push(e);
    }
    assert_eq!(
        seen,
        vec![WindowEffect::Acrylic, WindowEffect::Mica, WindowEffect::LiquidGlass, WindowEffect::NoEffect]
    );
    assert_eq!(ProgressBarStyle::Gradient.toggled(), ProgressBarStyle::Solid);
    assert_eq!(ProgressBarStyle::Solid.toggled().toggled(), ProgressBarStyle::Solid);
}

#[test]
fn frame_rate_steps() {
    assert_eq!(next_fps_limit(60), 120);
    assert_eq!(next_fps_limit(240), 0);
    assert_eq!(prev_fps_limit(0), 240);
    assert_eq!(prev_fps_limit(30), 0);
    assert_eq!(next_fps_limit(75), 120);
    assert_eq!(prev_fps_limit(75), 30);
    assert_eq!(fps_position(144), 4);
    for f in [0, 30, 60, 120, 144, 160, 240] {
        assert_eq!(prev_fps_limit(next_fps_limit(f)), f);
        assert_eq!(next_fps_limit(prev_fps_limit(f)), f);
    }
}

#[test]
fn language_button() {
    assert_eq!(toggled_language("zh"), "en");
    assert_eq!(toggled_language("en"), "zh");
    assert_eq!(toggled_language("auto"), "zh");
}

#[test]
fn presets() {
    let (name, c1, c2) = theme_preset(1);
    assert_eq!(name, "Sunset");
    assert_eq!(c1, (255, 82, 82, 255));
    assert_eq!(c2, (255, 171, 145, 255));
    assert!(preset_selected(0, 2, (0, 120, 215)));
    assert!(!preset_selected(0, 1, (0, 120, 215)));
    assert!(!preset_selected(4, 2, (0, 120, 215)));
}

#[test]
fn colorref_packing() {
    assert_eq!(colorref(0x12, 0x34, 0x56), 0x0056_3412);
    assert_eq!(colorref_channels(0xFF56_3412), (0x12, 0x34, 0x56));
    for (r, g, b) in [(0u8, 0u8, 0u8), (255, 255, 255), (1, 2, 3)] {
        assert_eq!(colorref_channels(colorref(r, g, b)), (r, g, b));
    }
}

#[test]
fn cover_sampling() {
    // An 8x8 RGBA image whose pixel (x, y) has red x, green y, blue 7.
    let mut px = vec![0u8; 8 * 8 * 4];
    for y in 0..8 {
        for x in 0..8 {
            let i = (y * 8 + x) * 4;
            px[i] = x as u8;
            px[i + 1] = y as u8;
            px[i + 2] = 7;
            px[i + 3] = 255;
        }
    }
    // Grid points at x, y in {2, 4, 6}.
    assert_eq!(sample_grid_totals(&px, 8, 8), (36, 36, 63, 9));
    // A buffer of 100 bytes holds only the first row of grid points.
    assert_eq!(sample_grid_totals(&px[..100].to_vec(), 8, 8), (12, 6, 21, 3));
    assert_eq!(sample_grid_totals(&Vec::new(), 0, 0), (0, 0, 0, 0));
}

#[test]
fn background_choice() {
    assert_eq!(background_shader(WindowEffect::LiquidGlass, 2), Some(GlassShader::Liquid));
    assert_eq!(background_shader(WindowEffect::LiquidGlass, 1), None);
    assert_eq!(background_shader(WindowEffect::Mica, 0), Some(GlassShader::Mica));
    assert_eq!(background_shader(WindowEffect::NoEffect, 5), None);
    assert_eq!(background_fill(WindowEffect::NoEffect, true, 1), BackgroundFill::ThemeSolid);
    assert_eq!(background_fill(WindowEffect::LiquidGlass, false, 1), BackgroundFill::GlassTint);
    assert_eq!(background_fill(WindowEffect::NoEffect, false, 2), BackgroundFill::ThemeGradient);
    assert_eq!(background_fill(WindowEffect::NoEffect, true, 0), BackgroundFill::Black);
    assert!(has_glass_layers(WindowEffect::Acrylic));
    assert!(!has_glass_layers(WindowEffect::NoEffect));
}

#[test]
fn tray_menu() {
    assert_eq!(tray_action("1", "1", "2"), Some(TrayAction::ToggleVisibility));
    assert_eq!(tray_action("2", "1", "2"), Some(TrayAction::Exit));
    assert_eq!(tray_action("3", "1", "2"), None);
    assert_eq!(toggle_item_text(true), "Hide");
    assert_eq!(toggle_item_text(false), "Show");
}

fn v(s: &str) -> VersionInfo {
    VersionInfo { timestamp: s.to_string() }
}

#[test]
fn update_decision() {
    assert!(needs_update(&v("2024-05-01"), None));
    assert!(needs_update(&v("2024-05-02"), Some(&v("2024-05-01"))));
    assert!(!needs_update(&v("2024-05-01"), Some(&v("2024-05-01"))));
    assert!(!needs_update(&v("2024-04-30"), Some(&v("2024-05-01"))));
    assert!(needs_update(&v("2024-05-01 1"), Some(&v("2024-05-01"))));
    assert!(!needs_update(&v(""), Some(&v("a"))));
}

#[test]
fn update_texts() {
    let mut i18n = I18n::new();
    i18n.load("en");
    assert_eq!(
        update_prompt(&i18n, "2024-05-01"),
        "A new version of WinIsland is available (Released: 2024-05-01). Would you like to update now?"
    );
    i18n.load("zh");
    assert_eq!(
        update_prompt(&i18n, "2024-05-01"),
        "WinIsland 有新版本可用 (发布时间: 2024-05-01)。是否现在更新？"
    );
    assert_eq!(fill_in_text("{}-{}{", "ab"), "ab-ab{");
    assert_eq!(fill_in_text("no gap", "x"), "no gap");
    assert_eq!(fill_in_text("{{}}", "x"), "{x}");
    assert_eq!(
        update_script(4242, "C:\\w.exe.new", "C:\\w.exe"),
        "Start-Sleep -Seconds 1; while (Get-Process -Id 4242 -ErrorAction SilentlyContinue) { Start-Sleep -Milliseconds 100 }; Move-Item -Path 'C:\\w.exe.new' -Destination 'C:\\w.exe' -Force; Start-Process -FilePath 'C:\\w.exe'"
    );
}

#[test]
fn font_runs_and_style_keys() {
    assert_eq!(font_runs(&vec![1, 1, 2, 2, 2, 1]), vec![(0, 2), (2, 5), (5, 6)]);
    assert_eq!(font_runs(&vec![7]), vec![(0, 1)]);
    assert!(font_runs(&vec![]).is_empty());
    assert_eq!(font_style_key(700, 5, 1), (700 << 16) | (5 << 8) | 1);
}
