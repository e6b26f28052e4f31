//! Translation catalogs: texts of the user interface by key, in English and
//! in Chinese.
use vstd::prelude::*;
use vstd::string::StringExecFns;
use crate::text::{starts_with, str_eq};

verus! {

/// Number of rows of the catalog.
pub const CATALOG_SIZE: usize = 64;

/// Row `i` of the catalog: a key, its English text and its Chinese text.
/// A text of the user interface is added as one row, so that both
/// languages have it.
pub open spec fn catalog_row_spec(i: int) -> (Seq<char>, Seq<char>, Seq<char>) {
    if i == 0 {
        ("tab_general"@, "General"@, "常规"@)
    } else if i == 1 {
        ("tab_appearance"@, "Appearance"@, "外观"@)
    } else if i == 2 {
        ("tab_performance"@, "Performance"@, "性能"@)
    } else if i == 3 {
        ("tab_plugins"@, "Plugins"@, "插件"@)
    } else if i == 4 {
        ("tab_about"@, "About"@, "关于"@)
    } else if i == 5 {
        ("plugin_name"@, "Plugin Name"@, "插件名称"@)
    } else if i == 6 {
        ("plugin_version"@, "Version"@, "版本"@)
    } else if i == 7 {
        ("plugin_author"@, "Author"@, "作者"@)
    } else if i == 8 {
        ("plugin_config"@, "Config"@, "设置"@)
    } else if i == 9 {
        ("plugin_enable"@, "Enable"@, "启用"@)
    } else if i == 10 {
        ("plugin_disable"@, "Disable"@, "禁用"@)
    } else if i == 11 {
        ("no_plugins"@, "No plugins loaded."@, "暂无已加载的插件。"@)
    } else if i == 12 {
        ("global_scale"@, "Global Scale"@, "全局缩放"@)
    } else if i == 13 {
        ("base_width"@, "Base Width"@, "基础宽度"@)
    } else if i == 14 {
        ("base_height"@, "Base Height"@, "基础高度"@)
    } else if i == 15 {
        ("expanded_width"@, "Expanded Width"@, "展开宽度"@)
    } else if i == 16 {
        ("expanded_height"@, "Expanded Height"@, "展开高度"@)
    } else if i == 17 {
        ("adaptive_border"@, "Adaptive Border"@, "自适应边框"@)
    } else if i == 18 {
        ("motion_blur"@, "Motion Blur"@, "动态模糊"@)
    } else if i == 19 {
        ("custom_font"@, "Custom Font"@, "自定义字体"@)
    } else if i == 20 {
        ("font_select"@, "Select"@, "选择"@)
    } else if i == 21 {
        ("font_reset"@, "Reset"@, "重置"@)
    } else if i == 22 {
        ("start_boot"@, "Start at Boot"@, "开机启动"@)
    } else if i == 23 {
        ("auto_hide"@, "Auto Hide"@, "自动隐藏"@)
    } else if i == 24 {
        ("check_updates"@, "Check for Updates"@, "检查更新"@)
    } else if i == 25 {
        ("update_interval"@, "Update Interval (h)"@, "检查更新间隔 (h)"@)
    } else if i == 26 {
        ("language"@, "Language"@, "语言"@)
    } else if i == 27 {
        ("lang_name"@, "English"@, "中文"@)
    } else if i == 28 {
        ("hide_delay"@, "Hide Delay (s)"@, "隐藏延迟 (s)"@)
    } else if i == 29 {
        ("reset_defaults"@, "Reset to Defaults"@, "恢复默认设置"@)
    } else if i == 30 {
        ("visit_homepage"@, "Visit Project Homepage"@, "访问项目主页"@)
    } else if i == 31 {
        ("created_by"@, "Created by"@, "作者"@)
    } else if i == 32 {
        ("window_effect"@, "Window Effect"@, "窗口效果"@)
    } else if i == 33 {
        ("effect_none"@, "None"@, "无"@)
    } else if i == 34 {
        ("effect_acrylic"@, "Acrylic"@, "亚克力"@)
    } else if i == 35 {
        ("effect_mica"@, "Mica"@, "Mica (云母)"@)
    } else if i == 36 {
        ("effect_liquid"@, "Liquid Glass"@, "液态玻璃"@)
    } else if i == 37 {
        ("theme_colors"@, "Theme Colors"@, "主题颜色"@)
    } else if i == 38 {
        ("custom_theme_color"@, "Custom Theme Color"@, "自定义主题颜色"@)
    } else if i == 39 {
        ("is_solid_theme"@, "Solid Theme Color"@, "纯色主题"@)
    } else if i == 40 {
        ("show_progress_bar"@, "Show Progress Bar"@, "显示进度条"@)
    } else if i == 41 {
        ("progress_bar_style"@, "Progress Bar Style"@, "进度条样式"@)
    } else if i == 42 {
        ("style_gradient"@, "Gradient"@, "渐变"@)
    } else if i == 43 {
        ("style_solid"@, "Solid"@, "纯色"@)
    } else if i == 44 {
        ("smooth_transition"@, "Smooth Transition"@, "平滑过渡"@)
    } else if i == 45 {
        ("show_fps"@, "Show FPS"@, "显示帧率 (FPS)"@)
    } else if i == 46 {
        ("show_gpu_status"@, "Show GPU Status"@, "显示 GPU 状态"@)
    } else if i == 47 {
        ("fps_limit"@, "Frame Rate Limit"@, "帧率限制"@)
    } else if i == 48 {
        ("fps_unlimited"@, "Unlimited"@, "无限制"@)
    } else if i == 49 {
        ("use_gpu"@, "GPU Acceleration"@, "GPU 硬件加速"@)
    } else if i == 50 {
        ("music_settings_title"@, "Music Settings"@, "音乐设置"@)
    } else if i == 51 {
        ("smtc_control"@, "SMTC Control"@, "SMTC 控制"@)
    } else if i == 52 {
        ("show_lyrics"@, "Show Lyrics"@, "歌词显示"@)
    } else if i == 53 {
        ("lyrics_source"@, "Lyrics Source"@, "歌词来源"@)
    } else if i == 54 {
        ("lyrics_fallback"@, "Fallback Source"@, "备选来源"@)
    } else if i == 55 {
        ("media_apps"@, "MEDIA APPLICATIONS"@, "媒体应用程序"@)
    } else if i == 56 {
        ("scan_apps"@, "Scan Apps"@, "扫描应用"@)
    } else if i == 57 {
        ("no_sessions"@, "No sessions detected"@, "未检测到运行中的媒体"@)
    } else if i == 58 {
        ("delete"@, "Delete"@, "删除"@)
    } else if i == 59 {
        ("update_available_title"@, "Update Available"@, "发现新版本"@)
    } else if i == 60 {
        ("update_available_desc"@, "A new version of WinIsland is available (Released: {}). Would you like to update now?"@, "WinIsland 有新版本可用 (发布时间: {})。是否现在更新？"@)
    } else if i == 61 {
        ("update_failed_title"@, "Update Failed"@, "更新失败"@)
    } else if i == 62 {
        ("update_failed_dl"@, "Failed to download the new version."@, "无法下载新版本。"@)
    } else {
        ("update_failed_save"@, "Failed to save the new version."@, "无法保存新版本文件。"@)
    }
}

/// Row `i` of the catalog.
pub fn catalog_row(i: usize) -> (r: (&'static str, &'static str, &'static str))
    requires
        i < CATALOG_SIZE,
    ensures
        r.0@ == catalog_row_spec(i as int).0,
        r.1@ == catalog_row_spec(i as int).1,
        r.2@ == catalog_row_spec(i as int).2,
{
    if i == 0 {
        ("tab_general", "General", "常规")
    } else if i == 1 {
        ("tab_appearance", "Appearance", "外观")
    } else if i == 2 {
        ("tab_performance", "Performance", "性能")
    } else if i == 3 {
        ("tab_plugins", "Plugins", "插件")
    } else if i == 4 {
        ("tab_about", "About", "关于")
    } else if i == 5 {
        ("plugin_name", "Plugin Name", "插件名称")
    } else if i == 6 {
        ("plugin_version", "Version", "版本")
    } else if i == 7 {
        ("plugin_author", "Author", "作者")
    } else if i == 8 {
        ("plugin_config", "Config", "设置")
    } else if i == 9 {
        ("plugin_enable", "Enable", "启用")
    } else if i == 10 {
        ("plugin_disable", "Disable", "禁用")
    } else if i == 11 {
        ("no_plugins", "No plugins loaded.", "暂无已加载的插件。")
    } else if i == 12 {
        ("global_scale", "Global Scale", "全局缩放")
    } else if i == 13 {
        ("base_width", "Base Width", "基础宽度")
    } else if i == 14 {
        ("base_height", "Base Height", "基础高度")
    } else if i == 15 {
        ("expanded_width", "Expanded Width", "展开宽度")
    } else if i == 16 {
        ("expanded_height", "Expanded Height", "展开高度")
    } else if i == 17 {
        ("adaptive_border", "Adaptive Border", "自适应边框")
    } else if i == 18 {
        ("motion_blur", "Motion Blur", "动态模糊")
    } else if i == 19 {
        ("custom_font", "Custom Font", "自定义字体")
    } else if i == 20 {
        ("font_select", "Select", "选择")
    } else if i == 21 {
        ("font_reset", "Reset", "重置")
    } else if i == 22 {
        ("start_boot", "Start at Boot", "开机启动")
    } else if i == 23 {
        ("auto_hide", "Auto Hide", "自动隐藏")
    } else if i == 24 {
        ("check_updates", "Check for Updates", "检查更新")
    } else if i == 25 {
        ("update_interval", "Update Interval (h)", "检查更新间隔 (h)")
    } else if i == 26 {
        ("language", "Language", "语言")
    } else if i == 27 {
        ("lang_name", "English", "中文")
    } else if i == 28 {
        ("hide_delay", "Hide Delay (s)", "隐藏延迟 (s)")
    } else if i == 29 {
        ("reset_defaults", "Reset to Defaults", "恢复默认设置")
    } else if i == 30 {
        ("visit_homepage", "Visit Project Homepage", "访问项目主页")
    } else if i == 31 {
        ("created_by", "Created by", "作者")
    } else if i == 32 {
        ("window_effect", "Window Effect", "窗口效果")
    } else if i == 33 {
        ("effect_none", "None", "无")
    } else if i == 34 {
        ("effect_acrylic", "Acrylic", "亚克力")
    } else if i == 35 {
        ("effect_mica", "Mica", "Mica (云母)")
    } else if i == 36 {
        ("effect_liquid", "Liquid Glass", "液态玻璃")
    } else if i == 37 {
        ("theme_colors", "Theme Colors", "主题颜色")
    } else if i == 38 {
        ("custom_theme_color", "Custom Theme Color", "自定义主题颜色")
    } else if i == 39 {
        ("is_solid_theme", "Solid Theme Color", "纯色主题")
    } else if i == 40 {
        ("show_progress_bar", "Show Progress Bar", "显示进度条")
    } else if i == 41 {
        ("progress_bar_style", "Progress Bar Style", "进度条样式")
    } else if i == 42 {
        ("style_gradient", "Gradient", "渐变")
    } else if i == 43 {
        ("style_solid", "Solid", "纯色")
    } else if i == 44 {
        ("smooth_transition", "Smooth Transition", "平滑过渡")
    } else if i == 45 {
        ("show_fps", "Show FPS", "显示帧率 (FPS)")
    } else if i == 46 {
        ("show_gpu_status", "Show GPU Status", "显示 GPU 状态")
    } else if i == 47 {
        ("fps_limit", "Frame Rate Limit", "帧率限制")
    } else if i == 48 {
        ("fps_unlimited", "Unlimited", "无限制")
    } else if i == 49 {
        ("use_gpu", "GPU Acceleration", "GPU 硬件加速")
    } else if i == 50 {
        ("music_settings_title", "Music Settings", "音乐设置")
    } else if i == 51 {
        ("smtc_control", "SMTC Control", "SMTC 控制")
    } else if i == 52 {
        ("show_lyrics", "Show Lyrics", "歌词显示")
    } else if i == 53 {
        ("lyrics_source", "Lyrics Source", "歌词来源")
    } else if i == 54 {
        ("lyrics_fallback", "Fallback Source", "备选来源")
    } else if i == 55 {
        ("media_apps", "MEDIA APPLICATIONS", "媒体应用程序")
    } else if i == 56 {
        ("scan_apps", "Scan Apps", "扫描应用")
    } else if i == 57 {
        ("no_sessions", "No sessions detected", "未检测到运行中的媒体")
    } else if i == 58 {
        ("delete", "Delete", "删除")
    } else if i == 59 {
        ("update_available_title", "Update Available", "发现新版本")
    } else if i == 60 {
        ("update_available_desc", "A new version of WinIsland is available (Released: {}). Would you like to update now?", "WinIsland 有新版本可用 (发布时间: {})。是否现在更新？")
    } else if i == 61 {
        ("update_failed_title", "Update Failed", "更新失败")
    } else if i == 62 {
        ("update_failed_dl", "Failed to download the new version.", "无法下载新版本。")
    } else {
        ("update_failed_save", "Failed to save the new version.", "无法保存新版本文件。")
    }
}

/// The translations of the first `n` rows, in Chinese or in English; a
/// later row for a key replaces an earlier one.
pub open spec fn rows_map(n: int, zh: bool) -> Map<Seq<char>, Seq<char>>
    decreases n,
{
    if n <= 0 {
        Map::empty()
    } else {
        let row = catalog_row_spec(n - 1);
        rows_map(n - 1, zh).insert(row.0, if zh {
            row.2
        } else {
            row.1
        })
    }
}

/// The catalog that a language name selects: Chinese for `zh`, English
/// for anything else.
pub open spec fn lang_catalog(lang: Seq<char>) -> Map<Seq<char>, Seq<char>> {
    rows_map(CATALOG_SIZE as int, lang == "zh"@)
}

/// The map that a list of entries stands for: later entries win.
pub open spec fn entries_map(es: Seq<(String, String)>) -> Map<Seq<char>, Seq<char>>
    decreases es.len(),
{
    if es.len() == 0 {
        Map::empty()
    } else {
        entries_map(es.drop_last()).insert(es.last().0@, es.last().1@)
    }
}

proof fn lemma_entries_map_last(es: Seq<(String, String)>, k: Seq<char>, j: int)
    requires
        -1 <= j < es.len(),
        j >= 0 ==> es[j].0@ == k,
        forall|i: int| j < i < es.len() ==> (#[trigger] es[i]).0@ != k,
    ensures
        j >= 0 ==> entries_map(es).contains_key(k) && entries_map(es)[k] == es[j].1@,
        j < 0 ==> !entries_map(es).contains_key(k),
    decreases es.len(),
{
    if es.len() > 0 && j < es.len() - 1 {
        let t = es.drop_last();
        assert forall|i: int| j < i < t.len() implies (#[trigger] t[i]).0@ != k by {
            assert(t[i] == es[i]);
        }
        assert(es[es.len() - 1].0@ != k);
        lemma_entries_map_last(t, k, j);
        if j >= 0 {
            assert(t[j] == es[j]);
        }
    }
}

/// The texts of the user interface in one language.
pub struct I18n {
    pub current_lang: String,
    translations: Vec<(String, String)>,
}

impl I18n {
    /// The translations by key.
    pub closed spec fn table(&self) -> Map<Seq<char>, Seq<char>> {
        entries_map(self.translations@)
    }

    /// The name of the loaded language.
    pub closed spec fn lang(&self) -> Seq<char> {
        self.current_lang@
    }

    /// An instance that has loaded nothing yet.
    pub fn new() -> (r: I18n)
        ensures
            r.lang() == Seq::<char>::empty(),
            r.table() == Map::<Seq<char>, Seq<char>>::empty(),
    {
        I18n { current_lang: String::new(), translations: Vec::new() }
    }

    /// The state before any language is chosen: English loaded.
    pub fn english() -> (r: I18n)
        ensures
            r.lang() == "en"@,
            r.table() == lang_catalog("en"@),
    {
        let mut i = I18n::new();
        i.load("en");
        i
    }

    /// Replaces the translations with the catalog of `lang`.
    pub fn load(&mut self, lang: &str)
        ensures
            final(self).lang() == lang@,
            final(self).table() == lang_catalog(lang@),
    {
        let zh = str_eq(lang, "zh");
        self.current_lang = String::from_str(lang);
        proof {
            reveal_strlit("zh");
        }
        let mut entries: Vec<(String, String)> = Vec::new();
        let mut i: usize = 0;
        while i < CATALOG_SIZE
            invariant
                i <= CATALOG_SIZE,
                zh == (lang@ == "zh"@),
                entries_map(entries@) == rows_map(i as int, zh),
            decreases CATALOG_SIZE - i,
        {
            let (key, en_text, zh_text) = catalog_row(i);
            let text = if zh {
                zh_text
            } else {
                en_text
            };
            let ghost before = entries@;
            entries.push((String::from_str(key), String::from_str(text)));
            assert(entries@.drop_last() =~= before);
            i += 1;
        }
        self.translations = entries;
    }

    /// The translation of `key`, or `key` itself when there is none.
    pub fn get(&self, key: &str) -> (r: String)
        ensures
            r@ == (if self.table().contains_key(key@) {
                self.table()[key@]
            } else {
                key@
            }),
    {
        let k = String::from_str(key);
        let mut i = self.translations.len();
        while i > 0
            invariant
                i <= self.translations@.len(),
                k@ == key@,
                forall|j: int|
                    i <= j < self.translations@.len() ==> (#[trigger] self.translations@[j]).0@
                        != key@,
            decreases i,
        {
            i -= 1;
            if self.translations[i].0 == k {
                proof {
                    lemma_entries_map_last(self.translations@, key@, i as int);
                }
                return self.translations[i].1.clone();
            }
        }
        proof {
            lemma_entries_map_last(self.translations@, key@, -1);
        }
        k
    }
}

/// Loads the language of the configuration; `auto` stands for the language
/// of the system.
pub fn init_i18n(i18n: &mut I18n, config_lang: &str, system_lang: &str)
    ensures
        final(i18n).lang() == (if config_lang@ == "auto"@ {
            system_lang@
        } else {
            config_lang@
        }),
        final(i18n).table() == lang_catalog(final(i18n).lang()),
{
    if str_eq(config_lang, "auto") {
        i18n.load(system_lang);
    } else {
        i18n.load(config_lang);
    }
}

/// Switches to another language.
pub fn set_lang(i18n: &mut I18n, lang: &str)
    ensures
        final(i18n).lang() == lang@,
        final(i18n).table() == lang_catalog(lang@),
{
    i18n.load(lang);
}

/// The language that is loaded.
pub fn current_lang(i18n: &I18n) -> (r: String)
    ensures
        r@ == i18n.lang(),
{
    i18n.current_lang.clone()
}

/// The text of the user interface for `key` in the loaded language.
pub fn tr(i18n: &I18n, key: &str) -> (r: String)
    ensures
        r@ == (if i18n.table().contains_key(key@) {
            i18n.table()[key@]
        } else {
            key@
        }),
{
    i18n.get(key)
}

/// The language to use on a system whose locale has this name: Chinese for
/// a `zh` locale, English otherwise.
pub fn lang_from_locale(locale: &str) -> (r: String)
    ensures
        r@ == (if locale@.len() >= 2 && locale@.take(2) == "zh"@ {
            "zh"@
        } else {
            "en"@
        }),
{
    proof {
        reveal_strlit("zh");
    }
    if starts_with(locale, "zh") {
        String::from_str("zh")
    } else {
        String::from_str("en")
    }
}

/// Law: every language but Chinese gets the English texts.
pub proof fn lemma_other_languages_are_english(lang: Seq<char>)
    requires
        lang != "zh"@,
    ensures
        lang_catalog(lang) == lang_catalog("en"@),
{
    reveal_strlit("zh");
    reveal_strlit("en");
    assert("en"@[0] != "zh"@[0]);
}

proof fn lemma_rows_same_keys(n: int)
    ensures
        rows_map(n, true).dom() == rows_map(n, false).dom(),
    decreases n,
{
    if n > 0 {
        lemma_rows_same_keys(n - 1);
    }
}

proof fn lemma_row_texts_non_empty(i: int)
    requires
        0 <= i < CATALOG_SIZE,
    ensures
        catalog_row_spec(i).1.len() > 0,
        catalog_row_spec(i).2.len() > 0,
{
    reveal_strlit("General");
    reveal_strlit("常规");
    reveal_strlit("Appearance");
    reveal_strlit("外观");
    reveal_strlit("Performance");
    reveal_strlit("性能");
    reveal_strlit("Plugins");
    reveal_strlit("插件");
    reveal_strlit("About");
    reveal_strlit("关于");
    reveal_strlit("Plugin Name");
    reveal_strlit("插件名称");
    reveal_strlit("Version");
    reveal_strlit("版本");
    reveal_strlit("Author");
    reveal_strlit("作者");
    reveal_strlit("Config");
    reveal_strlit("设置");
    reveal_strlit("Enable");
    reveal_strlit("启用");
    reveal_strlit("Disable");
    reveal_strlit("禁用");
    reveal_strlit("No plugins loaded.");
    reveal_strlit("暂无已加载的插件。");
    reveal_strlit("Global Scale");
    reveal_strlit("全局缩放");
    reveal_strlit("Base Width");
    reveal_strlit("基础宽度");
    reveal_strlit("Base Height");
    reveal_strlit("基础高度");
    reveal_strlit("Expanded Width");
    reveal_strlit("展开宽度");
    reveal_strlit("Expanded Height");
    reveal_strlit("展开高度");
    reveal_strlit("Adaptive Border");
    reveal_strlit("自适应边框");
    reveal_strlit("Motion Blur");
    reveal_strlit("动态模糊");
    reveal_strlit("Custom Font");
    reveal_strlit("自定义字体");
    reveal_strlit("Select");
    reveal_strlit("选择");
    reveal_strlit("Reset");
    reveal_strlit("重置");
    reveal_strlit("Start at Boot");
    reveal_strlit("开机启动");
    reveal_strlit("Auto Hide");
    reveal_strlit("自动隐藏");
    reveal_strlit("Check for Updates");
    reveal_strlit("检查更新");
    reveal_strlit("Update Interval (h)");
    reveal_strlit("检查更新间隔 (h)");
    reveal_strlit("Language");
    reveal_strlit("语言");
    reveal_strlit("English");
    reveal_strlit("中文");
    reveal_strlit("Hide Delay (s)");
    reveal_strlit("隐藏延迟 (s)");
    reveal_strlit("Reset to Defaults");
    reveal_strlit("恢复默认设置");
    reveal_strlit("Visit Project Homepage");
    reveal_strlit("访问项目主页");
    reveal_strlit("Created by");
    reveal_strlit("作者");
    reveal_strlit("Window Effect");
    reveal_strlit("窗口效果");
    reveal_strlit("None");
    reveal_strlit("无");
    reveal_strlit("Acrylic");
    reveal_strlit("亚克力");
    reveal_strlit("Mica");
    reveal_strlit("Mica (云母)");
    reveal_strlit("Liquid Glass");
    reveal_strlit("液态玻璃");
    reveal_strlit("Theme Colors");
    reveal_strlit("主题颜色");
    reveal_strlit("Custom Theme Color");
    reveal_strlit("自定义主题颜色");
    reveal_strlit("Solid Theme Color");
    reveal_strlit("纯色主题");
    reveal_strlit("Show Progress Bar");
    reveal_strlit("显示进度条");
    reveal_strlit("Progress Bar Style");
    reveal_strlit("进度条样式");
    reveal_strlit("Gradient");
    reveal_strlit("渐变");
    reveal_strlit("Solid");
    reveal_strlit("纯色");
    reveal_strlit("Smooth Transition");
    reveal_strlit("平滑过渡");
    reveal_strlit("Show FPS");
    reveal_strlit("显示帧率 (FPS)");
    reveal_strlit("Show GPU Status");
    reveal_strlit("显示 GPU 状态");
    reveal_strlit("Frame Rate Limit");
    reveal_strlit("帧率限制");
    reveal_strlit("Unlimited");
    reveal_strlit("无限制");
    reveal_strlit("GPU Acceleration");
    reveal_strlit("GPU 硬件加速");
    reveal_strlit("Music Settings");
    reveal_strlit("音乐设置");
    reveal_strlit("SMTC Control");
    reveal_strlit("SMTC 控制");
    reveal_strlit("Show Lyrics");
    reveal_strlit("歌词显示");
    reveal_strlit("Lyrics Source");
    reveal_strlit("歌词来源");
    reveal_strlit("Fallback Source");
    reveal_strlit("备选来源");
    reveal_strlit("MEDIA APPLICATIONS");
    reveal_strlit("媒体应用程序");
    reveal_strlit("Scan Apps");
    reveal_strlit("扫描应用");
    reveal_strlit("No sessions detected");
    reveal_strlit("未检测到运行中的媒体");
    reveal_strlit("Delete");
    reveal_strlit("删除");
    reveal_strlit("Update Available");
    reveal_strlit("发现新版本");
    reveal_strlit("A new version of WinIsland is available (Released: {}). Would you like to update now?");
    reveal_strlit("WinIsland 有新版本可用 (发布时间: {})。是否现在更新？");
    reveal_strlit("Update Failed");
    reveal_strlit("更新失败");
    reveal_strlit("Failed to download the new version.");
    reveal_strlit("无法下载新版本。");
    reveal_strlit("Failed to save the new version.");
    reveal_strlit("无法保存新版本文件。");
}

proof fn lemma_rows_non_empty(n: int, zh: bool)
    requires
        n <= CATALOG_SIZE,
    ensures
        forall|k: Seq<char>| #[trigger] rows_map(n, zh).contains_key(k) ==> rows_map(n, zh)[k].len() > 0,
    decreases n,
{
    if n > 0 {
        lemma_rows_non_empty(n - 1, zh);
        lemma_row_texts_non_empty(n - 1);
        let row = catalog_row_spec(n - 1);
        let prev = rows_map(n - 1, zh);
        assert forall|k: Seq<char>| #[trigger] rows_map(n, zh).contains_key(k) implies rows_map(
            n,
            zh,
        )[k].len() > 0 by {
            if k != row.0 {
                assert(prev.contains_key(k));
            }
        }
    }
}

/// Law: the English and the Chinese catalog translate the same keys, and
/// no translation is empty; so for a key of either, `tr` never falls back
/// to the key in either language.
pub proof fn lemma_catalogs_match()
    ensures
        lang_catalog("en"@).dom() == lang_catalog("zh"@).dom(),
        forall|k: Seq<char>|
            #[trigger] lang_catalog("en"@).contains_key(k) ==> lang_catalog("en"@)[k].len() > 0
                && lang_catalog("zh"@)[k].len() > 0,
{
    reveal_strlit("zh");
    reveal_strlit("en");
    assert("en"@[0] != "zh"@[0]);
    lemma_rows_same_keys(CATALOG_SIZE as int);
    lemma_rows_non_empty(CATALOG_SIZE as int, true);
    lemma_rows_non_empty(CATALOG_SIZE as int, false);
}

/// The English texts by key, as the user interface shows them.
pub open spec fn english_texts() -> Map<Seq<char>, Seq<char>> {
    map![
        "tab_general"@ => "General"@,
        "tab_appearance"@ => "Appearance"@,
        "tab_performance"@ => "Performance"@,
        "tab_plugins"@ => "Plugins"@,
        "tab_about"@ => "About"@,
        "plugin_name"@ => "Plugin Name"@,
        "plugin_version"@ => "Version"@,
        "plugin_author"@ => "Author"@,
        "plugin_config"@ => "Config"@,
        "plugin_enable"@ => "Enable"@,
        "plugin_disable"@ => "Disable"@,
        "no_plugins"@ => "No plugins loaded."@,
        "global_scale"@ => "Global Scale"@,
        "base_width"@ => "Base Width"@,
        "base_height"@ => "Base Height"@,
        "expanded_width"@ => "Expanded Width"@,
        "expanded_height"@ => "Expanded Height"@,
        "adaptive_border"@ => "Adaptive Border"@,
        "motion_blur"@ => "Motion Blur"@,
        "custom_font"@ => "Custom Font"@,
        "font_select"@ => "Select"@,
        "font_reset"@ => "Reset"@,
        "start_boot"@ => "Start at Boot"@,
        "auto_hide"@ => "Auto Hide"@,
        "check_updates"@ => "Check for Updates"@,
        "update_interval"@ => "Update Interval (h)"@,
        "language"@ => "Language"@,
        "lang_name"@ => "English"@,
        "hide_delay"@ => "Hide Delay (s)"@,
        "reset_defaults"@ => "Reset to Defaults"@,
        "visit_homepage"@ => "Visit Project Homepage"@,
        "created_by"@ => "Created by"@,
        "window_effect"@ => "Window Effect"@,
        "effect_none"@ => "None"@,
        "effect_acrylic"@ => "Acrylic"@,
        "effect_mica"@ => "Mica"@,
        "effect_liquid"@ => "Liquid Glass"@,
        "theme_colors"@ => "Theme Colors"@,
        "custom_theme_color"@ => "Custom Theme Color"@,
        "is_solid_theme"@ => "Solid Theme Color"@,
        "show_progress_bar"@ => "Show Progress Bar"@,
        "progress_bar_style"@ => "Progress Bar Style"@,
        "style_gradient"@ => "Gradient"@,
        "style_solid"@ => "Solid"@,
        "smooth_transition"@ => "Smooth Transition"@,
        "show_fps"@ => "Show FPS"@,
        "show_gpu_status"@ => "Show GPU Status"@,
        "fps_limit"@ => "Frame Rate Limit"@,
        "fps_unlimited"@ => "Unlimited"@,
        "use_gpu"@ => "GPU Acceleration"@,
        "music_settings_title"@ => "Music Settings"@,
        "smtc_control"@ => "SMTC Control"@,
        "show_lyrics"@ => "Show Lyrics"@,
        "lyrics_source"@ => "Lyrics Source"@,
        "lyrics_fallback"@ => "Fallback Source"@,
        "media_apps"@ => "MEDIA APPLICATIONS"@,
        "scan_apps"@ => "Scan Apps"@,
        "no_sessions"@ => "No sessions detected"@,
        "delete"@ => "Delete"@,
        "update_available_title"@ => "Update Available"@,
        "update_available_desc"@ => "A new version of WinIsland is available (Released: {}). Would you like to update now?"@,
        "update_failed_title"@ => "Update Failed"@,
        "update_failed_dl"@ => "Failed to download the new version."@,
        "update_failed_save"@ => "Failed to save the new version."@,
    ]
}

/// The Chinese texts by key, as the user interface shows them.
pub open spec fn chinese_texts() -> Map<Seq<char>, Seq<char>> {
    map![
        "tab_general"@ => "常规"@,
        "tab_appearance"@ => "外观"@,
        "tab_performance"@ => "性能"@,
        "tab_plugins"@ => "插件"@,
        "tab_about"@ => "关于"@,
        "plugin_name"@ => "插件名称"@,
        "plugin_version"@ => "版本"@,
        "plugin_author"@ => "作者"@,
        "plugin_config"@ => "设置"@,
        "plugin_enable"@ => "启用"@,
        "plugin_disable"@ => "禁用"@,
        "no_plugins"@ => "暂无已加载的插件。"@,
        "global_scale"@ => "全局缩放"@,
        "base_width"@ => "基础宽度"@,
        "base_height"@ => "基础高度"@,
        "expanded_width"@ => "展开宽度"@,
        "expanded_height"@ => "展开高度"@,
        "adaptive_border"@ => "自适应边框"@,
        "motion_blur"@ => "动态模糊"@,
        "custom_font"@ => "自定义字体"@,
        "font_select"@ => "选择"@,
        "font_reset"@ => "重置"@,
        "start_boot"@ => "开机启动"@,
        "auto_hide"@ => "自动隐藏"@,
        "check_updates"@ => "检查更新"@,
        "update_interval"@ => "检查更新间隔 (h)"@,
        "language"@ => "语言"@,
        "lang_name"@ => "中文"@,
        "hide_delay"@ => "隐藏延迟 (s)"@,
        "reset_defaults"@ => "恢复默认设置"@,
        "visit_homepage"@ => "访问项目主页"@,
        "created_by"@ => "作者"@,
        "window_effect"@ => "窗口效果"@,
        "effect_none"@ => "无"@,
        "effect_acrylic"@ => "亚克力"@,
        "effect_mica"@ => "Mica (云母)"@,
        "effect_liquid"@ => "液态玻璃"@,
        "theme_colors"@ => "主题颜色"@,
        "custom_theme_color"@ => "自定义主题颜色"@,
        "is_solid_theme"@ => "纯色主题"@,
        "show_progress_bar"@ => "显示进度条"@,
        "progress_bar_style"@ => "进度条样式"@,
        "style_gradient"@ => "渐变"@,
        "style_solid"@ => "纯色"@,
        "smooth_transition"@ => "平滑过渡"@,
        "show_fps"@ => "显示帧率 (FPS)"@,
        "show_gpu_status"@ => "显示 GPU 状态"@,
        "fps_limit"@ => "帧率限制"@,
        "fps_unlimited"@ => "无限制"@,
        "use_gpu"@ => "GPU 硬件加速"@,
        "music_settings_title"@ => "音乐设置"@,
        "smtc_control"@ => "SMTC 控制"@,
        "show_lyrics"@ => "歌词显示"@,
        "lyrics_source"@ => "歌词来源"@,
        "lyrics_fallback"@ => "备选来源"@,
        "media_apps"@ => "媒体应用程序"@,
        "scan_apps"@ => "扫描应用"@,
        "no_sessions"@ => "未检测到运行中的媒体"@,
        "delete"@ => "删除"@,
        "update_available_title"@ => "发现新版本"@,
        "update_available_desc"@ => "WinIsland 有新版本可用 (发布时间: {})。是否现在更新？"@,
        "update_failed_title"@ => "更新失败"@,
        "update_failed_dl"@ => "无法下载新版本。"@,
        "update_failed_save"@ => "无法保存新版本文件。"@,
    ]
}

/// Law: loading English gives the English texts, loading Chinese the
/// Chinese texts, key by key.
pub proof fn lemma_catalogs_are_the_texts()
    ensures
        lang_catalog("en"@) == english_texts(),
        lang_catalog("zh"@) == chinese_texts(),
{
    reveal_strlit("zh");
    reveal_strlit("en");
    assert("en"@[0] != "zh"@[0]);
    reveal_with_fuel(rows_map, 65);
}

} // verus!


