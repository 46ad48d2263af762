//! Application settings: the configuration object the engine polls every
//! cycle. Reading and writing the settings file is the surrounding
//! application's work; the defaults, which also serve as the fallback when
//! the file cannot be read, are fixed here.

use vstd::prelude::*;

verus! {

/// The full settings record.
#[derive(Debug, Clone)]
pub struct AppSettings {
    // General
    pub auto_start_monitoring: bool,
    pub show_on_startup: bool,
    pub minimize_to_tray: bool,
    // Storage
    pub history_limit: i32,
    pub auto_delete_days: i32,
    pub save_images: bool,
    pub max_image_size_mb: i32,
    // Appearance
    pub theme: String,
    pub card_size: String,
    pub font_size: i32,
    pub show_thumbnails: bool,
    pub density: String,
    pub accent_color: Option<String>,
    pub window_opacity: i32,
    pub enable_blur: bool,
    // Shortcuts
    pub toggle_window_shortcut: String,
    pub search_shortcut: String,
    // Privacy
    pub exclude_apps: Vec<String>,
    pub sensitive_keywords: Vec<String>,
    pub enable_analytics: bool,
    // First-run
    pub has_shown_overlay_info: bool,
}

impl AppSettings {
    /// The default values, also used when the settings file is unreadable:
    /// monitoring starts automatically, images are saved up to 10 MiB, and
    /// the usual appearance and shortcut defaults apply.
    pub open spec fn is_default(self) -> bool {
        &&& self.auto_start_monitoring
        &&& !self.show_on_startup
        &&& self.minimize_to_tray
        &&& self.history_limit == 500
        &&& self.auto_delete_days == 0
        &&& self.save_images
        &&& self.max_image_size_mb == 10
        &&& self.theme@ == "auto"@
        &&& self.card_size@ == "medium"@
        &&& self.font_size == 14
        &&& self.show_thumbnails
        &&& self.density@ == "comfortable"@
        &&& self.accent_color is None
        &&& self.window_opacity == 100
        &&& !self.enable_blur
        &&& self.toggle_window_shortcut@ == "CommandOrControl+Shift+V"@
        &&& self.search_shortcut@ == "CommandOrControl+F"@
        &&& self.exclude_apps@.len() == 0
        &&& self.sensitive_keywords@.len() == 2
        &&& self.sensitive_keywords@[0]@ == "password"@
        &&& self.sensitive_keywords@[1]@ == "secret"@
        &&& !self.enable_analytics
        &&& !self.has_shown_overlay_info
    }
}

impl Default for AppSettings {
    fn default() -> (r: AppSettings)
        ensures
            r.is_default(),
    {
        let mut sensitive_keywords: Vec<String> = Vec::new();
        sensitive_keywords.push("password".to_owned());
        sensitive_keywords.push("secret".to_owned());
        AppSettings {
            auto_start_monitoring: true,
            show_on_startup: false,
            minimize_to_tray: true,
            history_limit: 500,
            auto_delete_days: 0,
            save_images: true,
            max_image_size_mb: 10,
            theme: "auto".to_owned(),
            card_size: "medium".to_owned(),
            font_size: 14,
            show_thumbnails: true,
            density: "comfortable".to_owned(),
            accent_color: None,
            window_opacity: 100,
            enable_blur: false,
            toggle_window_shortcut: "CommandOrControl+Shift+V".to_owned(),
            search_shortcut: "CommandOrControl+F".to_owned(),
            exclude_apps: Vec::new(),
            sensitive_keywords,
            enable_analytics: false,
            has_shown_overlay_info: false,
        }
    }
}

} // verus!
