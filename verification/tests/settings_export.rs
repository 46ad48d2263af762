use copygum::export::get_export_stats;
use copygum::settings::AppSettings;
use copygum::updater::UpdateInfo;

#[test]
fn test_default_settings() {
    let settings = AppSettings::default();

    // General defaults
    assert!(settings.auto_start_monitoring);
    assert!(!settings.show_on_startup);
    assert!(settings.minimize_to_tray);

    // Storage defaults
    assert_eq!(settings.history_limit, 500);
    assert_eq!(settings.auto_delete_days, 0);
    assert!(settings.save_images);
    assert_eq!(settings.max_image_size_mb, 10);

    // Appearance defaults
    assert_eq!(settings.theme, "auto");
    assert_eq!(settings.card_size, "medium");
    assert_eq!(settings.font_size, 14);
    assert!(settings.show_thumbnails);
    assert_eq!(settings.density, "comfortable");
    assert!(settings.accent_color.is_none());
    assert_eq!(settings.window_opacity, 100);
    assert!(!settings.enable_blur);

    // Shortcuts defaults
    assert_eq!(settings.toggle_window_shortcut, "CommandOrControl+Shift+V");
    assert_eq!(settings.search_shortcut, "CommandOrControl+F");

    // Privacy defaults
    assert!(settings.exclude_apps.is_empty());
    assert_eq!(settings.sensitive_keywords.len(), 2);
    assert!(!settings.enable_analytics);

    // First-run defaults
    assert!(!settings.has_shown_overlay_info);
}

#[test]
fn test_sensitive_keywords_default() {
    let settings = AppSettings::default();

    // Default sensitive keywords
    assert!(settings.sensitive_keywords.contains(&"password".to_string()));
    assert!(settings.sensitive_keywords.contains(&"secret".to_string()));
}

#[test]
fn test_export_stats_template() {
    let stats = get_export_stats("2024-01-15T10:30:00Z".to_string());
    assert_eq!(stats.version, "1.0");
    assert_eq!(stats.item_count, 0);
    assert_eq!(stats.export_date, "2024-01-15T10:30:00Z");
}

#[test]
fn test_update_info_none_available() {
    let info = UpdateInfo::none_available();
    assert!(!info.available);
    assert!(info.version.is_none());
    assert!(info.notes.is_none());
    assert!(info.date.is_none());
}
