use copygum::app_detector::get_frontmost_app;
use copygum::app_icons::get_app_icon;
use copygum::app_icons::get_app_icon_data;
use copygum::app_icons::get_icon_by_bundle_id;
use copygum::app_icons::get_icon_by_name;
use copygum::app_icons::get_system_icon;
use copygum::app_icons::IconCache;

#[test]
fn test_get_frontmost_app() {
    let app_info = get_frontmost_app();
    println!("Frontmost app: {:?}", app_info);
    // Should return some app info (at least "Unknown" if detection fails)
    assert!(!app_info.name.is_empty());
}

#[test]
fn test_get_icon_by_bundle_id() {
    assert_eq!(get_icon_by_bundle_id("com.google.Chrome"), Some("🌐"));
    assert_eq!(get_icon_by_bundle_id("com.apple.Safari"), Some("🧭"));
    assert_eq!(get_icon_by_bundle_id("unknown.app"), None);
}

#[test]
fn test_get_icon_by_name() {
    assert_eq!(get_icon_by_name("Google Chrome"), Some("🌐"));
    assert_eq!(get_icon_by_name("Safari"), Some("🧭"));
    assert_eq!(get_icon_by_name("Unknown App"), None);
}

#[test]
fn test_get_app_icon() {
    // Bundle ID takes priority
    assert_eq!(get_app_icon(Some("com.google.Chrome"), "Chrome"), "🌐");

    // Falls back to name
    assert_eq!(get_app_icon(None, "Google Chrome"), "🌐");

    // Returns default for unknown
    assert_eq!(get_app_icon(None, "Unknown App"), "📋");
}

#[test]
fn test_get_app_icon_data_fallback() {
    // Should return emoji for unknown app
    let result = get_app_icon_data(None, "Unknown App".to_string());
    assert_eq!(result, "📋");

    // Should return emoji for known app by name
    let result = get_app_icon_data(None, "Safari".to_string());
    assert_eq!(result, "🧭");
}

#[test]
fn test_system_icon_unavailable() {
    // Without a native icon service every lookup misses
    assert_eq!(get_system_icon("com.google.Chrome"), None);
}

#[test]
fn test_icon_cache_hit_and_negative_entry() {
    let mut cache = IconCache::new();
    // miss: the fetched verdict is cached and returned
    let r = cache.resolve("com.example.app", Some("icon-bytes".to_string()));
    assert_eq!(r, Some("icon-bytes".to_string()));
    // hit: the cached verdict is returned, whatever is fetched now
    let r = cache.resolve("com.example.app", Some("other".to_string()));
    assert_eq!(r, Some("icon-bytes".to_string()));
    // a negative verdict is cached too
    let r = cache.resolve("com.example.missing", None);
    assert_eq!(r, None);
    let r = cache.resolve("com.example.missing", Some("late".to_string()));
    assert_eq!(r, None);
}
