use copygum::app_detector::AppInfo;
use copygum::clipboard_monitor::build_image_record;
use copygum::clipboard_monitor::build_text_record;
use copygum::clipboard_monitor::ClipboardMonitor;
use copygum::clipboard_monitor::poll_branch;
use copygum::clipboard_monitor::ImageDecision;
use copygum::clipboard_monitor::PollBranch;
use copygum::content_detector::ContentType;
use copygum::image_handler::image_fingerprint;
use copygum::image_handler::ImageMetadata;

#[test]
fn test_lifecycle_idempotent() {
    let mut m = ClipboardMonitor::new();
    assert!(!m.is_running());
    // the first start spawns a cycle, the second does not
    assert!(m.start());
    assert!(m.is_running());
    assert!(!m.start());
    assert!(m.is_running());
    // stopping twice leaves the engine stopped without error
    m.stop();
    assert!(!m.is_running());
    m.stop();
    assert!(!m.is_running());
}

#[test]
fn test_debounce_window() {
    let mut m = ClipboardMonitor::new();
    let t0: i64 = 10_000;
    assert!(m.observe_text("XY", t0));
    // a repeat within the one-second window is rejected
    assert!(!m.should_save("XY", t0 + 500));
    // the same repeat after the window has passed is accepted
    assert!(m.should_save("XY", t0 + 1500));
    // exactly at the window boundary it is still rejected
    assert!(!m.should_save("XY", t0 + 1000));
}

#[test]
fn test_new_content_always_accepted() {
    let mut m = ClipboardMonitor::new();
    assert!(m.observe_text("first value", 5_000));
    // different text is accepted immediately, with no waiting
    assert!(m.should_save("second value", 5_001));
}

#[test]
fn test_ignore_log_marker() {
    let m = ClipboardMonitor::new();
    // the [LOG] marker is rejected case-insensitively, whatever else the
    // text holds and however long it is
    assert!(m.should_ignore_content("[LOG] something happened"));
    assert!(m.should_ignore_content("prefix [log] suffix"));
    assert!(!m.should_ignore_content("totally ordinary text"));
}

#[test]
fn test_ignore_patterns() {
    let m = ClipboardMonitor::new();
    assert!(m.should_ignore_content("[ERROR] boom"));
    assert!(m.should_ignore_content("[warn] careful"));
    assert!(m.should_ignore_content("[Info] note"));
    assert!(m.should_ignore_content("[DEBUG] trace"));
    assert!(m.should_ignore_content("console.log(42)"));
    assert!(m.should_ignore_content("Clipboard changed event fired"));
    assert!(m.should_ignore_content("Saved clipboard item 7"));
    assert!(m.should_ignore_content("at main.ts:33"));
    assert!(m.should_ignore_content("at app.js:12"));
    assert!(m.should_ignore_content("(clipboardStore init)"));
    assert!(m.should_ignore_content("(database.ts line)"));
    assert!(!m.should_ignore_content("a perfectly fine sentence"));
}

#[test]
fn test_ignore_short_content() {
    let m = ClipboardMonitor::new();
    assert!(m.should_ignore_content("x"));
    assert!(m.should_ignore_content("  y  "));
    assert!(m.should_ignore_content(""));
    assert!(!m.should_ignore_content("xy"));
}

#[test]
fn test_image_dedup() {
    // identical raw bytes twice in succession: the second observation is a
    // duplicate once the first save is recorded
    let mut m = ClipboardMonitor::new();
    let data: Vec<u8> = vec![9, 8, 7, 6, 5];
    assert_eq!(m.evaluate_image(&data, 10), ImageDecision::Accept);
    let fp = image_fingerprint(&data);
    m.record_image_saved(fp);
    assert_eq!(m.evaluate_image(&data, 10), ImageDecision::Duplicate);
    // different bytes are accepted again
    let other: Vec<u8> = vec![1, 1, 1];
    assert_eq!(m.evaluate_image(&other, 10), ImageDecision::Accept);
}

#[test]
fn test_image_retry_after_failed_save() {
    // when the save fails the fingerprint is not recorded, so the same
    // image is evaluated afresh on the next cycle
    let m = ClipboardMonitor::new();
    let data: Vec<u8> = vec![42, 42, 42];
    assert_eq!(m.evaluate_image(&data, 10), ImageDecision::Accept);
    assert_eq!(m.evaluate_image(&data, 10), ImageDecision::Accept);
}

#[test]
fn test_image_size_policy() {
    let m = ClipboardMonitor::new();
    // over the limit: 2 MiB + 1 byte against a 2 MiB cap
    let big: Vec<u8> = vec![0; 2 * 1024 * 1024 + 1];
    assert_eq!(m.evaluate_image(&big, 2), ImageDecision::TooLarge);
    // exactly at the limit passes
    let exact: Vec<u8> = vec![0; 2 * 1024 * 1024];
    assert_eq!(m.evaluate_image(&exact, 2), ImageDecision::Accept);
    // a zero cap rejects everything but the empty image
    let tiny: Vec<u8> = vec![1];
    assert_eq!(m.evaluate_image(&tiny, 0), ImageDecision::TooLarge);
}

#[test]
fn test_build_text_record() {
    let app = AppInfo { name: "Safari".to_string(), bundle_id: Some("com.apple.Safari".to_string()) };
    let r = build_text_record("#FF5733".to_string(), app, "🧭".to_string());
    assert!(!r.is_image);
    assert_eq!(r.content, "#FF5733");
    assert_eq!(r.content_type, "color");
    assert_eq!(r.category, "color");
    assert_eq!(r.source_app_name, "Safari");
    assert_eq!(r.source_app_icon, "🧭");
    assert_eq!(r.source_bundle_id, Some("com.apple.Safari".to_string()));
    assert!(r.image.is_none());
}

#[test]
fn test_build_image_record() {
    let meta = ImageMetadata {
        image_path: "/tmp/i/1_2.png".to_string(),
        thumbnail_path: "/tmp/i/1_2_thumb.png".to_string(),
        width: 640,
        height: 480,
        file_size: 12345,
        dominant_color: Some("#102030".to_string()),
    };
    let app = AppInfo { name: "Unknown".to_string(), bundle_id: None };
    let r = build_image_record(meta, app, "📋".to_string());
    assert!(r.is_image);
    assert_eq!(r.content, "");
    assert_eq!(r.content_type, "image");
    assert_eq!(r.category, "image");
    let m = r.image.unwrap();
    assert_eq!(m.width, 640);
    assert_eq!(m.height, 480);
    assert_eq!(m.file_size, 12345);
    assert_eq!(m.dominant_color, Some("#102030".to_string()));
}

#[test]
fn test_map_content_type_to_category() {
    let m = ClipboardMonitor::new();
    assert_eq!(m.map_content_type_to_category(&ContentType::Color), "color");
    assert_eq!(m.map_content_type_to_category(&ContentType::Url), "links");
    assert_eq!(m.map_content_type_to_category(&ContentType::Text), "text");
}

#[test]
fn test_truncate_for_display() {
    let m = ClipboardMonitor::new();
    assert_eq!(m.truncate_for_display("short", 10), "short");
    assert_eq!(m.truncate_for_display("a longer line", 6), "a long...");
    assert_eq!(m.truncate_for_display("exact", 5), "exact");
}

#[test]
fn test_observe_text_updates_state() {
    let mut m = ClipboardMonitor::new();
    assert!(m.observe_text("hello there", 1_000));
    // the identical text right afterwards is debounced away
    assert!(!m.observe_text("hello there", 1_200));
    // and accepted again once the window has passed
    assert!(m.observe_text("hello there", 2_500));
}

#[test]
fn test_pause_resume_aliases() {
    let mut m = ClipboardMonitor::new();
    assert!(m.resume());
    assert!(m.is_running());
    m.pause();
    assert!(!m.is_running());
    m.pause();
    assert!(!m.is_running());
    assert!(m.resume());
}

#[test]
fn test_poll_branch_priority() {
    // an image wins over text in a single cycle, but only while image
    // saving is enabled
    assert_eq!(poll_branch(true, true, Some("also text")), PollBranch::CaptureImage);
    assert_eq!(poll_branch(false, true, Some("also text")), PollBranch::CaptureText);
    assert_eq!(poll_branch(true, false, Some("text")), PollBranch::CaptureText);
    // empty or absent text leaves the cycle idle
    assert_eq!(poll_branch(true, false, Some("")), PollBranch::Idle);
    assert_eq!(poll_branch(true, false, None), PollBranch::Idle);
    assert_eq!(poll_branch(false, false, None), PollBranch::Idle);
}
