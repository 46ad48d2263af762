//! Clipboard capture engine: the poll-cycle lifecycle, the debounce and
//! ignore policy, content-type classification, and the image capture
//! pipeline, with the supporting attribution, settings and export records.

pub mod app_detector;
pub mod app_icons;
pub mod clipboard_monitor;
pub mod content_detector;
pub mod export;
pub mod image_handler;
pub mod settings;
pub mod text;
pub mod updater;
