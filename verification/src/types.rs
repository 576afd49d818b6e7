//! Plain record types exchanged with the surrounding program: the
//! foreground-application identity, the persisted entry shapes, and the
//! settings and statistics views.

use vstd::prelude::*;

verus! {

/// The identity of the foreground application at the moment of a raw
/// clipboard signal.
#[derive(Clone)]
pub struct AppWindowInfo {
    /// Display name, from the executable's file stem.
    pub name: String,
    /// Full path of the executable.
    pub exe_path: String,
    /// The application icon as a base64 PNG, when one could be extracted.
    pub icon_base64: Option<String>,
    /// True when the window belongs to this process itself.
    pub is_self: bool,
}

/// A source application as the persistence layer reports it.
#[derive(Clone)]
pub struct AppInfo {
    pub id: i64,
    pub name: String,
    pub exe_path: String,
    pub icon_base64: Option<String>,
    pub entry_count: i64,
    pub is_favorite: bool,
}

/// One stored clipboard entry.
#[derive(Clone)]
pub struct ClipboardEntry {
    pub id: i64,
    pub app_id: i64,
    pub content_type: String,
    pub text_content: Option<String>,
    pub image_path: Option<String>,
    pub created_at: String,
    pub source_url: Option<String>,
    pub is_favorite: bool,
    pub is_sensitive: bool,
    pub html_content: Option<String>,
}

/// A deleted entry as kept for undo, with raw flag values.
#[derive(Clone)]
pub struct DeletedEntry {
    pub id: i64,
    pub app_id: i64,
    pub content_type: String,
    pub text_content: Option<String>,
    pub image_path: Option<String>,
    pub created_at: String,
    pub content_hash: Option<String>,
    pub source_url: Option<String>,
    pub is_favorite: i64,
    pub is_sensitive: i64,
    pub html_content: Option<String>,
}

/// A source domain with its entry count.
#[derive(Clone)]
pub struct SourceInfo {
    pub domain: String,
    pub count: i64,
}

/// Entry counts by content kind.
#[derive(Clone)]
pub struct EntryCounts {
    pub text_count: i64,
    pub image_count: i64,
}

/// On-disk storage statistics.
#[derive(Clone)]
pub struct StorageStats {
    pub db_size: u64,
    pub images_size: u64,
    pub images_count: u64,
}

/// The settings as handed to the settings view.
#[derive(Clone)]
pub struct SettingsResponse {
    pub data_path: String,
    pub auto_clear_midnight: bool,
    pub auto_start: bool,
    pub close_to_tray: bool,
    pub language: String,
    pub shortcut: String,
    pub theme: String,
    pub show_copy_toast: bool,
    pub retention_policy: String,
}

/// A selectable UI language.
#[derive(Clone)]
pub struct LanguageInfo {
    pub code: String,
    pub display_name: String,
}

} // verus!
