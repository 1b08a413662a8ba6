//! The data that the library's parts exchange with each other and with the
//! user interface.

use vstd::prelude::*;

verus! {

/// An installed application.
#[derive(Debug)]
pub struct InstalledApp {
    pub display_name: String,
    pub install_location: String,
    /// Path of the icon, as the registry gives it.
    pub display_icon: String,
    /// Estimated size in KB.
    pub estimated_size: u64,
    /// The icon as Base64 text of a PNG; empty where none was extracted.
    pub icon_base64: String,
    /// URL under which the icon is served.
    pub icon_url: String,
    /// Registry key of the application, for uninstalling it.
    pub registry_path: String,
    pub publisher: String,
}

impl Clone for InstalledApp {
    fn clone(&self) -> (r: Self)
        ensures
            r == *self,
    {
        InstalledApp {
            display_name: self.display_name.clone(),
            install_location: self.install_location.clone(),
            display_icon: self.display_icon.clone(),
            estimated_size: self.estimated_size,
            icon_base64: self.icon_base64.clone(),
            icon_url: self.icon_url.clone(),
            registry_path: self.registry_path.clone(),
            publisher: self.publisher.clone(),
        }
    }
}

/// Where a large folder comes from.
#[derive(Debug, Clone, Copy, PartialEq, Eq, Structural)]
pub enum LargeFolderType {
    /// Desktop, documents, downloads and the like: riskier to move.
    System,
    /// Data of an application: less risky to move.
    AppData,
    /// Added by the user.
    Custom,
}

/// A large folder.
#[derive(Debug)]
pub struct LargeFolder {
    pub id: String,
    pub display_name: String,
    pub path: String,
    /// Size in bytes; computed in the background.
    pub size: u64,
    pub folder_type: LargeFolderType,
    /// Whether the folder has been moved and a link stands in its place.
    pub is_junction: bool,
    pub junction_target: Option<String>,
    /// Names of the processes that use the folder.
    pub app_process_names: Vec<String>,
    pub icon_id: String,
    pub exists: bool,
}

/// The size of a large folder, as the background scan found it.
#[derive(Debug)]
pub struct LargeFolderSizeEvent {
    pub folder_id: String,
    pub size: u64,
    /// Tells one scan from the next.
    pub scan_id: Option<String>,
}

/// Where the application keeps its data.
#[derive(Debug)]
pub struct DataDirConfig {
    pub data_dir: String,
    /// Whether this is the data directory beside a portable executable.
    pub portable_default: bool,
}

/// Whether a flag is off, and so not written out.
pub fn is_false(value: &bool) -> (r: bool)
    ensures
        r == !*value,
{
    !*value
}

/// A folder that the user added.
#[derive(Debug)]
pub struct CustomFolderEntry {
    pub id: String,
    pub path: String,
    pub display_name: String,
}

impl Clone for CustomFolderEntry {
    fn clone(&self) -> (r: Self)
        ensures
            r == *self,
    {
        CustomFolderEntry {
            id: self.id.clone(),
            path: self.path.clone(),
            display_name: self.display_name.clone(),
        }
    }
}

/// An application whose data directory is watched.
#[derive(Debug)]
pub struct AppDataTemplate {
    pub id: String,
    pub display_name: String,
    pub icon_id: String,
    pub process_names: Vec<String>,
    /// A fixed path, possibly with environment variables written `%NAME%`.
    pub path: Option<String>,
}

/// The icon of a template that names none.
pub fn default_icon_id() -> (r: String)
    ensures
        r@ == "folder"@,
{
    "folder".to_owned()
}

/// The processes of a template that names none.
pub fn default_process_names() -> (r: Vec<String>)
    ensures
        r@.len() == 0,
{
    Vec::new()
}

/// The outcome of moving a directory.
#[derive(Debug)]
pub struct MigrationResult {
    pub success: bool,
    pub message: String,
    pub new_path: Option<String>,
}

/// Which processes hold files of a directory.
#[derive(Debug)]
pub struct ProcessLockResult {
    pub is_locked: bool,
    pub processes: Vec<String>,
}

/// What was moved.
#[derive(Debug, Clone, Copy, PartialEq, Eq, Structural)]
pub enum MigrationRecordType {
    App,
    LargeFolder,
}

/// One entry of the migration history.
#[derive(Debug)]
pub struct MigrationRecord {
    pub id: String,
    pub app_name: String,
    pub original_path: String,
    pub target_path: String,
    /// Size in bytes.
    pub size: u64,
    /// Unix time in milliseconds.
    pub migrated_at: u64,
    /// `active`, `restored` or `ghost_cleaned`.
    pub status: String,
    pub record_type: MigrationRecordType,
}

/// The type of a record that was written before types were recorded.
pub fn default_record_type() -> (r: MigrationRecordType)
    ensures
        r == MigrationRecordType::App,
{
    MigrationRecordType::App
}

/// The migration history as it is stored.
#[derive(Debug)]
pub struct HistoryStorage {
    pub version: u32,
    pub records: Vec<MigrationRecord>,
}

/// The health of a directory link.
#[derive(Debug)]
pub struct LinkStatusResult {
    pub healthy: bool,
    pub target_exists: bool,
    pub is_junction: bool,
    pub target_empty: bool,
    pub original_exists: bool,
    pub error: Option<String>,
}

/// A link whose target or original is gone.
#[derive(Debug)]
pub struct GhostLinkEntry {
    pub record_id: String,
    pub app_name: String,
    pub original_path: String,
    pub target_path: String,
    pub size: u64,
    /// `target_missing`, `junction_broken` or `original_missing`.
    pub damage_type: String,
}

/// The links that are broken.
#[derive(Debug)]
pub struct GhostLinkPreview {
    pub entries: Vec<GhostLinkEntry>,
    pub total_size: u64,
}

/// The outcome of removing broken links.
#[derive(Debug)]
pub struct CleanupResult {
    pub cleaned_count: u32,
    pub cleaned_size: u64,
    pub errors: Vec<String>,
}

/// Figures on all migrations.
#[derive(Debug)]
pub struct MigrationStats {
    pub total_space_saved: u64,
    pub active_migrations: u32,
    pub restored_count: u32,
    pub app_migrations: u32,
    pub folder_migrations: u32,
}

/// A directory link that was recognised on disk.
#[derive(Debug)]
pub struct RecoveredLinkEntry {
    pub app_name: String,
    pub original_path: String,
    pub target_path: String,
    pub record_type: MigrationRecordType,
    pub migrated_at: u64,
    pub size: u64,
    /// `high`, `medium` or `low`.
    pub confidence: String,
    pub target_exists: bool,
    pub target_empty: bool,
    pub cross_drive: bool,
    pub already_recorded: bool,
    pub warnings: Vec<String>,
}

/// The outcome of looking for directory links.
#[derive(Debug)]
pub struct LinkRecoveryScanResult {
    pub entries: Vec<RecoveredLinkEntry>,
    pub scanned_dirs: u32,
    pub skipped_dirs: u32,
    pub truncated: bool,
    pub elapsed_ms: u64,
}

/// A recognised link that the user wants recorded.
#[derive(Debug)]
pub struct RecoveredLinkImport {
    pub app_name: String,
    pub original_path: String,
    pub target_path: String,
    pub record_type: MigrationRecordType,
    pub migrated_at: u64,
    pub size: u64,
    pub register_custom_folder: bool,
}

/// The outcome of recording recognised links.
#[derive(Debug)]
pub struct LinkRecoveryImportResult {
    pub imported: u32,
    pub skipped: u32,
    pub custom_folders_added: u32,
    pub failed: Vec<String>,
}

impl Default for LinkRecoveryImportResult {
    fn default() -> (r: Self)
        ensures
            r.imported == 0,
            r.skipped == 0,
            r.custom_folders_added == 0,
            r.failed@.len() == 0,
    {
        LinkRecoveryImportResult {
            imported: 0,
            skipped: 0,
            custom_folders_added: 0,
            failed: Vec::new(),
        }
    }
}

/// What a mirror backup holds.
#[derive(Debug)]
pub struct MirrorBackupInfo {
    pub exists: bool,
    pub path: String,
    pub history_count: u32,
    pub custom_folder_count: u32,
    pub migrated_app_count: u32,
    pub saved_at: u64,
}

/// The outcome of importing a mirror backup.
#[derive(Debug)]
pub struct MirrorImportResult {
    pub history_added: u32,
    pub history_skipped: u32,
    pub custom_folders_added: u32,
    pub migrated_apps_added: u32,
}

impl Default for MirrorImportResult {
    fn default() -> (r: Self)
        ensures
            r.history_added == 0,
            r.history_skipped == 0,
            r.custom_folders_added == 0,
            r.migrated_apps_added == 0,
    {
        MirrorImportResult {
            history_added: 0,
            history_skipped: 0,
            custom_folders_added: 0,
            migrated_apps_added: 0,
        }
    }
}

} // verus!
