//! Finding, removing and describing installed applications.

pub mod appx;
pub mod cache;
pub mod command_laws;
pub mod command_line;
pub mod detector;
pub mod disk_scan_policy;
pub mod evidence_laws;
pub mod force_remove;
pub mod keywords;
pub mod launch;
pub mod list_laws;
pub mod lnk;
pub mod locate;
pub mod place_laws;
pub mod pre_uninstall;
pub mod registry;
pub mod remains_cleanup;
pub mod removal_laws;
pub mod residue;
pub mod residue_laws;
pub mod residue_scan;
pub mod scan_laws;
pub mod scan_rules;
pub mod scanner;
pub mod snapshot;
pub mod snapshot_laws;
pub mod streaming;
pub mod survey;
pub mod table_laws;
pub mod traces;
pub mod uninstall_laws;
pub mod uninstall_report;
pub mod uninstall_search;
pub mod uninstall_snapshot;
pub mod uninstaller;
