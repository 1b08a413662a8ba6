//! Viap: moving installed applications and their data to another disk, and
//! removing them cleanly.

pub mod app_manager;
pub mod folder_manager;
pub mod integrity;
pub mod list;
pub mod migration;
pub mod models;
pub mod path;
pub mod path_laws;
pub mod path_order;
pub mod portable_update;
pub mod release_laws;
pub mod text;
