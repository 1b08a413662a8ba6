//! What the user is told before an application is uninstalled.

use vstd::prelude::*;

use super::appx::{matching, resolve_package, AppxPackage};
use super::traces::{detect_system_traces, is_detected, SystemTrace, TraceFacts};
use crate::text;

verus! {

/// What the user is told before an application is uninstalled.
#[derive(Debug)]
pub struct PreUninstallInfo {
    /// The store package that the application is, if it is certain which.
    pub store_package: Option<AppxPackage>,
    /// Services, drivers and tasks of the application.
    pub system_traces: Vec<SystemTrace>,
}

/// The place unless it is empty.
pub open spec fn given_place(location: Option<&str>) -> Option<Seq<char>> {
    match location {
        Some(location) => if location@.len() == 0 {
            None
        } else {
            Some(location@)
        },
        None => None,
    }
}

/// What the user is told before an application is uninstalled. `listed` are the
/// installed packages, or why they could not be listed.
pub fn get_pre_uninstall_info(
    app_name: &str,
    install_location: Option<&str>,
    listed: &Result<Vec<AppxPackage>, String>,
    facts: &TraceFacts,
) -> (r: PreUninstallInfo)
    ensures
        match (r.store_package, *listed) {
            (Some(package), Ok(packages)) => matching(
                packages@,
                app_name@,
                given_place(install_location),
            ) == seq![package],
            (None, Ok(packages)) => matching(
                packages@,
                app_name@,
                given_place(install_location),
            ).len() != 1,
            (Some(package), Err(_)) => false,
            (None, Err(_)) => true,
        },
        is_detected(app_name@, text::str_view(install_location), *facts, r.system_traces@),
{
    let place = match install_location {
        Some(location) => if location.is_empty() {
            None
        } else {
            Some(location)
        },
        None => None,
    };
    PreUninstallInfo {
        store_package: resolve_package(app_name, place, listed),
        system_traces: detect_system_traces(app_name, install_location, facts),
    }
}

} // verus!
