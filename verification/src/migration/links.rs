//! Directory links: making them, confirming them, and putting a directory back
//! in a link's place.

#![verifier::loop_isolation(false)]

use vstd::prelude::*;

use crate::text;

verus! {

/// How making a symbolic link went.
#[derive(Debug)]
pub enum SymlinkAttempt {
    Made,
    Failed { code: i32, reason: String },
}

/// What the user is told when neither kind of link could be made.
pub open spec fn link_failure(code: i32, reason: Seq<char>) -> Seq<char> {
    if code == 1314 || code == 5 {
        "创建目录链接失败：权限不足（错误码 "@ + text::signed_decimal(code as int)
            + "）。\n\nJunction 和软链接均失败，请以管理员身份运行本程序后重试。"@
    } else {
        "创建目录链接失败（错误码 "@ + text::signed_decimal(code as int) + "）："@ + reason
            + "\n\n请以管理员身份运行本程序后重试。"@
    }
}

/// The kind of link that was made. A junction is tried first; a symbolic link
/// only where that failed.
pub fn create_directory_link(junction_made: bool, symlink: SymlinkAttempt) -> (r: Result<
    &'static str,
    String,
>)
    ensures
        junction_made ==> (r matches Ok(kind) && kind@ == "Junction"@),
        !junction_made && symlink is Made ==> (r matches Ok(kind) && kind@ == "Symlink"@),
        !junction_made ==> (symlink matches SymlinkAttempt::Failed { code, reason } ==> (r matches Err(
            message,
        ) && message@ == link_failure(code, reason@))),
{
    if junction_made {
        return Ok("Junction");
    }
    match symlink {
        SymlinkAttempt::Made => Ok("Symlink"),
        SymlinkAttempt::Failed { code, reason } => {
            let digits = text::signed_decimal_text(code);
            if code == 1314 || code == 5 {
                let mut message = "创建目录链接失败：权限不足（错误码 ".to_owned();
                message.push_str(digits.as_str());
                message.push_str("）。\n\nJunction 和软链接均失败，请以管理员身份运行本程序后重试。");
                Err(message)
            } else {
                let mut message = "创建目录链接失败（错误码 ".to_owned();
                message.push_str(digits.as_str());
                message.push_str("）：");
                message.push_str(reason.as_str());
                message.push_str("\n\n请以管理员身份运行本程序后重试。");
                Err(message)
            }
        },
    }
}

/// The name of the link that is tried out beside the source.
pub fn probe_name(process: u32, timestamp: u64) -> (r: String)
    ensures
        r@ == ".viap_link_probe_"@ + text::decimal(process as nat) + "_"@ + text::decimal(
            timestamp as nat,
        ),
{
    let mut name = ".viap_link_probe_".to_owned();
    let process = text::decimal_text(process as u64);
    name.push_str(process.as_str());
    name.push_str("_");
    let timestamp = text::decimal_text(timestamp);
    name.push_str(timestamp.as_str());
    name
}

/// How trying out a link went.
#[derive(Debug)]
pub enum PreflightProbe {
    /// The source has no parent directory.
    NoParent,
    /// Something stands where the trial link was to be.
    Occupied { probe: String },
    /// The trial link could not be made.
    NotMade { reason: String },
    /// The trial link could not be removed.
    NotRemoved { probe: String, reason: String },
    Removed,
}

/// What trying out a link says.
pub open spec fn preflight_failure(probe: PreflightProbe, source: Seq<char>) -> Option<Seq<char>> {
    match probe {
        PreflightProbe::NoParent => Some("源目录缺少父目录，无法预检链接: "@ + source),
        PreflightProbe::Occupied { probe } => Some("临时链接路径已存在: "@ + probe@),
        PreflightProbe::NotMade { reason } => Some(reason@),
        PreflightProbe::NotRemoved { probe, reason } => Some(
            "清理临时目录链接失败 "@ + probe@ + ": "@ + reason@,
        ),
        PreflightProbe::Removed => None,
    }
}

/// Whether links can be made beside the source, before anything is switched.
pub fn preflight_directory_link(probe: PreflightProbe, source: &str) -> (r: Result<(), String>)
    ensures
        match r {
            Ok(()) => preflight_failure(probe, source@) is None,
            Err(message) => preflight_failure(probe, source@) == Some(message@),
        },
{
    match probe {
        PreflightProbe::NoParent => {
            let mut message = "源目录缺少父目录，无法预检链接: ".to_owned();
            message.push_str(source);
            Err(message)
        },
        PreflightProbe::Occupied { probe } => {
            let mut message = "临时链接路径已存在: ".to_owned();
            message.push_str(probe.as_str());
            Err(message)
        },
        PreflightProbe::NotMade { reason } => Err(reason),
        PreflightProbe::NotRemoved { probe, reason } => Err(
            link_removal_failure(probe.as_str(), reason.as_str()),
        ),
        PreflightProbe::Removed => Ok(()),
    }
}

/// What is said when a link cannot be removed.
pub fn link_removal_failure(link: &str, reason: &str) -> (r: String)
    ensures
        r@ == "清理临时目录链接失败 "@ + link@ + ": "@ + reason@,
{
    let mut message = "清理临时目录链接失败 ".to_owned();
    message.push_str(link);
    message.push_str(": ");
    message.push_str(reason);
    message
}

/// The name that an attempt gives the backup.
pub open spec fn backup_name_of(process: nat, timestamp: nat, attempt: nat) -> Seq<char> {
    ".viap_migration_backup_"@ + text::decimal(process) + "_"@ + text::decimal(timestamp) + "_"@
        + text::decimal(attempt)
}

/// The name that an attempt gives the backup.
pub fn backup_name(process: u32, timestamp: u64, attempt: u64) -> (r: String)
    ensures
        r@ == backup_name_of(process as nat, timestamp as nat, attempt as nat),
{
    let mut name = ".viap_migration_backup_".to_owned();
    let process = text::decimal_text(process as u64);
    name.push_str(process.as_str());
    name.push_str("_");
    let timestamp = text::decimal_text(timestamp);
    name.push_str(timestamp.as_str());
    name.push_str("_");
    let attempt = text::decimal_text(attempt);
    name.push_str(attempt.as_str());
    name
}

/// The number of names that are tried for the backup.
pub const BACKUP_ATTEMPTS: usize = 10;

/// The attempt whose name is free, the earliest first; or why there is none.
/// `parent` is the source's directory, if it has one; `occupied` says of each
/// attempt whether something stands there under its name.
pub fn create_migration_backup_path(
    source: &str,
    parent: &Option<String>,
    occupied: &Vec<bool>,
) -> (r: Result<usize, String>)
    ensures
        match (*parent, r) {
            (Some(_), Ok(attempt)) => attempt < BACKUP_ATTEMPTS && attempt < occupied@.len()
                && !occupied@[attempt as int] && forall|i: int|
                0 <= i < attempt ==> #[trigger] occupied@[i],
            (Some(parent), Err(message)) => (forall|i: int|
                0 <= i < BACKUP_ATTEMPTS && i < occupied@.len() ==> #[trigger] occupied@[i])
                && message@ == "无法创建唯一的迁移备份路径，请清理 "@ + parent@
                + " 下的 .viap_migration_backup_* 后重试"@,
            (None, Err(message)) => message@ == "源目录缺少父目录，无法创建迁移备份："@ + source@,
            (None, Ok(_)) => false,
        },
{
    let parent = match parent {
        Some(parent) => parent,
        None => {
            let mut message = "源目录缺少父目录，无法创建迁移备份：".to_owned();
            message.push_str(source);
            return Err(message);
        },
    };
    let mut i: usize = 0;
    while i < BACKUP_ATTEMPTS && i < occupied.len()
        invariant
            i <= BACKUP_ATTEMPTS,
            forall|j: int| 0 <= j < i ==> #[trigger] occupied@[j],
        decreases BACKUP_ATTEMPTS - i,
    {
        if !occupied[i] {
            return Ok(i);
        }
        i = i + 1;
    }
    let mut message = "无法创建唯一的迁移备份路径，请清理 ".to_owned();
    message.push_str(parent.as_str());
    message.push_str(" 下的 .viap_migration_backup_* 后重试");
    Err(message)
}

/// What is found where a link should be.
#[derive(Debug)]
pub struct LinkProbe {
    pub is_junction: bool,
    /// Where the link leads, where that can be read.
    pub actual_target: Option<String>,
    /// The expected target in canonical form, or why it has none.
    pub expected: Result<String, String>,
    /// The actual target in canonical form, or why it has none.
    pub actual: Result<String, String>,
    /// Whether both canonical forms are the same path.
    pub same: bool,
}

/// Why a link is not the expected one, if it is not.
pub open spec fn link_mismatch(probe: LinkProbe, link: Seq<char>, target: Seq<char>) -> Option<
    Seq<char>,
> {
    if !probe.is_junction {
        Some("原路径未成为目录链接："@ + link)
    } else {
        match (probe.actual_target, probe.expected, probe.actual) {
            (None, _, _) => Some("无法读取目录链接目标："@ + link),
            (_, Err(reason), _) => Some("无法解析目标目录："@ + target + "，原因："@ + reason@),
            (Some(actual), _, Err(reason)) => Some(
                "无法解析目录链接目标："@ + actual@ + "，原因："@ + reason@,
            ),
            (_, Ok(expected), Ok(actual)) => if probe.same {
                None
            } else {
                Some("目录链接目标不一致：预期 "@ + expected@ + "，实际 "@ + actual@)
            },
        }
    }
}

/// Confirms that a link leads to the expected target.
pub fn verify_directory_link(probe: &LinkProbe, link: &str, target: &str) -> (r: Result<(), String>)
    ensures
        match r {
            Ok(()) => link_mismatch(*probe, link@, target@) is None,
            Err(message) => link_mismatch(*probe, link@, target@) == Some(message@),
        },
{
    if !probe.is_junction {
        let mut message = "原路径未成为目录链接：".to_owned();
        message.push_str(link);
        return Err(message);
    }
    match (&probe.actual_target, &probe.expected, &probe.actual) {
        (None, _, _) => {
            let mut message = "无法读取目录链接目标：".to_owned();
            message.push_str(link);
            Err(message)
        },
        (_, Err(reason), _) => {
            let mut message = "无法解析目标目录：".to_owned();
            message.push_str(target);
            message.push_str("，原因：");
            message.push_str(reason.as_str());
            Err(message)
        },
        (Some(actual), _, Err(reason)) => {
            let mut message = "无法解析目录链接目标：".to_owned();
            message.push_str(actual.as_str());
            message.push_str("，原因：");
            message.push_str(reason.as_str());
            Err(message)
        },
        (_, Ok(expected), Ok(actual)) => if probe.same {
            Ok(())
        } else {
            let mut message = "目录链接目标不一致：预期 ".to_owned();
            message.push_str(expected.as_str());
            message.push_str("，实际 ");
            message.push_str(actual.as_str());
            Err(message)
        },
    }
}

/// What is to be done before the backup is renamed back to the source.
#[derive(Debug, Clone, Copy, PartialEq, Eq, Structural)]
pub enum RestorePreparation {
    /// Remove the link that stands at the source.
    RemoveLink,
    /// Nothing stands at the source.
    Nothing,
}

/// Whether and how the backup can be renamed back. A link is removed only if
/// it is the expected one; anything else that stands at the source is left
/// alone.
pub fn restore_source_from_backup(
    probe: &LinkProbe,
    source_present: bool,
    source: &str,
    target: &str,
) -> (r: Result<RestorePreparation, String>)
    ensures
        match r {
            Ok(RestorePreparation::RemoveLink) => probe.is_junction && link_mismatch(
                *probe,
                source@,
                target@,
            ) is None,
            Ok(RestorePreparation::Nothing) => !probe.is_junction && !source_present,
            Err(message) => if probe.is_junction {
                link_mismatch(*probe, source@, target@) == Some(message@)
            } else {
                source_present && message@ == "原路径出现非目录链接内容，拒绝覆盖以保护数据："@ + source@
            },
        },
{
    if probe.is_junction {
        match verify_directory_link(probe, source, target) {
            Ok(()) => Ok(RestorePreparation::RemoveLink),
            Err(message) => Err(message),
        }
    } else if source_present {
        let mut message = "原路径出现非目录链接内容，拒绝覆盖以保护数据：".to_owned();
        message.push_str(source);
        Err(message)
    } else {
        Ok(RestorePreparation::Nothing)
    }
}

/// What is said when the backup cannot be renamed back.
pub fn rename_back_failure(backup: &str, source: &str, reason: &str) -> (r: String)
    ensures
        r@ == "恢复原目录失败："@ + backup@ + " -> "@ + source@ + "，原因："@ + reason@,
{
    let mut message = "恢复原目录失败：".to_owned();
    message.push_str(backup);
    message.push_str(" -> ");
    message.push_str(source);
    message.push_str("，原因：");
    message.push_str(reason);
    message
}

/// What the `Debug` form of a string is.
pub uninterp spec fn debug_form(s: Seq<char>) -> Seq<char>;

/// Formats a string with `Debug`: in quotes, with escapes. The result is named.
#[verifier::external_body]
fn debug_text(s: &str) -> (r: String)
    ensures
        r@ == debug_form(s@),
{
    format!("{:?}", s)
}

/// The `Debug` form of an optional string.
pub open spec fn option_debug_form(o: Option<Seq<char>>) -> Seq<char> {
    match o {
        Some(s) => "Some("@ + debug_form(s) + ")"@,
        None => "None"@,
    }
}

fn option_debug_text(o: &Option<String>) -> (r: String)
    ensures
        r@ == option_debug_form(text::view_of(*o)),
{
    match o {
        Some(s) => {
            let mut r = "Some(".to_owned();
            let inner = debug_text(s.as_str());
            r.push_str(inner.as_str());
            r.push_str(")");
            r
        },
        None => "None".to_owned(),
    }
}

/// What a failed restore is called, given why its half-made copy could not be
/// deleted and why the link could not be made again.
pub open spec fn rollback_message(
    target: Seq<char>,
    cleanup: Option<Seq<char>>,
    link: Option<Seq<char>>,
) -> Seq<char> {
    if cleanup is None && link is None {
        "已自动恢复目录链接，数据仍完整保存在："@ + target
    } else {
        "自动回滚未完全成功。目标数据仍完整保存在："@ + target + "；cleanup="@ + option_debug_form(
            prefixed("清理原路径半成品失败: "@, cleanup),
        ) + "；link="@ + option_debug_form(prefixed("重建目录链接失败: "@, link))
    }
}

pub open spec fn prefixed(prefix: Seq<char>, reason: Option<Seq<char>>) -> Option<Seq<char>> {
    match reason {
        Some(reason) => Some(prefix + reason),
        None => None,
    }
}

/// What is said after a failed restore has been rolled back.
pub fn rollback_restore_link(
    target: &str,
    cleanup: Option<String>,
    link: Option<String>,
) -> (r: String)
    ensures
        r@ == rollback_message(target@, text::view_of(cleanup), text::view_of(link)),
{
    if cleanup.is_none() && link.is_none() {
        let mut message = "已自动恢复目录链接，数据仍完整保存在：".to_owned();
        message.push_str(target);
        return message;
    }
    let cleanup_text: Option<String> = match cleanup {
        Some(reason) => {
            let mut t = "清理原路径半成品失败: ".to_owned();
            t.push_str(reason.as_str());
            Some(t)
        },
        None => None,
    };
    let link_text: Option<String> = match link {
        Some(reason) => {
            let mut t = "重建目录链接失败: ".to_owned();
            t.push_str(reason.as_str());
            Some(t)
        },
        None => None,
    };
    let mut message = "自动回滚未完全成功。目标数据仍完整保存在：".to_owned();
    message.push_str(target);
    message.push_str("；cleanup=");
    let cleanup_form = option_debug_text(&cleanup_text);
    message.push_str(cleanup_form.as_str());
    message.push_str("；link=");
    let link_form = option_debug_text(&link_text);
    message.push_str(link_form.as_str());
    message
}

} // verus!
