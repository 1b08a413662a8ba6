//! Moving a large folder back: what has to hold before, and what is said after.

#![verifier::loop_isolation(false)]

use vstd::prelude::*;

use crate::migration::{process_views, ProcessInfo, ProcessView};
use crate::models::{MigrationRecord, MigrationResult};
use crate::text;

verus! {

/// What is found where a folder was and where it is now.
#[derive(Debug)]
pub struct RestoreFacts {
    /// Whether a link stands at the folder's original path.
    pub is_junction: bool,
    /// Where the link leads; absent where that cannot be read.
    pub link_target: Option<String>,
    pub target_exists: bool,
    /// Whether the target is empty, or why that cannot be told.
    pub target_empty: Result<bool, String>,
    pub processes: Vec<ProcessInfo>,
}

/// Whether a folder is moved back.
#[derive(Debug)]
pub enum RestoreDecision {
    /// It cannot be, for this reason.
    Failed(String),
    /// It is not; this is said instead.
    Refused(MigrationResult),
    /// It is, from this directory.
    Proceed(String),
}

/// Whether a folder is moved back, as a value.
pub enum DecisionView {
    Failed(Seq<char>),
    Refused(Seq<char>),
    Proceed(Seq<char>),
}

/// Whether a decision is the one that a value describes. A refusal names no
/// new path.
pub open spec fn is_decision(decision: RestoreDecision, view: DecisionView) -> bool {
    match (decision, view) {
        (RestoreDecision::Failed(reason), DecisionView::Failed(expected)) => reason@ == expected,
        (RestoreDecision::Refused(result), DecisionView::Refused(expected)) => !result.success
            && result.message@ == expected && result.new_path is None,
        (RestoreDecision::Proceed(path), DecisionView::Proceed(expected)) => path@ == expected,
        _ => false,
    }
}

pub open spec fn empty_message(target: Seq<char>) -> Seq<char> {
    "目标目录为空，没有可恢复的数据："@ + target
        + "\n\n未创建原目录，请先确认该文件夹是否已被卸载或手动清理。"@
}

fn refusal(message: String) -> (r: RestoreDecision)
    ensures
        is_decision(r, DecisionView::Refused(message@)),
{
    RestoreDecision::Refused(MigrationResult { success: false, message, new_path: None })
}

fn empty_refusal(target: &str) -> (r: RestoreDecision)
    ensures
        is_decision(r, DecisionView::Refused(empty_message(target@))),
{
    let mut message = "目标目录为空，没有可恢复的数据：".to_owned();
    message.push_str(target);
    message.push_str("\n\n未创建原目录，请先确认该文件夹是否已被卸载或手动清理。");
    refusal(message)
}

/// Whether a folder that was found by its link is moved back.
pub open spec fn decision_by_link(facts: RestoreFacts) -> DecisionView {
    if !facts.is_junction {
        DecisionView::Failed("该路径不是一个符号链接，无法恢复"@)
    } else {
        match facts.link_target {
            None => DecisionView::Failed("无法读取符号链接的目标路径"@),
            Some(target) => if !facts.target_exists {
                DecisionView::Failed("目标路径不存在: "@ + target@)
            } else {
                match facts.target_empty {
                    Err(reason) => DecisionView::Failed(reason@),
                    Ok(true) => DecisionView::Refused(empty_message(target@)),
                    Ok(false) => DecisionView::Proceed(target@),
                }
            },
        }
    }
}

/// Decides whether a folder that was found by its link is moved back.
pub fn restore_large_folder(facts: &RestoreFacts) -> (r: RestoreDecision)
    ensures
        is_decision(r, decision_by_link(*facts)),
{
    if !facts.is_junction {
        return RestoreDecision::Failed("该路径不是一个符号链接，无法恢复".to_owned());
    }
    match &facts.link_target {
        None => RestoreDecision::Failed("无法读取符号链接的目标路径".to_owned()),
        Some(target) => {
            if !facts.target_exists {
                let mut reason = "目标路径不存在: ".to_owned();
                reason.push_str(target.as_str());
                return RestoreDecision::Failed(reason);
            }
            match &facts.target_empty {
                Err(reason) => RestoreDecision::Failed(reason.clone()),
                Ok(empty) => if *empty {
                    empty_refusal(target.as_str())
                } else {
                    RestoreDecision::Proceed(target.clone())
                },
            }
        },
    }
}

/// The names of the processes whose executable lies under one of two paths, in
/// order. All paths are compared in lower case.
pub open spec fn running_in_either(
    processes: Seq<ProcessView>,
    original: Seq<char>,
    target: Seq<char>,
) -> Seq<Seq<char>>
    decreases processes.len(),
{
    if processes.len() == 0 {
        seq![]
    } else {
        let before = running_in_either(processes.drop_last(), original, target);
        match processes.last().exe {
            Some(exe) if text::has_prefix(text::lowercase(exe), text::lowercase(original))
                || text::has_prefix(text::lowercase(exe), text::lowercase(target)) => before.push(
                processes.last().name,
            ),
            _ => before,
        }
    }
}

fn list_running(processes: &Vec<ProcessInfo>, original: &str, target: &str) -> (r: Vec<String>)
    ensures
        text::texts(r@) == running_in_either(process_views(processes@), original@, target@),
{
    let first = text::to_lowercase(original);
    let second = text::to_lowercase(target);
    let mut r: Vec<String> = Vec::new();
    let mut i: usize = 0;
    let ghost all = process_views(processes@);
    assert(text::texts(r@) =~= running_in_either(all.take(0), original@, target@));
    while i < processes.len()
        invariant
            i <= processes@.len(),
            all == process_views(processes@),
            text::texts(r@) == running_in_either(all.take(i as int), original@, target@),
        decreases processes@.len() - i,
    {
        assert(all.take(i + 1).drop_last() =~= all.take(i as int));
        assert(all.take(i + 1).last() == processes@[i as int]@);
        if let Some(exe) = &processes[i].exe {
            let lower = text::to_lowercase(exe.as_str());
            if text::starts_with(lower.as_str(), first.as_str()) || text::starts_with(
                lower.as_str(),
                second.as_str(),
            ) {
                proof {
                    text::lemma_texts_push(r@, processes@[i as int].name);
                }
                r.push(processes[i].name.clone());
            }
        }
        i = i + 1;
    }
    assert(all.take(i as int) =~= all);
    r
}

pub open spec fn running_message(running: Seq<Seq<char>>) -> Seq<char> {
    "检测到以下程序正在运行，请关闭后重试：\n"@ + text::joined(running, "、"@)
        + "\n\n恢复前必须关闭相关程序，否则文件移动可能失败并导致数据损坏。"@
}

/// Whether a folder that was found in the history is moved back: a link has to
/// stand in its place, its target has to exist and not to be empty, and nothing
/// may run in either.
pub open spec fn decision_by_history(record: MigrationRecord, facts: RestoreFacts) -> DecisionView {
    let running = running_in_either(
        process_views(facts.processes@),
        record.original_path@,
        record.target_path@,
    );
    if !facts.is_junction {
        DecisionView::Refused(
            "原路径 "@ + record.original_path@ + " 不是目录联接，拒绝恢复以保护数据安全。"@,
        )
    } else if !facts.target_exists {
        DecisionView::Refused(
            "目标路径不存在: "@ + record.target_path@ + "，可能已被手动删除"@,
        )
    } else {
        match facts.target_empty {
            Err(reason) => DecisionView::Failed(reason@),
            Ok(true) => DecisionView::Refused(empty_message(record.target_path@)),
            Ok(false) => if running.len() > 0 {
                DecisionView::Refused(running_message(running))
            } else {
                DecisionView::Proceed(record.target_path@)
            },
        }
    }
}

/// Decides whether a folder that was found in the history is moved back.
pub fn restore_large_folder_by_history(record: &MigrationRecord, facts: &RestoreFacts) -> (r:
    RestoreDecision)
    ensures
        is_decision(r, decision_by_history(*record, *facts)),
{
    if !facts.is_junction {
        let mut message = "原路径 ".to_owned();
        message.push_str(record.original_path.as_str());
        message.push_str(" 不是目录联接，拒绝恢复以保护数据安全。");
        return refusal(message);
    }
    if !facts.target_exists {
        let mut message = "目标路径不存在: ".to_owned();
        message.push_str(record.target_path.as_str());
        message.push_str("，可能已被手动删除");
        return refusal(message);
    }
    match &facts.target_empty {
        Err(reason) => {
            return RestoreDecision::Failed(reason.clone());
        },
        Ok(empty) => {
            if *empty {
                return empty_refusal(record.target_path.as_str());
            }
        },
    }
    let running = list_running(
        &facts.processes,
        record.original_path.as_str(),
        record.target_path.as_str(),
    );
    assert(text::texts(running@).len() == running@.len());
    if running.len() > 0 {
        let names = text::join(&running, "、");
        let mut message = "检测到以下程序正在运行，请关闭后重试：\n".to_owned();
        message.push_str(names.as_str());
        message.push_str(
            "\n\n恢复前必须关闭相关程序，否则文件移动可能失败并导致数据损坏。",
        );
        return refusal(message);
    }
    RestoreDecision::Proceed(record.target_path.clone())
}

/// A folder is moved back only where a link stands in its place and its target
/// exists and is not empty: nothing else is ever overwritten or lost.
pub proof fn law_only_linked_folders_are_moved_back(record: MigrationRecord, facts: RestoreFacts)
    ensures
        decision_by_history(record, facts) is Proceed ==> facts.is_junction && facts.target_exists
            && facts.target_empty == Ok::<bool, String>(false),
        decision_by_link(facts) is Proceed ==> facts.is_junction && facts.target_exists
            && facts.target_empty == Ok::<bool, String>(false),
{
}

/// While a process runs from the folder's original or present place, the folder
/// is not moved back.
pub proof fn law_running_programs_block_restoring(
    record: MigrationRecord,
    facts: RestoreFacts,
    i: int,
)
    requires
        0 <= i < facts.processes@.len(),
        facts.processes@[i].exe is Some,
        text::has_prefix(
            text::lowercase(facts.processes@[i].exe->0@),
            text::lowercase(record.original_path@),
        ) || text::has_prefix(
            text::lowercase(facts.processes@[i].exe->0@),
            text::lowercase(record.target_path@),
        ),
    ensures
        !(decision_by_history(record, facts) is Proceed),
{
    lemma_running_is_listed(
        process_views(facts.processes@),
        record.original_path@,
        record.target_path@,
        i,
    );
}

proof fn lemma_running_is_listed(
    processes: Seq<ProcessView>,
    original: Seq<char>,
    target: Seq<char>,
    i: int,
)
    requires
        0 <= i < processes.len(),
        processes[i].exe is Some,
        text::has_prefix(text::lowercase(processes[i].exe->0), text::lowercase(original))
            || text::has_prefix(text::lowercase(processes[i].exe->0), text::lowercase(target)),
    ensures
        running_in_either(processes, original, target).len() > 0,
    decreases processes.len(),
{
    if i < processes.len() - 1 {
        lemma_running_is_listed(processes.drop_last(), original, target, i);
    }
}

/// What is said after a folder was moved back. The size is given as it is
/// shown; the warning says what was left over, if anything.
pub fn restored_folder(
    target: &str,
    original: &str,
    size: &str,
    warning: &Option<String>,
) -> (r: MigrationResult)
    ensures
        r.success,
        r.new_path is Some && r.new_path->0@ == original@,
        r.message@ == "恢复成功！文件夹已从 "@ + target@ + " 移回 "@ + original@ + "（"@ + size@
            + "）"@ + match *warning {
            Some(warning) => "\n\n"@ + warning@,
            None => seq![],
        },
{
    let mut message = "恢复成功！文件夹已从 ".to_owned();
    message.push_str(target);
    message.push_str(" 移回 ");
    message.push_str(original);
    message.push_str("（");
    message.push_str(size);
    message.push_str("）");
    let ghost plain = message@;
    if let Some(warning) = warning {
        message.push_str("\n\n");
        message.push_str(warning.as_str());
        assert(message@ =~= plain + ("\n\n"@ + warning@));
    } else {
        assert(message@ =~= plain + seq![]);
    }
    MigrationResult { success: true, message, new_path: Some(original.to_owned()) }
}

} // verus!
