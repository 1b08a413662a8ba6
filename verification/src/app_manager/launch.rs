//! Running an uninstaller: what is started, with what rights, and what its end
//! means.

#![verifier::loop_isolation(false)]

use vstd::prelude::*;

use super::command_line::{
    is_definitely_invalid_program, names_nothing, parse_program_and_args, program_and_args,
};
use crate::list::{has_text, holds_text};
use crate::text;
use crate::text::CharSet;

verus! {

/// The exit code by which an installer says that it is done and that the
/// machine is to be restarted.
pub const EXIT_RESTART_NEEDED: i32 = 3010;

/// What to do with an uninstall command.
#[derive(Debug)]
pub enum Launch {
    /// It is not run, for this reason.
    Refused(String),
    Run { program: String, args: Vec<String> },
}

/// What to do with an uninstall command, as a value.
pub enum LaunchView {
    Refused(Seq<char>),
    Run(Seq<char>, Seq<Seq<char>>),
}

impl View for Launch {
    type V = LaunchView;

    open spec fn view(&self) -> LaunchView {
        match self {
            Launch::Refused(reason) => LaunchView::Refused(reason@),
            Launch::Run { program, args } => LaunchView::Run(program@, text::texts(args@)),
        }
    }
}

/// Whether a program is named by its path, and so has to exist there.
pub open spec fn is_named_by_path(program: Seq<char>) -> bool {
    (program.contains('\\') || program.contains(':')) && text::ascii_lowercase(program)
        != text::ascii_lowercase("msiexec"@) && text::ascii_lowercase(program)
        != text::ascii_lowercase("msiexec.exe"@)
}

/// What to do with an uninstall command. `present` holds the paths that exist,
/// of those that the command may name.
pub open spec fn launch_of(command: Seq<char>, present: Seq<String>) -> LaunchView {
    let cmd = text::trimmed(command, CharSet::Whitespace);
    if cmd.len() == 0 {
        LaunchView::Refused("卸载命令为空"@)
    } else {
        match program_and_args(cmd, present) {
            None => LaunchView::Refused("无法解析卸载命令: "@ + cmd),
            Some((program, args)) => if names_nothing(program) {
                LaunchView::Refused("卸载命令无效，程序路径非法: "@ + program)
            } else if is_named_by_path(program) && !holds_text(present, program) {
                LaunchView::Refused("卸载程序不存在: "@ + program)
            } else {
                LaunchView::Run(program, args)
            },
        }
    }
}

fn message(head: &str, tail: &str) -> (r: String)
    ensures
        r@ == head@ + tail@,
{
    let mut r = head.to_owned();
    r.push_str(tail);
    r
}

/// Decides whether an uninstall command is run, and as what.
pub fn start_uninstall_process(command: &str, present: &Vec<String>) -> (r: Launch)
    ensures
        r@ == launch_of(command@, present@),
{
    let cmd = text::trim(command, CharSet::Whitespace);
    if cmd.as_str().is_empty() {
        return Launch::Refused("卸载命令为空".to_owned());
    }
    match parse_program_and_args(cmd.as_str(), present) {
        None => Launch::Refused(message("无法解析卸载命令: ", cmd.as_str())),
        Some((program, args)) => {
            if is_definitely_invalid_program(program.as_str()) {
                return Launch::Refused(
                    message("卸载命令无效，程序路径非法: ", program.as_str()),
                );
            }
            let by_path = text::contains_char(program.as_str(), '\\') || text::contains_char(
                program.as_str(),
                ':',
            );
            if by_path && !text::same_ignoring_ascii_case(program.as_str(), "msiexec")
                && !text::same_ignoring_ascii_case(program.as_str(), "msiexec.exe") && !has_text(
                present,
                program.as_str(),
            ) {
                return Launch::Refused(message("卸载程序不存在: ", program.as_str()));
            }
            Launch::Run { program, args }
        },
    }
}

/// How a program was run.
#[derive(Clone, Copy, Debug, PartialEq, Eq, Structural)]
pub enum Rights {
    Usual,
    Elevated,
}

/// How the run of a program ended.
#[derive(Debug)]
pub enum RunEnd {
    /// It could not be started, for this reason.
    NotStarted(String),
    /// It was started, but its end could not be awaited, for this reason.
    NotAwaited(String),
    Exited { success: bool, code: Option<i32> },
}

/// The code with which a program ended; -1 stands for none.
pub open spec fn code_of(code: Option<i32>) -> int {
    match code {
        Some(code) => code as int,
        None => -1,
    }
}

/// Why a run counts as failed; absent where it counts as a success. A program
/// that asks for a restart has succeeded.
pub open spec fn run_failure(rights: Rights, end: RunEnd) -> Option<Seq<char>> {
    match end {
        RunEnd::NotStarted(reason) => Some(
            match rights {
                Rights::Usual => "启动卸载程序失败: "@,
                Rights::Elevated => "启动提权卸载失败: "@,
            } + reason@,
        ),
        RunEnd::NotAwaited(reason) => Some(
            match rights {
                Rights::Usual => "等待卸载程序结束失败: "@,
                Rights::Elevated => "等待提权卸载结束失败: "@,
            } + reason@,
        ),
        RunEnd::Exited { success, code } => if success || code_of(code) == EXIT_RESTART_NEEDED {
            None
        } else {
            Some(
                match rights {
                    Rights::Usual => "卸载程序执行失败，退出码: "@,
                    Rights::Elevated => "提权执行卸载失败，退出码: "@,
                } + text::signed_decimal(code_of(code)),
            )
        },
    }
}

/// Judges the end of a run.
pub fn judge_run(rights: Rights, end: &RunEnd) -> (r: Result<(), String>)
    ensures
        match r {
            Ok(()) => run_failure(rights, *end) is None,
            Err(reason) => run_failure(rights, *end) == Some(reason@),
        },
{
    match end {
        RunEnd::NotStarted(reason) => Err(
            match rights {
                Rights::Usual => message("启动卸载程序失败: ", reason.as_str()),
                Rights::Elevated => message("启动提权卸载失败: ", reason.as_str()),
            },
        ),
        RunEnd::NotAwaited(reason) => Err(
            match rights {
                Rights::Usual => message("等待卸载程序结束失败: ", reason.as_str()),
                Rights::Elevated => message("等待提权卸载结束失败: ", reason.as_str()),
            },
        ),
        RunEnd::Exited { success, code } => {
            let code: i32 = match code {
                Some(code) => *code,
                None => -1,
            };
            if *success || code == EXIT_RESTART_NEEDED {
                return Ok(());
            }
            let digits = text::signed_decimal_text(code);
            Err(
                match rights {
                    Rights::Usual => message("卸载程序执行失败，退出码: ", digits.as_str()),
                    Rights::Elevated => message("提权执行卸载失败，退出码: ", digits.as_str()),
                },
            )
        },
    }
}

pub open spec fn elevation_marks() -> Seq<&'static str> {
    seq!["os error 740", "elevation", "需要提升"]
}

/// Whether a failure says that more rights are needed: then the program is run
/// once more, with them.
pub fn is_elevation_required_error(reason: &str) -> (r: bool)
    ensures
        r == text::contains_one(elevation_marks(), text::lowercase(reason@)),
{
    let marks = vec!["os error 740", "elevation", "需要提升"];
    assert(marks@ =~= elevation_marks());
    let lower = text::to_lowercase(reason);
    text::contains_any(&marks, lower.as_str())
}

/// What is done after a run.
#[derive(Debug)]
pub enum AfterRun {
    Succeeded,
    /// The program is run once more, with the administrator's rights.
    RunElevated,
    Failed(String),
}

/// Decides what is done after a run. Only a run with the usual rights is
/// repeated, and only where more rights are what it lacked: no program is run
/// more than twice.
pub fn after_run(rights: Rights, end: &RunEnd) -> (r: AfterRun)
    ensures
        match run_failure(rights, *end) {
            None => r is Succeeded,
            Some(reason) => if rights == Rights::Usual && text::contains_one(
                elevation_marks(),
                text::lowercase(reason),
            ) {
                r is RunElevated
            } else {
                r matches AfterRun::Failed(said) && said@ == reason
            },
        },
{
    match judge_run(rights, end) {
        Ok(()) => AfterRun::Succeeded,
        Err(reason) => if rights == Rights::Usual && is_elevation_required_error(
            reason.as_str(),
        ) {
            AfterRun::RunElevated
        } else {
            AfterRun::Failed(reason)
        },
    }
}

/// A text as it stands between single quotes in a PowerShell script: each
/// quote is doubled.
pub open spec fn escaped(value: Seq<char>) -> Seq<char> {
    text::expanded(value, '\'', "''"@)
}

/// Doubles each single quote.
pub fn escape_ps_single_quoted(value: &str) -> (r: String)
    ensures
        r@ == escaped(value@),
{
    text::expand_char(value, '\'', "''")
}

/// What PowerShell reads between single quotes: two quotes in a row are one.
pub open spec fn read_quoted(s: Seq<char>) -> Seq<char>
    decreases s.len(),
{
    if s.len() == 0 {
        s
    } else if s.len() >= 2 && s[s.len() - 1] == '\'' && s[s.len() - 2] == '\'' {
        read_quoted(s.take(s.len() - 2)).push('\'')
    } else {
        read_quoted(s.drop_last()).push(s.last())
    }
}

/// What is escaped is read back unchanged, whatever the text holds.
pub proof fn law_escaped_text_is_read_back(value: Seq<char>)
    ensures
        read_quoted(escaped(value)) == value,
    decreases value.len(),
{
    reveal_strlit("''");
    if value.len() > 0 {
        let front = value.drop_last();
        law_escaped_text_is_read_back(front);
        let e = escaped(value);
        if value.last() == '\'' {
            assert(e.take(e.len() - 2) =~= escaped(front));
            assert(e[e.len() - 1] == '\'' && e[e.len() - 2] == '\'');
        } else {
            assert(e.drop_last() =~= escaped(front));
        }
        assert(value =~= front.push(value.last()));
    } else {
        assert(escaped(value) =~= value);
    }
}

/// The arguments between single quotes, separated by commas.
pub open spec fn quoted_args(args: Seq<Seq<char>>) -> Seq<Seq<char>> {
    args.map_values(|arg: Seq<char>| "'"@ + escaped(arg) + "'"@)
}

pub open spec fn arg_clause(args: Seq<Seq<char>>) -> Seq<char> {
    if args.len() == 0 {
        seq![]
    } else {
        " -ArgumentList @("@ + text::joined(quoted_args(args), ", "@) + ")"@
    }
}

pub open spec fn directory_clause(dir: Option<Seq<char>>) -> Seq<char> {
    match dir {
        Some(dir) => if escaped(dir).len() == 0 {
            seq![]
        } else {
            " -WorkingDirectory '"@ + escaped(dir) + "'"@
        },
        None => seq![],
    }
}

/// The PowerShell script that runs a program with the administrator's rights.
pub open spec fn script_of(
    program: Seq<char>,
    args: Seq<Seq<char>>,
    dir: Option<Seq<char>>,
) -> Seq<char> {
    "$ErrorActionPreference='Stop'; $p=Start-Process -FilePath '"@ + escaped(program) + "'"@
        + arg_clause(args) + directory_clause(dir)
        + " -Verb RunAs -Wait -PassThru; exit $p.ExitCode"@
}

/// The script that runs a program with the administrator's rights, waits for it
/// and hands its exit code on.
pub fn elevated_script(program: &str, args: &Vec<String>, dir: &Option<String>) -> (r: String)
    ensures
        r@ == script_of(program@, text::texts(args@), text::view_of(*dir)),
{
    let mut quoted: Vec<String> = Vec::new();
    let mut i: usize = 0;
    assert(text::texts(quoted@) =~= quoted_args(text::texts(args@)).take(0));
    while i < args.len()
        invariant
            i <= args@.len(),
            text::texts(quoted@) == quoted_args(text::texts(args@)).take(i as int),
        decreases args@.len() - i,
    {
        let inner = escape_ps_single_quoted(args[i].as_str());
        let mut one = "'".to_owned();
        one.push_str(inner.as_str());
        one.push_str("'");
        proof {
            text::lemma_texts_push(quoted@, one);
        }
        assert(quoted_args(text::texts(args@)).take(i + 1) =~= quoted_args(
            text::texts(args@),
        ).take(i as int).push(one@));
        quoted.push(one);
        i = i + 1;
    }
    assert(quoted_args(text::texts(args@)).take(i as int) =~= quoted_args(text::texts(args@)));
    let mut clause = String::new();
    if args.len() > 0 {
        let list = text::join(&quoted, ", ");
        clause = " -ArgumentList @(".to_owned();
        clause.push_str(list.as_str());
        clause.push_str(")");
    }
    assert(clause@ =~= arg_clause(text::texts(args@)));
    let mut place = String::new();
    if let Some(dir) = dir {
        let inner = escape_ps_single_quoted(dir.as_str());
        if !inner.as_str().is_empty() {
            place = " -WorkingDirectory '".to_owned();
            place.push_str(inner.as_str());
            place.push_str("'");
        }
    }
    assert(place@ =~= directory_clause(text::view_of(*dir)));
    let name = escape_ps_single_quoted(program);
    let mut r = "$ErrorActionPreference='Stop'; $p=Start-Process -FilePath '".to_owned();
    r.push_str(name.as_str());
    r.push_str("'");
    r.push_str(clause.as_str());
    r.push_str(place.as_str());
    r.push_str(" -Verb RunAs -Wait -PassThru; exit $p.ExitCode");
    r
}

} // verus!
