//! Uninstalling applications: which commands are run and when one has
//! succeeded.

#![verifier::loop_isolation(false)]

use vstd::prelude::*;

use super::registry::{key_of, parse_registry_path};
use super::residue::LeftoverItem;
use super::uninstall_search::{
    commands_by_name, commands_by_place, commands_in, directory_contains_executables,
    entry_commands, find_uninstall_by_display_name, find_uninstall_commands_by_display_name,
    find_uninstall_commands_by_install_location, is_program_file,
    scan_uninstaller_in_directory, uninstaller_in, UninstallEntry,
};
use crate::list::Queue;
use crate::text;
use crate::text::CharSet;

verus! {

/// Which application is to be removed, and how.
#[derive(Debug)]
pub struct UninstallInput {
    pub app_id: Option<String>,
    pub registry_path: Option<String>,
    pub install_location: Option<String>,
    /// Whether files go to the recycle bin; they do where nothing is said.
    pub use_recycle_bin: Option<bool>,
}

/// What an uninstallation led to.
#[derive(Debug)]
pub struct UninstallResult {
    pub success: bool,
    pub message: String,
    pub command: Option<String>,
    pub leftovers: Vec<LeftoverItem>,
}

/// What a cleanup led to.
#[derive(Debug)]
pub struct CleanupResult {
    pub success: bool,
    pub message: String,
    pub cleaned_count: usize,
    pub failed_items: Vec<String>,
}

/// The commands that an uninstallation would run.
#[derive(Debug)]
pub struct UninstallPreview {
    pub commands: Vec<String>,
}

/// What the machine says of an application.
#[derive(Debug)]
pub struct MachineFacts {
    /// The commands of the entry that the input names: the silent one and the
    /// usual one. Absent where it names none that can be opened.
    pub named_commands: Option<(String, String)>,
    /// All entries, in the order in which they are searched.
    pub entries: Vec<UninstallEntry>,
    /// The files of the application's directory and, after them, those of its
    /// subdirectories.
    pub files: Vec<String>,
    /// The files right in the application's directory.
    pub top_files: Vec<String>,
}

/// The text unless it is absent or blank.
pub open spec fn stated(s: Option<String>) -> Option<Seq<char>> {
    match s {
        Some(s) => if text::trimmed(s@, CharSet::Whitespace).len() == 0 {
            None
        } else {
            Some(s@)
        },
        None => None,
    }
}

/// Whether a text is given and not blank.
fn is_stated(s: &Option<String>) -> (r: bool)
    ensures
        r == (stated(*s) is Some),
{
    match s {
        Some(s) => {
            let blank = text::trim(s.as_str(), CharSet::Whitespace);
            !blank.as_str().is_empty()
        },
        None => false,
    }
}

/// The commands of the entry that the input names.
pub open spec fn named_commands(input: UninstallInput, facts: MachineFacts) -> Seq<Seq<char>> {
    if stated(input.registry_path) is Some && key_of(input.registry_path->0@) is Some
        && facts.named_commands is Some {
        let commands = facts.named_commands->0;
        commands_in(commands.0@, commands.1@)
    } else {
        seq![]
    }
}

/// The commands that an uninstallation runs, or why there are none: those of
/// the entry that the input names, else those found by the name, else by the
/// place, else the uninstaller in the application's directory.
pub open spec fn resolved(input: UninstallInput, facts: MachineFacts) -> Result<
    Seq<Seq<char>>,
    Seq<char>,
> {
    let named = named_commands(input, facts);
    if named.len() > 0 {
        Ok(named)
    } else if input.app_id is Some {
        let by_name = commands_by_name(input.app_id->0@, facts.entries@);
        let place = stated(input.install_location);
        if by_name.len() > 0 {
            Ok(by_name)
        } else if place is Some && commands_by_place(place->0, facts.entries@).len() > 0 {
            Ok(commands_by_place(place->0, facts.entries@))
        } else if place is Some && uninstaller_in(facts.files@) is Some {
            Ok(seq![uninstaller_in(facts.files@)->0])
        } else {
            Err("未找到应用 '"@ + input.app_id->0@ + "' 的卸载命令"@)
        }
    } else if stated(input.registry_path) is Some {
        Err("未在注册表中找到可用的卸载命令，且未提供应用名称用于搜索。"@)
    } else {
        Err("参数无效：请提供 app_id 或 registry_path"@)
    }
}

fn named_entry_commands(input: &UninstallInput, facts: &MachineFacts) -> (r: Vec<String>)
    ensures
        text::texts(r@) == named_commands(*input, *facts),
{
    let none: Vec<String> = Vec::new();
    assert(text::texts(none@) =~= seq![]);
    if !is_stated(&input.registry_path) {
        return none;
    }
    if let Some(path) = &input.registry_path {
        if parse_registry_path(path.as_str()).is_some() {
            if let Some((quiet, usual)) = &facts.named_commands {
                return entry_commands(quiet.as_str(), usual.as_str());
            }
        }
    }
    none
}

pub open spec fn resolved_view(r: Result<Vec<String>, String>) -> Result<Seq<Seq<char>>, Seq<char>> {
    match r {
        Ok(commands) => Ok(text::texts(commands@)),
        Err(reason) => Err(reason@),
    }
}

/// The commands that an uninstallation runs, in this order.
pub fn resolve_uninstall_commands(input: &UninstallInput, facts: &MachineFacts) -> (r: Result<
    Vec<String>,
    String,
>)
    ensures
        resolved_view(r) == resolved(*input, *facts),
{
    let named = named_entry_commands(input, facts);
    assert(text::texts(named@).len() == named@.len());
    if named.len() > 0 {
        return Ok(named);
    }
    if let Some(app_id) = &input.app_id {
        let by_name = find_uninstall_commands_by_display_name(app_id.as_str(), &facts.entries);
        assert(text::texts(by_name@).len() == by_name@.len());
        if by_name.len() > 0 {
            return Ok(by_name);
        }
        if is_stated(&input.install_location) {
            if let Some(place) = &input.install_location {
                let by_place = find_uninstall_commands_by_install_location(
                    place.as_str(),
                    &facts.entries,
                );
                assert(text::texts(by_place@).len() == by_place@.len());
                if by_place.len() > 0 {
                    return Ok(by_place);
                }
                let found = scan_uninstaller_in_directory(&facts.files);
                if let Some(path) = found {
                    let one = vec![path];
                    assert(text::texts(one@) =~= seq![path@]);
                    return Ok(one);
                }
            }
        }
        let mut reason = "未找到应用 '".to_owned();
        reason.push_str(app_id.as_str());
        reason.push_str("' 的卸载命令");
        return Err(reason);
    }
    if is_stated(&input.registry_path) {
        Err("未在注册表中找到可用的卸载命令，且未提供应用名称用于搜索。".to_owned())
    } else {
        Err("参数无效：请提供 app_id 或 registry_path".to_owned())
    }
}

/// The commands that an uninstallation would run. On a machine without a
/// registry there are no facts, and the preview says so.
pub fn preview_uninstall(input: UninstallInput, facts: Option<&MachineFacts>) -> (r: Result<
    UninstallPreview,
    String,
>)
    ensures
        match (r, facts) {
            (Ok(preview), Some(facts)) => resolved(input, *facts) == Ok::<
                Seq<Seq<char>>,
                Seq<char>,
            >(text::texts(preview.commands@)),
            (Err(reason), Some(facts)) => resolved(input, *facts) == Err::<
                Seq<Seq<char>>,
                Seq<char>,
            >(reason@),
            (Ok(preview), None) => text::texts(preview.commands@) == seq!["仅支持 Windows"@],
            (Err(reason), None) => false,
        },
{
    match facts {
        Some(facts) => match resolve_uninstall_commands(&input, facts) {
            Ok(commands) => Ok(UninstallPreview { commands }),
            Err(reason) => Err(reason),
        },
        None => {
            let commands = vec!["仅支持 Windows".to_owned()];
            assert(text::texts(commands@) =~= seq!["仅支持 Windows"@]);
            Ok(UninstallPreview { commands })
        },
    }
}

/// Whether an application is still there: the entry that the input names opens,
/// or an entry with commands bears its name or has its place, or its directory
/// still holds programs.
pub open spec fn is_still_there(input: UninstallInput, named_opens: bool, facts: MachineFacts) -> bool {
    ||| stated(input.registry_path) is Some && key_of(input.registry_path->0@) is Some
        && named_opens
    ||| input.app_id is Some && commands_by_name(input.app_id->0@, facts.entries@).len() > 0
    ||| stated(input.install_location) is Some && (commands_by_place(
        input.install_location->0@,
        facts.entries@,
    ).len() > 0 || exists|i: int|
        0 <= i < facts.top_files@.len() && is_program_file((#[trigger] facts.top_files@[i])@))
}

/// Whether an application is still there. `named_opens` says whether the entry
/// that the input names can be opened.
pub fn is_application_still_installed(
    input: &UninstallInput,
    named_opens: bool,
    facts: &MachineFacts,
) -> (r: bool)
    ensures
        r == is_still_there(*input, named_opens, *facts),
{
    if is_stated(&input.registry_path) {
        if let Some(path) = &input.registry_path {
            if parse_registry_path(path.as_str()).is_some() && named_opens {
                return true;
            }
        }
    }
    if let Some(app_id) = &input.app_id {
        if find_uninstall_by_display_name(app_id.as_str(), &facts.entries).is_some() {
            return true;
        }
    }
    if is_stated(&input.install_location) {
        if let Some(place) = &input.install_location {
            let commands = find_uninstall_commands_by_install_location(
                place.as_str(),
                &facts.entries,
            );
            assert(text::texts(commands@).len() == commands@.len());
            if commands.len() > 0 {
                return true;
            }
            return directory_contains_executables(&facts.top_files);
        }
    }
    false
}

/// How often it is asked whether the application is gone.
pub const UNINSTALL_POLLS: usize = 60;

/// How long it takes until it is asked for the first time, in milliseconds.
pub const FIRST_WAIT: u64 = 2000;

/// How long it takes until it is asked again, in milliseconds.
pub const NEXT_WAIT: u64 = 1000;

/// What is done while an uninstaller may still be at work.
#[derive(Debug, Clone, Copy, PartialEq, Eq, Structural)]
pub enum WaitStep {
    /// Wait for so many milliseconds.
    Sleep(u64),
    /// Stop waiting: whether the application is gone.
    Done(bool),
}

/// How the waiting for an application to be gone goes on, once it was found
/// `polls` times that it is still there and now whether it is gone.
pub fn next_wait(polls: usize, gone: bool) -> (r: WaitStep)
    ensures
        r == if gone {
            WaitStep::Done(true)
        } else if polls >= UNINSTALL_POLLS {
            WaitStep::Done(false)
        } else {
            WaitStep::Sleep(NEXT_WAIT)
        },
{
    if gone {
        WaitStep::Done(true)
    } else if polls >= UNINSTALL_POLLS {
        WaitStep::Done(false)
    } else {
        WaitStep::Sleep(NEXT_WAIT)
    }
}

/// What running a command led to.
#[derive(Debug)]
pub enum CommandOutcome {
    /// It could not be run or failed, for this reason.
    Failed(String),
    /// It ran, but the application is still there.
    StillInstalled,
    /// It ran and the application is gone.
    Gone,
}

/// An uninstallation in progress: the commands that are still to be run, the
/// last one that ran, and why others did not.
#[derive(Debug)]
pub struct UninstallRun {
    pub waiting: Queue<String>,
    pub executed: Option<String>,
    pub errors: Vec<String>,
    pub done: bool,
}

/// An uninstallation in progress, as a value.
#[verifier::ext_equal]
pub struct UninstallRunView {
    pub waiting: Seq<Seq<char>>,
    pub executed: Option<Seq<char>>,
    pub errors: Seq<Seq<char>>,
    pub done: bool,
}

impl View for UninstallRun {
    type V = UninstallRunView;

    open spec fn view(&self) -> UninstallRunView {
        UninstallRunView {
            waiting: text::texts(self.waiting@),
            executed: text::view_of(self.executed),
            errors: text::texts(self.errors@),
            done: self.done,
        }
    }
}

/// The uninstallation before its first command.
pub open spec fn first_state(commands: Seq<Seq<char>>) -> UninstallRunView {
    UninstallRunView { waiting: commands, executed: None, errors: seq![], done: false }
}

/// The uninstallation after the outcome of its next command. Once the
/// application is gone, or no command is left, nothing changes any more.
pub open spec fn state_after(run: UninstallRunView, outcome: CommandOutcome) -> UninstallRunView {
    if run.done || run.waiting.len() == 0 {
        run
    } else {
        let command = run.waiting[0];
        let waiting = run.waiting.drop_first();
        match outcome {
            CommandOutcome::Failed(reason) => UninstallRunView {
                waiting,
                errors: run.errors.push(command + " => "@ + reason@),
                ..run
            },
            CommandOutcome::StillInstalled => UninstallRunView {
                waiting,
                executed: Some(command),
                ..run
            },
            CommandOutcome::Gone => UninstallRunView {
                waiting,
                executed: Some(command),
                done: true,
                ..run
            },
        }
    }
}

/// What the uninstallation led to: success where the application is gone; else
/// it names the last command that ran, or why none did.
pub open spec fn verdict(run: UninstallRunView) -> Result<Seq<char>, Seq<char>> {
    match run.executed {
        Some(command) => if run.done {
            Ok(command)
        } else {
            Err(
                "卸载命令已执行但仍检测到应用存在（可能未在卸载向导中确认完成）："@ + command,
            )
        },
        None => if run.errors.len() > 0 {
            Err("卸载命令执行失败："@ + text::joined(run.errors, " | "@))
        } else {
            Err("未找到可执行的卸载命令"@)
        },
    }
}

/// An uninstallation that is to run the application's commands, in this order,
/// until it is gone; or why there are none.
pub fn uninstall_application(input: &UninstallInput, facts: &MachineFacts) -> (r: Result<
    UninstallRun,
    String,
>)
    ensures
        match r {
            Ok(run) => resolved(*input, *facts) matches Ok(commands) && run@ == first_state(
                commands,
            ),
            Err(reason) => resolved(*input, *facts) == Err::<Seq<Seq<char>>, Seq<char>>(reason@),
        },
{
    match resolve_uninstall_commands(input, facts) {
        Ok(commands) => {
            let run = UninstallRun {
                waiting: Queue::of(commands),
                executed: None,
                errors: Vec::new(),
                done: false,
            };
            assert(run@ =~= first_state(text::texts(run.waiting@)));
            Ok(run)
        },
        Err(reason) => Err(reason),
    }
}

impl UninstallRun {
    /// The command that is to be run next; absent where the uninstallation has
    /// ended.
    pub fn next_command(&self) -> (r: Option<String>)
        ensures
            text::view_of(r) == if self@.done || self@.waiting.len() == 0 {
                None
            } else {
                Some(self@.waiting[0])
            },
    {
        assert(text::texts(self.waiting@).len() == self.waiting@.len());
        if self.done || self.waiting.len() == 0 {
            None
        } else {
            assert(text::texts(self.waiting@)[0] == self.waiting@[0]@);
            Some(self.waiting.first().clone())
        }
    }

    /// Takes the outcome of the next command.
    pub fn take_outcome(&mut self, outcome: CommandOutcome)
        ensures
            final(self)@ == state_after(old(self)@, outcome),
    {
        let ghost before = self@;
        assert(text::texts(self.waiting@).len() == self.waiting@.len());
        if self.done || self.waiting.len() == 0 {
            return;
        }
        assert(text::texts(self.waiting@)[0] == self.waiting@[0]@);
        let ghost old_waiting = self.waiting@;
        let command = self.waiting.take_first();
        assert(text::texts(self.waiting@) =~= before.waiting.drop_first());
        match outcome {
            CommandOutcome::Failed(reason) => {
                let mut line = command;
                line.push_str(" => ");
                line.push_str(reason.as_str());
                proof {
                    text::lemma_texts_push(self.errors@, line);
                }
                self.errors.push(line);
            },
            CommandOutcome::StillInstalled => {
                self.executed = Some(command);
            },
            CommandOutcome::Gone => {
                self.executed = Some(command);
                self.done = true;
            },
        }
        assert(self@ =~= state_after(before, outcome));
    }

    /// What the uninstallation led to.
    pub fn conclude(&self) -> (r: Result<UninstallResult, String>)
        ensures
            match r {
                Ok(result) => verdict(self@) == Ok::<Seq<char>, Seq<char>>(result.command->0@)
                    && result.command is Some && result.success && result.message@
                    == "卸载流程已完成。请在前端手动确认后再触发残留扫描。"@
                    && result.leftovers@.len() == 0,
                Err(reason) => verdict(self@) == Err::<Seq<char>, Seq<char>>(reason@),
            },
    {
        match &self.executed {
            Some(command) => if self.done {
                Ok(
                    UninstallResult {
                        success: true,
                        message: "卸载流程已完成。请在前端手动确认后再触发残留扫描。".to_owned(),
                        command: Some(command.clone()),
                        leftovers: Vec::new(),
                    },
                )
            } else {
                let mut reason =
                    "卸载命令已执行但仍检测到应用存在（可能未在卸载向导中确认完成）：".to_owned();
                reason.push_str(command.as_str());
                Err(reason)
            },
            None => {
                assert(text::texts(self.errors@).len() == self.errors@.len());
                if self.errors.len() > 0 {
                    let all = text::join(&self.errors, " | ");
                    let mut reason = "卸载命令执行失败：".to_owned();
                    reason.push_str(all.as_str());
                    Err(reason)
                } else {
                    Err("未找到可执行的卸载命令".to_owned())
                }
            },
        }
    }
}

/// The uninstallation after the outcomes of its commands, in order.
pub open spec fn state_after_all(
    commands: Seq<Seq<char>>,
    outcomes: Seq<CommandOutcome>,
) -> UninstallRunView
    decreases outcomes.len(),
{
    if outcomes.len() == 0 {
        first_state(commands)
    } else {
        state_after(state_after_all(commands, outcomes.drop_last()), outcomes.last())
    }
}

/// An uninstallation succeeds exactly if, of the outcomes of its commands, one
/// is that the application is gone; the command it names is the one that led
/// to the first such outcome.
pub proof fn law_success_means_gone(commands: Seq<Seq<char>>, outcomes: Seq<CommandOutcome>)
    requires
        outcomes.len() <= commands.len(),
    ensures
        verdict(state_after_all(commands, outcomes)) is Ok <==> exists|i: int|
            0 <= i < outcomes.len() && (#[trigger] outcomes[i]) is Gone,
        forall|i: int|
            0 <= i < outcomes.len() && (#[trigger] outcomes[i]) is Gone && (forall|j: int|
                0 <= j < i ==> !((#[trigger] outcomes[j]) is Gone)) ==> verdict(
                state_after_all(commands, outcomes),
            ) == Ok::<Seq<char>, Seq<char>>(commands[i]),
    decreases outcomes.len(),
{
    lemma_run_state(commands, outcomes);
    let run = state_after_all(commands, outcomes);
    if run.done {
        let i = choose|i: int| is_first_gone(outcomes, i) && run.executed == Some(commands[i]);
        assert(outcomes[i] is Gone);
        assert forall|k: int|
            0 <= k < outcomes.len() && (#[trigger] outcomes[k]) is Gone && (forall|j: int|
                0 <= j < k ==> !((#[trigger] outcomes[j]) is Gone)) implies verdict(run) == Ok::<
            Seq<char>,
            Seq<char>,
        >(commands[k]) by {
            if k < i {
                assert(!(outcomes[k] is Gone));
            } else if i < k {
                assert(!(outcomes[i] is Gone));
            }
        }
    }
}

/// Whether an outcome is the first that says that the application is gone.
pub open spec fn is_first_gone(outcomes: Seq<CommandOutcome>, i: int) -> bool {
    0 <= i < outcomes.len() && outcomes[i] is Gone && forall|j: int|
        0 <= j < i ==> !((#[trigger] outcomes[j]) is Gone)
}

proof fn lemma_run_state(commands: Seq<Seq<char>>, outcomes: Seq<CommandOutcome>)
    requires
        outcomes.len() <= commands.len(),
    ensures
        ({
            let run = state_after_all(commands, outcomes);
            &&& run.done ==> exists|i: int| #[trigger]
                is_first_gone(outcomes, i) && run.executed == Some(commands[i])
            &&& !run.done ==> run.waiting == commands.skip(outcomes.len() as int)
            &&& !run.done ==> forall|i: int|
                0 <= i < outcomes.len() ==> !((#[trigger] outcomes[i]) is Gone)
        }),
    decreases outcomes.len(),
{
    if outcomes.len() == 0 {
        assert(commands.skip(0) =~= commands);
    } else {
        let front = outcomes.drop_last();
        lemma_run_state(commands, front);
        let before = state_after_all(commands, front);
        let n = front.len() as int;
        assert forall|i: int| 0 <= i < n implies #[trigger] outcomes[i] == front[i] by {}
        if before.done {
            let i = choose|i: int| #[trigger]
                is_first_gone(front, i) && before.executed == Some(commands[i]);
            assert(outcomes[i] == front[i]);
            assert(is_first_gone(outcomes, i));
        } else {
            assert(before.waiting[0] == commands[n]);
            assert(commands.skip(n).drop_first() =~= commands.skip(n + 1));
            if outcomes[n] is Gone {
                assert(is_first_gone(outcomes, n));
            }
        }
    }
}

} // verus!
