//! What is promised of directories that are moved: which are refused, what is
//! planned to be copied, whose backups are whose, and when a link counts.

use vstd::prelude::*;

use super::cleanup::is_leftover;
use super::copy_engine::{
    extends_plan, file_views, is_copied_file, is_executable_path, link_views, planned_files,
    rewritten_target, scan_failure, steps_sum, CopyPlan, EntryKind, LinkTarget, PlannedFileView,
    ScanEntry, ScanStep,
};
use super::danger_rules::{
    danger_of, danger_rules, first_match, law_blocked_is_never_downgraded, pattern_matches,
    rule_form, rule_message, DangerLevel, DangerRule,
};
use super::links::{backup_name_of, link_mismatch, rollback_message, LinkProbe};
use super::migration_laws::{lemma_tells, tells};
use super::occupancy::{all_locked, listed_name};
use super::space::{is_mount_of, lies_on, mount_form, Mount};
use crate::path;
use crate::text;
use crate::text::CharSet;

verus! {

/// A pattern in `^` and `$` matches the text between them and nothing else; any
/// other matches wherever it stands.
pub proof fn law_what_patterns_match(
    inner: Seq<char>,
    path: Seq<char>,
    before: Seq<char>,
    behind: Seq<char>,
)
    ensures
        pattern_matches(path, seq!['^'] + inner + seq!['$']) <==> path == inner,
        inner.len() > 0 && inner[0] != '^' ==> pattern_matches(before + inner + behind, inner),
        inner.len() > 0 && inner[0] != '^' && !text::contains_text(path, inner)
            ==> !pattern_matches(path, inner),
{
    let exact = seq!['^'] + inner + seq!['$'];
    assert(exact.subrange(1, exact.len() - 1) =~= inner);
    let s = before + inner + behind;
    assert(s.subrange(before.len() as int, before.len() as int + inner.len()) =~= inner);
    assert(text::stands_at(s, inner, before.len() as int));
}

/// Whether a rule is the first that matches a path.
pub open spec fn is_first_match(rules: Seq<DangerRule>, path: Seq<char>, i: int) -> bool {
    &&& 0 <= i < rules.len()
    &&& pattern_matches(path, rules[i].pattern@)
    &&& forall|j: int| 0 <= j < i ==> !pattern_matches(path, (#[trigger] rules[j]).pattern@)
}

/// The first rule that matches decides.
pub proof fn law_first_matching_rule_decides(rules: Seq<DangerRule>, path: Seq<char>, i: int)
    requires
        is_first_match(rules, path, i),
    ensures
        first_match(rules, path) == Some(rules[i]),
    decreases rules.len(),
{
    if i > 0 {
        let rest = rules.drop_first();
        assert(!pattern_matches(path, rules[0].pattern@));
        assert forall|j: int| 0 <= j < i - 1 implies !pattern_matches(
            path,
            (#[trigger] rest[j]).pattern@,
        ) by {
            assert(rest[j] == rules[j + 1]);
        }
        assert(rest[i - 1] == rules[i]);
        law_first_matching_rule_decides(rest, path, i - 1);
    }
}

/// Where no rule matches, none decides.
pub proof fn law_no_rule_decides_unmatched(rules: Seq<DangerRule>, path: Seq<char>)
    requires
        forall|j: int|
            0 <= j < rules.len() ==> !pattern_matches(path, (#[trigger] rules[j]).pattern@),
    ensures
        first_match(rules, path) is None,
    decreases rules.len(),
{
    if rules.len() > 0 {
        let rest = rules.drop_first();
        assert(!pattern_matches(path, rules[0].pattern@));
        assert forall|j: int| 0 <= j < rest.len() implies !pattern_matches(
            path,
            (#[trigger] rest[j]).pattern@,
        ) by {
            assert(rest[j] == rules[j + 1]);
        }
        law_no_rule_decides_unmatched(rest, path);
    }
}

/// A directory that no rule matches is in no danger.
pub proof fn law_unmatched_directory_is_in_no_danger(source: Seq<char>)
    requires
        forall|i: int|
            0 <= i < danger_rules().len() ==> !pattern_matches(
                rule_form(source),
                (#[trigger] danger_rules()[i]).pattern@,
            ),
    ensures
        danger_of(source) is None,
{
    law_no_rule_decides_unmatched(danger_rules(), rule_form(source));
}

/// Whether moving a directory is blocked.
pub open spec fn is_blocked(source: Seq<char>) -> bool {
    danger_of(source) matches Some((level, _)) && level == DangerLevel::Blocked
}

/// The system's directory and what lies below it, the roots of users and of
/// programs, the homes of the browsers, of the office suite, of drivers and of
/// runtimes cannot be moved.
pub proof fn law_directories_of_the_system_are_blocked(source: Seq<char>)
    ensures
        text::contains_text(rule_form(source), "c:\\windows"@) ==> is_blocked(source),
        rule_form(source) == "c:\\users"@ ==> is_blocked(source),
        rule_form(source) == "c:\\program files"@ ==> is_blocked(source),
        rule_form(source) == "c:\\program files (x86)"@ ==> is_blocked(source),
        text::contains_text(rule_form(source), "google\\chrome\\application"@) ==> is_blocked(
            source,
        ),
        text::contains_text(rule_form(source), "microsoft\\edge\\application"@) ==> is_blocked(
            source,
        ),
        text::contains_text(rule_form(source), "\\microsoft office"@) ==> is_blocked(source),
        text::contains_text(rule_form(source), "\\nvidia corporation"@) ==> is_blocked(source),
        text::contains_text(rule_form(source), "advanced micro devices"@) ==> is_blocked(source),
        text::contains_text(rule_form(source), "c:\\program files\\dotnet"@) ==> is_blocked(source),
{
    reveal_strlit("c:\\windows");
    reveal_strlit("^c:\\users$");
    reveal_strlit("c:\\users");
    reveal_strlit("^c:\\program files$");
    reveal_strlit("c:\\program files");
    reveal_strlit("^c:\\program files (x86)$");
    reveal_strlit("c:\\program files (x86)");
    reveal_strlit("google\\chrome\\application");
    reveal_strlit("microsoft\\edge\\application");
    reveal_strlit("\\microsoft office");
    reveal_strlit("\\nvidia corporation");
    reveal_strlit("advanced micro devices");
    reveal_strlit("c:\\program files\\dotnet");
    let rules = danger_rules();
    let form = rule_form(source);
    assert(rules[0].pattern == "c:\\windows" && rules[6].pattern == "^c:\\users$"
        && rules[7].pattern == "^c:\\program files$" && rules[8].pattern
        == "^c:\\program files (x86)$" && rules[10].pattern == "microsoft\\edge\\application"
        && rules[13].pattern == "google\\chrome\\application" && rules[17].pattern
        == "\\microsoft office" && rules[21].pattern == "\\nvidia corporation" && rules[24].pattern
        == "advanced micro devices" && rules[27].pattern == "c:\\program files\\dotnet");
    assert("^c:\\users$"@ =~= seq!['^'] + "c:\\users"@ + seq!['$']);
    assert("^c:\\program files$"@ =~= seq!['^'] + "c:\\program files"@ + seq!['$']);
    assert("^c:\\program files (x86)$"@ =~= seq!['^'] + "c:\\program files (x86)"@ + seq!['$']);
    law_what_patterns_match("c:\\users"@, form, seq![], seq![]);
    law_what_patterns_match("c:\\program files"@, form, seq![], seq![]);
    law_what_patterns_match("c:\\program files (x86)"@, form, seq![], seq![]);
    if text::contains_text(form, "c:\\windows"@) {
        law_blocked_is_never_downgraded(source, 0);
    }
    if form == "c:\\users"@ {
        law_blocked_is_never_downgraded(source, 6);
    }
    if form == "c:\\program files"@ {
        law_blocked_is_never_downgraded(source, 7);
    }
    if form == "c:\\program files (x86)"@ {
        law_blocked_is_never_downgraded(source, 8);
    }
    if text::contains_text(form, "microsoft\\edge\\application"@) {
        law_blocked_is_never_downgraded(source, 10);
    }
    if text::contains_text(form, "google\\chrome\\application"@) {
        law_blocked_is_never_downgraded(source, 13);
    }
    if text::contains_text(form, "\\microsoft office"@) {
        law_blocked_is_never_downgraded(source, 17);
    }
    if text::contains_text(form, "\\nvidia corporation"@) {
        law_blocked_is_never_downgraded(source, 21);
    }
    if text::contains_text(form, "advanced micro devices"@) {
        law_blocked_is_never_downgraded(source, 24);
    }
    if text::contains_text(form, "c:\\program files\\dotnet"@) {
        law_blocked_is_never_downgraded(source, 27);
    }
}

/// The user is told by name what a directory is and of which kind.
pub proof fn law_rule_tells_what_it_is_about(rule: DangerRule)
    ensures
        tells(rule_message(rule), rule.label@),
        tells(rule_message(rule), rule.category@),
{
    let message = rule_message(rule);
    match rule.level {
        DangerLevel::Blocked => {
            let a = "🚫 无法迁移："@;
            let b = " 属于「"@;
            let c = "」，不支持迁移。\n\n"@ + super::danger_rules::tip(rule.category@);
            lemma_tells(a, rule.label@, b + rule.category@ + c);
            assert(a + rule.label@ + (b + rule.category@ + c) =~= message);
            lemma_tells(a + rule.label@ + b, rule.category@, c);
            assert(a + rule.label@ + b + rule.category@ + c =~= message);
        },
        DangerLevel::Warning => {
            let a = "高风险目录："@;
            lemma_tells(a, rule.label@, "（"@ + rule.category@ + "）"@);
            assert(a + rule.label@ + ("（"@ + rule.category@ + "）"@) =~= message);
            lemma_tells(a + rule.label@ + "（"@, rule.category@, "）"@);
        },
    }
}

/// A link counts as confirmed exactly if it is a link, its target can be read,
/// both ends can be resolved, and they are the same.
pub proof fn law_confirmed_link(probe: LinkProbe, link: Seq<char>, target: Seq<char>)
    ensures
        link_mismatch(probe, link, target) is None <==> probe.is_junction && probe.actual_target
            is Some && probe.expected is Ok && probe.actual is Ok && probe.same,
{
}

/// What is said of a rollback names the place of the data.
pub proof fn law_rollback_names_the_data(
    target: Seq<char>,
    cleanup: Option<Seq<char>>,
    link: Option<Seq<char>>,
)
    ensures
        tells(rollback_message(target, cleanup, link), target),
{
    let message = rollback_message(target, cleanup, link);
    let before = if cleanup is None && link is None {
        "已自动恢复目录链接，数据仍完整保存在："@
    } else {
        "自动回滚未完全成功。目标数据仍完整保存在："@
    };
    let after = message.skip((before + target).len() as int);
    lemma_tells(before, target, after);
    assert(before + target + after =~= message);
}

/// Whether an entry stands below the source.
pub open spec fn stands_below(entry: ScanEntry, source: Seq<char>) -> bool {
    path::lies_in(entry.path@, source) && path::rest_below(entry.path@, source).len() > 0
}

/// Every file below the source whose size can be read, and every link to one, is
/// planned under its path below the source with its size, which adds to the
/// whole.
pub proof fn law_every_file_is_planned(p: CopyPlan, q: CopyPlan, entry: ScanEntry, size: u64)
    requires
        extends_plan(p, q, entry),
        stands_below(entry, p.source_root@),
        entry.kind == EntryKind::File(Ok(size)) || entry.kind == EntryKind::Link(
            LinkTarget::File { size },
        ),
    ensures
        file_views(q.file_list@).len() == file_views(p.file_list@).len() + 1,
        file_views(q.file_list@).drop_last() == file_views(p.file_list@),
        file_views(q.file_list@).last().relative_path == path::rest_below(
            entry.path@,
            p.source_root@,
        ),
        file_views(q.file_list@).last().size == size,
        q.total_size == p.total_size + size,
        q.dir_list@.len() == p.dir_list@.len(),
        q.link_list@.len() == p.link_list@.len(),
{
    assert(file_views(q.file_list@).drop_last() =~= file_views(p.file_list@));
    assert(text::texts(q.dir_list@).len() == q.dir_list@.len());
    assert(text::texts(p.dir_list@).len() == p.dir_list@.len());
    assert(link_views(q.link_list@).len() == q.link_list@.len());
    assert(link_views(p.link_list@).len() == p.link_list@.len());
}

/// Every directory below the source is planned, and nothing more; it adds
/// nothing to the whole.
pub proof fn law_every_directory_is_planned(p: CopyPlan, q: CopyPlan, entry: ScanEntry)
    requires
        extends_plan(p, q, entry),
        stands_below(entry, p.source_root@),
        entry.kind is Directory,
    ensures
        text::texts(q.dir_list@) == text::texts(p.dir_list@).push(
            path::rest_below(entry.path@, p.source_root@),
        ),
        q.file_list@.len() == p.file_list@.len(),
        q.total_size == p.total_size,
{
    assert(file_views(q.file_list@).len() == q.file_list@.len());
    assert(file_views(p.file_list@).len() == p.file_list@.len());
}

/// Every link to a directory whose target can be read is planned as a link; one
/// that leads nowhere is left out.
pub proof fn law_every_directory_link_is_planned(
    p: CopyPlan,
    q: CopyPlan,
    entry: ScanEntry,
    raw: String,
)
    requires
        extends_plan(p, q, entry),
        stands_below(entry, p.source_root@),
    ensures
        entry.kind == EntryKind::Link(LinkTarget::Directory { raw: Some(raw) }) ==> {
            &&& link_views(q.link_list@).len() == link_views(p.link_list@).len() + 1
            &&& link_views(q.link_list@).last().relative_path == path::rest_below(
                entry.path@,
                p.source_root@,
            )
            &&& q.file_list@.len() == p.file_list@.len()
            &&& q.total_size == p.total_size
        },
        entry.kind == EntryKind::Link(LinkTarget::Dangling) ==> q.file_list@.len()
            == p.file_list@.len() && q.link_list@.len() == p.link_list@.len() && q.dir_list@.len()
            == p.dir_list@.len() && q.total_size == p.total_size,
{
    assert(text::texts(q.dir_list@).len() == q.dir_list@.len());
    assert(text::texts(p.dir_list@).len() == p.dir_list@.len());
    assert(file_views(q.file_list@).len() == q.file_list@.len());
    assert(file_views(p.file_list@).len() == p.file_list@.len());
    assert(link_views(q.link_list@).len() == q.link_list@.len());
    assert(link_views(p.link_list@).len() == p.link_list@.len());
}

/// A plan that knows of an executable keeps knowing, and learns of every one
/// that lies no deeper than five levels.
pub proof fn law_executables_are_noticed(p: CopyPlan, q: CopyPlan, entry: ScanEntry, size: u64)
    requires
        extends_plan(p, q, entry),
    ensures
        p.has_executable ==> q.has_executable,
        stands_below(entry, p.source_root@) && entry.kind == EntryKind::File(Ok(size))
            && is_executable_path(path::rest_below(entry.path@, p.source_root@), 5)
            ==> q.has_executable,
{
}

/// A file is an executable by its extension, in whatever case, if it lies no
/// deeper than the limit; the limit only lets more in.
pub proof fn law_what_an_executable_is(file: Seq<char>, name: Seq<char>, depth: int)
    requires
        path::last_name(file) == Some(name),
    ensures
        is_executable_path(file, depth) <==> path::components(file).len() <= depth && (
        path::extension(name) is Some && text::ascii_lowercase(path::extension(name)->0)
            == text::ascii_lowercase("exe"@)),
        is_executable_path(file, depth) ==> is_executable_path(file, depth + 1),
{
}

/// A source that cannot be read to the end is not copied: an entry that cannot
/// be read, a size that cannot be read, and a wish to cancel break the plan off.
pub proof fn law_unreadable_source_breaks_the_plan_off(
    source: Seq<char>,
    entry: ScanEntry,
    reason: String,
    size: u64,
)
    ensures
        scan_failure(ScanStep::Unreadable { reason }, source) is Some,
        scan_failure(ScanStep::Cancelled, source) is Some,
        stands_below(entry, source) && entry.kind == EntryKind::File(Err(reason))
            ==> scan_failure(ScanStep::Entry(entry), source) is Some,
        path::lies_in(entry.path@, source) && entry.kind == EntryKind::File(Ok(size))
            ==> scan_failure(ScanStep::Entry(entry), source) is None,
        path::lies_in(entry.path@, source) && (entry.kind is Directory || entry.kind is Link)
            ==> scan_failure(ScanStep::Entry(entry), source) is None,
{
}

/// A link that leads out of the source keeps leading where it led.
pub proof fn law_outer_link_stays(
    link_parent: Seq<char>,
    raw: Seq<char>,
    source: Seq<char>,
    target: Seq<char>,
)
    requires
        !path::lies_in(path::joined(link_parent, raw), source),
    ensures
        rewritten_target(link_parent, raw, source, target) == path::joined(link_parent, raw),
{
}

/// A path lies on a mount if it is the mount point or stands below it; what
/// merely begins like it does not.
pub proof fn law_what_lies_on_a_mount(mount: Seq<char>, rest: Seq<char>)
    ensures
        lies_on(mount, mount),
        lies_on(mount + seq!['\\'] + rest, mount),
        rest.len() > 0 && rest[0] != '\\' ==> !lies_on(mount + rest, mount),
{
    let path = mount + seq!['\\'] + rest;
    assert(path.subrange(0, mount.len() as int) =~= mount);
    assert(path[mount.len() as int] == '\\');
    if rest.len() > 0 {
        assert((mount + rest)[mount.len() as int] == rest[0]);
        assert((mount + rest).len() > mount.len());
    }
}

/// Of the mounts that a path lies on the one with the longest name counts, and
/// there is no other.
pub proof fn law_one_mount_counts(mounts: Seq<Mount>, path: Seq<char>, i: int, j: int)
    requires
        is_mount_of(mounts, path, i),
        is_mount_of(mounts, path, j),
    ensures
        i == j,
        forall|k: int|
            0 <= k < mounts.len() && lies_on(path, mount_form((#[trigger] mounts[k]).mount_point@))
                ==> mount_form(mounts[k].mount_point@).len() <= mount_form(
                mounts[i].mount_point@,
            ).len(),
{
    assert(lies_on(path, mount_form(mounts[i].mount_point@)));
    assert(lies_on(path, mount_form(mounts[j].mount_point@)));
}

/// A file that is locked is listed by its path below the directory.
pub proof fn law_locked_files_are_listed(files: Seq<Seq<char>>, file: Seq<char>, dir: Seq<char>)
    ensures
        path::lies_in(file, dir) ==> listed_name(file, dir) == path::rest_below(file, dir),
        !path::lies_in(file, dir) ==> listed_name(file, dir) == file,
        files.len() <= 10 ==> all_locked(files) == files,
    decreases files.len(),
{
    if 0 < files.len() <= 10 {
        law_locked_files_are_listed(files.drop_last(), file, dir);
        assert(all_locked(files) =~= files);
    } else if files.len() == 0 {
        assert(all_locked(files) =~= files);
    }
}

proof fn lemma_decimal(n: nat)
    ensures
        text::is_digits(text::decimal(n)),
        text::digits_value(text::decimal(n)) == n,
    decreases n,
{
    let s = text::decimal(n);
    if n < 10 {
        assert(s =~= seq![text::digit_char(n)]);
        assert(s.drop_last() =~= Seq::<char>::empty());
        assert(text::digits_value(s.drop_last()) == 0);
        lemma_digit(n);
    } else {
        lemma_decimal(n / 10);
        lemma_digit(n % 10);
        assert(s.drop_last() =~= text::decimal(n / 10));
        assert forall|i: int| 0 <= i < s.len() implies text::is_ascii_digit(#[trigger] s[i]) by {
            if i < s.len() - 1 {
                assert(s[i] == text::decimal(n / 10)[i]);
            }
        }
    }
}

proof fn lemma_digit(d: nat)
    requires
        d < 10,
    ensures
        text::is_ascii_digit(text::digit_char(d)),
        text::digit_char(d) as u32 - 48 == d,
{
}

pub proof fn lemma_first_piece(a: Seq<char>, c: char, b: Seq<char>)
    requires
        forall|i: int| 0 <= i < a.len() ==> #[trigger] a[i] != c,
    ensures
        text::pieces(a + seq![c] + b, CharSet::One(c)).len() > 1,
        text::pieces(a + seq![c] + b, CharSet::One(c))[0] == a,
    decreases b.len(),
{
    let set = CharSet::One(c);
    let s = a + seq![c] + b;
    if b.len() == 0 {
        crate::app_manager::residue_laws::lemma_one_piece(a, set);
        assert(s.drop_last() =~= a);
        assert(s.last() == c);
    } else {
        lemma_first_piece(a, c, b.drop_last());
        assert(s.drop_last() =~= a + seq![c] + b.drop_last());
    }
}

/// A backup is recognised by the process that made it: never as a leftover by
/// that process itself, and always by any other.
pub proof fn law_backups_of_others_are_leftovers(
    maker: u32,
    timestamp: nat,
    attempt: nat,
    process: u32,
)
    ensures
        is_leftover(backup_name_of(maker as nat, timestamp, attempt), process) <==> process
            != maker,
{
    let name = backup_name_of(maker as nat, timestamp, attempt);
    let prefix = ".viap_migration_backup_"@;
    let digits = text::decimal(maker as nat);
    reveal_strlit("_");
    let rest = text::decimal(timestamp) + "_"@ + text::decimal(attempt);
    let body = digits + seq!['_'] + rest;
    assert("_"@ =~= seq!['_']);
    assert(name =~= prefix + body);
    assert(name.subrange(0, prefix.len() as int) =~= prefix);
    assert(name.subrange(prefix.len() as int, name.len() as int) =~= body);
    lemma_decimal(maker as nat);
    assert forall|i: int| 0 <= i < digits.len() implies #[trigger] digits[i] != '_' by {
        assert(text::is_ascii_digit(digits[i]));
    }
    lemma_first_piece(digits, '_', rest);
    assert(text::is_ascii_digit(digits[0]));
    assert(text::parsed_u64(digits) == Some(maker as u64));
}

/// The bytes of files that are planned to be copied.
pub open spec fn bytes_of(files: Seq<PlannedFileView>) -> int
    decreases files.len(),
{
    if files.len() == 0 {
        0
    } else {
        bytes_of(files.drop_last()) + files.last().size
    }
}

/// What a plan adds up to is what its files add up to.
pub proof fn law_plan_adds_up_to_its_files(steps: Seq<ScanStep>, source: Seq<char>)
    ensures
        steps_sum(steps, source) == bytes_of(planned_files(steps, source)),
    decreases steps.len(),
{
    if steps.len() > 0 {
        law_plan_adds_up_to_its_files(steps.drop_last(), source);
        let before = planned_files(steps.drop_last(), source);
        let after = planned_files(steps, source);
        if let ScanStep::Entry(entry) = steps.last() {
            if is_copied_file(entry, source) {
                assert(after.drop_last() =~= before);
            }
        }
    }
}

} // verus!
