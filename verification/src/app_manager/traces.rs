//! Services, drivers and scheduled tasks that an application leaves running.
//! They are only reported, never removed.

#![verifier::loop_isolation(false)]

use vstd::prelude::*;

use crate::list::{is_stable_rearrangement, is_stable_sort, stable_sort, Queue, Ranked};
use crate::text;
use crate::text::CharSet;

verus! {

/// Something that an application left in the system.
#[derive(Debug)]
pub struct SystemTrace {
    /// `service`, `driver` or `task`.
    pub kind: String,
    pub name: String,
    /// What it runs, or what to know about it.
    pub detail: String,
}

/// How many traces are reported at most.
pub const MAX_TRACES: usize = 30;

/// How many levels of the task tree are searched.
pub const MAX_TASK_DEPTH: usize = 3;

/// What is said of a scheduled task.
pub const TASK_DETAIL: &'static str = "计划任务：应用卸载后仍可能被定期拉起";

/// Words that many services and tasks are called by.
pub open spec fn generic_tokens() -> Seq<&'static str> {
    seq![
        "app",
        "application",
        "service",
        "services",
        "update",
        "updater",
        "setup",
        "install",
        "installer",
        "helper",
        "client",
        "server",
        "manager",
        "launcher",
        "runtime",
        "x64",
        "x86",
        "the",
        "and",
        "for",
        "inc",
        "ltd",
        "llc",
        "corp",
        "version",
        "win",
        "windows",
        "microsoft",
    ]
}

/// Whether a token tells an application from others.
pub open spec fn is_telling_token(token: Seq<char>) -> bool {
    text::byte_len(token) >= 3 && !text::among(generic_tokens(), token)
}

/// The runs of ASCII letters and digits of a name that tell it from others, in
/// lower case.
pub open spec fn telling_tokens(parts: Seq<Seq<char>>) -> Seq<Seq<char>>
    decreases parts.len(),
{
    if parts.len() == 0 {
        seq![]
    } else {
        let before = telling_tokens(parts.drop_last());
        let token = text::lowercase(parts.last());
        if is_telling_token(token) {
            before.push(token)
        } else {
            before
        }
    }
}

/// The tokens by which the traces of an application are recognised.
pub open spec fn match_tokens(app_name: Seq<char>) -> Seq<Seq<char>> {
    telling_tokens(text::pieces(app_name, CharSet::NotAsciiAlphanumeric))
}

fn is_generic(token: &str) -> (r: bool)
    ensures
        r == text::among(generic_tokens(), token@),
{
    let generic = vec![
        "app",
        "application",
        "service",
        "services",
        "update",
        "updater",
        "setup",
        "install",
        "installer",
        "helper",
        "client",
        "server",
        "manager",
        "launcher",
        "runtime",
        "x64",
        "x86",
        "the",
        "and",
        "for",
        "inc",
        "ltd",
        "llc",
        "corp",
        "version",
        "win",
        "windows",
        "microsoft",
    ];
    assert(generic@ =~= generic_tokens());
    text::is_among(&generic, token)
}

/// The tokens by which the traces of an application are recognised.
pub fn build_match_tokens(app_name: &str) -> (r: Vec<String>)
    ensures
        text::texts(r@) == match_tokens(app_name@),
{
    let parts = text::split(app_name, CharSet::NotAsciiAlphanumeric);
    let ghost all = text::texts(parts@);
    let mut r: Vec<String> = Vec::new();
    let mut i: usize = 0;
    assert(all.take(0) =~= seq![]);
    assert(text::texts(r@) =~= seq![]);
    while i < parts.len()
        invariant
            i <= parts@.len(),
            text::texts(r@) == telling_tokens(all.take(i as int)),
        decreases parts@.len() - i,
    {
        assert(all[i as int] == parts@[i as int]@);
        assert(all.take(i + 1).drop_last() =~= all.take(i as int));
        let token = text::to_lowercase(parts[i].as_str());
        if text::byte_length(token.as_str()) >= 3 && !is_generic(token.as_str()) {
            proof {
                text::lemma_texts_push(r@, token);
            }
            r.push(token);
        }
        i = i + 1;
    }
    assert(all.take(i as int) =~= all);
    r
}

/// The program that a service runs, as it is compared: without quotes and the
/// prefix for device paths, with the system's directory written out, without
/// arguments, in lower case.
pub open spec fn image_of(image_path: Seq<char>, system_root: Seq<char>) -> Seq<char> {
    let cleaned = text::without_leading(
        text::trimmed(text::trimmed(image_path, CharSet::Whitespace), CharSet::One('"')),
        "\\??\\"@,
    );
    let root = text::trimmed_end(system_root, CharSet::One('\\')) + "\\"@;
    let expanded = text::replaced_text(cleaned, "\\SystemRoot\\"@, root);
    text::lowercase(
        text::trimmed(
            text::trimmed(text::text_up_to(expanded, " -"@), CharSet::Whitespace),
            CharSet::One('"'),
        ),
    )
}

/// The program that a service runs, as it is compared.
pub fn normalize_image_path(image_path: &str, system_root: &str) -> (r: String)
    ensures
        r@ == image_of(image_path@, system_root@),
{
    let blank = text::trim(image_path, CharSet::Whitespace);
    let plain = text::trim(blank.as_str(), CharSet::One('"'));
    let cleaned = text::remove_leading(plain.as_str(), "\\??\\");
    let mut root = text::trim_end(system_root, CharSet::One('\\'));
    root.push_str("\\");
    proof {
        reveal_strlit("\\SystemRoot\\");
    }
    let expanded = text::replace_text(cleaned.as_str(), "\\SystemRoot\\", root.as_str());
    let program = text::take_up_to(expanded.as_str(), " -");
    let program = text::trim(program.as_str(), CharSet::Whitespace);
    let program = text::trim(program.as_str(), CharSet::One('"'));
    text::to_lowercase(program.as_str())
}

/// Whether a text contains one of the tokens.
pub open spec fn holds_token(s: Seq<char>, tokens: Seq<String>) -> bool {
    exists|i: int| 0 <= i < tokens.len() && text::contains_text(s, (#[trigger] tokens[i])@)
}

fn contains_token(s: &str, tokens: &Vec<String>) -> (r: bool)
    ensures
        r == holds_token(s@, tokens@),
{
    let mut i: usize = 0;
    while i < tokens.len()
        invariant
            i <= tokens@.len(),
            forall|j: int| 0 <= j < i ==> !text::contains_text(s@, (#[trigger] tokens@[j])@),
        decreases tokens@.len() - i,
    {
        if text::contains(s, tokens[i].as_str()) {
            return true;
        }
        i = i + 1;
    }
    false
}

/// Whether a program lies in an application's place: it is the place, or
/// stands below it.
pub open spec fn runs_from(image: Seq<char>, location: Seq<char>) -> bool {
    let place = text::lowercase(text::trimmed_end(location, CharSet::One('\\')));
    place.len() > 0 && (image == place || text::has_prefix(image, place + "\\"@))
}

/// Whether a service is the application's: its program lies in the
/// application's place, or one of its names contains a token.
pub open spec fn is_trace(
    name: Seq<char>,
    display_name: Seq<char>,
    image_path: Option<Seq<char>>,
    tokens: Seq<String>,
    location: Option<Seq<char>>,
    system_root: Seq<char>,
) -> bool {
    ||| image_path is Some && location is Some && runs_from(
        image_of(image_path->0, system_root),
        location->0,
    )
    ||| holds_token(text::lowercase(name) + " "@ + text::lowercase(display_name), tokens)
}

/// Whether a service is the application's.
pub fn trace_matches(
    name: &str,
    display_name: &str,
    image_path: Option<&str>,
    tokens: &Vec<String>,
    install_location: Option<&str>,
    system_root: &str,
) -> (r: bool)
    ensures
        r == is_trace(
            name@,
            display_name@,
            text::str_view(image_path),
            tokens@,
            text::str_view(install_location),
            system_root@,
        ),
{
    if let (Some(image), Some(location)) = (image_path, install_location) {
        let image = normalize_image_path(image, system_root);
        let bare = text::trim_end(location, CharSet::One('\\'));
        let mut place = text::to_lowercase(bare.as_str());
        if !place.as_str().is_empty() {
            if text::same(image.as_str(), place.as_str()) {
                return true;
            }
            place.push_str("\\");
            if text::starts_with(image.as_str(), place.as_str()) {
                return true;
            }
        }
    }
    let mut names = text::to_lowercase(name);
    let second = text::to_lowercase(display_name);
    names.push_str(" ");
    names.push_str(second.as_str());
    contains_token(names.as_str(), tokens)
}

/// A service or driver, as the registry describes it.
#[derive(Debug)]
pub struct ServiceFacts {
    pub name: String,
    pub display_name: String,
    pub image_path: String,
    /// 1 and 2 stand for drivers.
    pub service_type: u32,
}

/// A trace, as a value.
#[verifier::ext_equal]
pub struct TraceView {
    pub kind: Seq<char>,
    pub name: Seq<char>,
    pub detail: Seq<char>,
}

impl View for SystemTrace {
    type V = TraceView;

    open spec fn view(&self) -> TraceView {
        TraceView { kind: self.kind@, name: self.name@, detail: self.detail@ }
    }
}

pub open spec fn trace_views(v: Seq<SystemTrace>) -> Seq<TraceView> {
    Seq::new(v.len(), |i: int| v[i]@)
}

/// How a service or driver is reported.
pub open spec fn service_trace(service: ServiceFacts) -> TraceView {
    let detail = if text::trimmed(service.display_name@, CharSet::Whitespace).len() == 0 {
        service.image_path@
    } else {
        service.display_name@ + " · "@ + service.image_path@
    };
    TraceView {
        kind: if service.service_type == 1 || service.service_type == 2 {
            "driver"@
        } else {
            "service"@
        },
        name: service.name@,
        detail: text::trimmed(detail, CharSet::Two(' ', '·')),
    }
}

/// How a scheduled task is reported.
pub open spec fn task_trace(name: Seq<char>) -> TraceView {
    TraceView { kind: "task"@, name, detail: TASK_DETAIL@ }
}

/// The traces with those of the services added that are the application's, as
/// long as there are fewer than the most that are reported.
pub open spec fn with_services(
    traces: Seq<TraceView>,
    services: Seq<ServiceFacts>,
    tokens: Seq<String>,
    location: Option<Seq<char>>,
    system_root: Seq<char>,
) -> Seq<TraceView>
    decreases services.len(),
{
    if services.len() == 0 {
        traces
    } else {
        let before = with_services(traces, services.drop_last(), tokens, location, system_root);
        let service = services.last();
        if before.len() < MAX_TRACES && is_trace(
            service.name@,
            service.display_name@,
            Some(service.image_path@),
            tokens,
            location,
            system_root,
        ) {
            before.push(service_trace(service))
        } else {
            before
        }
    }
}

fn describe_service(service: &ServiceFacts) -> (r: SystemTrace)
    ensures
        r@ == service_trace(*service),
{
    let kind = if service.service_type == 1 || service.service_type == 2 {
        "driver".to_owned()
    } else {
        "service".to_owned()
    };
    let blank = text::trim(service.display_name.as_str(), CharSet::Whitespace);
    let detail = if blank.as_str().is_empty() {
        service.image_path.clone()
    } else {
        let mut d = service.display_name.clone();
        d.push_str(" · ");
        d.push_str(service.image_path.as_str());
        d
    };
    SystemTrace {
        kind,
        name: service.name.clone(),
        detail: text::trim(detail.as_str(), CharSet::Two(' ', '·')),
    }
}

fn collect_service_traces(
    services: &Vec<ServiceFacts>,
    tokens: &Vec<String>,
    location: Option<&str>,
    system_root: &str,
) -> (r: Vec<SystemTrace>)
    ensures
        trace_views(r@) == with_services(
            seq![],
            services@,
            tokens@,
            text::str_view(location),
            system_root@,
        ),
{
    let mut r: Vec<SystemTrace> = Vec::new();
    let mut i: usize = 0;
    assert(services@.take(0) =~= seq![]);
    assert(trace_views(r@) =~= seq![]);
    while i < services.len()
        invariant
            i <= services@.len(),
            trace_views(r@) == with_services(
                seq![],
                services@.take(i as int),
                tokens@,
                text::str_view(location),
                system_root@,
            ),
        decreases services@.len() - i,
    {
        assert(services@.take(i + 1).drop_last() =~= services@.take(i as int));
        assert(trace_views(r@).len() == r@.len());
        let service = &services[i];
        if r.len() < MAX_TRACES && trace_matches(
            service.name.as_str(),
            service.display_name.as_str(),
            Some(service.image_path.as_str()),
            tokens,
            location,
            system_root,
        ) {
            let ghost before = trace_views(r@);
            let one = describe_service(service);
            r.push(one);
            assert(trace_views(r@) =~= before.push(one@));
        }
        i = i + 1;
    }
    assert(services@.take(i as int) =~= services@);
    r
}

/// The traces with those of the task files added that are the application's, as
/// long as there are fewer than the most that are reported. The files are given
/// by their paths below the directory of tasks.
pub open spec fn with_task_files(
    traces: Seq<TraceView>,
    files: Seq<String>,
    tokens: Seq<String>,
) -> Seq<TraceView>
    decreases files.len(),
{
    if files.len() == 0 {
        traces
    } else {
        let before = with_task_files(traces, files.drop_last(), tokens);
        let name = text::replaced(files.last()@, '/', '\\');
        if before.len() < MAX_TRACES && holds_token(text::lowercase(name), tokens) {
            before.push(task_trace("\\"@ + name))
        } else {
            before
        }
    }
}

fn report_task(name: String) -> (r: SystemTrace)
    ensures
        r@ == task_trace(name@),
{
    SystemTrace { kind: "task".to_owned(), name, detail: TASK_DETAIL.to_owned() }
}

fn collect_tasks_from_directory(
    traces: Vec<SystemTrace>,
    files: &Vec<String>,
    tokens: &Vec<String>,
) -> (r: Vec<SystemTrace>)
    ensures
        trace_views(r@) == with_task_files(trace_views(traces@), files@, tokens@),
{
    let ghost start = trace_views(traces@);
    let mut r = traces;
    let mut i: usize = 0;
    assert(files@.take(0) =~= seq![]);
    while i < files.len()
        invariant
            i <= files@.len(),
            trace_views(r@) == with_task_files(start, files@.take(i as int), tokens@),
        decreases files@.len() - i,
    {
        assert(files@.take(i + 1).drop_last() =~= files@.take(i as int));
        assert(trace_views(r@).len() == r@.len());
        let name = text::replace_char(files[i].as_str(), '/', '\\');
        let lower = text::to_lowercase(name.as_str());
        if r.len() < MAX_TRACES && contains_token(lower.as_str(), tokens) {
            let ghost before = trace_views(r@);
            let mut full = "\\".to_owned();
            full.push_str(name.as_str());
            let one = report_task(full);
            r.push(one);
            assert(trace_views(r@) =~= before.push(one@));
        }
        i = i + 1;
    }
    assert(files@.take(i as int) =~= files@);
    r
}

/// The tasks below one key of the task tree.
#[derive(Debug)]
pub struct TaskGroup {
    /// The path of the key.
    pub prefix: String,
    pub children: Vec<String>,
}

pub open spec fn task_path(prefix: Seq<char>, child: Seq<char>) -> Seq<char> {
    prefix + "\\"@ + child
}

/// The traces with those tasks of one key added that are the application's.
pub open spec fn with_children(
    traces: Seq<TraceView>,
    prefix: Seq<char>,
    children: Seq<String>,
    tokens: Seq<String>,
) -> Seq<TraceView>
    decreases children.len(),
{
    if children.len() == 0 {
        traces
    } else {
        let before = with_children(traces, prefix, children.drop_last(), tokens);
        let child = children.last()@;
        if holds_token(text::lowercase(child), tokens) {
            before.push(task_trace(task_path(prefix, child)))
        } else {
            before
        }
    }
}

/// The traces with those of the task tree added that are the application's. The
/// keys come in the order in which they are searched; none is, once there are
/// as many traces as are reported.
pub open spec fn with_task_groups(
    traces: Seq<TraceView>,
    groups: Seq<TaskGroup>,
    tokens: Seq<String>,
) -> Seq<TraceView>
    decreases groups.len(),
{
    if groups.len() == 0 {
        traces
    } else {
        let before = with_task_groups(traces, groups.drop_last(), tokens);
        let group = groups.last();
        if before.len() < MAX_TRACES {
            with_children(before, group.prefix@, group.children@, tokens)
        } else {
            before
        }
    }
}

fn collect_children(
    traces: Vec<SystemTrace>,
    prefix: &str,
    children: &Vec<String>,
    tokens: &Vec<String>,
) -> (r: Vec<SystemTrace>)
    ensures
        trace_views(r@) == with_children(trace_views(traces@), prefix@, children@, tokens@),
{
    let ghost start = trace_views(traces@);
    let mut r = traces;
    let mut i: usize = 0;
    assert(children@.take(0) =~= seq![]);
    while i < children.len()
        invariant
            i <= children@.len(),
            trace_views(r@) == with_children(start, prefix@, children@.take(i as int), tokens@),
        decreases children@.len() - i,
    {
        assert(children@.take(i + 1).drop_last() =~= children@.take(i as int));
        let lower = text::to_lowercase(children[i].as_str());
        if contains_token(lower.as_str(), tokens) {
            let ghost before = trace_views(r@);
            let mut full = prefix.to_owned();
            full.push_str("\\");
            full.push_str(children[i].as_str());
            let one = report_task(full);
            r.push(one);
            assert(trace_views(r@) =~= before.push(one@));
        }
        i = i + 1;
    }
    assert(children@.take(i as int) =~= children@);
    r
}

fn collect_tasks_from_registry(
    traces: Vec<SystemTrace>,
    groups: &Vec<TaskGroup>,
    tokens: &Vec<String>,
) -> (r: Vec<SystemTrace>)
    ensures
        trace_views(r@) == with_task_groups(trace_views(traces@), groups@, tokens@),
{
    let ghost start = trace_views(traces@);
    let mut r = traces;
    let mut i: usize = 0;
    assert(groups@.take(0) =~= seq![]);
    while i < groups.len()
        invariant
            i <= groups@.len(),
            trace_views(r@) == with_task_groups(start, groups@.take(i as int), tokens@),
        decreases groups@.len() - i,
    {
        assert(groups@.take(i + 1).drop_last() =~= groups@.take(i as int));
        assert(trace_views(r@).len() == r@.len());
        if r.len() < MAX_TRACES {
            r = collect_children(r, groups[i].prefix.as_str(), &groups[i].children, tokens);
        }
        i = i + 1;
    }
    assert(groups@.take(i as int) =~= groups@);
    r
}

/// Whether the keys below one at a depth of the task tree are searched.
pub fn searches_below(depth: usize) -> (r: bool)
    ensures
        r == (depth + 1 < MAX_TASK_DEPTH),
{
    depth < MAX_TASK_DEPTH - 1
}

/// A trace with its name in lower case, by which traces are ordered.
#[derive(Debug)]
pub struct OrderedTrace {
    pub trace: SystemTrace,
    pub key: String,
}

/// Whether a trace is listed before another: by kind, then by name.
pub open spec fn is_listed_before(
    kind: Seq<char>,
    key: Seq<char>,
    other_kind: Seq<char>,
    other_key: Seq<char>,
) -> bool {
    text::text_before(kind, other_kind) || (kind == other_kind && text::text_before(
        key,
        other_key,
    ))
}

impl Ranked for OrderedTrace {
    open spec fn before(self, other: Self) -> bool {
        is_listed_before(self.trace.kind@, self.key@, other.trace.kind@, other.key@)
    }

    proof fn lemma_ranks_transitive(a: Self, b: Self, c: Self) {
        text::lemma_text_before_transitive(a.trace.kind@, b.trace.kind@, c.trace.kind@);
        text::lemma_text_before_transitive(a.key@, b.key@, c.key@);
        text::lemma_text_before_total(a.trace.kind@, b.trace.kind@);
        text::lemma_text_before_total(b.trace.kind@, c.trace.kind@);
        text::lemma_text_before_total(a.trace.kind@, c.trace.kind@);
        text::lemma_text_before_transitive(c.trace.kind@, b.trace.kind@, a.trace.kind@);
    }

    proof fn lemma_ranks_asymmetric(a: Self, b: Self) {
        text::lemma_text_before_total(a.trace.kind@, b.trace.kind@);
        text::lemma_text_before_total(a.key@, b.key@);
    }

    fn precedes(&self, other: &Self) -> (r: bool) {
        text::is_before(self.trace.kind.as_str(), other.trace.kind.as_str()) || (text::same(
            self.trace.kind.as_str(),
            other.trace.kind.as_str(),
        ) && text::is_before(self.key.as_str(), other.key.as_str()))
    }
}

pub open spec fn ordered(v: Seq<SystemTrace>, keyed: Seq<OrderedTrace>) -> bool {
    &&& keyed.len() == v.len()
    &&& forall|i: int|
        0 <= i < keyed.len() ==> (#[trigger] keyed[i]).trace == v[i] && keyed[i].key@
            == text::lowercase(v[i].name@)
}

/// Whether a list holds the first of the traces in order, at most as many as are
/// reported.
pub open spec fn is_report(found: Seq<SystemTrace>, r: Seq<SystemTrace>) -> bool {
    exists|keyed: Seq<OrderedTrace>, sorted: Seq<OrderedTrace>|
        ordered(found, keyed) && #[trigger] is_stable_sort(keyed, sorted) && r.len() == (
        if sorted.len() < MAX_TRACES {
            sorted.len() as int
        } else {
            MAX_TRACES as int
        }) && forall|i: int| 0 <= i < r.len() ==> #[trigger] r[i] == sorted[i].trace
}

fn order_and_cut(traces: Vec<SystemTrace>) -> (r: Vec<SystemTrace>)
    ensures
        is_report(traces@, r@),
{
    let ghost all = traces@;
    let mut rest = Queue::of(traces);
    let mut keyed: Vec<OrderedTrace> = Vec::new();
    assert(rest@ =~= all.skip(0));
    while rest.len() > 0
        invariant
            keyed@.len() + rest@.len() == all.len(),
            rest@ == all.skip(keyed@.len() as int),
            forall|i: int|
                0 <= i < keyed@.len() ==> (#[trigger] keyed@[i]).trace == all[i] && keyed@[i].key@
                    == text::lowercase(all[i].name@),
        decreases rest@.len(),
    {
        let ghost n = keyed@.len() as int;
        let trace = rest.take_first();
        assert(trace == all[n]);
        assert(rest@ =~= all.skip(n + 1));
        let key = text::to_lowercase(trace.name.as_str());
        keyed.push(OrderedTrace { trace, key });
    }
    let ghost keyed_view = keyed@;
    assert(ordered(all, keyed_view));
    let mut sorted = Queue::of(stable_sort(keyed));
    let ghost sorted_view = sorted@;
    let mut r: Vec<SystemTrace> = Vec::new();
    assert(sorted@ =~= sorted_view.skip(0));
    while sorted.len() > 0 && r.len() < MAX_TRACES
        invariant
            r@.len() <= MAX_TRACES,
            r@.len() + sorted@.len() == sorted_view.len(),
            sorted@ == sorted_view.skip(r@.len() as int),
            forall|i: int| 0 <= i < r@.len() ==> #[trigger] r@[i] == sorted_view[i].trace,
        decreases sorted@.len(),
    {
        let ghost n = r@.len() as int;
        let one = sorted.take_first();
        assert(one == sorted_view[n]);
        assert(sorted@ =~= sorted_view.skip(n + 1));
        r.push(one.trace);
    }
    assert(is_stable_sort(keyed_view, sorted_view));
    r
}

/// What the system knows of services and tasks.
#[derive(Debug)]
pub struct TraceFacts {
    pub system_root: String,
    pub services: Vec<ServiceFacts>,
    /// The task files, by their paths below the directory of tasks.
    pub task_files: Vec<String>,
    /// The task tree, key by key in the order of searching.
    pub task_groups: Vec<TaskGroup>,
}

/// The place without surrounding blanks, unless it is blank.
pub open spec fn stated_place(location: Option<Seq<char>>) -> Option<Seq<char>> {
    match location {
        Some(location) => {
            let plain = text::trimmed(location, CharSet::Whitespace);
            if plain.len() == 0 {
                None
            } else {
                Some(plain)
            }
        },
        None => None,
    }
}

/// The traces of an application in the order of finding. Nothing is looked for
/// where there is nothing to go by.
pub open spec fn found_traces(
    tokens: Seq<String>,
    location: Option<Seq<char>>,
    facts: TraceFacts,
) -> Seq<TraceView> {
    if tokens.len() == 0 && location is None {
        seq![]
    } else {
        let services = with_services(
            seq![],
            facts.services@,
            tokens,
            location,
            facts.system_root@,
        );
        let files = with_task_files(services, facts.task_files@, tokens);
        if files.len() < MAX_TRACES {
            with_task_groups(files, facts.task_groups@, tokens)
        } else {
            files
        }
    }
}

/// Whether the traces are those that are found of an application by its tokens.
pub open spec fn is_finding(
    tokens: Seq<String>,
    found: Seq<SystemTrace>,
    app_name: Seq<char>,
    location: Option<Seq<char>>,
    facts: TraceFacts,
) -> bool {
    text::texts(tokens) == match_tokens(app_name) && trace_views(found) == found_traces(
        tokens,
        stated_place(location),
        facts,
    )
}

/// Whether a list reports what is found of an application.
pub open spec fn is_detected(
    app_name: Seq<char>,
    location: Option<Seq<char>>,
    facts: TraceFacts,
    r: Seq<SystemTrace>,
) -> bool {
    exists|tokens: Seq<String>, found: Seq<SystemTrace>|
        #[trigger] is_finding(tokens, found, app_name, location, facts) && is_report(found, r)
}

/// The traces that an application left, ordered by kind and name, at most as
/// many as are reported.
pub fn detect_system_traces(
    app_name: &str,
    install_location: Option<&str>,
    facts: &TraceFacts,
) -> (r: Vec<SystemTrace>)
    ensures
        is_detected(app_name@, text::str_view(install_location), *facts, r@),
        r@.len() <= MAX_TRACES,
{
    let tokens = build_match_tokens(app_name);
    let place = match install_location {
        Some(location) => {
            let plain = text::trim(location, CharSet::Whitespace);
            if plain.as_str().is_empty() {
                None
            } else {
                Some(plain)
            }
        },
        None => None,
    };
    let location = match &place {
        Some(place) => Some(place.as_str()),
        None => None,
    };
    let found = if tokens.len() == 0 && place.is_none() {
        let none: Vec<SystemTrace> = Vec::new();
        assert(trace_views(none@) =~= seq![]);
        none
    } else {
        let services = collect_service_traces(
            &facts.services,
            &tokens,
            location,
            facts.system_root.as_str(),
        );
        let files = collect_tasks_from_directory(services, &facts.task_files, &tokens);
        assert(trace_views(files@).len() == files@.len());
        if files.len() < MAX_TRACES {
            collect_tasks_from_registry(files, &facts.task_groups, &tokens)
        } else {
            files
        }
    };
    let ghost found_view = found@;
    let r = order_and_cut(found);
    assert(is_finding(tokens@, found_view, app_name@, text::str_view(install_location), *facts));
    r
}

/// The report is ordered by kind and, within a kind, by name without regard to
/// case.
pub proof fn law_report_is_ordered(found: Seq<SystemTrace>, r: Seq<SystemTrace>, i: int, j: int)
    requires
        is_report(found, r),
        0 <= i < j < r.len(),
    ensures
        !is_listed_before(
            r[j].kind@,
            text::lowercase(r[j].name@),
            r[i].kind@,
            text::lowercase(r[i].name@),
        ),
        r.len() <= MAX_TRACES,
{
    let (keyed, sorted) = choose|keyed: Seq<OrderedTrace>, sorted: Seq<OrderedTrace>|
        ordered(found, keyed) && #[trigger] is_stable_sort(keyed, sorted) && r.len() == (
        if sorted.len() < MAX_TRACES {
            sorted.len() as int
        } else {
            MAX_TRACES as int
        }) && forall|i: int| 0 <= i < r.len() ==> #[trigger] r[i] == sorted[i].trace;
    let p = choose|p: Seq<int>| is_stable_rearrangement(keyed, sorted, p);
    assert(r[i] == sorted[i].trace && r[j] == sorted[j].trace);
    assert(0 <= p[i] < keyed.len() && sorted[i] == keyed[p[i]]);
    assert(0 <= p[j] < keyed.len() && sorted[j] == keyed[p[j]]);
    assert(!sorted[j].before(sorted[i]));
}

} // verus!
