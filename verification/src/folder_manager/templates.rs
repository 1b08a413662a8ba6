//! Which applications' data directories are watched: the built-in list, and how
//! it is merged with what the user has stored.

#![verifier::loop_isolation(false)]

use vstd::prelude::*;

use crate::list::Queue;
use crate::models::AppDataTemplate;
use crate::text;

verus! {

/// An application whose data directory is watched, as a value.
#[verifier::ext_equal]
pub struct TemplateView {
    pub id: Seq<char>,
    pub display_name: Seq<char>,
    pub icon_id: Seq<char>,
    pub process_names: Seq<Seq<char>>,
    pub path: Option<Seq<char>>,
}

impl View for AppDataTemplate {
    type V = TemplateView;

    open spec fn view(&self) -> TemplateView {
        TemplateView {
            id: self.id@,
            display_name: self.display_name@,
            icon_id: self.icon_id@,
            process_names: text::texts(self.process_names@),
            path: text::view_of(self.path),
        }
    }
}

pub open spec fn template_views(v: Seq<AppDataTemplate>) -> Seq<TemplateView> {
    Seq::new(v.len(), |i: int| v[i]@)
}

/// One line of the built-in list.
pub open spec fn row(
    id: &'static str,
    display_name: &'static str,
    icon_id: &'static str,
    process_names: Seq<&'static str>,
    path: Option<&'static str>,
) -> TemplateView {
    TemplateView {
        id: id@,
        display_name: display_name@,
        icon_id: icon_id@,
        process_names: Seq::new(process_names.len(), |i: int| process_names[i]@),
        path: match path {
            Some(path) => Some(path@),
            None => None,
        },
    }
}

/// The built-in list. Where a line has no path, the directory is looked for.
pub open spec fn default_table() -> Seq<TemplateView> {
    seq![
        row("wechat", "微信", "wechat", seq!["WeChat.exe"], None),
        row("wxwork", "企业微信", "wxwork", seq!["WXWork.exe"], None),
        row("qq", "QQ", "qq", seq!["QQ.exe"], None),
        row("dingtalk", "钉钉", "dingtalk", seq!["DingTalk.exe"], None),
        row("feishu", "飞书", "feishu", seq!["Lark.exe", "Feishu.exe"], None),
        row("chrome_cache", "Chrome 缓存", "chrome_cache", seq!["chrome.exe"], None),
        row("edge_cache", "Edge 缓存", "edge_cache", seq!["msedge.exe"], None),
        row("vscode_extensions", "VS Code 扩展", "vscode_extensions", seq!["code.exe"], None),
        row("vscode_user_data", "VS Code 用户数据", "vscode_user_data", seq!["code.exe"], Some("%APPDATA%\\Code\\User")),
        row("cursor_appdata", "Cursor 用户数据", "cursor_appdata", seq!["Cursor.exe"], Some("%APPDATA%\\Cursor")),
        row("cursor_extensions", "Cursor 扩展", "cursor_extensions", seq!["Cursor.exe"], Some("%USERPROFILE%\\.cursor\\extensions")),
        row("npm_global", "npm 全局包", "npm_global", seq![], None),
        row("npm_cache", "npm 缓存", "npm_cache", seq!["node.exe"], Some("%LOCALAPPDATA%\\npm-cache")),
        row("yarn_cache", "Yarn 缓存", "yarn_cache", seq!["node.exe", "yarn.exe"], Some("%LOCALAPPDATA%\\Yarn\\Cache")),
        row("gradle_cache", "Gradle 缓存", "gradle_cache", seq!["java.exe", "gradle.exe", "gradlew.exe"], Some("%USERPROFILE%\\.gradle")),
        row("maven_repository", "Maven 本地仓库", "maven_repository", seq!["java.exe", "mvn.exe"], Some("%USERPROFILE%\\.m2\\repository")),
        row("cargo_home", "Cargo 包缓存", "cargo_home", seq!["cargo.exe", "rustc.exe", "rust-analyzer.exe"], Some("%USERPROFILE%\\.cargo")),
        row("rustup_home", "Rustup 工具链", "rustup_home", seq!["rustup.exe", "rustc.exe", "rust-analyzer.exe"], Some("%USERPROFILE%\\.rustup")),
        row("pip_cache", "pip 缓存", "pip_cache", seq!["python.exe", "pip.exe"], Some("%LOCALAPPDATA%\\pip\\Cache")),
        row("uv_cache", "uv 缓存", "uv_cache", seq!["uv.exe", "python.exe"], Some("%LOCALAPPDATA%\\uv\\cache")),
        row("nuget_packages", "NuGet 包缓存", "nuget_packages", seq!["dotnet.exe", "nuget.exe", "devenv.exe"], Some("%USERPROFILE%\\.nuget\\packages")),
        row("docker_data", "Docker 配置", "docker_data", seq!["Docker Desktop.exe"], Some("%USERPROFILE%\\.docker")),
        row("dotnet_data", ".NET 用户数据", "dotnet_data", seq!["dotnet.exe"], Some("%USERPROFILE%\\.dotnet")),
        row("codex_data", "Codex 数据", "codex_data", seq!["node.exe", "codex.exe"], Some("%USERPROFILE%\\.codex")),
        row("devin_data", "Devin 数据", "devin_data", seq![], Some("%USERPROFILE%\\.devin")),
        row("ollama_data", "Ollama 数据", "ollama_data", seq!["ollama.exe"], Some("%USERPROFILE%\\.ollama")),
        row("comfyui_data", "ComfyUI 数据", "comfyui_data", seq!["python.exe"], Some("%USERPROFILE%\\.comfyui")),
        row("gemini_data", "Gemini CLI 数据", "gemini_data", seq!["node.exe"], Some("%USERPROFILE%\\.gemini")),
        row("adobe_appdata", "Adobe 用户数据", "adobe_appdata", seq!["Photoshop.exe", "Adobe Premiere Pro.exe"], Some("%APPDATA%\\Adobe")),
        row("adobe_localdata", "Adobe 本地数据", "adobe_localdata", seq!["Photoshop.exe", "Adobe Premiere Pro.exe"], Some("%LOCALAPPDATA%\\Adobe")),
        row("jianying_appdata", "剪映用户数据", "jianying_appdata", seq!["JianyingPro.exe"], Some("%APPDATA%\\JianyingPro")),
        row("jianying_localdata", "剪映本地数据", "jianying_localdata", seq!["JianyingPro.exe"], Some("%LOCALAPPDATA%\\JianyingPro")),
    ]
}

fn none() -> (r: Vec<&'static str>)
    ensures
        r@ == Seq::<&'static str>::empty(),
{
    Vec::new()
}

fn one(a: &'static str) -> (r: Vec<&'static str>)
    ensures
        r@ == seq![a],
{
    let r = vec![a];
    assert(r@ =~= seq![a]);
    r
}

fn two(a: &'static str, b: &'static str) -> (r: Vec<&'static str>)
    ensures
        r@ == seq![a, b],
{
    let r = vec![a, b];
    assert(r@ =~= seq![a, b]);
    r
}

fn three(a: &'static str, b: &'static str, c: &'static str) -> (r: Vec<&'static str>)
    ensures
        r@ == seq![a, b, c],
{
    let r = vec![a, b, c];
    assert(r@ =~= seq![a, b, c]);
    r
}

fn template(
    id: &'static str,
    display_name: &'static str,
    icon_id: &'static str,
    process_names: Vec<&'static str>,
    path: Option<&'static str>,
) -> (r: AppDataTemplate)
    ensures
        r@ == row(id, display_name, icon_id, process_names@, path),
{
    let mut names: Vec<String> = Vec::new();
    let mut i: usize = 0;
    while i < process_names.len()
        invariant
            i <= process_names@.len(),
            names@.len() == i,
            forall|j: int| 0 <= j < i ==> (#[trigger] names@[j])@ == process_names@[j]@,
        decreases process_names@.len() - i,
    {
        names.push(process_names[i].to_owned());
        i = i + 1;
    }
    let path_text = match path {
        Some(path) => Some(path.to_owned()),
        None => None,
    };
    let r = AppDataTemplate {
        id: id.to_owned(),
        display_name: display_name.to_owned(),
        icon_id: icon_id.to_owned(),
        process_names: names,
        path: path_text,
    };
    assert(r@ =~= row(id, display_name, icon_id, process_names@, path));
    r
}

/// The built-in list.
pub fn default_app_data_templates() -> (r: Vec<AppDataTemplate>)
    ensures
        template_views(r@) == default_table(),
{
    let r = vec![
        template("wechat", "微信", "wechat", one("WeChat.exe"), None),
        template("wxwork", "企业微信", "wxwork", one("WXWork.exe"), None),
        template("qq", "QQ", "qq", one("QQ.exe"), None),
        template("dingtalk", "钉钉", "dingtalk", one("DingTalk.exe"), None),
        template("feishu", "飞书", "feishu", two("Lark.exe", "Feishu.exe"), None),
        template("chrome_cache", "Chrome 缓存", "chrome_cache", one("chrome.exe"), None),
        template("edge_cache", "Edge 缓存", "edge_cache", one("msedge.exe"), None),
        template("vscode_extensions", "VS Code 扩展", "vscode_extensions", one("code.exe"), None),
        template("vscode_user_data", "VS Code 用户数据", "vscode_user_data", one("code.exe"), Some("%APPDATA%\\Code\\User")),
        template("cursor_appdata", "Cursor 用户数据", "cursor_appdata", one("Cursor.exe"), Some("%APPDATA%\\Cursor")),
        template("cursor_extensions", "Cursor 扩展", "cursor_extensions", one("Cursor.exe"), Some("%USERPROFILE%\\.cursor\\extensions")),
        template("npm_global", "npm 全局包", "npm_global", none(), None),
        template("npm_cache", "npm 缓存", "npm_cache", one("node.exe"), Some("%LOCALAPPDATA%\\npm-cache")),
        template("yarn_cache", "Yarn 缓存", "yarn_cache", two("node.exe", "yarn.exe"), Some("%LOCALAPPDATA%\\Yarn\\Cache")),
        template("gradle_cache", "Gradle 缓存", "gradle_cache", three("java.exe", "gradle.exe", "gradlew.exe"), Some("%USERPROFILE%\\.gradle")),
        template("maven_repository", "Maven 本地仓库", "maven_repository", two("java.exe", "mvn.exe"), Some("%USERPROFILE%\\.m2\\repository")),
        template("cargo_home", "Cargo 包缓存", "cargo_home", three("cargo.exe", "rustc.exe", "rust-analyzer.exe"), Some("%USERPROFILE%\\.cargo")),
        template("rustup_home", "Rustup 工具链", "rustup_home", three("rustup.exe", "rustc.exe", "rust-analyzer.exe"), Some("%USERPROFILE%\\.rustup")),
        template("pip_cache", "pip 缓存", "pip_cache", two("python.exe", "pip.exe"), Some("%LOCALAPPDATA%\\pip\\Cache")),
        template("uv_cache", "uv 缓存", "uv_cache", two("uv.exe", "python.exe"), Some("%LOCALAPPDATA%\\uv\\cache")),
        template("nuget_packages", "NuGet 包缓存", "nuget_packages", three("dotnet.exe", "nuget.exe", "devenv.exe"), Some("%USERPROFILE%\\.nuget\\packages")),
        template("docker_data", "Docker 配置", "docker_data", one("Docker Desktop.exe"), Some("%USERPROFILE%\\.docker")),
        template("dotnet_data", ".NET 用户数据", "dotnet_data", one("dotnet.exe"), Some("%USERPROFILE%\\.dotnet")),
        template("codex_data", "Codex 数据", "codex_data", two("node.exe", "codex.exe"), Some("%USERPROFILE%\\.codex")),
        template("devin_data", "Devin 数据", "devin_data", none(), Some("%USERPROFILE%\\.devin")),
        template("ollama_data", "Ollama 数据", "ollama_data", one("ollama.exe"), Some("%USERPROFILE%\\.ollama")),
        template("comfyui_data", "ComfyUI 数据", "comfyui_data", one("python.exe"), Some("%USERPROFILE%\\.comfyui")),
        template("gemini_data", "Gemini CLI 数据", "gemini_data", one("node.exe"), Some("%USERPROFILE%\\.gemini")),
        template("adobe_appdata", "Adobe 用户数据", "adobe_appdata", two("Photoshop.exe", "Adobe Premiere Pro.exe"), Some("%APPDATA%\\Adobe")),
        template("adobe_localdata", "Adobe 本地数据", "adobe_localdata", two("Photoshop.exe", "Adobe Premiere Pro.exe"), Some("%LOCALAPPDATA%\\Adobe")),
        template("jianying_appdata", "剪映用户数据", "jianying_appdata", one("JianyingPro.exe"), Some("%APPDATA%\\JianyingPro")),
        template("jianying_localdata", "剪映本地数据", "jianying_localdata", one("JianyingPro.exe"), Some("%LOCALAPPDATA%\\JianyingPro")),
    ];
    assert(template_views(r@) =~= default_table());
    r
}

/// Lines that were built in once and are not any more.
pub open spec fn deprecated_ids() -> Seq<&'static str> {
    seq![
        "pnpm_store",
        "windsurf_appdata",
        "codebuddy_data",
        "codeium_data",
        "continue_data",
        "zed_appdata",
    ]
}

/// Whether a line was built in once and is not any more. The case of ASCII
/// letters does not count.
pub open spec fn is_deprecated_id(id: Seq<char>) -> bool {
    exists|i: int|
        0 <= i < deprecated_ids().len() && text::ascii_lowercase(
            (#[trigger] deprecated_ids()[i])@,
        ) == text::ascii_lowercase(id)
}

fn deprecated_app_data_template_ids() -> (r: Vec<&'static str>)
    ensures
        r@ == deprecated_ids(),
{
    let r = vec![
        "pnpm_store",
        "windsurf_appdata",
        "codebuddy_data",
        "codeium_data",
        "continue_data",
        "zed_appdata",
    ];
    assert(r@ =~= deprecated_ids());
    r
}

fn is_deprecated(id: &str) -> (r: bool)
    ensures
        r == is_deprecated_id(id@),
{
    let ids = deprecated_app_data_template_ids();
    let mut i: usize = 0;
    while i < ids.len()
        invariant
            i <= ids@.len(),
            forall|j: int|
                0 <= j < i ==> text::ascii_lowercase((#[trigger] ids@[j])@)
                    != text::ascii_lowercase(id@),
        decreases ids@.len() - i,
    {
        if text::same_ignoring_ascii_case(ids[i], id) {
            return true;
        }
        i = i + 1;
    }
    false
}

/// Which templates stay: those that are not deprecated.
pub open spec fn stays() -> spec_fn(AppDataTemplate) -> bool {
    |t: AppDataTemplate| !is_deprecated_id(t.id@)
}

/// Removes the deprecated templates and says whether there were any.
pub fn remove_deprecated_app_data_templates(templates: &mut Vec<AppDataTemplate>) -> (r: bool)
    ensures
        final(templates)@ == old(templates)@.filter(stays()),
        r == (final(templates)@.len() != old(templates)@.len()),
{
    let ghost all = templates@;
    let before = templates.len();
    let mut rest: Vec<AppDataTemplate> = Vec::new();
    std::mem::swap(templates, &mut rest);
    let mut rest = Queue::of(rest);
    let mut kept: Vec<AppDataTemplate> = Vec::new();
    let ghost mut n: int = 0;
    proof {
        reveal(Seq::filter);
    }
    assert(rest@ =~= all.skip(0));
    assert(kept@ =~= all.take(0).filter(stays()));
    while rest.len() > 0
        invariant
            0 <= n <= all.len(),
            rest@ == all.skip(n),
            kept@ == all.take(n).filter(stays()),
        decreases rest@.len(),
    {
        let one = rest.take_first();
        assert(one == all[n]);
        assert(rest@ =~= all.skip(n + 1));
        assert(all.take(n + 1).drop_last() =~= all.take(n));
        proof {
            reveal(Seq::filter);
        }
        if !is_deprecated(one.id.as_str()) {
            kept.push(one);
        }
        proof {
            n = n + 1;
        }
    }
    assert(all.take(n) =~= all);
    let changed = kept.len() != before;
    *templates = kept;
    changed
}

/// Whether one of the templates has an identifier, but for case.
pub open spec fn has_id(templates: Seq<AppDataTemplate>, id: Seq<char>) -> bool {
    exists|i: int|
        0 <= i < templates.len() && text::lowercase((#[trigger] templates[i]).id@)
            == text::lowercase(id)
}

fn holds_id(templates: &Vec<AppDataTemplate>, n: usize, id: &str) -> (r: bool)
    requires
        n <= templates@.len(),
    ensures
        r == has_id(templates@.take(n as int), id@),
{
    let lower = text::to_lowercase(id);
    let mut i: usize = 0;
    while i < n
        invariant
            i <= n <= templates@.len(),
            forall|j: int|
                0 <= j < i ==> text::lowercase((#[trigger] templates@[j]).id@) != lower@,
        decreases n - i,
    {
        let there = text::to_lowercase(templates[i].id.as_str());
        if text::same(there.as_str(), lower.as_str()) {
            assert(templates@.take(n as int)[i as int] == templates@[i as int]);
            return true;
        }
        i = i + 1;
    }
    assert forall|j: int| 0 <= j < templates@.take(n as int).len() implies text::lowercase(
        (#[trigger] templates@.take(n as int)[j]).id@,
    ) != lower@ by {
        assert(templates@.take(n as int)[j] == templates@[j]);
    }
    false
}

/// The lines of the built-in list that the templates lack.
pub open spec fn missing(templates: Seq<AppDataTemplate>, table: Seq<TemplateView>) -> Seq<
    TemplateView,
>
    decreases table.len(),
{
    if table.len() == 0 {
        table
    } else {
        let before = missing(templates, table.drop_last());
        if has_id(templates, table.last().id) {
            before
        } else {
            before.push(table.last())
        }
    }
}

/// Whether `merged` is what merging makes of templates: those that are not
/// deprecated, unchanged and in their order, then the lines of the built-in
/// list that these lack.
pub open spec fn is_merged(templates: Seq<AppDataTemplate>, merged: Seq<AppDataTemplate>) -> bool {
    let kept = templates.filter(stays());
    &&& kept.len() <= merged.len()
    &&& merged.take(kept.len() as int) == kept
    &&& template_views(merged.skip(kept.len() as int)) == missing(kept, default_table())
}

/// Merges stored templates with the built-in list, and says whether that
/// changed them.
pub fn merge_missing_default_templates(templates: Vec<AppDataTemplate>) -> (r: (
    Vec<AppDataTemplate>,
    bool,
))
    ensures
        is_merged(templates@, r.0@),
        r.1 == (templates@.filter(stays()).len() != templates@.len() || r.0@.len()
            != templates@.filter(stays()).len()),
{
    let mut merged = templates;
    let removed = remove_deprecated_app_data_templates(&mut merged);
    let n = merged.len();
    let ghost kept = merged@;
    let mut defaults = Queue::of(default_app_data_templates());
    let ghost all = defaults@;
    let ghost table = template_views(all);
    let ghost mut k: int = 0;
    assert(defaults@ =~= all.skip(0));
    assert(merged@.take(n as int) =~= kept);
    assert(template_views(merged@.skip(n as int)) =~= missing(kept, table.take(0)));
    while defaults.len() > 0
        invariant
            0 <= k <= all.len(),
            defaults@ == all.skip(k),
            n == kept.len() <= merged@.len(),
            merged@.take(n as int) == kept,
            template_views(merged@.skip(n as int)) == missing(kept, table.take(k)),
        decreases defaults@.len(),
    {
        let one = defaults.take_first();
        assert(one == all[k]);
        assert(defaults@ =~= all.skip(k + 1));
        assert(table.take(k + 1).drop_last() =~= table.take(k));
        assert(table.take(k + 1).last() == one@);
        let ghost before = merged@;
        if !holds_id(&merged, n, one.id.as_str()) {
            merged.push(one);
            assert(merged@.take(n as int) =~= kept);
            assert(template_views(merged@.skip(n as int)) =~= template_views(
                before.skip(n as int),
            ).push(one@));
        }
        proof {
            k = k + 1;
        }
    }
    assert(table.take(k) =~= table);
    let changed = removed || merged.len() != n;
    (merged, changed)
}

/// What was found where templates are stored.
#[derive(Debug)]
pub enum StoredTemplates {
    /// Nothing: the file does not exist.
    Absent,
    /// Something that cannot be read.
    Unreadable,
    Read(Vec<AppDataTemplate>),
}

/// The templates in force, and whether they are to be stored. What was stored
/// is merged with the built-in list; where nothing can be read, the built-in
/// list is in force.
pub fn load_app_data_templates(stored: StoredTemplates) -> (r: (Vec<AppDataTemplate>, bool))
    ensures
        match stored {
            StoredTemplates::Absent => template_views(r.0@) == default_table() && r.1,
            StoredTemplates::Unreadable => template_views(r.0@) == default_table() && !r.1,
            StoredTemplates::Read(templates) => is_merged(templates@, r.0@) && r.1 == (
            templates@.filter(stays()).len() != templates@.len() || r.0@.len()
                != templates@.filter(stays()).len()),
        },
{
    match stored {
        StoredTemplates::Absent => (default_app_data_templates(), true),
        StoredTemplates::Unreadable => {
            let defaults = default_app_data_templates();
            let ghost all = defaults@;
            let merged = merge_missing_default_templates(defaults);
            proof {
                lemma_complete_list_is_kept(all, merged.0@);
            }
            merged
        },
        StoredTemplates::Read(templates) => merge_missing_default_templates(templates),
    }
}

/// No line of the built-in list is deprecated.
proof fn lemma_defaults_stay(i: int)
    requires
        0 <= i < default_table().len(),
    ensures
        !is_deprecated_id(default_table()[i].id),
{
    reveal_strlit("pnpm_store");
    reveal_strlit("windsurf_appdata");
    reveal_strlit("codebuddy_data");
    reveal_strlit("codeium_data");
    reveal_strlit("continue_data");
    reveal_strlit("zed_appdata");
    reveal_strlit("wechat");
    reveal_strlit("wxwork");
    reveal_strlit("qq");
    reveal_strlit("dingtalk");
    reveal_strlit("feishu");
    reveal_strlit("chrome_cache");
    reveal_strlit("edge_cache");
    reveal_strlit("vscode_extensions");
    reveal_strlit("vscode_user_data");
    reveal_strlit("cursor_appdata");
    reveal_strlit("cursor_extensions");
    reveal_strlit("npm_global");
    reveal_strlit("npm_cache");
    reveal_strlit("yarn_cache");
    reveal_strlit("gradle_cache");
    reveal_strlit("maven_repository");
    reveal_strlit("cargo_home");
    reveal_strlit("rustup_home");
    reveal_strlit("pip_cache");
    reveal_strlit("uv_cache");
    reveal_strlit("nuget_packages");
    reveal_strlit("docker_data");
    reveal_strlit("dotnet_data");
    reveal_strlit("codex_data");
    reveal_strlit("devin_data");
    reveal_strlit("ollama_data");
    reveal_strlit("comfyui_data");
    reveal_strlit("gemini_data");
    reveal_strlit("adobe_appdata");
    reveal_strlit("adobe_localdata");
    reveal_strlit("jianying_appdata");
    reveal_strlit("jianying_localdata");
    let id = default_table()[i].id;
    assert forall|j: int| 0 <= j < deprecated_ids().len() implies text::ascii_lowercase(
        (#[trigger] deprecated_ids()[j])@,
    ) != text::ascii_lowercase(id) by {
        let d = deprecated_ids()[j]@;
        if text::ascii_lowercase(d) == text::ascii_lowercase(id) {
            assert(text::ascii_lowercase(d).len() == d.len());
            assert(text::ascii_lowercase(id).len() == id.len());
            assert(text::ascii_lowercase(d)[0] == text::ascii_lower(d[0]));
            assert(text::ascii_lowercase(id)[0] == text::ascii_lower(id[0]));
            assert(text::ascii_lowercase(d)[2] == text::ascii_lower(d[2]));
            assert(text::ascii_lowercase(id)[2] == text::ascii_lower(id[2]));
        }
    }
}

/// Every line of a table that is not missing from the templates has its
/// identifier among them.
proof fn lemma_missing_empty(templates: Seq<AppDataTemplate>, table: Seq<TemplateView>)
    requires
        forall|i: int| 0 <= i < table.len() ==> has_id(templates, (#[trigger] table[i]).id),
    ensures
        missing(templates, table).len() == 0,
    decreases table.len(),
{
    if table.len() > 0 {
        assert forall|i: int| 0 <= i < table.drop_last().len() implies has_id(
            templates,
            (#[trigger] table.drop_last()[i]).id,
        ) by {
            assert(table.drop_last()[i] == table[i]);
        }
        lemma_missing_empty(templates, table.drop_last());
        assert(has_id(templates, table[table.len() - 1].id));
    }
}

/// Where every template stays, the filter keeps all.
proof fn lemma_filter_keeps_all(templates: Seq<AppDataTemplate>)
    requires
        forall|i: int| 0 <= i < templates.len() ==> !is_deprecated_id((#[trigger] templates[i]).id@),
    ensures
        templates.filter(stays()) == templates,
    decreases templates.len(),
{
    reveal(Seq::filter);
    if templates.len() > 0 {
        assert forall|i: int| 0 <= i < templates.drop_last().len() implies !is_deprecated_id(
            (#[trigger] templates.drop_last()[i]).id@,
        ) by {
            assert(templates.drop_last()[i] == templates[i]);
        }
        lemma_filter_keeps_all(templates.drop_last());
        assert(!is_deprecated_id(templates[templates.len() - 1].id@));
        assert(templates.filter(stays()) =~= templates);
    } else {
        assert(templates.filter(stays()) =~= templates);
    }
}

/// Templates none of which is deprecated and that hold the built-in list stay
/// as they are.
proof fn lemma_complete_is_kept(templates: Seq<AppDataTemplate>, merged: Seq<AppDataTemplate>)
    requires
        is_merged(templates, merged),
        forall|i: int| 0 <= i < templates.len() ==> !is_deprecated_id((#[trigger] templates[i]).id@),
        forall|i: int|
            0 <= i < default_table().len() ==> has_id(
                templates,
                (#[trigger] default_table()[i]).id,
            ),
    ensures
        merged == templates,
        templates.filter(stays()).len() == templates.len(),
{
    lemma_filter_keeps_all(templates);
    lemma_missing_empty(templates, default_table());
    let n = templates.len() as int;
    assert(template_views(merged.skip(n)).len() == 0);
    assert(merged =~= merged.take(n));
}

proof fn lemma_complete_list_is_kept(defaults: Seq<AppDataTemplate>, merged: Seq<AppDataTemplate>)
    requires
        template_views(defaults) == default_table(),
        is_merged(defaults, merged),
    ensures
        merged == defaults,
        defaults.filter(stays()).len() == defaults.len(),
{
    assert forall|i: int| 0 <= i < defaults.len() implies !is_deprecated_id(
        (#[trigger] defaults[i]).id@,
    ) by {
        lemma_defaults_stay(i);
        assert(template_views(defaults)[i].id == defaults[i].id@);
    }
    assert forall|i: int| 0 <= i < default_table().len() implies has_id(
        defaults,
        (#[trigger] default_table()[i]).id,
    ) by {
        assert(template_views(defaults)[i].id == defaults[i].id@);
    }
    lemma_complete_is_kept(defaults, merged);
}

/// A line that the templates lack, and no other, is among the missing ones.
proof fn lemma_missing_holds(templates: Seq<AppDataTemplate>, table: Seq<TemplateView>, k: int)
    requires
        0 <= k < table.len(),
        !has_id(templates, table[k].id),
    ensures
        exists|j: int|
            0 <= j < missing(templates, table).len() && #[trigger] missing(templates, table)[j]
                == table[k],
    decreases table.len(),
{
    let all = missing(templates, table);
    if k == table.len() - 1 {
        assert(all[all.len() - 1] == table[k]);
    } else {
        lemma_missing_holds(templates, table.drop_last(), k);
        let before = missing(templates, table.drop_last());
        let j = choose|j: int| 0 <= j < before.len() && #[trigger] before[j] == table[k];
        assert(all[j] == table[k]);
    }
}

/// Every missing line is one of the table's.
proof fn lemma_missing_from_table(templates: Seq<AppDataTemplate>, table: Seq<TemplateView>, j: int)
    requires
        0 <= j < missing(templates, table).len(),
    ensures
        exists|k: int| 0 <= k < table.len() && #[trigger] table[k] == missing(templates, table)[j],
    decreases table.len(),
{
    let before = missing(templates, table.drop_last());
    if j < before.len() {
        lemma_missing_from_table(templates, table.drop_last(), j);
        let k = choose|k: int|
            0 <= k < table.drop_last().len() && #[trigger] table.drop_last()[k] == before[j];
        assert(table[k] == missing(templates, table)[j]);
    } else {
        assert(table[table.len() - 1] == missing(templates, table)[j]);
    }
}

/// After merging no template is deprecated, and every line of the built-in list
/// has its identifier among the templates.
pub proof fn law_merged_list_is_complete(
    templates: Seq<AppDataTemplate>,
    merged: Seq<AppDataTemplate>,
)
    requires
        is_merged(templates, merged),
    ensures
        forall|i: int| 0 <= i < merged.len() ==> !is_deprecated_id((#[trigger] merged[i]).id@),
        forall|i: int|
            0 <= i < default_table().len() ==> has_id(merged, (#[trigger] default_table()[i]).id),
{
    let kept = templates.filter(stays());
    let n = kept.len() as int;
    let added = missing(kept, default_table());
    assert forall|i: int| 0 <= i < merged.len() implies !is_deprecated_id(
        (#[trigger] merged[i]).id@,
    ) by {
        if i < n {
            templates.lemma_filter_pred(stays(), i);
            assert(merged.take(n)[i] == merged[i]);
        } else {
            assert(template_views(merged.skip(n))[i - n] == merged[i]@);
            lemma_missing_from_table(kept, default_table(), i - n);
            let k = choose|k: int|
                0 <= k < default_table().len() && #[trigger] default_table()[k] == added[i - n];
            lemma_defaults_stay(k);
        }
    }
    assert forall|k: int| 0 <= k < default_table().len() implies has_id(
        merged,
        (#[trigger] default_table()[k]).id,
    ) by {
        let id = default_table()[k].id;
        if has_id(kept, id) {
            let i = choose|i: int|
                0 <= i < kept.len() && text::lowercase((#[trigger] kept[i]).id@)
                    == text::lowercase(id);
            assert(merged.take(n)[i] == merged[i]);
        } else {
            lemma_missing_holds(kept, default_table(), k);
            let j = choose|j: int| 0 <= j < added.len() && #[trigger] added[j]
                == default_table()[k];
            assert(template_views(merged.skip(n))[j] == merged[n + j]@);
            assert(merged[n + j].id@ == id);
        }
    }
}

/// Merging again changes nothing.
pub proof fn law_merging_twice_is_merging_once(
    templates: Seq<AppDataTemplate>,
    merged: Seq<AppDataTemplate>,
    again: Seq<AppDataTemplate>,
)
    requires
        is_merged(templates, merged),
        is_merged(merged, again),
    ensures
        again == merged,
        merged.filter(stays()).len() == merged.len(),
{
    law_merged_list_is_complete(templates, merged);
    lemma_complete_is_kept(merged, again);
}

/// What the user stored and is not deprecated is still there after merging,
/// unchanged.
pub proof fn law_stored_templates_survive(
    templates: Seq<AppDataTemplate>,
    merged: Seq<AppDataTemplate>,
    i: int,
)
    requires
        is_merged(templates, merged),
        0 <= i < templates.len(),
        !is_deprecated_id(templates[i].id@),
    ensures
        merged.contains(templates[i]),
{
    let kept = templates.filter(stays());
    templates.lemma_filter_contains(stays(), i);
    let j = choose|j: int| 0 <= j < kept.len() && kept[j] == templates[i];
    assert(merged.take(kept.len() as int)[j] == merged[j]);
}

} // verus!
