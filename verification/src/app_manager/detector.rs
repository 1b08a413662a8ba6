//! Where chat applications and development tools keep their data.

#![verifier::loop_isolation(false)]

use vstd::prelude::*;

use crate::list;
use crate::list::holds_text;
use crate::text;
use crate::text::CharSet;

verus! {

/// A path, and what is found there.
#[derive(Debug)]
pub struct ProbedPath {
    pub path: String,
    pub exists: bool,
    pub is_dir: bool,
}

/// Where an application keeps its data, as far as it is known.
#[derive(Debug)]
pub struct SpecialFolder {
    pub name: String,
    pub current_path: String,
    pub is_detected: bool,
}

/// The name of an application as it is compared.
pub open spec fn plain_app_name(app_name: Seq<char>) -> Seq<char> {
    text::lowercase(text::trimmed(app_name, CharSet::Whitespace))
}

/// The name of an application as it is compared.
pub fn normalize_app_name(app_name: &str) -> (r: String)
    ensures
        r@ == plain_app_name(app_name@),
{
    let blank = text::trim(app_name, CharSet::Whitespace);
    text::to_lowercase(blank.as_str())
}

/// The path if it is that of a directory.
pub open spec fn existing(place: ProbedPath) -> Option<Seq<char>> {
    if place.exists && place.is_dir {
        Some(place.path@)
    } else {
        None
    }
}

fn detect_existing(place: &ProbedPath) -> (r: Option<String>)
    ensures
        text::view_of(r) == existing(*place),
{
    if place.exists && place.is_dir {
        Some(place.path.clone())
    } else {
        None
    }
}

pub open spec fn existing_option(place: Option<ProbedPath>) -> Option<Seq<char>> {
    match place {
        Some(place) => existing(place),
        None => None,
    }
}

fn detect_optional(place: &Option<ProbedPath>) -> (r: Option<String>)
    ensures
        text::view_of(r) == existing_option(*place),
{
    match place {
        Some(place) => detect_existing(place),
        None => None,
    }
}

/// A directory under which data are kept.
#[derive(Clone, Copy, Debug, PartialEq, Eq, Structural)]
pub enum BaseDir {
    Documents,
    Data,
    LocalData,
    Home,
}

/// A path below one of the base directories; `None` is the directory itself.
#[derive(Debug)]
pub struct BasePath {
    pub base: BaseDir,
    pub below: Option<String>,
}

/// What the setting says of where WeChat keeps its files.
#[derive(Debug)]
pub enum WeChatPlace {
    Unknown,
    Below(BasePath),
    Path(String),
}

/// The setting without blanks and quotes around it.
pub open spec fn plain_setting(raw: Seq<char>) -> Seq<char> {
    text::trimmed(text::trimmed(raw, CharSet::Whitespace), CharSet::One('"'))
}

/// What follows the mark for the documents directory.
pub open spec fn below_documents(setting: Seq<char>) -> Seq<char> {
    text::trimmed_start(setting.skip(11), CharSet::Two('\\', '/'))
}

/// Reads the setting that says where WeChat keeps its files: a path, or one
/// below the documents directory.
pub fn resolve_wechat_save_path(raw: &str) -> (r: WeChatPlace)
    ensures
        match r {
            WeChatPlace::Unknown => plain_setting(raw@).len() == 0,
            WeChatPlace::Below(place) => text::has_prefix(plain_setting(raw@), "MyDocument:"@)
                && place.base == BaseDir::Documents && text::view_of(place.below) == (
            if below_documents(plain_setting(raw@)).len() == 0 {
                None::<Seq<char>>
            } else {
                Some(below_documents(plain_setting(raw@)))
            }),
            WeChatPlace::Path(path) => plain_setting(raw@).len() > 0 && !text::has_prefix(
                plain_setting(raw@),
                "MyDocument:"@,
            ) && path@ == plain_setting(raw@),
        },
{
    proof {
        reveal_strlit("MyDocument:");
    }
    let blank = text::trim(raw, CharSet::Whitespace);
    let plain = text::trim(blank.as_str(), CharSet::One('"'));
    if plain.as_str().is_empty() {
        return WeChatPlace::Unknown;
    }
    if text::starts_with(plain.as_str(), "MyDocument:") {
        let v = text::chars_of(plain.as_str());
        let rest = text::string_of(&v, 11, v.len());
        assert(rest@ =~= plain@.skip(11));
        let below = text::trim_start(rest.as_str(), CharSet::Two('\\', '/'));
        if below.as_str().is_empty() {
            return WeChatPlace::Below(BasePath { base: BaseDir::Documents, below: None });
        }
        return WeChatPlace::Below(BasePath { base: BaseDir::Documents, below: Some(below) });
    }
    WeChatPlace::Path(plain)
}

/// One value that says where QQ is installed, the directory of its files below
/// that, and the installation directory itself.
#[derive(Debug)]
pub struct QqInstall {
    pub value: String,
    pub files: ProbedPath,
    pub install: ProbedPath,
}

/// Where QQ's data are by one value: the directory of its files below the
/// installation, else the installation itself.
pub open spec fn place_by_install(install: QqInstall) -> Option<Seq<char>> {
    if plain_setting(install.value@).len() == 0 {
        None
    } else if install.files.exists {
        Some(install.files.path@)
    } else {
        existing(install.install)
    }
}

/// The first place that one of the values leads to, from one on.
pub open spec fn first_install(installs: Seq<QqInstall>, i: int) -> Option<Seq<char>>
    decreases installs.len() - i,
{
    if i >= installs.len() || i < 0 {
        None
    } else if place_by_install(installs[i]) is Some {
        place_by_install(installs[i])
    } else {
        first_install(installs, i + 1)
    }
}

/// Where QQ and TIM keep their data.
pub open spec fn qq_place(documents: Option<ProbedPath>, installs: Seq<QqInstall>) -> Option<
    Seq<char>,
> {
    match documents {
        Some(files) => if files.exists {
            Some(files.path@)
        } else {
            first_install(installs, 0)
        },
        None => first_install(installs, 0),
    }
}

fn detect_qq_tim_path(documents: &Option<ProbedPath>, installs: &Vec<QqInstall>) -> (r: Option<
    String,
>)
    ensures
        text::view_of(r) == qq_place(*documents, installs@),
{
    if let Some(files) = documents {
        if files.exists {
            return Some(files.path.clone());
        }
    }
    let mut i: usize = 0;
    while i < installs.len()
        invariant
            i <= installs@.len(),
            first_install(installs@, 0) == first_install(installs@, i as int),
        decreases installs@.len() - i,
    {
        let install = &installs[i];
        let blank = text::trim(install.value.as_str(), CharSet::Whitespace);
        let plain = text::trim(blank.as_str(), CharSet::One('"'));
        if !plain.as_str().is_empty() {
            if install.files.exists {
                return Some(install.files.path.clone());
            }
            let found = detect_existing(&install.install);
            if found.is_some() {
                return found;
            }
        }
        i = i + 1;
    }
    None
}

/// The first of the places that is a directory, from one on.
pub open spec fn first_existing(places: Seq<ProbedPath>, i: int) -> Option<Seq<char>>
    decreases places.len() - i,
{
    if i >= places.len() || i < 0 {
        None
    } else if existing(places[i]) is Some {
        existing(places[i])
    } else {
        first_existing(places, i + 1)
    }
}

fn detect_feishu_path(places: &Vec<ProbedPath>) -> (r: Option<String>)
    ensures
        text::view_of(r) == first_existing(places@, 0),
{
    let mut i: usize = 0;
    while i < places.len()
        invariant
            i <= places@.len(),
            first_existing(places@, 0) == first_existing(places@, i as int),
        decreases places@.len() - i,
    {
        let found = detect_existing(&places[i]);
        if found.is_some() {
            return found;
        }
        i = i + 1;
    }
    None
}

/// What is found where an application may keep its data.
#[derive(Debug)]
pub struct ChatPlaces {
    /// Where WeChat's setting leads; absent where it leads nowhere.
    pub wechat: Option<ProbedPath>,
    /// The directory of QQ's files below the documents.
    pub tencent_files: Option<ProbedPath>,
    /// Where QQ is installed, by the values in the order in which they count.
    pub qq_installs: Vec<QqInstall>,
    /// Where Feishu may keep its data, in the order in which they count.
    pub feishu: Vec<ProbedPath>,
    /// The usual place of the application; absent where its base directory is
    /// not known.
    pub usual: Option<ProbedPath>,
}

/// Where an application keeps its data.
pub open spec fn chat_place(app_name: Seq<char>, places: ChatPlaces) -> Option<Seq<char>> {
    let name = plain_app_name(app_name);
    if name == "wechat"@ {
        existing_option(places.wechat)
    } else if name == "qq"@ || name == "tim"@ {
        qq_place(places.tencent_files, places.qq_installs@)
    } else if name == "feishu"@ || name == "lark"@ {
        first_existing(places.feishu@, 0)
    } else {
        existing_option(places.usual)
    }
}

/// Where an application keeps its data. On a machine that it does not run on
/// there are no places.
pub fn detect_chat_app_data(app_name: &str, places: Option<&ChatPlaces>) -> (r: Option<String>)
    ensures
        text::view_of(r) == match places {
            Some(places) => chat_place(app_name@, *places),
            None => None,
        },
{
    let places = match places {
        Some(places) => places,
        None => {
            return None;
        },
    };
    let name = normalize_app_name(app_name);
    if text::same(name.as_str(), "wechat") {
        detect_optional(&places.wechat)
    } else if text::same(name.as_str(), "qq") || text::same(name.as_str(), "tim") {
        detect_qq_tim_path(&places.tencent_files, &places.qq_installs)
    } else if text::same(name.as_str(), "feishu") || text::same(name.as_str(), "lark") {
        detect_feishu_path(&places.feishu)
    } else {
        detect_optional(&places.usual)
    }
}

/// Where an application usually keeps its data. `None` stands for the packages
/// of npm, whose place npm itself may say.
pub open spec fn usual_place(name: Seq<char>) -> Option<(BaseDir, Option<Seq<char>>)> {
    if name == "wechat"@ {
        Some((BaseDir::Documents, Some("WeChat Files"@)))
    } else if name == "qq"@ || name == "tim"@ {
        Some((BaseDir::Documents, Some("Tencent Files"@)))
    } else if name == "wxwork"@ {
        Some((BaseDir::Documents, Some("WXWork"@)))
    } else if name == "dingtalk"@ {
        Some((BaseDir::Data, Some("DingTalk"@)))
    } else if name == "feishu"@ || name == "lark"@ {
        Some((BaseDir::LocalData, Some("LarkShell"@)))
    } else if name == "chrome_cache"@ {
        Some((BaseDir::LocalData, Some("Google\\Chrome\\User Data\\Default\\Cache"@)))
    } else if name == "edge_cache"@ {
        Some((BaseDir::LocalData, Some("Microsoft\\Edge\\User Data\\Default\\Cache"@)))
    } else if name == "vscode_extensions"@ {
        Some((BaseDir::Home, Some(".vscode\\extensions"@)))
    } else if name == "npm_global"@ {
        None
    } else {
        Some((BaseDir::Home, None))
    }
}

pub open spec fn base_view(r: Option<BasePath>) -> Option<(BaseDir, Option<Seq<char>>)> {
    match r {
        Some(place) => Some((place.base, text::view_of(place.below))),
        None => None,
    }
}

fn base_path(base: BaseDir, below: &str) -> (r: Option<BasePath>)
    ensures
        base_view(r) == Some((base, Some(below@))),
{
    Some(BasePath { base, below: Some(below.to_owned()) })
}

/// Where an application usually keeps its data.
pub fn default_special_path(name: &str) -> (r: Option<BasePath>)
    ensures
        base_view(r) == usual_place(name@),
{
    if text::same(name, "wechat") {
        base_path(BaseDir::Documents, "WeChat Files")
    } else if text::same(name, "qq") || text::same(name, "tim") {
        base_path(BaseDir::Documents, "Tencent Files")
    } else if text::same(name, "wxwork") {
        base_path(BaseDir::Documents, "WXWork")
    } else if text::same(name, "dingtalk") {
        base_path(BaseDir::Data, "DingTalk")
    } else if text::same(name, "feishu") || text::same(name, "lark") {
        base_path(BaseDir::LocalData, "LarkShell")
    } else if text::same(name, "chrome_cache") {
        base_path(BaseDir::LocalData, "Google\\Chrome\\User Data\\Default\\Cache")
    } else if text::same(name, "edge_cache") {
        base_path(BaseDir::LocalData, "Microsoft\\Edge\\User Data\\Default\\Cache")
    } else if text::same(name, "vscode_extensions") {
        base_path(BaseDir::Home, ".vscode\\extensions")
    } else if text::same(name, "npm_global") {
        None
    } else {
        Some(BasePath { base: BaseDir::Home, below: None })
    }
}

/// The directory that npm names as its prefix, from what it printed; absent
/// where it named none.
pub fn npm_prefix(printed: &Option<String>) -> (r: Option<String>)
    ensures
        match (r, *printed) {
            (Some(prefix), Some(printed)) => prefix@ == text::trimmed(
                printed@,
                CharSet::Whitespace,
            ) && prefix@.len() > 0 && prefix@ != "undefined"@,
            (None, Some(printed)) => text::trimmed(printed@, CharSet::Whitespace).len() == 0
                || text::trimmed(printed@, CharSet::Whitespace) == "undefined"@,
            (Some(prefix), None) => false,
            (None, None) => true,
        },
{
    match printed {
        Some(printed) => {
            let plain = text::trim(printed.as_str(), CharSet::Whitespace);
            if plain.as_str().is_empty() || text::same(plain.as_str(), "undefined") {
                None
            } else {
                Some(plain)
            }
        },
        None => None,
    }
}

/// The names of the places below which Feishu may keep its data, each first
/// below the data directory and then below the local one.
pub fn feishu_candidates() -> (r: Vec<BasePath>)
    ensures
        r@.len() == 6,
        forall|i: int|
            0 <= i < 6 ==> (#[trigger] r@[i]).base == (if i % 2 == 0 {
                BaseDir::Data
            } else {
                BaseDir::LocalData
            }) && text::view_of(r@[i].below) == Some(
                if i < 2 {
                    "LarkShell"@
                } else if i < 4 {
                    "Feishu"@
                } else {
                    "Lark"@
                },
            ),
{
    vec![
        BasePath { base: BaseDir::Data, below: Some("LarkShell".to_owned()) },
        BasePath { base: BaseDir::LocalData, below: Some("LarkShell".to_owned()) },
        BasePath { base: BaseDir::Data, below: Some("Feishu".to_owned()) },
        BasePath { base: BaseDir::LocalData, below: Some("Feishu".to_owned()) },
        BasePath { base: BaseDir::Data, below: Some("Lark".to_owned()) },
        BasePath { base: BaseDir::LocalData, below: Some("Lark".to_owned()) },
    ]
}

pub open spec fn special_names() -> Seq<&'static str> {
    seq![
        "wechat",
        "qq",
        "tim",
        "wxwork",
        "dingtalk",
        "feishu",
        "chrome_cache",
        "edge_cache",
        "vscode_extensions",
        "npm_global",
    ]
}

/// The applications whose data are looked for, in order.
pub fn special_folder_names() -> (r: Vec<&'static str>)
    ensures
        r@ == special_names(),
{
    let r = vec![
        "wechat",
        "qq",
        "tim",
        "wxwork",
        "dingtalk",
        "feishu",
        "chrome_cache",
        "edge_cache",
        "vscode_extensions",
        "npm_global",
    ];
    assert(r@ =~= special_names());
    r
}

/// Where an application keeps its data, or where it usually does where they
/// were not found.
pub fn folder_status(app_name: &str, detected: &Option<String>, usual: &Option<String>) -> (r:
    SpecialFolder)
    ensures
        r.name@ == app_name@,
        r.is_detected == (detected is Some),
        r.current_path@ == match (*detected, *usual) {
            (Some(path), _) => path@,
            (None, Some(path)) => path@,
            (None, None) => ""@,
        },
{
    let current_path = match (detected, usual) {
        (Some(path), _) => path.clone(),
        (None, Some(path)) => path.clone(),
        (None, None) => "".to_owned(),
    };
    SpecialFolder { name: app_name.to_owned(), current_path, is_detected: detected.is_some() }
}

/// The processes that must not run while an application's data are moved.
pub open spec fn processes_of(app_name: Seq<char>) -> Seq<&'static str> {
    let name = plain_app_name(app_name);
    if name == "wechat"@ {
        seq!["wechat.exe"]
    } else if name == "qq"@ {
        seq!["qq.exe"]
    } else if name == "tim"@ {
        seq!["tim.exe"]
    } else if name == "wxwork"@ {
        seq!["wxwork.exe"]
    } else if name == "dingtalk"@ {
        seq!["dingtalk.exe"]
    } else if name == "feishu"@ || name == "lark"@ {
        seq!["feishu.exe", "lark.exe"]
    } else if name == "chrome_cache"@ {
        seq!["chrome.exe"]
    } else if name == "edge_cache"@ {
        seq!["msedge.exe"]
    } else if name == "vscode_extensions"@ {
        seq!["code.exe"]
    } else {
        seq![]
    }
}

/// The processes that must not run while an application's data are moved.
pub fn expected_process_names(app_name: &str) -> (r: Vec<&'static str>)
    ensures
        r@ == processes_of(app_name@),
{
    let name = normalize_app_name(app_name);
    let r: Vec<&'static str> = if text::same(name.as_str(), "wechat") {
        vec!["wechat.exe"]
    } else if text::same(name.as_str(), "qq") {
        vec!["qq.exe"]
    } else if text::same(name.as_str(), "tim") {
        vec!["tim.exe"]
    } else if text::same(name.as_str(), "wxwork") {
        vec!["wxwork.exe"]
    } else if text::same(name.as_str(), "dingtalk") {
        vec!["dingtalk.exe"]
    } else if text::same(name.as_str(), "feishu") || text::same(name.as_str(), "lark") {
        vec!["feishu.exe", "lark.exe"]
    } else if text::same(name.as_str(), "chrome_cache") {
        vec!["chrome.exe"]
    } else if text::same(name.as_str(), "edge_cache") {
        vec!["msedge.exe"]
    } else if text::same(name.as_str(), "vscode_extensions") {
        vec!["code.exe"]
    } else {
        Vec::new()
    };
    assert(r@ =~= processes_of(app_name@));
    r
}

/// Whether a process that must not run does, under a name in lower case.
pub open spec fn is_running(
    processes: Seq<String>,
    expected: Seq<&'static str>,
    name: Seq<char>,
) -> bool {
    text::among(expected, name) && exists|i: int|
        0 <= i < processes.len() && text::lowercase((#[trigger] processes[i])@) == name
}

/// Whether a list holds the names of the processes that must not run but do,
/// each once and in order.
pub open spec fn are_running(
    processes: Seq<String>,
    expected: Seq<&'static str>,
    running: Seq<String>,
) -> bool {
    &&& forall|t: Seq<char>| #[trigger]
        holds_text(running, t) <==> is_running(processes, expected, t)
    &&& forall|i: int, j: int|
        0 <= i < j < running.len() ==> text::text_before(
            (#[trigger] running[i])@,
            (#[trigger] running[j])@,
        )
}

/// What is said of processes that run.
pub open spec fn running_message(running: Seq<String>) -> Seq<char> {
    "检测到应用仍在运行，请先关闭后再迁移: "@ + text::joined(text::texts(running), ", "@)
}

fn find_running(processes: &Vec<String>, expected: &Vec<&'static str>) -> (r: Vec<String>)
    ensures
        are_running(processes@, expected@, r@),
{
    let mut running: Vec<String> = Vec::new();
    let mut i: usize = 0;
    assert forall|t: Seq<char>| #[trigger] holds_text(running@, t) <==> is_running(
        processes@.take(0),
        expected@,
        t,
    ) by {}
    while i < processes.len()
        invariant
            i <= processes@.len(),
            forall|t: Seq<char>| #[trigger]
                holds_text(running@, t) <==> is_running(processes@.take(i as int), expected@, t),
        decreases processes@.len() - i,
    {
        let name = text::to_lowercase(processes[i].as_str());
        let ghost before = running@;
        let ghost lower = name@;
        let expected_one = text::is_among(expected, name.as_str());
        if expected_one {
            proof {
                list::lemma_holds_text_push(running@, name);
            }
            running.push(name);
        }
        proof {
            let old_part = processes@.take(i as int);
            let new_part = processes@.take(i + 1);
            assert forall|t: Seq<char>| #[trigger] holds_text(running@, t) <==> is_running(
                new_part,
                expected@,
                t,
            ) by {
                assert(new_part[i as int] == processes@[i as int]);
                assert forall|k: int| 0 <= k < i implies #[trigger] new_part[k] == old_part[k] by {}
                if is_running(old_part, expected@, t) {
                    let k = choose|k: int|
                        0 <= k < old_part.len() && text::lowercase((#[trigger] old_part[k])@) == t;
                    assert(new_part[k] == old_part[k]);
                }
                if is_running(new_part, expected@, t) {
                    let k = choose|k: int|
                        0 <= k < new_part.len() && text::lowercase((#[trigger] new_part[k])@) == t;
                    if k < i {
                        assert(old_part[k] == new_part[k]);
                        assert(is_running(old_part, expected@, t));
                    }
                }
                if expected_one && t == lower {
                    assert(text::lowercase(new_part[i as int]@) == t);
                }
            }
        }
        i = i + 1;
    }
    assert(processes@.take(i as int) =~= processes@);
    list::sorted_texts(running)
}

/// Makes sure that an application does not run before its data are moved; else
/// says which of its processes do.
pub fn ensure_app_not_running(app_name: &str, processes: &Vec<String>) -> (r: Result<(), String>)
    ensures
        match r {
            Ok(()) => forall|t: Seq<char>|
                !#[trigger] is_running(processes@, processes_of(app_name@), t),
            Err(reason) => exists|running: Seq<String>|
                running.len() > 0 && #[trigger] are_running(
                    processes@,
                    processes_of(app_name@),
                    running,
                ) && reason@ == running_message(running),
        },
{
    let expected = expected_process_names(app_name);
    let running = find_running(processes, &expected);
    if running.len() == 0 {
        proof {
            assert forall|t: Seq<char>| !#[trigger] is_running(
                processes@,
                processes_of(app_name@),
                t,
            ) by {
                assert(!holds_text(running@, t));
            }
        }
        return Ok(());
    }
    let names = text::join(&running, ", ");
    let mut reason = "检测到应用仍在运行，请先关闭后再迁移: ".to_owned();
    reason.push_str(names.as_str());
    assert(are_running(processes@, processes_of(app_name@), running@));
    Err(reason)
}

/// Data are not moved while a process of the application runs.
pub proof fn law_running_application_blocks_moving(
    processes: Seq<String>,
    expected: Seq<&'static str>,
    running: Seq<String>,
    i: int,
)
    requires
        are_running(processes, expected, running),
        0 <= i < processes.len(),
        text::among(expected, text::lowercase(processes[i]@)),
    ensures
        running.len() > 0,
{
    let name = text::lowercase(processes[i]@);
    assert(is_running(processes, expected, name));
    assert(holds_text(running, name));
}

} // verus!
