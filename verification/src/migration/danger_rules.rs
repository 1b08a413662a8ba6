//! Directories that must not be moved, and those that are moved only after the
//! user has confirmed.

#![verifier::loop_isolation(false)]

use vstd::prelude::*;

use crate::text;

verus! {

/// How dangerous it is to move a directory.
#[derive(Clone, Copy, Debug, PartialEq, Eq, Structural)]
pub enum DangerLevel {
    /// Moving it would break the system beyond repair: never allowed.
    Blocked,
    /// Risky but recoverable: allowed once the user has confirmed.
    Warning,
}

/// One entry of the rule table.
pub struct DangerRule {
    /// Text that a path must contain; written `^text$`, text that it must equal.
    pub pattern: &'static str,
    pub level: DangerLevel,
    pub category: &'static str,
    pub label: &'static str,
}

pub open spec fn rule(
    pattern: &'static str,
    level: DangerLevel,
    category: &'static str,
    label: &'static str,
) -> DangerRule {
    DangerRule { pattern, level, category, label }
}

/// The rule table. Blocking rules come first, so that a path which a blocking
/// rule matches is never downgraded to a warning.
pub open spec fn danger_rules() -> Seq<DangerRule> {
    seq![
        rule("c:\\windows", DangerLevel::Blocked, "系统目录", "Windows 系统目录"),
        rule("c:\\program files\\windowsapps", DangerLevel::Blocked, "系统目录", "Windows 应用商店目录"),
        rule("c:\\programdata\\microsoft\\windows", DangerLevel::Blocked, "系统目录", "Windows 系统数据目录"),
        rule("c:\\windows\\system32", DangerLevel::Blocked, "系统目录", "Windows System32 目录"),
        rule("c:\\windows\\syswow64", DangerLevel::Blocked, "系统目录", "Windows SysWOW64 目录"),
        rule("c:\\windows\\winsxs", DangerLevel::Blocked, "系统目录", "Windows WinSxS 组件库"),
        rule("^c:\\users$", DangerLevel::Blocked, "系统目录", "Users 用户配置根目录"),
        rule("^c:\\program files$", DangerLevel::Blocked, "系统目录", "Program Files 根目录"),
        rule("^c:\\program files (x86)$", DangerLevel::Blocked, "系统目录", "Program Files (x86) 根目录"),
        rule("wpsystem", DangerLevel::Blocked, "系统目录", "Windows 商店加密数据目录"),
        rule("microsoft\\edge\\application", DangerLevel::Blocked, "浏览器", "Microsoft Edge 安装目录"),
        rule("microsoft\\msedge\\application", DangerLevel::Blocked, "浏览器", "Microsoft Edge 安装目录"),
        rule("microsoft\\edgewebview\\application", DangerLevel::Blocked, "浏览器", "Microsoft WebView2 运行时目录"),
        rule("google\\chrome\\application", DangerLevel::Blocked, "浏览器", "Google Chrome 安装目录"),
        rule("google\\chrome beta\\application", DangerLevel::Blocked, "浏览器", "Google Chrome Beta 安装目录"),
        rule("google\\chrome dev\\application", DangerLevel::Blocked, "浏览器", "Google Chrome Dev 安装目录"),
        rule("bromite\\application", DangerLevel::Blocked, "浏览器", "Bromite 安装目录"),
        rule("\\microsoft office", DangerLevel::Blocked, "办公软件", "Microsoft Office 安装目录"),
        rule("programdata\\microsoft\\clicktorun", DangerLevel::Blocked, "办公软件", "Office ClickToRun 服务目录"),
        rule("nvidia corporation\\installer2", DangerLevel::Blocked, "GPU驱动", "NVIDIA 驱动安装目录"),
        rule("nvidia\\displaydriver", DangerLevel::Blocked, "GPU驱动", "NVIDIA 显卡驱动目录"),
        rule("\\nvidia corporation", DangerLevel::Blocked, "GPU驱动", "NVIDIA 驱动目录"),
        rule("\\nvidia\\", DangerLevel::Blocked, "GPU驱动", "NVIDIA 驱动目录"),
        rule("amd\\ccc2", DangerLevel::Blocked, "GPU驱动", "AMD 显卡控制中心目录"),
        rule("advanced micro devices", DangerLevel::Blocked, "GPU驱动", "AMD 驱动目录"),
        rule("intel\\graphics", DangerLevel::Blocked, "GPU驱动", "Intel 核显驱动目录"),
        rule("intel\\intelgraphicscontrolpanel", DangerLevel::Blocked, "GPU驱动", "Intel 显卡控制面板目录"),
        rule("c:\\program files\\dotnet", DangerLevel::Blocked, "运行时", ".NET Runtime 安装目录"),
        rule("vmware", DangerLevel::Warning, "虚拟化", "VMware 目录"),
        rule("virtualbox", DangerLevel::Warning, "虚拟化", "VirtualBox 目录"),
        rule("hyper-v", DangerLevel::Warning, "虚拟化", "Hyper-V 目录"),
        rule("mysql", DangerLevel::Warning, "数据库", "MySQL 数据目录"),
        rule("postgresql", DangerLevel::Warning, "数据库", "PostgreSQL 数据目录"),
        rule("mongodb", DangerLevel::Warning, "数据库", "MongoDB 数据目录"),
        rule("redis", DangerLevel::Warning, "缓存服务", "Redis 数据目录"),
        rule("microsoft sql server", DangerLevel::Warning, "数据库", "SQL Server 数据目录"),
        rule("elasticsearch", DangerLevel::Warning, "数据库", "Elasticsearch 数据目录"),
        rule("rabbitmq", DangerLevel::Warning, "数据库", "RabbitMQ 数据目录"),
        rule("kafka", DangerLevel::Warning, "数据库", "Kafka 数据目录"),
        rule("windows defender", DangerLevel::Warning, "安全软件", "Windows Defender 目录"),
        rule("kaspersky", DangerLevel::Warning, "安全软件", "Kaspersky 目录"),
        rule("eset", DangerLevel::Warning, "安全软件", "ESET 目录"),
        rule("norton", DangerLevel::Warning, "安全软件", "Norton 安全软件目录"),
        rule("symantec", DangerLevel::Warning, "安全软件", "Symantec 目录"),
        rule("mcafee", DangerLevel::Warning, "安全软件", "McAfee/Trellix 目录"),
        rule("360安全", DangerLevel::Warning, "安全软件", "360 安全卫士目录"),
        rule("360total", DangerLevel::Warning, "安全软件", "360 Total Security 目录"),
        rule("huorong", DangerLevel::Warning, "安全软件", "火绒安全目录"),
        rule("bitdefender", DangerLevel::Warning, "安全软件", "Bitdefender 目录"),
        rule("malwarebytes", DangerLevel::Warning, "安全软件", "Malwarebytes 目录"),
        rule("package cache", DangerLevel::Warning, "系统组件", "Visual Studio Package Cache"),
        rule("microsoft visual studio", DangerLevel::Warning, "开发工具", "Visual Studio 安装目录"),
        rule("jetbrains", DangerLevel::Warning, "开发工具", "JetBrains IDE 目录"),
        rule("\\microsoft vs code", DangerLevel::Warning, "开发工具", "VSCode 安装目录"),
        rule("wechat files", DangerLevel::Warning, "缓存服务", "微信数据目录"),
        rule("tencent files", DangerLevel::Warning, "缓存服务", "腾讯系应用数据目录"),
        rule("steamapps", DangerLevel::Warning, "游戏平台", "Steam 游戏库目录"),
        rule("c:\\programdata", DangerLevel::Warning, "系统目录", "ProgramData 根目录"),
    ]
}

/// Builds the rule table.
fn rule_table() -> (r: Vec<DangerRule>)
    ensures
        r@ == danger_rules(),
{
    let r = vec![
        DangerRule {
            pattern: "c:\\windows",
            level: DangerLevel::Blocked,
            category: "系统目录",
            label: "Windows 系统目录",
        },
        DangerRule {
            pattern: "c:\\program files\\windowsapps",
            level: DangerLevel::Blocked,
            category: "系统目录",
            label: "Windows 应用商店目录",
        },
        DangerRule {
            pattern: "c:\\programdata\\microsoft\\windows",
            level: DangerLevel::Blocked,
            category: "系统目录",
            label: "Windows 系统数据目录",
        },
        DangerRule {
            pattern: "c:\\windows\\system32",
            level: DangerLevel::Blocked,
            category: "系统目录",
            label: "Windows System32 目录",
        },
        DangerRule {
            pattern: "c:\\windows\\syswow64",
            level: DangerLevel::Blocked,
            category: "系统目录",
            label: "Windows SysWOW64 目录",
        },
        DangerRule {
            pattern: "c:\\windows\\winsxs",
            level: DangerLevel::Blocked,
            category: "系统目录",
            label: "Windows WinSxS 组件库",
        },
        DangerRule {
            pattern: "^c:\\users$",
            level: DangerLevel::Blocked,
            category: "系统目录",
            label: "Users 用户配置根目录",
        },
        DangerRule {
            pattern: "^c:\\program files$",
            level: DangerLevel::Blocked,
            category: "系统目录",
            label: "Program Files 根目录",
        },
        DangerRule {
            pattern: "^c:\\program files (x86)$",
            level: DangerLevel::Blocked,
            category: "系统目录",
            label: "Program Files (x86) 根目录",
        },
        DangerRule {
            pattern: "wpsystem",
            level: DangerLevel::Blocked,
            category: "系统目录",
            label: "Windows 商店加密数据目录",
        },
        DangerRule {
            pattern: "microsoft\\edge\\application",
            level: DangerLevel::Blocked,
            category: "浏览器",
            label: "Microsoft Edge 安装目录",
        },
        DangerRule {
            pattern: "microsoft\\msedge\\application",
            level: DangerLevel::Blocked,
            category: "浏览器",
            label: "Microsoft Edge 安装目录",
        },
        DangerRule {
            pattern: "microsoft\\edgewebview\\application",
            level: DangerLevel::Blocked,
            category: "浏览器",
            label: "Microsoft WebView2 运行时目录",
        },
        DangerRule {
            pattern: "google\\chrome\\application",
            level: DangerLevel::Blocked,
            category: "浏览器",
            label: "Google Chrome 安装目录",
        },
        DangerRule {
            pattern: "google\\chrome beta\\application",
            level: DangerLevel::Blocked,
            category: "浏览器",
            label: "Google Chrome Beta 安装目录",
        },
        DangerRule {
            pattern: "google\\chrome dev\\application",
            level: DangerLevel::Blocked,
            category: "浏览器",
            label: "Google Chrome Dev 安装目录",
        },
        DangerRule {
            pattern: "bromite\\application",
            level: DangerLevel::Blocked,
            category: "浏览器",
            label: "Bromite 安装目录",
        },
        DangerRule {
            pattern: "\\microsoft office",
            level: DangerLevel::Blocked,
            category: "办公软件",
            label: "Microsoft Office 安装目录",
        },
        DangerRule {
            pattern: "programdata\\microsoft\\clicktorun",
            level: DangerLevel::Blocked,
            category: "办公软件",
            label: "Office ClickToRun 服务目录",
        },
        DangerRule {
            pattern: "nvidia corporation\\installer2",
            level: DangerLevel::Blocked,
            category: "GPU驱动",
            label: "NVIDIA 驱动安装目录",
        },
        DangerRule {
            pattern: "nvidia\\displaydriver",
            level: DangerLevel::Blocked,
            category: "GPU驱动",
            label: "NVIDIA 显卡驱动目录",
        },
        DangerRule {
            pattern: "\\nvidia corporation",
            level: DangerLevel::Blocked,
            category: "GPU驱动",
            label: "NVIDIA 驱动目录",
        },
        DangerRule {
            pattern: "\\nvidia\\",
            level: DangerLevel::Blocked,
            category: "GPU驱动",
            label: "NVIDIA 驱动目录",
        },
        DangerRule {
            pattern: "amd\\ccc2",
            level: DangerLevel::Blocked,
            category: "GPU驱动",
            label: "AMD 显卡控制中心目录",
        },
        DangerRule {
            pattern: "advanced micro devices",
            level: DangerLevel::Blocked,
            category: "GPU驱动",
            label: "AMD 驱动目录",
        },
        DangerRule {
            pattern: "intel\\graphics",
            level: DangerLevel::Blocked,
            category: "GPU驱动",
            label: "Intel 核显驱动目录",
        },
        DangerRule {
            pattern: "intel\\intelgraphicscontrolpanel",
            level: DangerLevel::Blocked,
            category: "GPU驱动",
            label: "Intel 显卡控制面板目录",
        },
        DangerRule {
            pattern: "c:\\program files\\dotnet",
            level: DangerLevel::Blocked,
            category: "运行时",
            label: ".NET Runtime 安装目录",
        },
        DangerRule {
            pattern: "vmware",
            level: DangerLevel::Warning,
            category: "虚拟化",
            label: "VMware 目录",
        },
        DangerRule {
            pattern: "virtualbox",
            level: DangerLevel::Warning,
            category: "虚拟化",
            label: "VirtualBox 目录",
        },
        DangerRule {
            pattern: "hyper-v",
            level: DangerLevel::Warning,
            category: "虚拟化",
            label: "Hyper-V 目录",
        },
        DangerRule {
            pattern: "mysql",
            level: DangerLevel::Warning,
            category: "数据库",
            label: "MySQL 数据目录",
        },
        DangerRule {
            pattern: "postgresql",
            level: DangerLevel::Warning,
            category: "数据库",
            label: "PostgreSQL 数据目录",
        },
        DangerRule {
            pattern: "mongodb",
            level: DangerLevel::Warning,
            category: "数据库",
            label: "MongoDB 数据目录",
        },
        DangerRule {
            pattern: "redis",
            level: DangerLevel::Warning,
            category: "缓存服务",
            label: "Redis 数据目录",
        },
        DangerRule {
            pattern: "microsoft sql server",
            level: DangerLevel::Warning,
            category: "数据库",
            label: "SQL Server 数据目录",
        },
        DangerRule {
            pattern: "elasticsearch",
            level: DangerLevel::Warning,
            category: "数据库",
            label: "Elasticsearch 数据目录",
        },
        DangerRule {
            pattern: "rabbitmq",
            level: DangerLevel::Warning,
            category: "数据库",
            label: "RabbitMQ 数据目录",
        },
        DangerRule {
            pattern: "kafka",
            level: DangerLevel::Warning,
            category: "数据库",
            label: "Kafka 数据目录",
        },
        DangerRule {
            pattern: "windows defender",
            level: DangerLevel::Warning,
            category: "安全软件",
            label: "Windows Defender 目录",
        },
        DangerRule {
            pattern: "kaspersky",
            level: DangerLevel::Warning,
            category: "安全软件",
            label: "Kaspersky 目录",
        },
        DangerRule {
            pattern: "eset",
            level: DangerLevel::Warning,
            category: "安全软件",
            label: "ESET 目录",
        },
        DangerRule {
            pattern: "norton",
            level: DangerLevel::Warning,
            category: "安全软件",
            label: "Norton 安全软件目录",
        },
        DangerRule {
            pattern: "symantec",
            level: DangerLevel::Warning,
            category: "安全软件",
            label: "Symantec 目录",
        },
        DangerRule {
            pattern: "mcafee",
            level: DangerLevel::Warning,
            category: "安全软件",
            label: "McAfee/Trellix 目录",
        },
        DangerRule {
            pattern: "360安全",
            level: DangerLevel::Warning,
            category: "安全软件",
            label: "360 安全卫士目录",
        },
        DangerRule {
            pattern: "360total",
            level: DangerLevel::Warning,
            category: "安全软件",
            label: "360 Total Security 目录",
        },
        DangerRule {
            pattern: "huorong",
            level: DangerLevel::Warning,
            category: "安全软件",
            label: "火绒安全目录",
        },
        DangerRule {
            pattern: "bitdefender",
            level: DangerLevel::Warning,
            category: "安全软件",
            label: "Bitdefender 目录",
        },
        DangerRule {
            pattern: "malwarebytes",
            level: DangerLevel::Warning,
            category: "安全软件",
            label: "Malwarebytes 目录",
        },
        DangerRule {
            pattern: "package cache",
            level: DangerLevel::Warning,
            category: "系统组件",
            label: "Visual Studio Package Cache",
        },
        DangerRule {
            pattern: "microsoft visual studio",
            level: DangerLevel::Warning,
            category: "开发工具",
            label: "Visual Studio 安装目录",
        },
        DangerRule {
            pattern: "jetbrains",
            level: DangerLevel::Warning,
            category: "开发工具",
            label: "JetBrains IDE 目录",
        },
        DangerRule {
            pattern: "\\microsoft vs code",
            level: DangerLevel::Warning,
            category: "开发工具",
            label: "VSCode 安装目录",
        },
        DangerRule {
            pattern: "wechat files",
            level: DangerLevel::Warning,
            category: "缓存服务",
            label: "微信数据目录",
        },
        DangerRule {
            pattern: "tencent files",
            level: DangerLevel::Warning,
            category: "缓存服务",
            label: "腾讯系应用数据目录",
        },
        DangerRule {
            pattern: "steamapps",
            level: DangerLevel::Warning,
            category: "游戏平台",
            label: "Steam 游戏库目录",
        },
        DangerRule {
            pattern: "c:\\programdata",
            level: DangerLevel::Warning,
            category: "系统目录",
            label: "ProgramData 根目录",
        },
    ];
    assert(r@ =~= danger_rules());
    r
}

/// A path as the rules see it: in lower case, with backslashes.
pub open spec fn rule_form(source: Seq<char>) -> Seq<char> {
    text::replaced(text::lowercase(source), '/', '\\')
}

/// Whether a pattern is written `^text$`.
pub open spec fn is_exact_pattern(pattern: Seq<char>) -> bool {
    pattern.len() >= 2 && pattern.first() == '^' && pattern.last() == '$'
}

/// Whether a pattern matches a path in rule form.
pub open spec fn pattern_matches(path: Seq<char>, pattern: Seq<char>) -> bool {
    if is_exact_pattern(pattern) {
        path == pattern.subrange(1, pattern.len() - 1)
    } else {
        text::contains_text(path, pattern)
    }
}

/// The first rule that matches a path in rule form.
pub open spec fn first_match(rules: Seq<DangerRule>, path: Seq<char>) -> Option<DangerRule>
    decreases rules.len(),
{
    if rules.len() == 0 {
        None
    } else if pattern_matches(path, rules[0].pattern@) {
        Some(rules[0])
    } else {
        first_match(rules.drop_first(), path)
    }
}

/// What a category's directories would suffer from being moved.
pub open spec fn tip(category: Seq<char>) -> Seq<char> {
    if category == "系统目录"@ {
        "迁移系统核心目录会导致 Windows 组件崩溃，无法开机。"@
    } else if category == "浏览器"@ {
        "浏览器安装目录含有系统级注册和自动修复机制，迁移后 Junction 会被自动覆盖，且所有扩展插件将损坏。\n如需释放空间，请迁移浏览器的缓存目录（在「数据迁移」页面的快捷项中）。"@
    } else if category == "GPU驱动"@ {
        "GPU 驱动路径写死进系统服务注册表，迁移后驱动无法加载，轻则降级到基本显示模式，重则蓝屏。"@
    } else if category == "办公软件"@ {
        "Microsoft Office 使用 ClickToRun 虚拟化安装机制，迁移后自动修复服务会覆盖 Junction，COM 注册表记录无法跟随迁移。"@
    } else if category == "运行时"@ {
        ".NET 运行时路径被大量应用和系统组件硬编码引用，迁移后依赖 .NET 的应用将无法启动。"@
    } else if category == "开发工具"@ {
        "开发工具目录含被 Windows 内核内存映射的 DLL 和后台语言服务，复制阶段容易失败，迁移前需完全退出所有相关进程。"@
    } else {
        "该目录包含系统级组件，不支持迁移。"@
    }
}

/// What the user is told of a directory that a rule matches.
pub open spec fn rule_message(rule: DangerRule) -> Seq<char> {
    match rule.level {
        DangerLevel::Blocked => "🚫 无法迁移："@ + rule.label@ + " 属于「"@ + rule.category@
            + "」，不支持迁移。\n\n"@ + tip(rule.category@),
        DangerLevel::Warning => "高风险目录："@ + rule.label@ + "（"@ + rule.category@ + "）"@,
    }
}

/// The danger of moving the directory at a path in rule form: that of the
/// first matching rule.
pub open spec fn danger_at(path: Seq<char>) -> Option<(DangerLevel, Seq<char>)> {
    match first_match(danger_rules(), path) {
        Some(rule) => Some((rule.level, rule_message(rule))),
        None => None,
    }
}

/// The danger of moving `source`.
pub open spec fn danger_of(source: Seq<char>) -> Option<(DangerLevel, Seq<char>)> {
    danger_at(rule_form(source))
}

/// Whether a pattern matches a path in rule form.
fn match_path(path: &str, pattern: &str) -> (r: bool)
    ensures
        r == pattern_matches(path@, pattern@),
{
    let v = text::chars_of(pattern);
    let n: usize = v.len();
    if n >= 2 && v[0] == '^' && v[n - 1] == '$' {
        let inner = text::string_of(&v, 1, n - 1);
        text::same(path, inner.as_str())
    } else {
        text::contains(path, pattern)
    }
}

/// What a category's directories would suffer from being moved.
fn tip_text(category: &str) -> (r: &'static str)
    ensures
        r@ == tip(category@),
{
    if text::same(category, "系统目录") {
        "迁移系统核心目录会导致 Windows 组件崩溃，无法开机。"
    } else if text::same(category, "浏览器") {
        "浏览器安装目录含有系统级注册和自动修复机制，迁移后 Junction 会被自动覆盖，且所有扩展插件将损坏。\n如需释放空间，请迁移浏览器的缓存目录（在「数据迁移」页面的快捷项中）。"
    } else if text::same(category, "GPU驱动") {
        "GPU 驱动路径写死进系统服务注册表，迁移后驱动无法加载，轻则降级到基本显示模式，重则蓝屏。"
    } else if text::same(category, "办公软件") {
        "Microsoft Office 使用 ClickToRun 虚拟化安装机制，迁移后自动修复服务会覆盖 Junction，COM 注册表记录无法跟随迁移。"
    } else if text::same(category, "运行时") {
        ".NET 运行时路径被大量应用和系统组件硬编码引用，迁移后依赖 .NET 的应用将无法启动。"
    } else if text::same(category, "开发工具") {
        "开发工具目录含被 Windows 内核内存映射的 DLL 和后台语言服务，复制阶段容易失败，迁移前需完全退出所有相关进程。"
    } else {
        "该目录包含系统级组件，不支持迁移。"
    }
}

/// Looks a directory up in the rule table. `None` means that nothing speaks
/// against moving it.
pub fn check_dangerous_path(source: &str) -> (r: Option<(DangerLevel, String)>)
    ensures
        match r {
            Some((level, message)) => danger_of(source@) == Some((level, message@)),
            None => danger_of(source@) is None,
        },
        text::all_ascii(source@) ==> danger_of(source@) == danger_at(
            text::replaced(text::ascii_lowercase(source@), '/', '\\'),
        ),
{
    let lower = text::to_lowercase(source);
    let path = text::replace_char(lower.as_str(), '/', '\\');
    let rules = rule_table();
    let mut i: usize = 0;
    assert(danger_rules().skip(0) =~= danger_rules());
    while i < rules.len()
        invariant
            i <= rules@.len(),
            rules@ == danger_rules(),
            first_match(danger_rules(), path@) == first_match(
                danger_rules().skip(i as int),
                path@,
            ),
        decreases rules@.len() - i,
    {
        assert(danger_rules().skip(i as int)[0] == rules@[i as int]);
        assert(danger_rules().skip(i as int).drop_first() =~= danger_rules().skip(i + 1));
        let rule = &rules[i];
        if match_path(path.as_str(), rule.pattern) {
            match rule.level {
                DangerLevel::Blocked => {
                    let mut message = "🚫 无法迁移：".to_owned();
                    message.push_str(rule.label);
                    message.push_str(" 属于「");
                    message.push_str(rule.category);
                    message.push_str("」，不支持迁移。\n\n");
                    message.push_str(tip_text(rule.category));
                    return Some((DangerLevel::Blocked, message));
                },
                DangerLevel::Warning => {
                    let mut message = "高风险目录：".to_owned();
                    message.push_str(rule.label);
                    message.push_str("（");
                    message.push_str(rule.category);
                    message.push_str("）");
                    return Some((DangerLevel::Warning, message));
                },
            }
        }
        i = i + 1;
    }
    None
}

/// No warning rule stands before a blocking rule.
pub proof fn law_blocking_rules_come_first(i: int, j: int)
    requires
        0 <= i < j < danger_rules().len(),
        danger_rules()[j].level == DangerLevel::Blocked,
    ensures
        danger_rules()[i].level == DangerLevel::Blocked,
{
}

/// Whatever else matches a directory, one that a blocking rule matches is
/// blocked.
pub proof fn law_blocked_is_never_downgraded(source: Seq<char>, j: int)
    requires
        0 <= j < danger_rules().len(),
        danger_rules()[j].level == DangerLevel::Blocked,
        pattern_matches(rule_form(source), danger_rules()[j].pattern@),
    ensures
        danger_of(source) matches Some((level, _)) && level == DangerLevel::Blocked,
{
    lemma_first_match_is_earliest(danger_rules(), rule_form(source), j);
    let i = choose|i: int|
        0 <= i <= j && first_match(danger_rules(), rule_form(source)) == Some(
            #[trigger] danger_rules()[i],
        );
    if i < j {
        law_blocking_rules_come_first(i, j);
    }
}

/// Paths of ASCII characters that differ in letter case and in the kind of
/// their slashes alone are rated alike.
pub proof fn law_case_and_slashes_make_no_difference(one: Seq<char>, other: Seq<char>)
    requires
        text::all_alike(one, other),
    ensures
        danger_of(one) == danger_of(other),
{
    text::lemma_alike_in_lower_case(one, other);
}

/// How a danger is rated: 2 for a blocked directory, 1 for a warning, 0 for
/// none.
pub open spec fn rating(danger: Option<(DangerLevel, Seq<char>)>) -> int {
    match danger {
        Some((DangerLevel::Blocked, _)) => 2,
        Some((DangerLevel::Warning, _)) => 1,
        None => 0,
    }
}

/// Whether a path in rule form is one of those that are named exactly.
pub open spec fn is_named_exactly(path: Seq<char>) -> bool {
    exists|i: int|
        0 <= i < danger_rules().len() && is_exact_pattern(#[trigger] danger_rules()[i].pattern@)
            && pattern_matches(path, danger_rules()[i].pattern@)
}

/// A longer path of ASCII characters is never rated lower than the path that it
/// goes on from, unless that path is one of those that are named exactly.
pub proof fn law_longer_path_is_never_rated_lower(path: Seq<char>, more: Seq<char>)
    requires
        text::all_ascii(path),
        text::all_ascii(more),
        !is_named_exactly(rule_form(path)),
    ensures
        rating(danger_of(path + more)) >= rating(danger_of(path)),
{
    let longer = path + more;
    assert(text::all_ascii(longer)) by {
        assert forall|i: int| 0 <= i < longer.len() implies text::is_ascii(
            #[trigger] longer[i],
        ) by {
            if i < path.len() {
                assert(text::is_ascii(path[i]));
            } else {
                assert(text::is_ascii(more[i - path.len()]));
            }
        }
    }
    assert(rule_form(longer).subrange(0, path.len() as int) =~= rule_form(path));
    law_longer_form_is_never_rated_lower(rule_form(path), rule_form(longer));
}

/// A longer path in rule form is never rated lower than the path that it goes on
/// from, unless that path is one of those that are named exactly.
pub proof fn law_longer_form_is_never_rated_lower(path: Seq<char>, longer: Seq<char>)
    requires
        text::has_prefix(longer, path),
        !is_named_exactly(path),
    ensures
        rating(danger_at(longer)) >= rating(danger_at(path)),
{
    lemma_first_match_is_a_match(danger_rules(), path);
    if first_match(danger_rules(), path) is Some {
        let j = choose|j: int|
            0 <= j < danger_rules().len() && pattern_matches(
                path,
                #[trigger] danger_rules()[j].pattern@,
            ) && first_match(danger_rules(), path) == Some(danger_rules()[j]);
        let pattern = danger_rules()[j].pattern@;
        let at = choose|at: int| #[trigger] text::stands_at(path, pattern, at);
        assert(text::stands_at(longer, pattern, at)) by {
            assert forall|k: int| 0 <= k < path.len() implies longer[k] == path[k] by {
                assert(longer.subrange(0, path.len() as int)[k] == path[k]);
            }
            assert(longer.subrange(at, at + pattern.len()) =~= path.subrange(
                at,
                at + pattern.len(),
            ));
        }
        lemma_first_match_is_earliest(danger_rules(), longer, j);
        let i = choose|i: int|
            0 <= i <= j && first_match(danger_rules(), longer) == Some(
                #[trigger] danger_rules()[i],
            );
        if i < j && danger_rules()[j].level == DangerLevel::Blocked {
            law_blocking_rules_come_first(i, j);
        }
    }
}

/// A rule that is found matches.
proof fn lemma_first_match_is_a_match(rules: Seq<DangerRule>, path: Seq<char>)
    ensures
        first_match(rules, path) is Some ==> exists|j: int|
            0 <= j < rules.len() && pattern_matches(path, #[trigger] rules[j].pattern@)
                && first_match(rules, path) == Some(rules[j]),
    decreases rules.len(),
{
    if rules.len() > 0 && !pattern_matches(path, rules[0].pattern@) {
        lemma_first_match_is_a_match(rules.drop_first(), path);
        if first_match(rules.drop_first(), path) is Some {
            let j = choose|j: int|
                0 <= j < rules.drop_first().len() && pattern_matches(
                    path,
                    #[trigger] rules.drop_first()[j].pattern@,
                ) && first_match(rules.drop_first(), path) == Some(rules.drop_first()[j]);
            assert(rules.drop_first()[j] == rules[j + 1]);
        }
    }
}

/// The rule that is found stands no later than any rule that matches.
proof fn lemma_first_match_is_earliest(rules: Seq<DangerRule>, path: Seq<char>, j: int)
    requires
        0 <= j < rules.len(),
        pattern_matches(path, rules[j].pattern@),
    ensures
        exists|i: int| 0 <= i <= j && first_match(rules, path) == Some(#[trigger] rules[i]),
    decreases rules.len(),
{
    if !pattern_matches(path, rules[0].pattern@) {
        lemma_first_match_is_earliest(rules.drop_first(), path, j - 1);
        let i = choose|i: int|
            0 <= i <= j - 1 && first_match(rules.drop_first(), path) == Some(
                #[trigger] rules.drop_first()[i],
            );
        assert(rules.drop_first()[i] == rules[i + 1]);
    }
}

} // verus!
