//! Applications from the store: which package an application is, and the
//! commands that deal with it.

#![verifier::loop_isolation(false)]

use vstd::prelude::*;

use crate::text;
use crate::text::CharSet;

verus! {

/// An installed package.
#[derive(Debug)]
pub struct AppxPackage {
    pub name: String,
    /// The name with version, architecture and publisher.
    pub package_full_name: String,
    pub install_location: String,
}

impl Clone for AppxPackage {
    fn clone(&self) -> (r: Self)
        ensures
            r == *self,
    {
        AppxPackage {
            name: self.name.clone(),
            package_full_name: self.package_full_name.clone(),
            install_location: self.install_location.clone(),
        }
    }
}

/// The script that lists all packages as JSON.
pub const LIST_SCRIPT: &'static str =
    "Get-AppxPackage | Select-Object Name,PackageFullName,InstallLocation | ConvertTo-Json -Compress";

/// What a script printed, read as JSON: a list of packages, or a single one,
/// which is not written as a list.
#[derive(Debug)]
pub enum PackageJson {
    List(Vec<AppxPackage>),
    Single(AppxPackage),
    /// Blank, or neither of the two.
    Unreadable,
}

/// The packages that a script printed.
pub open spec fn packages_in(json: PackageJson) -> Seq<AppxPackage> {
    match json {
        PackageJson::List(packages) => packages@,
        PackageJson::Single(package) => seq![package],
        PackageJson::Unreadable => seq![],
    }
}

/// The packages that a script printed.
pub fn parse_packages_json(json: PackageJson) -> (r: Vec<AppxPackage>)
    ensures
        r@ == packages_in(json),
{
    match json {
        PackageJson::List(packages) => packages,
        PackageJson::Single(package) => {
            let r = vec![package];
            assert(r@ =~= packages_in(json));
            r
        },
        PackageJson::Unreadable => {
            let r: Vec<AppxPackage> = Vec::new();
            assert(r@ =~= packages_in(json));
            r
        },
    }
}

/// How the run of a script ended.
#[derive(Debug)]
pub enum ScriptEnd {
    NotStarted(String),
    Failed { stderr: String },
    Printed(PackageJson),
}

/// Why a script failed: what it wrote, or that it failed where it wrote nothing.
pub open spec fn script_failure(stderr: Seq<char>) -> Seq<char> {
    let plain = text::trimmed(stderr, CharSet::Whitespace);
    if plain.len() == 0 {
        "PowerShell 执行失败"@
    } else {
        plain
    }
}

/// The installed packages, or why they could not be listed. On a machine that
/// knows no packages no script is run, and there are none.
pub fn list_installed_packages(end: Option<ScriptEnd>) -> (r: Result<Vec<AppxPackage>, String>)
    ensures
        match (end, r) {
            (None, Ok(packages)) => packages@.len() == 0,
            (Some(ScriptEnd::Printed(json)), Ok(packages)) => packages@ == packages_in(json),
            (Some(ScriptEnd::NotStarted(error)), Err(reason)) => reason@
                == "调用 PowerShell 失败: "@ + error@,
            (Some(ScriptEnd::Failed { stderr }), Err(reason)) => reason@ == script_failure(stderr@),
            _ => false,
        },
{
    match end {
        None => Ok(Vec::new()),
        Some(ScriptEnd::Printed(json)) => Ok(parse_packages_json(json)),
        Some(ScriptEnd::NotStarted(error)) => {
            let mut reason = "调用 PowerShell 失败: ".to_owned();
            reason.push_str(error.as_str());
            Err(reason)
        },
        Some(ScriptEnd::Failed { stderr }) => {
            let plain = text::trim(stderr.as_str(), CharSet::Whitespace);
            if plain.as_str().is_empty() {
                Err("PowerShell 执行失败".to_owned())
            } else {
                Err(plain)
            }
        },
    }
}

/// Whether a part of a path is the folder that packages lie in.
pub open spec fn is_packages_folder(part: Seq<char>) -> bool {
    text::ascii_lowercase(part) == text::ascii_lowercase("WindowsApps"@)
}

/// The part of a path behind the folder that packages lie in, from one part on.
pub open spec fn part_behind_packages(parts: Seq<Seq<char>>, i: int) -> Option<Seq<char>>
    decreases parts.len() - i,
{
    if i >= parts.len() || i < 0 {
        None
    } else if is_packages_folder(parts[i]) {
        if i + 1 < parts.len() {
            Some(parts[i + 1])
        } else {
            None
        }
    } else {
        part_behind_packages(parts, i + 1)
    }
}

/// The full name of the package in which a path lies.
pub open spec fn package_at(location: Seq<char>) -> Option<Seq<char>> {
    part_behind_packages(text::filled(text::pieces(location, CharSet::Two('\\', '/'))), 0)
}

/// The full name of the package in which a path lies.
pub fn package_full_name_from_location(location: &str) -> (r: Option<String>)
    ensures
        text::view_of(r) == package_at(location@),
{
    let parts = text::split_filled(location, CharSet::Two('\\', '/'));
    let ghost all = text::texts(parts@);
    let mut i: usize = 0;
    while i < parts.len()
        invariant
            i <= parts@.len(),
            part_behind_packages(all, 0) == part_behind_packages(all, i as int),
        decreases parts@.len() - i,
    {
        assert(all[i as int] == parts@[i as int]@);
        if text::same_ignoring_ascii_case(parts[i].as_str(), "WindowsApps") {
            if i + 1 < parts.len() {
                assert(all[i + 1] == parts@[i + 1]@);
                return Some(parts[i + 1].clone());
            }
            return None;
        }
        i = i + 1;
    }
    None
}

/// The ASCII letters and digits of a text.
pub open spec fn plain_chars(s: Seq<char>) -> Seq<char>
    decreases s.len(),
{
    if s.len() == 0 {
        s
    } else if text::is_ascii_alphanumeric(s.last()) {
        plain_chars(s.drop_last()).push(s.last())
    } else {
        plain_chars(s.drop_last())
    }
}

/// A name as it is compared: its ASCII letters and digits in lower case.
pub open spec fn compared_name(s: Seq<char>) -> Seq<char> {
    text::ascii_lowercase(plain_chars(s))
}

proof fn lemma_plain_chars_are_ascii(s: Seq<char>)
    ensures
        text::all_ascii(plain_chars(s)),
    decreases s.len(),
{
    if s.len() > 0 {
        lemma_plain_chars_are_ascii(s.drop_last());
    }
}

/// The ASCII letters and digits of a name in lower case.
pub fn normalize_for_match(value: &str) -> (r: String)
    ensures
        r@ == compared_name(value@),
{
    let v = text::chars_of(value);
    let mut plain = String::new();
    let mut i: usize = 0;
    assert(value@.take(0) =~= seq![]);
    while i < v.len()
        invariant
            v@ == value@,
            i <= v@.len(),
            plain@ == plain_chars(value@.take(i as int)),
        decreases v@.len() - i,
    {
        assert(value@.take(i + 1).drop_last() =~= value@.take(i as int));
        if text::is_plain_char(v[i]) {
            plain.push(v[i]);
        }
        i = i + 1;
    }
    assert(value@.take(i as int) =~= value@);
    proof {
        lemma_plain_chars_are_ascii(value@);
    }
    text::to_lowercase(plain.as_str())
}

/// Whether a package has a full name, but for the case of ASCII letters.
pub open spec fn has_full_name(name: Seq<char>) -> spec_fn(AppxPackage) -> bool {
    |package: AppxPackage|
        text::ascii_lowercase(package.package_full_name@) == text::ascii_lowercase(name)
}

/// Whether a package's name and an application's contain each other.
pub open spec fn is_named_like(app: Seq<char>) -> spec_fn(AppxPackage) -> bool {
    |package: AppxPackage|
        compared_name(package.name@).len() > 0 && (text::contains_text(
            compared_name(package.name@),
            app,
        ) || text::contains_text(app, compared_name(package.name@)))
}

/// The packages that an application may be: that in whose folder it lies, else
/// those with a similar name.
pub open spec fn matching(
    packages: Seq<AppxPackage>,
    app_name: Seq<char>,
    location: Option<Seq<char>>,
) -> Seq<AppxPackage> {
    let by_place = match location {
        Some(location) => match package_at(location) {
            Some(name) => packages.filter(has_full_name(name)),
            None => seq![],
        },
        None => seq![],
    };
    if by_place.len() > 0 {
        by_place
    } else if compared_name(app_name).len() < 3 {
        seq![]
    } else {
        packages.filter(is_named_like(compared_name(app_name)))
    }
}

fn with_full_name(packages: &Vec<AppxPackage>, name: &str) -> (r: Vec<AppxPackage>)
    ensures
        r@ == packages@.filter(has_full_name(name@)),
{
    let mut r: Vec<AppxPackage> = Vec::new();
    let mut i: usize = 0;
    proof {
        reveal(Seq::filter);
    }
    assert(r@ =~= packages@.take(0).filter(has_full_name(name@)));
    while i < packages.len()
        invariant
            i <= packages@.len(),
            r@ == packages@.take(i as int).filter(has_full_name(name@)),
        decreases packages@.len() - i,
    {
        assert(packages@.take(i + 1).drop_last() =~= packages@.take(i as int));
        proof {
            reveal(Seq::filter);
        }
        if text::same_ignoring_ascii_case(packages[i].package_full_name.as_str(), name) {
            r.push(packages[i].clone());
        }
        i = i + 1;
    }
    assert(packages@.take(i as int) =~= packages@);
    r
}

fn with_similar_name(packages: &Vec<AppxPackage>, app: &str) -> (r: Vec<AppxPackage>)
    ensures
        r@ == packages@.filter(is_named_like(app@)),
{
    let mut r: Vec<AppxPackage> = Vec::new();
    let mut i: usize = 0;
    proof {
        reveal(Seq::filter);
    }
    assert(r@ =~= packages@.take(0).filter(is_named_like(app@)));
    while i < packages.len()
        invariant
            i <= packages@.len(),
            r@ == packages@.take(i as int).filter(is_named_like(app@)),
        decreases packages@.len() - i,
    {
        assert(packages@.take(i + 1).drop_last() =~= packages@.take(i as int));
        proof {
            reveal(Seq::filter);
        }
        let name = normalize_for_match(packages[i].name.as_str());
        if !name.as_str().is_empty() && (text::contains(name.as_str(), app) || text::contains(
            app,
            name.as_str(),
        )) {
            r.push(packages[i].clone());
        }
        i = i + 1;
    }
    assert(packages@.take(i as int) =~= packages@);
    r
}

/// The packages that an application may be.
pub fn match_packages(
    packages: &Vec<AppxPackage>,
    app_name: &str,
    install_location: Option<&str>,
) -> (r: Vec<AppxPackage>)
    ensures
        r@ == matching(packages@, app_name@, text::str_view(install_location)),
{
    if let Some(location) = install_location {
        if let Some(name) = package_full_name_from_location(location) {
            let found = with_full_name(packages, name.as_str());
            if found.len() > 0 {
                return found;
            }
        }
    }
    let app = normalize_for_match(app_name);
    let chars = text::chars_of(app.as_str());
    if chars.len() < 3 {
        let none: Vec<AppxPackage> = Vec::new();
        assert(none@ =~= seq![]);
        return none;
    }
    with_similar_name(packages, app.as_str())
}

/// Whether a character can stand in a package's full name.
pub open spec fn is_safe_char(c: char) -> bool {
    text::is_ascii_alphanumeric(c) || c == '.' || c == '_' || c == '-'
}

/// Whether a text can be a package's full name: it is not empty, not too long,
/// and holds ASCII letters and digits, dots, underscores and hyphens only.
pub open spec fn is_safe_name(name: Seq<char>) -> bool {
    &&& 0 < name.len() <= 200
    &&& forall|i: int| 0 <= i < name.len() ==> is_safe_char(#[trigger] name[i])
}

/// Whether a text can be a package's full name.
pub fn is_valid_package_full_name(value: &str) -> (r: bool)
    ensures
        r == is_safe_name(value@),
{
    let v = text::chars_of(value);
    if v.len() == 0 || v.len() > 200 {
        return false;
    }
    let mut i: usize = 0;
    while i < v.len()
        invariant
            v@ == value@,
            i <= v@.len(),
            forall|j: int| 0 <= j < i ==> is_safe_char(#[trigger] value@[j]),
        decreases v@.len() - i,
    {
        let c = v[i];
        if !(text::is_plain_char(c) || c == '.' || c == '_' || c == '-') {
            assert(!is_safe_char(value@[i as int]));
            return false;
        }
        i = i + 1;
    }
    true
}

/// The command that removes a package.
pub open spec fn remove_command(name: Seq<char>) -> Seq<char> {
    "powershell -NoProfile -NonInteractive -Command \"Get-AppxPackage -Package '"@ + name
        + "' | Remove-AppxPackage\""@
}

/// The command that removes a package; none where the name cannot be that of a
/// package.
pub fn build_remove_command(package_full_name: &str) -> (r: Option<String>)
    ensures
        match r {
            Some(command) => is_safe_name(package_full_name@) && command@ == remove_command(
                package_full_name@,
            ),
            None => !is_safe_name(package_full_name@),
        },
{
    if !is_valid_package_full_name(package_full_name) {
        return None;
    }
    let mut command =
        "powershell -NoProfile -NonInteractive -Command \"Get-AppxPackage -Package '".to_owned();
    command.push_str(package_full_name);
    command.push_str("' | Remove-AppxPackage\"");
    Some(command)
}

/// A name that is put into a command can neither end the quotes around it nor
/// hold anything that a shell would act on.
pub proof fn law_names_in_commands_are_harmless(name: Seq<char>)
    requires
        is_safe_name(name),
    ensures
        !name.contains('\''),
        !name.contains('"'),
        !name.contains(';'),
        !name.contains('|'),
        !name.contains('$'),
        !name.contains('`'),
        !name.contains(' '),
        !name.contains('\n'),
{
}

/// The package that an application is; none where none or several match, or
/// where the packages could not be listed.
pub fn resolve_package(
    app_name: &str,
    install_location: Option<&str>,
    listed: &Result<Vec<AppxPackage>, String>,
) -> (r: Option<AppxPackage>)
    ensures
        match (r, *listed) {
            (Some(package), Ok(packages)) => matching(
                packages@,
                app_name@,
                text::str_view(install_location),
            ) == seq![package],
            (None, Ok(packages)) => matching(
                packages@,
                app_name@,
                text::str_view(install_location),
            ).len() != 1,
            (Some(package), Err(_)) => false,
            (None, Err(_)) => true,
        },
{
    match listed {
        Ok(packages) => {
            let mut found = match_packages(packages, app_name, install_location);
            if found.len() == 1 {
                let ghost all = found@;
                let package = found.remove(0);
                assert(all =~= seq![package]);
                Some(package)
            } else {
                None
            }
        },
        Err(_) => None,
    }
}

/// The script that counts the installed packages with a full name; none where
/// the name cannot be that of a package.
pub fn count_script(package_full_name: &str) -> (r: Option<String>)
    ensures
        match r {
            Some(script) => is_safe_name(package_full_name@) && script@
                == "@(Get-AppxPackage -Package '"@ + package_full_name@ + "').Count"@,
            None => !is_safe_name(package_full_name@),
        },
{
    if !is_valid_package_full_name(package_full_name) {
        return None;
    }
    let mut script = "@(Get-AppxPackage -Package '".to_owned();
    script.push_str(package_full_name);
    script.push_str("').Count");
    Some(script)
}

/// Whether what a script printed is a count other than zero.
pub open spec fn is_positive_count(printed: Seq<char>) -> bool {
    match text::parsed_u64(text::trimmed(printed, CharSet::Whitespace)) {
        Some(n) => 0 < n <= u32::MAX,
        None => false,
    }
}

/// Whether a package is still installed. `printed` is what the script that
/// counts it printed; it is absent where the script failed.
pub fn is_package_installed(package_full_name: &str, printed: &Option<String>) -> (r: bool)
    ensures
        r == (is_safe_name(package_full_name@) && printed is Some && is_positive_count(
            printed->0@,
        )),
{
    if !is_valid_package_full_name(package_full_name) {
        return false;
    }
    match printed {
        Some(printed) => {
            let plain = text::trim(printed.as_str(), CharSet::Whitespace);
            match text::parse_u64(plain.as_str()) {
                Some(n) => 0 < n && n <= u32::MAX as u64,
                None => false,
            }
        },
        None => false,
    }
}

} // verus!
