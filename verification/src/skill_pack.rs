//! Packages of skills: a skill file, a manifest and tests in one folder.

use crate::skill::{frontmatter, parse_frontmatter};
use crate::text::{copy_str, in_order, sort_strings, texts};
use vstd::prelude::*;

verus! {

/// What a package says of itself.
pub struct BuiltinSkillManifest {
    pub id: String,
    pub name: String,
    pub version: String,
    pub description: String,
    pub permissions: Vec<String>,
    pub min_app_version: String,
    pub tools: Vec<String>,
}

/// What is known of a package that keeps the rules.
pub struct SkillPackageInfo {
    pub name: String,
    pub path: String,
    pub description: String,
    pub permissions: Vec<String>,
    pub has_tests: bool,
}

/// What was found of a manifest.
pub enum ManifestFile {
    Unreadable { file: String, error: String },
    /// It is no manifest.
    Unparsed { file: String, error: String },
    Read(BuiltinSkillManifest),
}

/// What is wrong with a package.
pub open spec fn package_fault(
    skill: Result<String, String>,
    manifest: ManifestFile,
    has_tests: bool,
) -> Option<Seq<char>> {
    match (skill, manifest) {
        (Err(e), _) => Some("SKILL.md"@ + "："@ + e@),
        (_, ManifestFile::Unreadable { file, error }) => Some(file@ + "："@ + error@),
        (_, ManifestFile::Unparsed { file, error }) => Some(file@ + " 解析失败："@ + error@),
        (_, ManifestFile::Read(m)) => if m.id@.len() == 0 || m.name@.len() == 0 || m.version@.len() == 0 {
            Some("manifest 缺少 id/name/version"@)
        } else if m.permissions@.len() == 0 {
            Some("manifest.permissions 不能为空（默认 deny）"@)
        } else if !has_tests {
            Some("缺少 tests/ 契约测试目录"@)
        } else {
            None
        },
    }
}

fn failure(file: &str, what: &str, error: &String) -> (r: Result<SkillPackageInfo, String>)
    ensures
        r matches Err(e) && e@ == file@ + what@ + error@,
{
    let mut e = copy_str(file);
    e.append(what);
    e.append(error.as_str());
    Err(e)
}

/// Checks a package: its skill file and its manifest can be read, it has an
/// identifier, a name, a version and permissions, and it has tests. The name and
/// the description are those of the skill file, else those of the manifest.
pub fn validate_skill_package(
    path: &str,
    skill: &Result<String, String>,
    manifest: ManifestFile,
    has_tests: bool,
) -> (r: Result<SkillPackageInfo, String>)
    ensures
        match r {
            Ok(info) => {
                &&& package_fault(*skill, manifest, has_tests) is None
                &&& info.name@ == (match frontmatter(skill->Ok_0@).0 {
                    Some(n) => n,
                    None => manifest->Read_0.name@,
                })
                &&& info.path@ == path@
                &&& info.description@ == (if frontmatter(skill->Ok_0@).1.len() == 0 {
                    manifest->Read_0.description@
                } else {
                    frontmatter(skill->Ok_0@).1
                })
                &&& info.permissions == manifest->Read_0.permissions
                &&& info.has_tests
            },
            Err(e) => package_fault(*skill, manifest, has_tests) == Some(e@),
        },
{
    let content = match skill {
        Ok(c) => c,
        Err(e) => {
            return failure("SKILL.md", "：", e);
        },
    };
    let m = match manifest {
        ManifestFile::Read(m) => m,
        ManifestFile::Unreadable { file, error } => {
            return failure(file.as_str(), "：", &error);
        },
        ManifestFile::Unparsed { file, error } => {
            return failure(file.as_str(), " 解析失败：", &error);
        },
    };
    if m.id.as_str().is_empty() || m.name.as_str().is_empty() || m.version.as_str().is_empty() {
        return Err(copy_str("manifest 缺少 id/name/version"));
    }
    if m.permissions.len() == 0 {
        return Err(copy_str("manifest.permissions 不能为空（默认 deny）"));
    }
    if !has_tests {
        return Err(copy_str("缺少 tests/ 契约测试目录"));
    }
    let (name, description, _) = parse_frontmatter(content.as_str());
    let name = match name {
        Some(n) => n,
        None => m.name,
    };
    let description = if description.as_str().is_empty() {
        m.description
    } else {
        description
    };
    Ok(SkillPackageInfo { name, path: copy_str(path), description, permissions: m.permissions, has_tests })
}

/// A folder that may be a package.
pub struct PackageFolder {
    pub path: String,
    pub has_skill_file: bool,
    pub has_manifest: bool,
    /// It keeps the rules.
    pub is_valid: bool,
}

pub open spec fn is_package(f: PackageFolder) -> bool {
    f.has_skill_file && f.has_manifest && f.is_valid
}

/// The paths of the packages among folders.
pub open spec fn package_paths(v: Seq<PackageFolder>) -> Seq<Seq<char>>
    decreases v.len(),
{
    if v.len() == 0 {
        seq![]
    } else if is_package(v.last()) {
        package_paths(v.drop_last()).push(v.last().path@)
    } else {
        package_paths(v.drop_last())
    }
}

/// The packages among folders, in order.
pub fn discover_builtin_packages(folders: &Vec<PackageFolder>) -> (r: Vec<String>)
    ensures
        in_order(texts(r@)),
        texts(r@).to_multiset() == package_paths(folders@).to_multiset(),
{
    let mut found: Vec<String> = Vec::new();
    assert(texts(found@) =~= package_paths(folders@.take(0)));
    for i in 0..folders.len()
        invariant
            texts(found@) == package_paths(folders@.take(i as int)),
    {
        let ghost before = texts(found@);
        assert(folders@.take(i + 1).drop_last() =~= folders@.take(i as int));
        if folders[i].has_skill_file && folders[i].has_manifest && folders[i].is_valid {
            found.push(folders[i].path.clone());
            assert(texts(found@) =~= before.push(folders@[i as int].path@));
        }
    }
    assert(folders@.take(folders@.len() as int) =~= folders@);
    sort_strings(found)
}

/// Whether package `i` is installed: not where a folder of its name is there,
/// from before or from an earlier package.
pub open spec fn is_installed(names: Seq<Seq<char>>, present: Seq<Seq<char>>, i: int) -> bool {
    !present.contains(names[i]) && forall|j: int| 0 <= j < i ==> #[trigger] names[j] != names[i]
}

/// The packages among the first `n` that are installed.
pub open spec fn installations(names: Seq<Seq<char>>, present: Seq<Seq<char>>, n: int) -> Seq<int>
    decreases n,
{
    if n <= 0 {
        seq![]
    } else if is_installed(names, present, n - 1) {
        installations(names, present, n - 1).push(n - 1)
    } else {
        installations(names, present, n - 1)
    }
}

/// Which packages are copied to the skills; `present` names the folders that are
/// there already.
pub fn install_builtin_packages(names: &Vec<String>, present: &Vec<String>) -> (r: Vec<usize>)
    ensures
        r@.map_values(|i: usize| i as int) == installations(
            texts(names@),
            texts(present@),
            names@.len() as int,
        ),
{
    let mut chosen: Vec<usize> = Vec::new();
    let ghost all = texts(names@);
    let ghost there = texts(present@);
    assert(chosen@.map_values(|i: usize| i as int) =~= seq![]);
    for i in 0..names.len()
        invariant
            all == texts(names@),
            there == texts(present@),
            chosen@.map_values(|i: usize| i as int) == installations(all, there, i as int),
    {
        let ghost before = chosen@;
        let mut fresh = !crate::text::contains_string(present, names[i].as_str());
        assert(all[i as int] == names@[i as int]@);
        for j in 0..i
            invariant
                all == texts(names@),
                there == texts(present@),
                i < names@.len(),
                all[i as int] == names@[i as int]@,
                fresh <==> !there.contains(all[i as int]) && forall|k: int| 0 <= k < j ==> #[trigger] all[k] != all[i as int],
        {
            assert(all[j as int] == names@[j as int]@);
            if crate::text::same_text(names[j].as_str(), names[i].as_str()) {
                fresh = false;
            }
        }
        if fresh {
            chosen.push(i);
            assert(chosen@.map_values(|i: usize| i as int) =~= before.map_values(|i: usize| i as int).push(i as int));
        }
    }
    chosen
}

/// A second installation installs nothing: each package has its folder.
pub proof fn second_installation_is_empty(names: Seq<Seq<char>>, present: Seq<Seq<char>>, n: int)
    requires
        0 <= n <= names.len(),
        forall|i: int| 0 <= i < names.len() ==> present.contains(#[trigger] names[i]),
    ensures
        installations(names, present, n) == Seq::<int>::empty(),
    decreases n,
{
    if n > 0 {
        second_installation_is_empty(names, present, n - 1);
        assert(present.contains(names[n - 1]));
    }
}

/// A package is complete exactly if its text and its manifest can be read, the manifest
/// names it and says what it may do, and it has tests.
pub proof fn complete_packages_have_all(skill: Result<String, String>, manifest: ManifestFile, has_tests: bool)
    ensures
        package_fault(skill, manifest, has_tests) is None <==> skill is Ok && has_tests && (manifest matches ManifestFile::Read(m)
            && m.id@.len() > 0 && m.name@.len() > 0 && m.version@.len() > 0 && m.permissions@.len() > 0),
{
}

/// A folder is listed as a package if it has the text, the manifest and is valid, and
/// else it is not.
pub proof fn valid_folders_are_listed(v: Seq<PackageFolder>, f: PackageFolder)
    ensures
        package_paths(seq![]).len() == 0,
        f.has_skill_file && f.has_manifest && f.is_valid ==> package_paths(v.push(f)) == package_paths(v).push(f.path@),
        !f.has_skill_file || !f.has_manifest || !f.is_valid ==> package_paths(v.push(f)) == package_paths(v),
{
    assert(v.push(f).drop_last() =~= v);
}

/// What is installed is every package that is not there yet, the first of each name, in
/// their order.
pub proof fn missing_packages_are_installed(names: Seq<Seq<char>>, present: Seq<Seq<char>>, n: int, i: int)
    requires
        0 <= i < n <= names.len(),
    ensures
        installations(names, present, n).contains(i) <==> !present.contains(names[i]) && forall|j: int|
            0 <= j < i ==> #[trigger] names[j] != names[i],
        forall|a: int|
            0 <= a < installations(names, present, n).len() ==> 0 <= #[trigger] installations(names, present, n)[a] < n,
        forall|a: int, b: int|
            0 <= a < b < installations(names, present, n).len() ==> #[trigger] installations(names, present, n)[a]
                < #[trigger] installations(names, present, n)[b],
    decreases n,
{
    let front = installations(names, present, n - 1);
    let all = installations(names, present, n);
    if i < n - 1 {
        missing_packages_are_installed(names, present, n - 1, i);
    } else if n > 1 {
        missing_packages_are_installed(names, present, n - 1, 0);
    }
    if front.contains(i) {
        let a = choose|a: int| 0 <= a < front.len() && front[a] == i;
        assert(all[a] == i);
    }
    if all.contains(i) {
        let a = choose|a: int| 0 <= a < all.len() && all[a] == i;
        if a < front.len() {
            assert(front[a] == i);
        }
    }
    if i == n - 1 && is_installed(names, present, n - 1) {
        assert(all[all.len() - 1] == i);
    }
    assert forall|a: int, b: int| 0 <= a < b < all.len() implies #[trigger] all[a] < #[trigger] all[b] by {
        assert(all[a] == front[a]);
        if b < front.len() {
            assert(all[b] == front[b]);
        }
    }
    assert forall|a: int| 0 <= a < all.len() implies 0 <= #[trigger] all[a] < n by {
        if a < front.len() {
            assert(all[a] == front[a]);
        }
    }
}

} // verus!
