//! What kind of project a directory holds, judged by the names directly in it.

use vstd::prelude::*;
use crate::text::{list_contains, views};

verus! {

broadcast use vstd::string::to_string_from_display_ensures_for_str;

/// The label of a project, given the names of the entries directly in its root.
pub open spec fn project_type_of(present: Seq<Seq<char>>) -> Seq<char> {
    if present.contains("package.json"@) {
        if present.contains("next.config.js"@) {
            "Next.js"@
        } else if present.contains("tsconfig.json"@) {
            "TypeScript/Node"@
        } else {
            "Node.js"@
        }
    } else if present.contains("Cargo.toml"@) {
        "Rust"@
    } else if present.contains("requirements.txt"@) || present.contains("pyproject.toml"@)
        || present.contains("setup.py"@) {
        if present.contains("manage.py"@) {
            "Django"@
        } else {
            "Python"@
        }
    } else if present.contains("pom.xml"@) || present.contains("build.gradle"@) {
        "Java/Kotlin"@
    } else if present.contains("go.mod"@) {
        "Go"@
    } else if present.contains("pubspec.yaml"@) {
        "Flutter"@
    } else {
        "Genérico"@
    }
}

/// Whether a directory is a project's root, given the names of the entries
/// directly in it.
pub open spec fn project_root_of(present: Seq<Seq<char>>) -> bool {
    present.contains("package.json"@) || present.contains("Cargo.toml"@) || present.contains(
        ".git"@,
    ) || present.contains("requirements.txt"@)
}

/// Every name that the project rules look for.
pub open spec fn marker_names() -> Seq<Seq<char>> {
    seq![
        "package.json"@, "next.config.js"@, "tsconfig.json"@, "Cargo.toml"@,
        "requirements.txt"@, "pyproject.toml"@, "setup.py"@, "manage.py"@, "pom.xml"@,
        "build.gradle"@, "go.mod"@, "pubspec.yaml"@, ".git"@,
    ]
}

/// The names that the project rules look for, so that a caller can test which
/// of them exist in a directory.
pub fn marker_files() -> (r: Vec<String>)
    ensures
        views(r@) == marker_names(),
{
    let list = [
        "package.json", "next.config.js", "tsconfig.json", "Cargo.toml",
        "requirements.txt", "pyproject.toml", "setup.py", "manage.py", "pom.xml",
        "build.gradle", "go.mod", "pubspec.yaml", ".git",
    ];
    let mut r: Vec<String> = Vec::new();
    let mut i: usize = 0;
    while i < list.len()
        invariant
            i <= list@.len(),
            views(r@) == list@.subrange(0, i as int).map_values(|s: &str| s@),
        decreases list@.len() - i,
    {
        let s = list[i].to_string();
        let ghost before = r@;
        r.push(s);
        assert(views(r@) =~= views(before).push(s@));
        assert(list@.subrange(0, i + 1) =~= list@.subrange(0, i as int).push(list@[i as int]));
        assert(views(r@) =~= list@.subrange(0, i + 1).map_values(|s: &str| s@));
        i = i + 1;
    }
    assert(list@.subrange(0, i as int) == list@);
    assert(list@.map_values(|s: &str| s@) =~= marker_names());
    r
}

/// The label and the root test read only the marker names: other names present
/// change neither.
pub proof fn lemma_only_markers_matter(present: Seq<Seq<char>>, other: Seq<Seq<char>>)
    requires
        forall|n: Seq<char>| marker_names().contains(n) ==> (present.contains(n) <==> other.contains(n)),
    ensures
        project_type_of(present) == project_type_of(other),
        project_root_of(present) == project_root_of(other),
{
    assert(marker_names().contains("package.json"@)) by { assert(marker_names()[0] == "package.json"@); }
    assert(marker_names().contains("next.config.js"@)) by { assert(marker_names()[1] == "next.config.js"@); }
    assert(marker_names().contains("tsconfig.json"@)) by { assert(marker_names()[2] == "tsconfig.json"@); }
    assert(marker_names().contains("Cargo.toml"@)) by { assert(marker_names()[3] == "Cargo.toml"@); }
    assert(marker_names().contains("requirements.txt"@)) by { assert(marker_names()[4] == "requirements.txt"@); }
    assert(marker_names().contains("pyproject.toml"@)) by { assert(marker_names()[5] == "pyproject.toml"@); }
    assert(marker_names().contains("setup.py"@)) by { assert(marker_names()[6] == "setup.py"@); }
    assert(marker_names().contains("manage.py"@)) by { assert(marker_names()[7] == "manage.py"@); }
    assert(marker_names().contains("pom.xml"@)) by { assert(marker_names()[8] == "pom.xml"@); }
    assert(marker_names().contains("build.gradle"@)) by { assert(marker_names()[9] == "build.gradle"@); }
    assert(marker_names().contains("go.mod"@)) by { assert(marker_names()[10] == "go.mod"@); }
    assert(marker_names().contains("pubspec.yaml"@)) by { assert(marker_names()[11] == "pubspec.yaml"@); }
    assert(marker_names().contains(".git"@)) by { assert(marker_names()[12] == ".git"@); }
}

fn has(present: &Vec<String>, name: &str) -> (r: bool)
    ensures
        r == views(present@).contains(name@),
{
    let owned = name.to_string();
    list_contains(present, &owned)
}

/// The label of a project, given the names of the entries directly in its root.
pub fn detect_project_type(present: &Vec<String>) -> (r: String)
    ensures
        r@ == project_type_of(views(present@)),
{
    if has(present, "package.json") {
        if has(present, "next.config.js") {
            return "Next.js".to_string();
        }
        if has(present, "tsconfig.json") {
            return "TypeScript/Node".to_string();
        }
        return "Node.js".to_string();
    }
    if has(present, "Cargo.toml") {
        return "Rust".to_string();
    }
    if has(present, "requirements.txt") || has(present, "pyproject.toml") || has(present, "setup.py") {
        if has(present, "manage.py") {
            return "Django".to_string();
        }
        return "Python".to_string();
    }
    if has(present, "pom.xml") || has(present, "build.gradle") {
        return "Java/Kotlin".to_string();
    }
    if has(present, "go.mod") {
        return "Go".to_string();
    }
    if has(present, "pubspec.yaml") {
        return "Flutter".to_string();
    }
    "Genérico".to_string()
}

/// Whether a directory is a project's root, given the names of the entries
/// directly in it.
pub fn is_single_project_root(present: &Vec<String>) -> (r: bool)
    ensures
        r == project_root_of(views(present@)),
{
    has(present, "package.json") || has(present, "Cargo.toml") || has(present, ".git") || has(
        present,
        "requirements.txt",
    )
}

/// The directories to scan as projects, given the input directory, the names
/// of the entries directly in it, and its subdirectories: the input itself where
/// it is a project's root or has no subdirectory, else each subdirectory.
pub fn projects_to_scan(input: String, present: &Vec<String>, subdirs: Vec<String>) -> (r: Vec<String>)
    ensures
        (project_root_of(views(present@)) || subdirs@.len() == 0) ==> r@ == seq![input],
        !(project_root_of(views(present@)) || subdirs@.len() == 0) ==> r@ == subdirs@,
{
    if is_single_project_root(present) || subdirs.len() == 0 {
        let mut r: Vec<String> = Vec::new();
        r.push(input);
        assert(r@ =~= seq![input]);
        r
    } else {
        subdirs
    }
}

} // verus!
