//! The rules that decide which entries of a project end up in its dump.

use vstd::prelude::*;
use crate::text::{lower_of, lowercase, views};

verus! {

/// The largest file, in bytes, that the built-in rules let into a dump.
pub const DEFAULT_MAX_FILE_SIZE: u64 = 1_048_576;

/// The rules of one scan. Each list stands for a set of lower-case names:
/// order and repeats in it carry no meaning.
pub struct ProjectConfig {
    /// Extensions (without the dot), and whole file names, whose files are code.
    pub code_extensions: Vec<String>,
    /// Names of entries that are left out with everything below them.
    pub ignore_dirs: Vec<String>,
    /// Names of files that are left out.
    pub ignore_files: Vec<String>,
    /// Extensions whose files are left out.
    pub ignore_extensions: Vec<String>,
    /// Files larger than this many bytes are left out.
    pub max_file_size: u64,
}

/// The meaning of a `ProjectConfig`: four sets of names and a size limit.
pub struct ConfigView {
    pub code_extensions: Set<Seq<char>>,
    pub ignore_dirs: Set<Seq<char>>,
    pub ignore_files: Set<Seq<char>>,
    pub ignore_extensions: Set<Seq<char>>,
    pub max_file_size: u64,
}

impl View for ProjectConfig {
    type V = ConfigView;

    open spec fn view(&self) -> ConfigView {
        ConfigView {
            code_extensions: views(self.code_extensions@).to_set(),
            ignore_dirs: views(self.ignore_dirs@).to_set(),
            ignore_files: views(self.ignore_files@).to_set(),
            ignore_extensions: views(self.ignore_extensions@).to_set(),
            max_file_size: self.max_file_size,
        }
    }
}

pub open spec fn default_code_extensions() -> Seq<Seq<char>> {
    seq![
        "js"@, "jsx"@, "ts"@, "tsx"@, "html"@, "css"@, "scss"@, "vue"@, "json"@,
        "py"@, "java"@, "kt"@, "rs"@, "go"@, "rb"@, "php"@, "cs"@,
        "c"@, "cpp"@, "h"@, "hpp"@, "swift"@, "dart"@,
        "md"@, "yaml"@, "yml"@, "toml"@, "xml"@, "sh"@, "bash"@, "sql"@, "txt"@,
        "dockerfile"@, "makefile"@,
    ]
}

pub open spec fn default_ignore_dirs() -> Seq<Seq<char>> {
    seq![
        "node_modules"@, "dist"@, "build"@, "target"@, "bin"@, "obj"@,
        ".git"@, ".idea"@, ".vscode"@, ".next"@, ".nuxt"@,
        "__pycache__"@, "venv"@, "env"@, ".venv"@, "coverage"@, "pods"@, "deriveddata"@,
    ]
}

pub open spec fn default_ignore_files() -> Seq<Seq<char>> {
    seq![
        ".ds_store"@, "thumbs.db"@, "package-lock.json"@, "yarn.lock"@,
        "pnpm-lock.yaml"@, "cargo.lock"@, "gemfile.lock"@, "go.sum"@,
    ]
}

pub open spec fn default_ignore_extensions() -> Seq<Seq<char>> {
    seq![
        "png"@, "jpg"@, "jpeg"@, "gif"@, "ico"@, "svg"@, "woff"@, "woff2"@, "ttf"@, "eot"@,
        "mp3"@, "mp4"@, "avi"@, "mov"@, "zip"@, "tar"@, "gz"@, "7z"@, "rar"@, "exe"@, "dll"@,
        "so"@, "dylib"@, "class"@, "jar"@, "pyc"@, "pyo"@, "pyd"@,
    ]
}

/// Owned copies of the given names, in the same order.
fn owned_names(list: &[&str]) -> (r: Vec<String>)
    ensures
        views(r@) == list@.map_values(|s: &str| s@),
{
    let mut r: Vec<String> = Vec::new();
    let mut i: usize = 0;
    while i < list.len()
        invariant
            i <= list@.len(),
            views(r@) == list@.subrange(0, i as int).map_values(|s: &str| s@),
        decreases list@.len() - i,
    {
        let s = list[i].to_string();
        proof {
            broadcast use vstd::string::to_string_from_display_ensures_for_str;
        }
        assert(s@ == list@[i as int]@);
        let ghost before = r@;
        r.push(s);
        assert(views(r@) =~= views(before).push(s@));
        assert(list@.subrange(0, i + 1) =~= list@.subrange(0, i as int).push(list@[i as int]));
        assert(views(r@) =~= list@.subrange(0, i + 1).map_values(|s: &str| s@));
        i = i + 1;
    }
    assert(list@.subrange(0, i as int) == list@);
    r
}

impl Default for ProjectConfig {
    /// The built-in rules.
    fn default() -> (r: ProjectConfig)
        ensures
            views(r.code_extensions@) == default_code_extensions(),
            views(r.ignore_dirs@) == default_ignore_dirs(),
            views(r.ignore_files@) == default_ignore_files(),
            views(r.ignore_extensions@) == default_ignore_extensions(),
            r.max_file_size == DEFAULT_MAX_FILE_SIZE,
    {
        let code = [
            "js", "jsx", "ts", "tsx", "html", "css", "scss", "vue", "json",
            "py", "java", "kt", "rs", "go", "rb", "php", "cs",
            "c", "cpp", "h", "hpp", "swift", "dart",
            "md", "yaml", "yml", "toml", "xml", "sh", "bash", "sql", "txt",
            "dockerfile", "makefile",
        ];
        let code_extensions = owned_names(&code);
        assert(code@.map_values(|s: &str| s@) =~= default_code_extensions());
        let dirs = [
            "node_modules", "dist", "build", "target", "bin", "obj",
            ".git", ".idea", ".vscode", ".next", ".nuxt",
            "__pycache__", "venv", "env", ".venv", "coverage", "pods", "deriveddata",
        ];
        let ignore_dirs = owned_names(&dirs);
        assert(dirs@.map_values(|s: &str| s@) =~= default_ignore_dirs());
        let files = [
            ".ds_store", "thumbs.db", "package-lock.json", "yarn.lock",
            "pnpm-lock.yaml", "cargo.lock", "gemfile.lock", "go.sum",
        ];
        let ignore_files = owned_names(&files);
        assert(files@.map_values(|s: &str| s@) =~= default_ignore_files());
        let exts = [
            "png", "jpg", "jpeg", "gif", "ico", "svg", "woff", "woff2", "ttf", "eot",
            "mp3", "mp4", "avi", "mov", "zip", "tar", "gz", "7z", "rar", "exe", "dll",
            "so", "dylib", "class", "jar", "pyc", "pyo", "pyd",
        ];
        let ignore_extensions = owned_names(&exts);
        assert(exts@.map_values(|s: &str| s@) =~= default_ignore_extensions());
        ProjectConfig {
            code_extensions,
            ignore_dirs,
            ignore_files,
            ignore_extensions,
            max_file_size: DEFAULT_MAX_FILE_SIZE,
        }
    }
}

/// The rules with each list taken as the sequence of its names.
pub struct RuleLists {
    pub code_extensions: Seq<Seq<char>>,
    pub ignore_dirs: Seq<Seq<char>>,
    pub ignore_files: Seq<Seq<char>>,
    pub ignore_extensions: Seq<Seq<char>>,
    pub max_file_size: u64,
}

pub open spec fn lists_of(c: ProjectConfig) -> RuleLists {
    RuleLists {
        code_extensions: views(c.code_extensions@),
        ignore_dirs: views(c.ignore_dirs@),
        ignore_files: views(c.ignore_files@),
        ignore_extensions: views(c.ignore_extensions@),
        max_file_size: c.max_file_size,
    }
}

/// The built-in rules, as lists.
pub open spec fn default_lists() -> RuleLists {
    RuleLists {
        code_extensions: default_code_extensions(),
        ignore_dirs: default_ignore_dirs(),
        ignore_files: default_ignore_files(),
        ignore_extensions: default_ignore_extensions(),
        max_file_size: DEFAULT_MAX_FILE_SIZE,
    }
}

/// The built-in rules, as sets.
pub open spec fn default_rules() -> ConfigView {
    ConfigView {
        code_extensions: default_code_extensions().to_set(),
        ignore_dirs: default_ignore_dirs().to_set(),
        ignore_files: default_ignore_files().to_set(),
        ignore_extensions: default_ignore_extensions().to_set(),
        max_file_size: DEFAULT_MAX_FILE_SIZE,
    }
}

/// Each name lower-cased.
pub open spec fn lowered(names: Seq<Seq<char>>) -> Seq<Seq<char>> {
    names.map_values(|n: Seq<char>| lower_of(n))
}

/// A list of names taken over, lower-cased, where it holds any; else the base one.
pub open spec fn override_names(base: Seq<Seq<char>>, over: Seq<Seq<char>>) -> Seq<Seq<char>> {
    if over.len() > 0 {
        lowered(over)
    } else {
        base
    }
}

/// `base` with each field of `over` that is set: a non-empty list, whose names
/// are lower-cased, or a size above zero.
pub open spec fn overridden(base: RuleLists, over: RuleLists) -> RuleLists {
    RuleLists {
        code_extensions: override_names(base.code_extensions, over.code_extensions),
        ignore_dirs: override_names(base.ignore_dirs, over.ignore_dirs),
        ignore_files: override_names(base.ignore_files, over.ignore_files),
        ignore_extensions: override_names(base.ignore_extensions, over.ignore_extensions),
        max_file_size: if over.max_file_size > 0 {
            over.max_file_size
        } else {
            base.max_file_size
        },
    }
}

/// The names of a list, each lower-cased.
fn lowercased_names(list: &Vec<String>) -> (r: Vec<String>)
    ensures
        views(r@) == lowered(views(list@)),
{
    let mut r: Vec<String> = Vec::new();
    let mut i: usize = 0;
    while i < list.len()
        invariant
            i <= list@.len(),
            views(r@) == lowered(views(list@)).subrange(0, i as int),
        decreases list@.len() - i,
    {
        let l = lowercase(list[i].as_str());
        let ghost before = r@;
        r.push(l);
        assert(views(r@) =~= views(before).push(l@));
        assert(views(r@) =~= lowered(views(list@)).subrange(0, i + 1));
        i = i + 1;
    }
    assert(lowered(views(list@)).subrange(0, i as int) =~= lowered(views(list@)));
    r
}

fn take_names(base: &mut Vec<String>, over: &Vec<String>)
    ensures
        views(final(base)@) == override_names(views(old(base)@), views(over@)),
{
    if over.len() > 0 {
        *base = lowercased_names(over);
    }
}

impl ProjectConfig {
    /// Takes over each field of `overrides` that is set: a non-empty list,
    /// whose names are lower-cased, or a size above zero. The other fields keep
    /// their values.
    pub fn apply_overrides(&mut self, overrides: ProjectConfig)
        ensures
            lists_of(*final(self)) == overridden(lists_of(*old(self)), lists_of(overrides)),
    {
        take_names(&mut self.code_extensions, &overrides.code_extensions);
        take_names(&mut self.ignore_dirs, &overrides.ignore_dirs);
        take_names(&mut self.ignore_files, &overrides.ignore_files);
        take_names(&mut self.ignore_extensions, &overrides.ignore_extensions);
        if overrides.max_file_size > 0 {
            self.max_file_size = overrides.max_file_size;
        }
    }
}

/// The rules of a project: the built-in ones, with the fields of its override
/// file taken over where one was found and read.
pub fn load_config(overrides: Option<ProjectConfig>) -> (r: ProjectConfig)
    ensures
        lists_of(r) == (match overrides {
            Some(o) => overridden(default_lists(), lists_of(o)),
            None => default_lists(),
        }),
{
    let mut config = ProjectConfig::default();
    assert(lists_of(config) == default_lists());
    match overrides {
        Some(o) => {
            config.apply_overrides(o);
        },
        None => {},
    }
    config
}

/// The built-in rules hold names in each of their four sets, and let files of
/// up to 1048576 bytes in.
pub proof fn lemma_default_rules_non_empty()
    ensures
        default_rules().code_extensions != Set::<Seq<char>>::empty(),
        default_rules().ignore_dirs != Set::<Seq<char>>::empty(),
        default_rules().ignore_files != Set::<Seq<char>>::empty(),
        default_rules().ignore_extensions != Set::<Seq<char>>::empty(),
        default_rules().max_file_size == 1048576,
{
    assert(default_rules().code_extensions.contains(default_code_extensions()[0]));
    assert(default_rules().ignore_dirs.contains(default_ignore_dirs()[0]));
    assert(default_rules().ignore_files.contains(default_ignore_files()[0]));
    assert(default_rules().ignore_extensions.contains(default_ignore_extensions()[0]));
}

/// Overriding goes field by field: an override that sets only the size keeps
/// the four lists of the base, and one that sets no size keeps the base's size
/// while its non-empty lists, lower-cased, replace the base's.
pub proof fn lemma_override_field_wise(base: RuleLists, over: RuleLists)
    ensures
        over.code_extensions.len() == 0 && over.ignore_dirs.len() == 0
            && over.ignore_files.len() == 0 && over.ignore_extensions.len() == 0 ==> {
            let r = overridden(base, over);
            &&& r.code_extensions == base.code_extensions
            &&& r.ignore_dirs == base.ignore_dirs
            &&& r.ignore_files == base.ignore_files
            &&& r.ignore_extensions == base.ignore_extensions
            &&& over.max_file_size > 0 ==> r.max_file_size == over.max_file_size
        },
        over.max_file_size == 0 ==> {
            let r = overridden(base, over);
            &&& r.max_file_size == base.max_file_size
            &&& over.code_extensions.len() > 0 ==> r.code_extensions == lowered(over.code_extensions)
            &&& over.ignore_dirs.len() > 0 ==> r.ignore_dirs == lowered(over.ignore_dirs)
            &&& over.ignore_files.len() > 0 ==> r.ignore_files == lowered(over.ignore_files)
            &&& over.ignore_extensions.len() > 0 ==> r.ignore_extensions == lowered(
                over.ignore_extensions,
            )
        },
{
}

} // verus!
