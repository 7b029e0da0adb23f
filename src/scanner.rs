//! Deciding, entry by entry, what a project's dump lists and holds.

use vstd::prelude::*;
use crate::config::{ConfigView, ProjectConfig};
use crate::text::{chars_of, list_contains, lower_of, lowercase, string_of, views};

verus! {

/// One file or directory below a project's root.
pub struct Entry {
    /// The path from the project's root, one name per component.
    pub components: Vec<String>,
    /// Whether the entry is a directory.
    pub is_dir: bool,
    /// The size in bytes, or `None` where it could not be read.
    pub size: Option<u64>,
}

pub struct EntryView {
    pub path: Seq<Seq<char>>,
    pub is_dir: bool,
    pub size: Option<u64>,
}

impl View for Entry {
    type V = EntryView;

    open spec fn view(&self) -> EntryView {
        EntryView { path: views(self.components@), is_dir: self.is_dir, size: self.size }
    }
}

/// What becomes of an entry.
#[derive(PartialEq, Eq, Structural, Clone, Copy, Debug)]
pub enum Verdict {
    /// Its name is an ignored directory name: left out, and not counted.
    Prune,
    /// A directory: listed, and walked into.
    Descend,
    /// A file that the name rules leave out: counted as skipped.
    Skip,
    /// A file over the size limit: counted as skipped.
    TooLarge,
    /// A file whose size could not be read: left out, and not counted.
    Drop,
    /// A file that is listed and whose content is dumped.
    Accept,
}

/// The last component of a path, or the empty name for the empty path.
pub open spec fn file_name_of(path: Seq<Seq<char>>) -> Seq<char> {
    if path.len() > 0 {
        path.last()
    } else {
        Seq::empty()
    }
}

/// The position of the last dot in a name, or -1 where it has none.
pub open spec fn last_dot(name: Seq<char>) -> int
    decreases name.len(),
{
    if name.len() == 0 {
        -1
    } else if name.last() == '.' {
        name.len() - 1
    } else {
        last_dot(name.drop_last())
    }
}

/// The extension of a file name: what follows its last dot, where that dot is
/// not the first character; else the empty text.
pub open spec fn extension_of(name: Seq<char>) -> Seq<char> {
    let i = last_dot(name);
    if i <= 0 {
        Seq::empty()
    } else {
        name.subrange(i + 1, name.len() as int)
    }
}

/// The extension of a file name, lower-cased; empty where it has none.
pub open spec fn ext_key(name: Seq<char>) -> Seq<char> {
    if extension_of(name).len() == 0 {
        Seq::empty()
    } else {
        lower_of(extension_of(name))
    }
}

/// The decision rules, in the order in which they apply.
pub open spec fn verdict_of(name: Seq<char>, is_dir: bool, size: Option<u64>, rules: ConfigView) -> Verdict {
    let base = lower_of(name);
    let ext = ext_key(name);
    if rules.ignore_dirs.contains(base) {
        Verdict::Prune
    } else if is_dir {
        Verdict::Descend
    } else if rules.ignore_files.contains(base) {
        Verdict::Skip
    } else if rules.ignore_extensions.contains(ext) {
        Verdict::Skip
    } else if ext.len() > 0 && !rules.code_extensions.contains(ext)
        && !rules.code_extensions.contains(base) {
        Verdict::Skip
    } else {
        match size {
            None => Verdict::Drop,
            Some(n) => if n > rules.max_file_size {
                Verdict::TooLarge
            } else {
                Verdict::Accept
            },
        }
    }
}

/// Some directory above the entry has an ignored name, so that the walk
/// never enters it.
pub open spec fn under_pruned(path: Seq<Seq<char>>, rules: ConfigView) -> bool {
    exists|i: int| 0 <= i < path.len() - 1 && rules.ignore_dirs.contains(lower_of(#[trigger] path[i]))
}

/// What becomes of an entry: pruned with a pruned directory above it, else as
/// the rules decide on its own name.
pub open spec fn entry_verdict(e: EntryView, rules: ConfigView) -> Verdict {
    if under_pruned(e.path, rules) {
        Verdict::Prune
    } else {
        verdict_of(file_name_of(e.path), e.is_dir, e.size, rules)
    }
}

/// The extension of a file name, as `extension_of` gives it.
fn extension(name: &Vec<char>) -> (r: Vec<char>)
    ensures
        r@ == extension_of(name@),
{
    let mut i: usize = name.len();
    assert(name@.subrange(0, i as int) == name@);
    while i > 0 && name[i - 1] != '.'
        invariant
            i <= name@.len(),
            last_dot(name@) == last_dot(name@.subrange(0, i as int)),
        decreases i,
    {
        assert(name@.subrange(0, i - 1) == name@.subrange(0, i as int).drop_last());
        i = i - 1;
    }
    if i <= 1 {
        proof {
            if i == 1 {
                assert(name@.subrange(0, 1).last() == '.');
            } else {
                assert(name@.subrange(0, 0).len() == 0);
            }
        }
        Vec::new()
    } else {
        assert(name@.subrange(0, i as int).last() == '.');
        let mut r: Vec<char> = Vec::new();
        let mut j: usize = i;
        while j < name.len()
            invariant
                i <= j <= name@.len(),
                r@ == name@.subrange(i as int, j as int),
            decreases name@.len() - j,
        {
            r.push(name[j]);
            assert(r@ =~= name@.subrange(i as int, j + 1));
            j = j + 1;
        }
        r
    }
}

/// The last component of an entry's path.
fn file_name(components: &Vec<String>) -> (r: String)
    ensures
        r@ == file_name_of(views(components@)),
{
    if components.len() > 0 {
        components[components.len() - 1].clone()
    } else {
        String::new()
    }
}

/// Decides what becomes of one entry under the given rules.
pub fn classify(entry: &Entry, config: &ProjectConfig) -> (v: Verdict)
    ensures
        v == entry_verdict(entry@, config@),
{
    let n = entry.components.len();
    let above_count: usize = if n > 0 { n - 1 } else { 0 };
    let mut i: usize = 0;
    while i < above_count
        invariant
            n == entry.components@.len(),
            above_count == (if n > 0 { n - 1 } else { 0 }),
            i <= above_count,
            forall|k: int| 0 <= k < i ==> !config@.ignore_dirs.contains(
                lower_of(#[trigger] views(entry.components@)[k]),
            ),
        decreases n - i,
    {
        let above = lowercase(entry.components[i].as_str());
        if list_contains(&config.ignore_dirs, &above) {
            assert(views(entry.components@)[i as int] == entry.components@[i as int]@);
            return Verdict::Prune;
        }
        i = i + 1;
    }
    let name = file_name(&entry.components);
    let base = lowercase(name.as_str());
    if list_contains(&config.ignore_dirs, &base) {
        return Verdict::Prune;
    }
    if entry.is_dir {
        return Verdict::Descend;
    }
    if list_contains(&config.ignore_files, &base) {
        return Verdict::Skip;
    }
    let name_chars = chars_of(name.as_str());
    let ext_chars = extension(&name_chars);
    let ext = if ext_chars.len() == 0 {
        String::new()
    } else {
        let ext_raw = string_of(ext_chars.as_slice());
        lowercase(ext_raw.as_str())
    };
    if list_contains(&config.ignore_extensions, &ext) {
        return Verdict::Skip;
    }
    if !ext.as_str().is_empty() && !list_contains(&config.code_extensions, &ext) {
        if !list_contains(&config.code_extensions, &base) {
            return Verdict::Skip;
        }
    }
    match entry.size {
        None => Verdict::Drop,
        Some(n) => if n > config.max_file_size {
            Verdict::TooLarge
        } else {
            Verdict::Accept
        },
    }
}

/// Two spaces for each level below the first.
pub open spec fn indent_of(levels: nat) -> Seq<char>
    decreases levels,
{
    if levels == 0 {
        Seq::empty()
    } else {
        indent_of((levels - 1) as nat) + "  "@
    }
}

/// The line that lists an entry in the directory tree: indented by its depth,
/// a directory's name marked by a branch and a trailing slash, a file's by a
/// closing branch.
pub open spec fn tree_line_of(path: Seq<Seq<char>>, is_dir: bool) -> Seq<char> {
    let levels: nat = if path.len() > 0 { (path.len() - 1) as nat } else { 0 };
    if is_dir {
        indent_of(levels) + "├── "@ + file_name_of(path) + "/"@
    } else {
        indent_of(levels) + "└── "@ + file_name_of(path)
    }
}

/// Builds the tree line of an entry.
pub fn tree_line(components: &Vec<String>, is_dir: bool) -> (r: String)
    ensures
        r@ == tree_line_of(views(components@), is_dir),
{
    let levels: usize = if components.len() > 0 { components.len() - 1 } else { 0 };
    let mut line = String::new();
    let mut i: usize = 0;
    while i < levels
        invariant
            i <= levels,
            line@ == indent_of(i as nat),
        decreases levels - i,
    {
        line.append("  ");
        i = i + 1;
    }
    let name = file_name(components);
    if is_dir {
        line.append("├── ");
        line.append(name.as_str());
        line.append("/");
    } else {
        line.append("└── ");
        line.append(name.as_str());
    }
    line
}

/// A file that made it into the dump.
pub struct AcceptedFile {
    /// The path from the project's root, one name per component.
    pub components: Vec<String>,
    /// The size in bytes.
    pub size: u64,
}

pub struct FileView {
    pub path: Seq<Seq<char>>,
    pub size: u64,
}

impl View for AcceptedFile {
    type V = FileView;

    open spec fn view(&self) -> FileView {
        FileView { path: views(self.components@), size: self.size }
    }
}

pub open spec fn files_view(files: Seq<AcceptedFile>) -> Seq<FileView> {
    files.map_values(|f: AcceptedFile| f@)
}

/// The counters of one scan.
#[derive(PartialEq, Eq, Structural, Clone, Copy, Debug)]
pub struct ScanStats {
    /// The bytes of the accepted files, added up (held at `u64::MAX` where the
    /// sum goes past it).
    pub total_size: u64,
    /// The files that the rules left out.
    pub skipped: u64,
}

pub open spec fn capped(n: int) -> u64 {
    if n > u64::MAX { u64::MAX } else { n as u64 }
}

/// What a scan has gathered so far: the tree lines, the accepted files in the
/// order they were met, the skipped files, the accepted bytes.
pub struct Gathered {
    pub tree: Seq<Seq<char>>,
    pub files: Seq<FileView>,
    pub skipped: nat,
    pub total_size: nat,
}

/// What one entry adds to a scan.
pub open spec fn gather_step(g: Gathered, e: EntryView, rules: ConfigView) -> Gathered {
    match entry_verdict(e, rules) {
        Verdict::Descend => Gathered { tree: g.tree.push(tree_line_of(e.path, true)), ..g },
        Verdict::Accept => Gathered {
            tree: g.tree.push(tree_line_of(e.path, false)),
            files: g.files.push(FileView { path: e.path, size: e.size.unwrap() }),
            total_size: g.total_size + e.size.unwrap() as nat,
            ..g
        },
        Verdict::Skip | Verdict::TooLarge => Gathered { skipped: g.skipped + 1, ..g },
        _ => g,
    }
}

/// What a scan of the given entries, in the given order, gathers.
pub open spec fn gathered(entries: Seq<EntryView>, rules: ConfigView) -> Gathered
    decreases entries.len(),
{
    if entries.len() == 0 {
        Gathered { tree: Seq::empty(), files: Seq::empty(), skipped: 0, total_size: 0 }
    } else {
        gather_step(gathered(entries.drop_last(), rules), entries.last(), rules)
    }
}

/// The state of a scan while its entries come in.
pub struct Collector {
    /// The accepted files, in the order they were met.
    pub files: Vec<AcceptedFile>,
    pub stats: ScanStats,
}

impl Collector {
    pub fn new() -> (r: Collector)
        ensures
            r.files@.len() == 0,
            r.stats == (ScanStats { total_size: 0, skipped: 0 }),
    {
        Collector { files: Vec::new(), stats: ScanStats { total_size: 0, skipped: 0 } }
    }

    /// Takes in one entry: returns the line that lists it in the tree, if it
    /// is listed, and records an accepted file or a skipped one.
    pub fn visit(&mut self, entry: Entry, config: &ProjectConfig) -> (line: Option<String>)
        ensures
            ({
                let v = entry_verdict(entry@, config@);
                &&& v == Verdict::Descend ==> line.is_some() && line.unwrap()@
                    == tree_line_of(entry@.path, true)
                &&& v == Verdict::Accept ==> line.is_some() && line.unwrap()@
                    == tree_line_of(entry@.path, false)
                &&& v != Verdict::Descend && v != Verdict::Accept ==> line.is_none()
                &&& final(self).files@ == (if v == Verdict::Accept {
                    old(self).files@.push(
                        AcceptedFile { components: entry.components, size: entry.size.unwrap() },
                    )
                } else {
                    old(self).files@
                })
                &&& final(self).stats.total_size == (if v == Verdict::Accept {
                    capped(old(self).stats.total_size + entry.size.unwrap())
                } else {
                    old(self).stats.total_size
                })
                &&& final(self).stats.skipped == (if v == Verdict::Skip || v == Verdict::TooLarge {
                    capped(old(self).stats.skipped + 1)
                } else {
                    old(self).stats.skipped
                })
            }),
    {
        let v = classify(&entry, config);
        match v {
            Verdict::Descend => Some(tree_line(&entry.components, true)),
            Verdict::Accept => {
                let line = tree_line(&entry.components, false);
                let size = match entry.size {
                    Some(n) => n,
                    None => 0,
                };
                self.stats.total_size = self.stats.total_size.saturating_add(size);
                self.files.push(AcceptedFile { components: entry.components, size });
                Some(line)
            },
            Verdict::Skip | Verdict::TooLarge => {
                self.stats.skipped = self.stats.skipped.saturating_add(1);
                None
            },
            _ => None,
        }
    }
}

/// What a scan of a whole walk gives: the tree lines, the accepted files in
/// the order they were met, and the counters.
pub struct Collection {
    pub tree_lines: Vec<String>,
    pub files: Vec<AcceptedFile>,
    pub stats: ScanStats,
}

/// Runs the rules over the entries of a walk, in order.
pub fn collect_files(entries: Vec<Entry>, config: &ProjectConfig) -> (r: Collection)
    ensures
        ({
            let g = gathered(entries@.map_values(|e: Entry| e@), config@);
            &&& views(r.tree_lines@) == g.tree
            &&& files_view(r.files@) == g.files
            &&& r.stats.skipped == g.skipped
            &&& r.stats.total_size == capped(g.total_size as int)
        }),
{
    let ghost all = entries@.map_values(|e: Entry| e@);
    let total_entries = entries.len();
    assert(all.len() == total_entries);
    let mut collector = Collector::new();
    let mut tree_lines: Vec<String> = Vec::new();
    let mut source = entries;
    let mut rest: Vec<Entry> = Vec::new();
    let ghost n = all.len();
    while source.len() > 0
        invariant
            source@.len() + rest@.len() == n,
            n == all.len(),
            n <= usize::MAX,
            forall|k: int| 0 <= k < source@.len() ==> source@[k]@ == all[k],
            forall|k: int| 0 <= k < rest@.len() ==> rest@[k]@ == all[n - 1 - k],
        decreases source@.len(),
    {
        let e = source.pop().unwrap();
        rest.push(e);
    }
    let mut i: usize = 0;
    while rest.len() > 0
        invariant
            i + rest@.len() == n,
            n == all.len(),
            n <= usize::MAX,
            forall|k: int| 0 <= k < rest@.len() ==> rest@[k]@ == all[n - 1 - k],
            ({
                let g = gathered(all.subrange(0, i as int), config@);
                &&& views(tree_lines@) == g.tree
                &&& files_view(collector.files@) == g.files
                &&& collector.stats.skipped == g.skipped
                &&& g.skipped <= i
                &&& collector.stats.total_size == capped(g.total_size as int)
            }),
        decreases rest@.len(),
    {
        let entry = rest.pop().unwrap();
        let ghost e = entry@;
        assert(e == all[i as int]);
        let ghost prefix = all.subrange(0, i as int);
        assert(all.subrange(0, i + 1).drop_last() == prefix);
        let ghost before_tree = tree_lines@;
        let ghost before_files = collector.files@;
        let line = collector.visit(entry, config);
        match line {
            Some(l) => {
                tree_lines.push(l);
            },
            None => {},
        }
        proof {
            let g = gathered(prefix, config@);
            let g2 = gathered(all.subrange(0, i + 1), config@);
            assert(g2 == gather_step(g, e, config@));
            assert(views(tree_lines@) =~= g2.tree);
            assert(files_view(collector.files@) =~= g2.files);
        }
        i = i + 1;
    }
    assert(all.subrange(0, n as int) == all);
    Collection { tree_lines, files: collector.files, stats: collector.stats }
}

/// The rules on a file's name that come before the size rule all let it pass.
pub open spec fn passes_name_rules(name: Seq<char>, rules: ConfigView) -> bool {
    let base = lower_of(name);
    let ext = ext_key(name);
    &&& !rules.ignore_dirs.contains(base)
    &&& !rules.ignore_files.contains(base)
    &&& !rules.ignore_extensions.contains(ext)
    &&& (ext.len() == 0 || rules.code_extensions.contains(ext) || rules.code_extensions.contains(base))
}

/// An ignored directory name is pruned before any other rule, file or
/// directory alike. A file with no extension passes the extension rules unless
/// the empty extension is itself ignored, and a file whose whole lower-cased
/// name is a code name passes the allow-list rule whatever its extension; such
/// a file, not otherwise ignored and within the size limit, is accepted.
pub proof fn lemma_name_precedence(name: Seq<char>, is_dir: bool, size: Option<u64>, rules: ConfigView)
    ensures
        rules.ignore_dirs.contains(lower_of(name)) ==> verdict_of(name, is_dir, size, rules)
            == Verdict::Prune,
        ({
            let base = lower_of(name);
            (!rules.ignore_dirs.contains(base) && !rules.ignore_files.contains(base)
                && !rules.ignore_extensions.contains(ext_key(name)) && (extension_of(name).len()
                == 0 || rules.code_extensions.contains(base))) ==> passes_name_rules(name, rules)
        }),
        extension_of(name).len() == 0 ==> ext_key(name) == Seq::<char>::empty(),
        passes_name_rules(name, rules) && !is_dir && size.is_some() && size.unwrap()
            <= rules.max_file_size ==> verdict_of(name, is_dir, size, rules) == Verdict::Accept,
{
}

/// A file that passes the name rules is accepted up to the size limit, and
/// skipped, and counted, one byte above it.
pub proof fn lemma_size_boundary(name: Seq<char>, path: Seq<Seq<char>>, g: Gathered, rules: ConfigView)
    requires
        passes_name_rules(name, rules),
        file_name_of(path) == name,
        !under_pruned(path, rules),
        rules.max_file_size < u64::MAX,
    ensures
        verdict_of(name, false, Some(rules.max_file_size), rules) == Verdict::Accept,
        verdict_of(name, false, Some((rules.max_file_size + 1) as u64), rules) == Verdict::TooLarge,
        gather_step(
            g,
            EntryView { path, is_dir: false, size: Some((rules.max_file_size + 1) as u64) },
            rules,
        ).skipped == g.skipped + 1,
        gather_step(
            g,
            EntryView { path, is_dir: false, size: Some(rules.max_file_size) },
            rules,
        ).files == g.files.push(FileView { path, size: rules.max_file_size }),
{
}

/// Pruned entries are not counted as skipped; files left out by a rule are,
/// one each.
pub proof fn lemma_prune_not_counted(g: Gathered, e: EntryView, rules: ConfigView)
    ensures
        entry_verdict(e, rules) == Verdict::Prune ==> gather_step(g, e, rules) == g,
        entry_verdict(e, rules) == Verdict::Skip || entry_verdict(e, rules) == Verdict::TooLarge
            ==> gather_step(g, e, rules).skipped == g.skipped + 1,
{
}

} // verus!
