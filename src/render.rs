//! The text of a dump, line by line. Each line is written out followed by a
//! line break.

use vstd::prelude::*;
use crate::scanner::ScanStats;
use crate::text::{chars_of, views};
use crate::utils::{decimal_size_text, format_size};

verus! {

broadcast use vstd::string::to_string_from_display_ensures_for_str;

pub const BOX_TOP: &'static str = "╔═══════════════════════════════════════════════════════════════╗";
pub const BOX_BOTTOM: &'static str = "╚═══════════════════════════════════════════════════════════════╝";
pub const RULE: &'static str = "═══════════════════════════════════════════════════════════════";
pub const FILE_TOP: &'static str = "┌─────────────────────────────────────────────────────────────";
pub const FILE_MIDDLE: &'static str = "├─────────────────────────────────────────────────────────────";
pub const FILE_BOTTOM: &'static str = "└─────────────────────────────────────────────────────────────\n";
pub const TREE_TITLE: &'static str = "\n📂 ESTRUTURA DE DIRETÓRIOS";
pub const CONTENT_TITLE: &'static str = "\n📄 CONTEÚDO DOS ARQUIVOS";
pub const BINARY_NOTE: &'static str = "│ [Binary file or unsupported encoding - content omitted]";
pub const NOT_TEXT_NOTE: &'static str = "│ [Error reading file as UTF-8 text]";

/// `n` spaces.
pub open spec fn spaces(n: nat) -> Seq<char>
    decreases n,
{
    if n == 0 {
        Seq::empty()
    } else {
        spaces((n - 1) as nat) + " "@
    }
}

/// `s` followed by spaces up to `width` characters.
pub open spec fn pad_right(s: Seq<char>, width: nat) -> Seq<char> {
    if s.len() >= width {
        s
    } else {
        s + spaces((width - s.len()) as nat)
    }
}

/// `s` after spaces up to `width` characters.
pub open spec fn pad_left(s: Seq<char>, width: nat) -> Seq<char> {
    if s.len() >= width {
        s
    } else {
        spaces((width - s.len()) as nat) + s
    }
}

pub open spec fn digit_of(d: nat) -> char {
    if d == 0 { '0' } else if d == 1 { '1' } else if d == 2 { '2' } else if d == 3 { '3' }
    else if d == 4 { '4' } else if d == 5 { '5' } else if d == 6 { '6' } else if d == 7 { '7' }
    else if d == 8 { '8' } else { '9' }
}

/// The decimal digits of `n`, without leading zeros.
pub open spec fn decimal_of(n: nat) -> Seq<char>
    decreases n,
{
    if n < 10 {
        seq![digit_of(n)]
    } else {
        decimal_of(n / 10).push(digit_of(n % 10))
    }
}

/// The components of a path joined by slashes.
pub open spec fn joined_path(path: Seq<Seq<char>>) -> Seq<char>
    decreases path.len(),
{
    if path.len() == 0 {
        Seq::empty()
    } else if path.len() == 1 {
        path[0]
    } else {
        joined_path(path.drop_last()) + "/"@ + path.last()
    }
}

/// The lines that open a dump: a box with the project's name, kind and time,
/// then the title of the directory tree.
pub open spec fn head_lines_of(name: Seq<char>, kind: Seq<char>, time: Seq<char>) -> Seq<Seq<char>> {
    seq![
        BOX_TOP@,
        "║ PROJETO: "@ + pad_right(name, 45) + "║"@,
        "║ Tipo: "@ + pad_right(kind, 48) + "║"@,
        "║ Data: "@ + pad_right(time, 48) + "║"@,
        BOX_BOTTOM@,
        TREE_TITLE@,
        RULE@,
    ]
}

/// The lines that open the content part of a dump.
pub open spec fn content_title_lines() -> Seq<Seq<char>> {
    seq![CONTENT_TITLE@, RULE@]
}

/// The lines that close a dump: how many files went in, how many were
/// skipped, and their bytes as size text.
pub open spec fn summary_lines_of(processed: nat, stats: ScanStats) -> Seq<Seq<char>> {
    seq![
        "\n"@ + RULE@,
        "📊 RESUMO"@,
        "  ✅ Arquivos processados: "@ + decimal_of(processed),
        "  ⏭️  Arquivos ignorados (estimado): "@ + decimal_of(stats.skipped as nat),
        "  💾 Tamanho total do conteúdo: "@ + decimal_size_text(stats.total_size),
        RULE@,
    ]
}

fn digit(d: u64) -> (c: char)
    requires
        d < 10,
    ensures
        c == digit_of(d as nat),
{
    if d == 0 { '0' } else if d == 1 { '1' } else if d == 2 { '2' } else if d == 3 { '3' }
    else if d == 4 { '4' } else if d == 5 { '5' } else if d == 6 { '6' } else if d == 7 { '7' }
    else if d == 8 { '8' } else { '9' }
}

fn decimal_chars(n: u64) -> (r: Vec<char>)
    ensures
        r@ == decimal_of(n as nat),
    decreases n,
{
    if n < 10 {
        let mut r: Vec<char> = Vec::new();
        r.push(digit(n));
        assert(r@ =~= seq![digit_of(n as nat)]);
        r
    } else {
        let mut r = decimal_chars(n / 10);
        r.push(digit(n % 10));
        r
    }
}

/// The decimal digits of `n`.
pub fn decimal(n: u64) -> (r: String)
    ensures
        r@ == decimal_of(n as nat),
{
    let v = decimal_chars(n);
    crate::text::string_of(v.as_slice())
}

fn spaces_string(n: usize) -> (r: String)
    ensures
        r@ == spaces(n as nat),
{
    let mut r = String::new();
    let mut i: usize = 0;
    while i < n
        invariant
            i <= n,
            r@ == spaces(i as nat),
        decreases n - i,
    {
        r.append(" ");
        i = i + 1;
    }
    r
}

/// `s` followed by spaces up to `width` characters.
pub fn padded_right(s: &str, width: usize) -> (r: String)
    ensures
        r@ == pad_right(s@, width as nat),
{
    let len = chars_of(s).len();
    let mut r = s.to_string();
    if len < width {
        let pad = spaces_string(width - len);
        r.append(pad.as_str());
    }
    r
}

/// `s` after spaces up to `width` characters.
pub fn padded_left(s: &str, width: usize) -> (r: String)
    ensures
        r@ == pad_left(s@, width as nat),
{
    let len = chars_of(s).len();
    if len < width {
        let mut r = spaces_string(width - len);
        r.append(s);
        r
    } else {
        s.to_string()
    }
}

/// The components of a path joined by slashes.
pub fn join_path(components: &Vec<String>) -> (r: String)
    ensures
        r@ == joined_path(views(components@)),
{
    if components.len() == 0 {
        return String::new();
    }
    let mut r = components[0].as_str().to_string();
    let mut i: usize = 1;
    while i < components.len()
        invariant
            1 <= i <= components@.len(),
            r@ == joined_path(views(components@).subrange(0, i as int)),
        decreases components@.len() - i,
    {
        proof {
            let p = views(components@).subrange(0, i + 1);
            assert(p.drop_last() == views(components@).subrange(0, i as int));
        }
        r.append("/");
        r.append(components[i].as_str());
        i = i + 1;
    }
    assert(views(components@).subrange(0, i as int) == views(components@));
    r
}

fn line3(a: &str, b: &str, c: &str) -> (r: String)
    ensures
        r@ == a@ + b@ + c@,
{
    let mut r = a.to_string();
    r.append(b);
    r.append(c);
    r
}

/// The lines that open a dump.
pub fn head_lines(project_name: &str, project_type: &str, time: &str) -> (r: Vec<String>)
    ensures
        views(r@) == head_lines_of(project_name@, project_type@, time@),
{
    let mut r: Vec<String> = Vec::new();
    r.push(BOX_TOP.to_string());
    let name = padded_right(project_name, 45);
    r.push(line3("║ PROJETO: ", name.as_str(), "║"));
    let kind = padded_right(project_type, 48);
    r.push(line3("║ Tipo: ", kind.as_str(), "║"));
    let when = padded_right(time, 48);
    r.push(line3("║ Data: ", when.as_str(), "║"));
    r.push(BOX_BOTTOM.to_string());
    r.push(TREE_TITLE.to_string());
    r.push(RULE.to_string());
    assert(views(r@) =~= head_lines_of(project_name@, project_type@, time@));
    r
}

/// The lines that open the content part of a dump.
pub fn content_title() -> (r: Vec<String>)
    ensures
        views(r@) == content_title_lines(),
{
    let mut r: Vec<String> = Vec::new();
    r.push(CONTENT_TITLE.to_string());
    r.push(RULE.to_string());
    assert(views(r@) =~= content_title_lines());
    r
}

/// The lines that close a dump.
pub fn summary_lines(processed: usize, stats: ScanStats) -> (r: Vec<String>)
    ensures
        views(r@) == summary_lines_of(processed as nat, stats),
{
    let mut r: Vec<String> = Vec::new();
    r.push(line3("\n", RULE, ""));
    r.push("📊 RESUMO".to_string());
    let count = decimal(processed as u64);
    r.push(line3("  ✅ Arquivos processados: ", count.as_str(), ""));
    let skipped = decimal(stats.skipped);
    r.push(line3("  ⏭️  Arquivos ignorados (estimado): ", skipped.as_str(), ""));
    let total = format_size(stats.total_size);
    r.push(line3("  💾 Tamanho total do conteúdo: ", total.as_str(), ""));
    r.push(RULE.to_string());
    proof {
        reveal_strlit("");
    }
    assert(views(r@) =~= summary_lines_of(processed as nat, stats));
    r
}

/// The pieces of a text between its line feeds: one more than it has line feeds.
pub open spec fn pieces_of(s: Seq<char>) -> Seq<Seq<char>>
    decreases s.len(),
{
    if s.len() == 0 {
        seq![Seq::empty()]
    } else if s.last() == '\n' {
        pieces_of(s.drop_last()).push(Seq::empty())
    } else {
        let p = pieces_of(s.drop_last());
        p.update(p.len() - 1, p.last().push(s.last()))
    }
}

/// A line without the carriage return that ends it, if one does.
pub open spec fn strip_cr(l: Seq<char>) -> Seq<char> {
    if l.len() > 0 && l.last() == '\r' {
        l.drop_last()
    } else {
        l
    }
}

/// The lines of a text as `str::lines` gives them: split at each line feed, a
/// carriage return before a line feed dropped, no empty line after the last
/// line feed.
pub open spec fn lines_of(s: Seq<char>) -> Seq<Seq<char>> {
    let p = pieces_of(s);
    let ended = p.drop_last().map_values(|l: Seq<char>| strip_cr(l));
    if p.last().len() > 0 {
        ended.push(p.last())
    } else {
        ended
    }
}

/// A line of content under its number (from 1), right-aligned in four columns.
pub open spec fn numbered_line_of(index: nat, line: Seq<char>) -> Seq<char> {
    pad_left(decimal_of(index + 1), 4) + " │ "@ + line
}

pub open spec fn numbered_lines_of(lines: Seq<Seq<char>>) -> Seq<Seq<char>> {
    Seq::new(lines.len(), |i: int| numbered_line_of(i as nat, lines[i]))
}

/// What stands under a file's header: a note for a binary file or one that is
/// not text, else its numbered lines.
pub open spec fn body_lines_of(binary: bool, text: Option<Seq<char>>) -> Seq<Seq<char>> {
    if binary {
        seq![BINARY_NOTE@]
    } else {
        match text {
            Some(t) => numbered_lines_of(lines_of(t)),
            None => seq![NOT_TEXT_NOTE@],
        }
    }
}

/// The part of a dump that holds one file: its path and size between rules,
/// then its body, then a closing rule.
pub open spec fn file_section_of(
    path: Seq<Seq<char>>,
    size: u64,
    binary: bool,
    text: Option<Seq<char>>,
) -> Seq<Seq<char>> {
    seq![
        FILE_TOP@,
        "│ 📄 "@ + joined_path(path),
        "│ 📊 Tamanho: "@ + decimal_size_text(size),
        FILE_MIDDLE@,
    ] + body_lines_of(binary, text) + seq![FILE_BOTTOM@]
}

/// Splits a text into lines as `str::lines` does.
pub fn split_lines(text: &str) -> (r: Vec<String>)
    ensures
        views(r@) == lines_of(text@),
{
    let chars = chars_of(text);
    let mut out: Vec<String> = Vec::new();
    let mut cur: Vec<char> = Vec::new();
    let ghost mut raw: Seq<Seq<char>> = Seq::empty();
    let mut i: usize = 0;
    while i < chars.len()
        invariant
            i <= chars@.len(),
            chars@ == text@,
            pieces_of(chars@.subrange(0, i as int)) == raw.push(cur@),
            views(out@) == raw.map_values(|l: Seq<char>| strip_cr(l)),
        decreases chars@.len() - i,
    {
        let c = chars[i];
        let ghost prefix = chars@.subrange(0, i + 1);
        assert(prefix.drop_last() == chars@.subrange(0, i as int));
        if c == '\n' {
            let n = cur.len();
            let line = if n > 0 && cur[n - 1] == '\r' {
                crate::text::string_of(&cur.as_slice()[0..n - 1])
            } else {
                crate::text::string_of(cur.as_slice())
            };
            proof {
                if n > 0 && cur@[n - 1] == '\r' {
                    assert(cur@.subrange(0, n - 1) == cur@.drop_last());
                }
                assert(line@ == strip_cr(cur@));
            }
            let ghost before = out@;
            out.push(line);
            proof {
                assert(views(out@) =~= views(before).push(line@));
                raw = raw.push(cur@);
                assert(views(out@) =~= raw.map_values(|l: Seq<char>| strip_cr(l)));
            }
            cur = Vec::new();
            assert(pieces_of(prefix) =~= raw.push(cur@));
        } else {
            cur.push(c);
            assert(pieces_of(prefix) =~= raw.push(cur@));
        }
        i = i + 1;
    }
    assert(chars@.subrange(0, i as int) == text@);
    let ghost p = pieces_of(text@);
    assert(p.drop_last() == raw);
    if cur.len() > 0 {
        let ghost before = out@;
        let last = crate::text::string_of(cur.as_slice());
        out.push(last);
        assert(views(out@) =~= views(before).push(cur@));
    }
    out
}

/// Numbers the lines of a text.
pub fn numbered_lines(lines: &Vec<String>) -> (r: Vec<String>)
    ensures
        views(r@) == numbered_lines_of(views(lines@)),
{
    let mut r: Vec<String> = Vec::new();
    let mut i: usize = 0;
    while i < lines.len()
        invariant
            i <= lines@.len(),
            views(r@) == numbered_lines_of(views(lines@)).subrange(0, i as int),
        decreases lines@.len() - i,
    {
        assert(i < usize::MAX);
        let number = decimal((i as u64) + 1);
        let label = padded_left(number.as_str(), 4);
        let line = line3(label.as_str(), " │ ", lines[i].as_str());
        let ghost before = r@;
        r.push(line);
        assert(line@ == numbered_line_of(i as nat, views(lines@)[i as int]));
        assert(views(r@) =~= views(before).push(line@));
        assert(views(r@) =~= numbered_lines_of(views(lines@)).subrange(0, i + 1));
        i = i + 1;
    }
    assert(numbered_lines_of(views(lines@)).subrange(0, i as int) =~= numbered_lines_of(views(lines@)));
    r
}

fn append_lines(out: &mut Vec<String>, more: Vec<String>)
    ensures
        views(final(out)@) == views(old(out)@) + views(more@),
{
    let ghost start = out@;
    let mut rest = more;
    let mut taken: Vec<String> = Vec::new();
    while rest.len() > 0
        invariant
            taken@.len() + rest@.len() == more@.len(),
            forall|k: int| 0 <= k < rest@.len() ==> rest@[k] == more@[k],
            forall|k: int| 0 <= k < taken@.len() ==> taken@[k] == more@[more@.len() - 1 - k],
        decreases rest@.len(),
    {
        let l = rest.pop().unwrap();
        taken.push(l);
    }
    let ghost mid = out@;
    while taken.len() > 0
        invariant
            views(out@) == views(start) + views(more@).subrange(0, more@.len() - taken@.len()),
            taken@.len() <= more@.len(),
            forall|k: int| 0 <= k < taken@.len() ==> taken@[k] == more@[more@.len() - 1 - k],
        decreases taken@.len(),
    {
        let l = taken.pop().unwrap();
        let ghost before = out@;
        out.push(l);
        assert(views(out@) =~= views(before).push(l@));
        assert(views(out@) =~= views(start) + views(more@).subrange(0, more@.len() - taken@.len()));
    }
    assert(views(more@).subrange(0, more@.len() as int) =~= views(more@));
}

/// A file of the dump, with what could be read of it.
pub struct FileDump {
    /// The path from the project's root, one name per component.
    pub components: Vec<String>,
    /// The size in bytes.
    pub size: u64,
    /// Whether the file counts as binary (see `is_binary`).
    pub binary: bool,
    /// Its content, where it could be read as text.
    pub text: Option<String>,
}

pub open spec fn text_view(t: Option<String>) -> Option<Seq<char>> {
    match t {
        Some(s) => Some(s@),
        None => None,
    }
}

pub open spec fn dump_section(d: FileDump) -> Seq<Seq<char>> {
    file_section_of(views(d.components@), d.size, d.binary, text_view(d.text))
}

/// The part of a dump that holds one file.
pub fn file_section(dump: &FileDump) -> (r: Vec<String>)
    ensures
        views(r@) == dump_section(*dump),
{
    let mut r: Vec<String> = Vec::new();
    r.push(FILE_TOP.to_string());
    let path = join_path(&dump.components);
    r.push(line3("│ 📄 ", path.as_str(), ""));
    let size = format_size(dump.size);
    r.push(line3("│ 📊 Tamanho: ", size.as_str(), ""));
    r.push(FILE_MIDDLE.to_string());
    proof {
        reveal_strlit("");
    }
    let ghost head = views(r@);
    let body: Vec<String> = if dump.binary {
        let mut b: Vec<String> = Vec::new();
        b.push(BINARY_NOTE.to_string());
        assert(views(b@) =~= seq![BINARY_NOTE@]);
        b
    } else {
        match &dump.text {
            Some(t) => {
                let lines = split_lines(t.as_str());
                numbered_lines(&lines)
            },
            None => {
                let mut b: Vec<String> = Vec::new();
                b.push(NOT_TEXT_NOTE.to_string());
                assert(views(b@) =~= seq![NOT_TEXT_NOTE@]);
                b
            },
        }
    };
    assert(views(body@) == body_lines_of(dump.binary, text_view(dump.text)));
    append_lines(&mut r, body);
    let ghost before = r@;
    r.push(FILE_BOTTOM.to_string());
    assert(views(r@) =~= views(before).push(FILE_BOTTOM@));
    assert(views(r@) =~= dump_section(*dump));
    r
}

/// The sections of the given files, one after the other.
pub open spec fn sections_of(dumps: Seq<FileDump>) -> Seq<Seq<char>>
    decreases dumps.len(),
{
    if dumps.len() == 0 {
        Seq::empty()
    } else {
        sections_of(dumps.drop_last()) + dump_section(dumps.last())
    }
}

/// A whole dump: the head, the directory tree, the file sections in the order
/// given, and the summary.
pub open spec fn report_of(
    project_name: Seq<char>,
    project_type: Seq<char>,
    time: Seq<char>,
    tree: Seq<Seq<char>>,
    dumps: Seq<FileDump>,
    stats: ScanStats,
) -> Seq<Seq<char>> {
    head_lines_of(project_name, project_type, time) + tree + content_title_lines()
        + sections_of(dumps) + summary_lines_of(dumps.len(), stats)
}

/// The lines of a whole dump.
pub fn report_lines(
    project_name: &str,
    project_type: &str,
    time: &str,
    tree_lines: &Vec<String>,
    dumps: &Vec<FileDump>,
    stats: ScanStats,
) -> (r: Vec<String>)
    ensures
        views(r@) == report_of(project_name@, project_type@, time@, views(tree_lines@), dumps@, stats),
{
    let mut r = head_lines(project_name, project_type, time);
    append_lines(&mut r, tree_lines.clone());
    append_lines(&mut r, content_title());
    let ghost start = views(r@);
    let mut i: usize = 0;
    while i < dumps.len()
        invariant
            i <= dumps@.len(),
            views(r@) == start + sections_of(dumps@.subrange(0, i as int)),
        decreases dumps@.len() - i,
    {
        let section = file_section(&dumps[i]);
        append_lines(&mut r, section);
        assert(dumps@.subrange(0, i + 1).drop_last() == dumps@.subrange(0, i as int));
        assert(views(r@) =~= start + sections_of(dumps@.subrange(0, i + 1)));
        i = i + 1;
    }
    assert(dumps@.subrange(0, i as int) == dumps@);
    append_lines(&mut r, summary_lines(dumps.len(), stats));
    assert(views(r@) =~= report_of(project_name@, project_type@, time@, views(tree_lines@), dumps@, stats));
    r
}

/// The name of the file that holds a project's dump.
pub fn report_file_name(project_name: &str) -> (r: String)
    ensures
        r@ == project_name@ + "_project_code.txt"@,
{
    let mut r = project_name.to_string();
    r.append("_project_code.txt");
    r
}

/// Two dumps of the same entries under the same rules, with the same file
/// contents, differ at most in the line that gives the time.
pub proof fn lemma_report_same_but_time(
    project_name: Seq<char>,
    project_type: Seq<char>,
    time1: Seq<char>,
    time2: Seq<char>,
    tree: Seq<Seq<char>>,
    dumps: Seq<FileDump>,
    stats: ScanStats,
)
    ensures
        ({
            let a = report_of(project_name, project_type, time1, tree, dumps, stats);
            let b = report_of(project_name, project_type, time2, tree, dumps, stats);
            &&& a.len() == b.len()
            &&& forall|i: int| 0 <= i < a.len() && i != 3 ==> a[i] == b[i]
            &&& a[3] == "║ Data: "@ + pad_right(time1, 48) + "║"@
            &&& b[3] == "║ Data: "@ + pad_right(time2, 48) + "║"@
        }),
{
    let a = report_of(project_name, project_type, time1, tree, dumps, stats);
    let b = report_of(project_name, project_type, time2, tree, dumps, stats);
    let ha = head_lines_of(project_name, project_type, time1);
    let hb = head_lines_of(project_name, project_type, time2);
    let rest = tree + content_title_lines() + sections_of(dumps) + summary_lines_of(dumps.len(), stats);
    assert(a =~= ha + rest);
    assert(b =~= hb + rest);
    assert forall|i: int| 0 <= i < a.len() && i != 3 implies a[i] == b[i] by {
        if i < 7 {
            assert(a[i] == ha[i]);
            assert(b[i] == hb[i]);
        } else {
            assert(a[i] == rest[i - 7]);
            assert(b[i] == rest[i - 7]);
        }
    }
}

/// A binary file's section holds the binary note as its whole body, and no
/// numbered line, whatever its text.
pub proof fn lemma_binary_section(path: Seq<Seq<char>>, size: u64, text: Option<Seq<char>>)
    ensures
        body_lines_of(true, text) == seq![BINARY_NOTE@],
        file_section_of(path, size, true, text) == seq![
            FILE_TOP@,
            "│ 📄 "@ + joined_path(path),
            "│ 📊 Tamanho: "@ + decimal_size_text(size),
            FILE_MIDDLE@,
            BINARY_NOTE@,
            FILE_BOTTOM@,
        ],
{
    assert(file_section_of(path, size, true, text) =~= seq![
        FILE_TOP@,
        "│ 📄 "@ + joined_path(path),
        "│ 📊 Tamanho: "@ + decimal_size_text(size),
        FILE_MIDDLE@,
        BINARY_NOTE@,
        FILE_BOTTOM@,
    ]);
}

} // verus!
