//! The order in which a dump holds its files: by full path, character by character.

use vstd::prelude::*;
use vstd::multiset::Multiset;
use vstd::seq_lib::{to_multiset_build, to_multiset_insert};
use crate::scanner::{AcceptedFile, FileView, files_view};
use crate::render::{join_path, joined_path};
use crate::text::{chars_of, views};

verus! {

/// Lexicographic order on texts, by code point; on UTF-8 text this is the
/// order of the bytes.
pub open spec fn chars_le(a: Seq<char>, b: Seq<char>) -> bool
    decreases a.len(),
{
    if a.len() == 0 {
        true
    } else if b.len() == 0 {
        false
    } else if a[0] != b[0] {
        a[0] < b[0]
    } else {
        chars_le(a.drop_first(), b.drop_first())
    }
}

/// The full path of a file, its components joined by slashes, as text.
pub open spec fn full_path(f: FileView) -> Seq<char> {
    joined_path(f.path)
}

/// Each file's path comes no later than the next one's.
pub open spec fn sorted_by_path(s: Seq<FileView>) -> bool {
    forall|i: int| 0 <= i < s.len() - 1 ==> chars_le(full_path(#[trigger] s[i]), full_path(s[i + 1]))
}

pub proof fn lemma_chars_le_total(a: Seq<char>, b: Seq<char>)
    ensures
        chars_le(a, b) || chars_le(b, a),
    decreases a.len(),
{
    if a.len() > 0 && b.len() > 0 && a[0] == b[0] {
        lemma_chars_le_total(a.drop_first(), b.drop_first());
    }
}

fn chars_le_exec(a: &Vec<char>, b: &Vec<char>) -> (r: bool)
    ensures
        r == chars_le(a@, b@),
{
    let mut i: usize = 0;
    assert(a@.subrange(0, a@.len() as int) == a@);
    assert(b@.subrange(0, b@.len() as int) == b@);
    while i < a.len() && i < b.len() && a[i] == b[i]
        invariant
            i <= a@.len(),
            i <= b@.len(),
            chars_le(a@, b@) == chars_le(a@.subrange(i as int, a@.len() as int), b@.subrange(i as int, b@.len() as int)),
        decreases a@.len() - i,
    {
        let ghost sa = a@.subrange(i as int, a@.len() as int);
        let ghost sb = b@.subrange(i as int, b@.len() as int);
        assert(sa.drop_first() == a@.subrange(i + 1, a@.len() as int));
        assert(sb.drop_first() == b@.subrange(i + 1, b@.len() as int));
        i = i + 1;
    }
    assert(a@.subrange(0, a@.len() as int) == a@);
    assert(b@.subrange(0, b@.len() as int) == b@);
    if i == a.len() {
        true
    } else if i == b.len() {
        false
    } else {
        a[i] < b[i]
    }
}

/// The full path of a file as characters.
fn full_path_chars(components: &Vec<String>) -> (r: Vec<char>)
    ensures
        r@ == joined_path(views(components@)),
{
    let joined = join_path(components);
    chars_of(joined.as_str())
}

/// Puts the accepted files in the order of their full paths, whatever order
/// the walk met them in.
pub fn sort_files(files: Vec<AcceptedFile>) -> (r: Vec<AcceptedFile>)
    ensures
        sorted_by_path(files_view(r@)),
        in_path_order(files_view(r@)),
        files_view(r@).to_multiset() == files_view(files@).to_multiset(),
{
    let mut rest = files;
    let mut out: Vec<AcceptedFile> = Vec::new();
    proof {
        broadcast use vstd::seq_lib::group_to_multiset_ensures, vstd::multiset::group_multiset_axioms;
        assert(files_view(out@).len() == 0);
        assert(files_view(out@).to_multiset() =~= Multiset::empty());
        assert(files_view(out@).to_multiset().add(files_view(rest@).to_multiset())
            =~= files_view(rest@).to_multiset());
    }
    while rest.len() > 0
        invariant
            sorted_by_path(files_view(out@)),
            files_view(out@).to_multiset().add(files_view(rest@).to_multiset())
                == files_view(files@).to_multiset(),
        decreases rest@.len(),
    {
        let ghost before_rest = rest@;
        let f = rest.pop().unwrap();
        let key = full_path_chars(&f.components);
        proof {
            assert(files_view(before_rest) =~= files_view(rest@).push(f@));
            to_multiset_build(files_view(rest@), f@);
        }
        let mut j: usize = 0;
        while j < out.len() && chars_le_exec(&full_path_chars(&out[j].components), &key)
            invariant
                j <= out@.len(),
                key@ == full_path(f@),
                forall|k: int| 0 <= k < j ==> chars_le(full_path(#[trigger] out@[k]@), full_path(f@)),
            decreases out@.len() - j,
        {
            j = j + 1;
        }
        let ghost before_out = out@;
        let ghost fv = f@;
        proof {
            if j < out@.len() {
                lemma_chars_le_total(full_path(out@[j as int]@), full_path(fv));
            }
        }
        out.insert(j, f);
        proof {
            assert(files_view(out@) =~= files_view(before_out).insert(j as int, fv));
            to_multiset_insert(files_view(before_out), j as int, fv);
            let s = files_view(out@);
            assert forall|i: int| 0 <= i < s.len() - 1 implies chars_le(full_path(#[trigger] s[i]), full_path(s[i + 1])) by {
                if i < j - 1 {
                    assert(s[i] == files_view(before_out)[i]);
                    assert(s[i + 1] == files_view(before_out)[i + 1]);
                } else if i == j - 1 {
                    assert(s[i + 1] == fv);
                } else if i == j {
                    assert(s[i] == fv);
                } else {
                    assert(s[i] == files_view(before_out)[i - 1]);
                    assert(s[i + 1] == files_view(before_out)[i]);
                }
            }
        }
    }
    proof {
        broadcast use vstd::seq_lib::group_to_multiset_ensures, vstd::multiset::group_multiset_axioms;
        assert(files_view(rest@).len() == 0);
        assert(files_view(rest@).to_multiset() =~= Multiset::empty());
        assert(files_view(out@).to_multiset().add(files_view(rest@).to_multiset())
            =~= files_view(out@).to_multiset());
        lemma_sorted_in_order(files_view(out@));
    }
    out
}

proof fn lemma_chars_le_antisymmetric(a: Seq<char>, b: Seq<char>)
    requires
        chars_le(a, b),
        chars_le(b, a),
    ensures
        a == b,
    decreases a.len(),
{
    if a.len() > 0 && b.len() > 0 {
        lemma_chars_le_antisymmetric(a.drop_first(), b.drop_first());
        assert(a =~= seq![a[0]] + a.drop_first());
        assert(b =~= seq![b[0]] + b.drop_first());
    } else {
        assert(a =~= b);
    }
}

proof fn lemma_chars_le_transitive(a: Seq<char>, b: Seq<char>, c: Seq<char>)
    requires
        chars_le(a, b),
        chars_le(b, c),
    ensures
        chars_le(a, c),
    decreases a.len(),
{
    if a.len() > 0 && b.len() > 0 && c.len() > 0 && a[0] == b[0] && b[0] == c[0] {
        lemma_chars_le_transitive(a.drop_first(), b.drop_first(), c.drop_first());
    }
}

/// Each file's path comes no later than that of every file after it.
pub open spec fn in_path_order(s: Seq<FileView>) -> bool {
    forall|i: int, j: int| 0 <= i < j < s.len() ==> chars_le(full_path(#[trigger] s[i]), full_path(#[trigger] s[j]))
}

/// No two different files share a full path.
pub open spec fn path_determines_file(s: Seq<FileView>) -> bool {
    forall|x: FileView, y: FileView|
        #[trigger] s.contains(x) && #[trigger] s.contains(y) && full_path(x) == full_path(y) ==> x == y
}

proof fn lemma_sorted_in_order(s: Seq<FileView>)
    requires
        sorted_by_path(s),
    ensures
        in_path_order(s),
{
    assert forall|i: int, j: int| 0 <= i < j < s.len() implies chars_le(full_path(#[trigger] s[i]), full_path(#[trigger] s[j])) by {
        lemma_sorted_from(s, i, j);
    }
}

proof fn lemma_sorted_from(s: Seq<FileView>, i: int, j: int)
    requires
        sorted_by_path(s),
        0 <= i < j < s.len(),
    ensures
        chars_le(full_path(s[i]), full_path(s[j])),
    decreases j - i,
{
    if j == i + 1 {
        assert(chars_le(full_path(s[i]), full_path(s[i + 1])));
    } else {
        lemma_sorted_from(s, i, j - 1);
        assert(chars_le(full_path(s[j - 1]), full_path(s[j])));
        lemma_chars_le_transitive(full_path(s[i]), full_path(s[j - 1]), full_path(s[j]));
    }
}

proof fn lemma_ordered_unique(s1: Seq<FileView>, s2: Seq<FileView>)
    requires
        in_path_order(s1),
        in_path_order(s2),
        path_determines_file(s1),
        s1.to_multiset() == s2.to_multiset(),
    ensures
        s1 == s2,
    decreases s1.len(),
{
    broadcast use vstd::seq_lib::group_to_multiset_ensures;

    assert(s1.to_multiset().len() == s1.len());
    assert(s2.to_multiset().len() == s2.len());
    if s1.len() == 0 {
        assert(s2.len() == 0);
        assert(s1 =~= s2);
    } else {
        assert(s2.len() == s1.len());
        assert(s1.contains(s1[0]));
        assert(s2.to_multiset().count(s1[0]) > 0);
        assert(s2.contains(s1[0]));
        let k = choose|k: int| 0 <= k < s2.len() && s2[k] == s1[0];
        assert(s1.to_multiset().count(s2[0]) > 0) by {
            assert(s2.contains(s2[0]));
        }
        assert(s1.contains(s2[0]));
        let m = choose|m: int| 0 <= m < s1.len() && s1[m] == s2[0];
        if m > 0 {
            assert(chars_le(full_path(s1[0]), full_path(s1[m])));
        }
        if k > 0 {
            assert(chars_le(full_path(s2[0]), full_path(s2[k])));
        }
        if m > 0 && k > 0 {
            lemma_chars_le_antisymmetric(full_path(s1[0]), full_path(s2[0]));
            assert(s1.contains(s1[0]));
            assert(s1.contains(s1[m]));
        }
        assert(s1[0] == s2[0]);
        let t1 = s1.drop_first();
        let t2 = s2.drop_first();
        assert(s1.remove(0) == t1);
        assert(s2.remove(0) == t2);
        assert(t1.to_multiset() == t2.to_multiset());
        assert(in_path_order(t1)) by {
            assert forall|i: int, j: int| 0 <= i < j < t1.len() implies chars_le(full_path(#[trigger] t1[i]), full_path(#[trigger] t1[j])) by {
                assert(t1[i] == s1[i + 1]);
                assert(t1[j] == s1[j + 1]);
            }
        }
        assert(in_path_order(t2)) by {
            assert forall|i: int, j: int| 0 <= i < j < t2.len() implies chars_le(full_path(#[trigger] t2[i]), full_path(#[trigger] t2[j])) by {
                assert(t2[i] == s2[i + 1]);
                assert(t2[j] == s2[j + 1]);
            }
        }
        assert(path_determines_file(t1)) by {
            assert forall|x: FileView, y: FileView|
                #[trigger] t1.contains(x) && #[trigger] t1.contains(y) && full_path(x) == full_path(y) implies x == y by {
                let i = choose|i: int| 0 <= i < t1.len() && t1[i] == x;
                let j = choose|j: int| 0 <= j < t1.len() && t1[j] == y;
                assert(s1[i + 1] == x);
                assert(s1[j + 1] == y);
                assert(s1.contains(x));
                assert(s1.contains(y));
            }
        }
        lemma_ordered_unique(t1, t2);
        assert(s1 =~= seq![s1[0]] + t1);
        assert(s2 =~= seq![s2[0]] + t2);
    }
}

/// The order of a dump's files does not depend on the order the walk met them
/// in: sorting two arrangements of the same files, no two different ones of
/// which share a full path, gives the same sequence, with every full path no
/// later, in code-point order, than the ones after it.
pub proof fn lemma_sort_order_independent(
    met1: Seq<FileView>,
    met2: Seq<FileView>,
    sorted1: Seq<FileView>,
    sorted2: Seq<FileView>,
)
    requires
        met1.to_multiset() == met2.to_multiset(),
        path_determines_file(met1),
        sorted_by_path(sorted1),
        sorted1.to_multiset() == met1.to_multiset(),
        sorted_by_path(sorted2),
        sorted2.to_multiset() == met2.to_multiset(),
    ensures
        sorted1 == sorted2,
        in_path_order(sorted1),
{
    lemma_sorted_in_order(sorted1);
    lemma_sorted_in_order(sorted2);
    lemma_determines_kept(met1, sorted1);
    lemma_ordered_unique(sorted1, sorted2);
}

proof fn lemma_determines_kept(a: Seq<FileView>, b: Seq<FileView>)
    requires
        path_determines_file(a),
        a.to_multiset() == b.to_multiset(),
    ensures
        path_determines_file(b),
{
    broadcast use vstd::seq_lib::group_to_multiset_ensures;

    assert forall|x: FileView, y: FileView|
        #[trigger] b.contains(x) && #[trigger] b.contains(y) && full_path(x) == full_path(y) implies x == y by {
        assert(b.to_multiset().count(x) > 0);
        assert(b.to_multiset().count(y) > 0);
        assert(a.contains(x));
        assert(a.contains(y));
    }
}

} // verus!
