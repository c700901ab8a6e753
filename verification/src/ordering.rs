//! Lexicographic ordering of paths, the sort that makes directory
//! scans deterministic, and filtering by filename extension.
//!
//! Two independently scanned file lists (image volumes and their masks)
//! are paired positionally; that pairing is sound only because both
//! lists come out of the same total order. The order is lexicographic
//! on characters, compared by code point.

use vstd::prelude::*;
use vstd::relations::{sorted_by, total_ordering};
use vstd::seq_lib::lemma_sorted_unique;

verus! {

/// Lexicographic order on character sequences, by code point; a prefix
/// precedes its extensions.
pub open spec fn lex_le(a: Seq<char>, b: Seq<char>) -> bool
    decreases a.len(),
{
    if a.len() == 0 {
        true
    } else if b.len() == 0 {
        false
    } else if a[0] != b[0] {
        (a[0] as u32) < (b[0] as u32)
    } else {
        lex_le(a.drop_first(), b.drop_first())
    }
}

/// The order as a relation value, for the vstd ordering vocabulary.
pub open spec fn lex_leq() -> spec_fn(Seq<char>, Seq<char>) -> bool {
    |a: Seq<char>, b: Seq<char>| lex_le(a, b)
}

/// The views of a sequence of strings.
pub open spec fn views(s: Seq<String>) -> Seq<Seq<char>> {
    s.map_values(|x: String| x@)
}

/// A sequence of strings in lexicographic order.
pub open spec fn strings_sorted(s: Seq<String>) -> bool {
    sorted_by(views(s), lex_leq())
}

pub proof fn lemma_lex_le_refl(a: Seq<char>)
    ensures
        lex_le(a, a),
    decreases a.len(),
{
    if a.len() > 0 {
        lemma_lex_le_refl(a.drop_first());
    }
}

proof fn lemma_char_code_points_differ(c1: char, c2: char)
    requires
        c1 != c2,
    ensures
        (c1 as u32) != (c2 as u32),
{
}

pub proof fn lemma_lex_le_total(a: Seq<char>, b: Seq<char>)
    ensures
        lex_le(a, b) || lex_le(b, a),
    decreases a.len(),
{
    if a.len() > 0 && b.len() > 0 {
        if a[0] == b[0] {
            lemma_lex_le_total(a.drop_first(), b.drop_first());
        } else {
            lemma_char_code_points_differ(a[0], b[0]);
        }
    }
}

pub proof fn lemma_lex_le_antisymmetric(a: Seq<char>, b: Seq<char>)
    requires
        lex_le(a, b),
        lex_le(b, a),
    ensures
        a == b,
    decreases a.len(),
{
    if a.len() == 0 {
        assert(b.len() == 0);
        assert(a =~= b);
    } else {
        assert(b.len() > 0);
        assert(a[0] == b[0]);
        lemma_lex_le_antisymmetric(a.drop_first(), b.drop_first());
        assert(a =~= seq![a[0]] + a.drop_first());
        assert(b =~= seq![b[0]] + b.drop_first());
    }
}

pub proof fn lemma_lex_le_transitive(a: Seq<char>, b: Seq<char>, c: Seq<char>)
    requires
        lex_le(a, b),
        lex_le(b, c),
    ensures
        lex_le(a, c),
    decreases a.len(),
{
    if a.len() > 0 && b.len() > 0 && c.len() > 0 && a[0] == b[0] && b[0] == c[0] {
        lemma_lex_le_transitive(a.drop_first(), b.drop_first(), c.drop_first());
    }
}

/// Lexicographic order is a total order in the sense of vstd.
pub proof fn lemma_lex_leq_total_ordering()
    ensures
        total_ordering(lex_leq()),
{
    let leq = lex_leq();
    assert forall|a: Seq<char>| #[trigger] leq(a, a) by { lemma_lex_le_refl(a) };
    assert forall|a: Seq<char>, b: Seq<char>| #[trigger] leq(a, b) && #[trigger] leq(b, a)
        implies a == b by { lemma_lex_le_antisymmetric(a, b) };
    assert forall|a: Seq<char>, b: Seq<char>, c: Seq<char>|
        #[trigger] leq(a, b) && #[trigger] leq(b, c) implies leq(a, c) by {
        lemma_lex_le_transitive(a, b, c)
    };
    assert forall|a: Seq<char>, b: Seq<char>| #[trigger] leq(a, b) || #[trigger] leq(b, a) by {
        lemma_lex_le_total(a, b)
    };
}

/// A shared prefix does not affect the order of what follows it.
pub proof fn lemma_lex_le_common_prefix(p: Seq<char>, a: Seq<char>, b: Seq<char>)
    ensures
        lex_le(p + a, p + b) == lex_le(a, b),
    decreases p.len(),
{
    if p.len() == 0 {
        assert(p + a =~= a);
        assert(p + b =~= b);
    } else {
        assert((p + a).len() > 0 && (p + b).len() > 0);
        assert((p + a)[0] == p[0] && (p + b)[0] == p[0]);
        assert((p + a).drop_first() =~= p.drop_first() + a);
        assert((p + b).drop_first() =~= p.drop_first() + b);
        lemma_lex_le_common_prefix(p.drop_first(), a, b);
    }
}

/// Two sorted sequences with the same elements are the same sequence:
/// sorting a scan is deterministic, so two scans that saw matching sets
/// of names yield matching positions.
pub proof fn lemma_sorted_strings_unique(x: Seq<Seq<char>>, y: Seq<Seq<char>>)
    requires
        sorted_by(x, lex_leq()),
        sorted_by(y, lex_leq()),
        x.to_multiset() == y.to_multiset(),
    ensures
        x == y,
{
    lemma_lex_leq_total_ordering();
    lemma_sorted_unique(x, y, lex_leq());
}

/// Re-rooting two descendants of the same root preserves their
/// lexicographic order: the shared prefix decides nothing, and the
/// suffixes are kept exactly.
pub proof fn lemma_translate_preserves_order(
    a: Seq<char>,
    b: Seq<char>,
    root: Seq<char>,
    target: Seq<char>,
)
    requires
        crate::pathspec::is_strict_descendant(a, root),
        crate::pathspec::is_strict_descendant(b, root),
        lex_le(a, b),
    ensures
        lex_le(
            crate::pathspec::path_join(target, crate::pathspec::suffix_under(a, root)),
            crate::pathspec::path_join(target, crate::pathspec::suffix_under(b, root)),
        ),
{
    let sa = crate::pathspec::suffix_under(a, root);
    let sb = crate::pathspec::suffix_under(b, root);
    let host = root + seq!['/'];
    let cont = target + seq!['/'];
    assert(a =~= host + sa);
    assert(b =~= host + sb);
    lemma_lex_le_common_prefix(host, sa, sb);
    assert(lex_le(sa, sb));
    lemma_lex_le_common_prefix(cont, sa, sb);
    assert(crate::pathspec::path_join(target, sa) =~= cont + sa);
    assert(crate::pathspec::path_join(target, sb) =~= cont + sb);
}

/// Compares two strings in the lexicographic order of their characters.
pub fn lex_le_exec(a: &str, b: &str) -> (r: bool)
    ensures
        r == lex_le(a@, b@),
{
    let a_len = a.unicode_len();
    let b_len = b.unicode_len();
    let mut i: usize = 0;
    proof {
        assert(a@.skip(0) =~= a@);
        assert(b@.skip(0) =~= b@);
    }
    loop
        invariant
            i <= a_len,
            i <= b_len,
            a_len == a@.len(),
            b_len == b@.len(),
            lex_le(a@, b@) == lex_le(a@.skip(i as int), b@.skip(i as int)),
        decreases a_len - i,
    {
        if i == a_len {
            proof {
                assert(a@.skip(i as int).len() == 0);
            }
            return true;
        }
        if i == b_len {
            proof {
                assert(b@.skip(i as int).len() == 0);
                assert(a@.skip(i as int).len() > 0);
            }
            return false;
        }
        let ca = a.get_char(i);
        let cb = b.get_char(i);
        proof {
            assert(a@.skip(i as int)[0] == a@[i as int]);
            assert(b@.skip(i as int)[0] == b@[i as int]);
        }
        if ca != cb {
            return (ca as u32) < (cb as u32);
        }
        proof {
            assert(a@.skip(i as int).drop_first() =~= a@.skip(i as int + 1));
            assert(b@.skip(i as int).drop_first() =~= b@.skip(i as int + 1));
        }
        i += 1;
    }
}

/// The position at which `x` is inserted into the sorted `out`: every
/// earlier entry is at most `x`, and the entry at the position (if any)
/// is strictly after `x`.
fn insertion_point(out: &Vec<String>, x: &String) -> (j: usize)
    requires
        strings_sorted(out@),
    ensures
        j <= out@.len(),
        forall|t: int| 0 <= t < j ==> lex_le(#[trigger] out@[t]@, x@),
        j < out@.len() ==> !lex_le(out@[j as int]@, x@),
{
    let mut j: usize = 0;
    while j < out.len()
        invariant
            j <= out@.len(),
            forall|t: int| 0 <= t < j ==> lex_le(#[trigger] out@[t]@, x@),
        decreases out@.len() - j,
    {
        if !lex_le_exec(out[j].as_str(), x.as_str()) {
            return j;
        }
        j += 1;
    }
    j
}

/// Every ordered pair of a sorted string sequence is in the order.
proof fn lemma_strings_sorted_pairs(s: Seq<String>, i1: int, i2: int)
    requires
        strings_sorted(s),
        0 <= i1 <= i2 < s.len(),
    ensures
        lex_le(s[i1]@, s[i2]@),
{
    if i1 == i2 {
        lemma_lex_le_refl(s[i1]@);
    } else {
        assert(lex_leq()(views(s)[i1], views(s)[i2]));
    }
}

/// Sorts strings into lexicographic order, keeping exactly the given
/// elements.
pub fn sort_strings(input: Vec<String>) -> (r: Vec<String>)
    ensures
        strings_sorted(r@),
        views(r@).to_multiset() == views(input@).to_multiset(),
{
    broadcast use vstd::seq_lib::group_to_multiset_ensures;
    broadcast use vstd::seq_lib::to_multiset_insert;

    let mut out: Vec<String> = Vec::new();
    let mut k: usize = 0;
    proof {
        assert(views(out@) =~= views(input@.take(0)));
    }
    while k < input.len()
        invariant
            k <= input@.len(),
            strings_sorted(out@),
            views(out@).to_multiset() == views(input@.take(k as int)).to_multiset(),
        decreases input@.len() - k,
    {
        let x = input[k].clone();
        proof {
            assert(x@ == input@[k as int]@);
        }
        let j = insertion_point(&out, &x);
        proof {
            let prev = out@;
            let ji = j as int;
            if ji < prev.len() {
                lemma_lex_le_total(prev[ji]@, x@);
                assert(lex_le(x@, prev[ji]@));
            }
            let inserted = prev.insert(ji, x);
            assert(views(inserted) =~= views(prev).insert(ji, x@));
            assert forall|i1: int, i2: int| 0 <= i1 < i2 < inserted.len()
                implies #[trigger] lex_leq()(views(inserted)[i1], views(inserted)[i2]) by {
                assert(views(inserted)[i1] == inserted[i1]@);
                assert(views(inserted)[i2] == inserted[i2]@);
                if i2 < ji {
                    lemma_strings_sorted_pairs(prev, i1, i2);
                } else if i1 < ji && i2 == ji {
                    lemma_strings_sorted_pairs(prev, i1, ji - 1);
                    lemma_lex_le_transitive(prev[i1]@, prev[ji - 1]@, x@);
                } else if i1 < ji && i2 > ji {
                    lemma_strings_sorted_pairs(prev, i1, i2 - 1);
                } else if i1 == ji {
                    lemma_strings_sorted_pairs(prev, ji, i2 - 1);
                    lemma_lex_le_transitive(x@, prev[ji]@, prev[i2 - 1]@);
                } else {
                    lemma_strings_sorted_pairs(prev, i1 - 1, i2 - 1);
                }
            };
            assert(strings_sorted(inserted));
            vstd::seq_lib::to_multiset_insert::<Seq<char>>(views(prev), ji, x@);
            assert(views(input@.take(k as int + 1)) =~= views(input@.take(k as int)).push(x@));
            vstd::seq_lib::to_multiset_build::<Seq<char>>(views(input@.take(k as int)), x@);
        }
        out.insert(j, x);
        k += 1;
    }
    proof {
        assert(input@.take(input@.len() as int) =~= input@);
    }
    out
}

/// `p` names a file with the given extension: it ends in `.` followed
/// by exactly `ext`.
pub open spec fn has_extension(p: Seq<char>, ext: Seq<char>) -> bool {
    &&& p.len() > ext.len() + 1
    &&& p[p.len() - ext.len() - 1] == '.'
    &&& p.subrange(p.len() - ext.len(), p.len() as int) == ext
}

/// Tests whether a path ends in `.` followed by the given extension.
pub fn has_extension_exec(p: &str, ext: &str) -> (r: bool)
    ensures
        r == has_extension(p@, ext@),
{
    let p_len = p.unicode_len();
    let e_len = ext.unicode_len();
    if p_len <= e_len {
        return false;
    }
    if p_len - e_len < 2 {
        return false;
    }
    if p.get_char(p_len - e_len - 1) != '.' {
        return false;
    }
    let mut i: usize = 0;
    while i < e_len
        invariant
            i <= e_len,
            e_len < p_len,
            p_len == p@.len(),
            e_len == ext@.len(),
            forall|j: int| 0 <= j < i ==> p@[p@.len() - ext@.len() + j] == ext@[j],
        decreases e_len - i,
    {
        if p.get_char(p_len - e_len + i) != ext.get_char(i) {
            proof {
                assert(p@.subrange(p@.len() - ext@.len(), p@.len() as int)[i as int] != ext@[i as int]);
            }
            return false;
        }
        i += 1;
    }
    proof {
        assert(p@.subrange(p@.len() - ext@.len(), p@.len() as int) =~= ext@);
    }
    true
}

/// Keeps, in order, the entries that carry the given extension.
pub fn filter_by_extension(files: Vec<String>, ext: &str) -> (r: Vec<String>)
    ensures
        views(r@) == views(files@).filter(|p: Seq<char>| has_extension(p, ext@)),
        forall|i: int| 0 <= i < r@.len() ==> has_extension(#[trigger] r@[i]@, ext@),
{
    let ghost pred = |p: Seq<char>| has_extension(p, ext@);
    let mut out: Vec<String> = Vec::new();
    let mut k: usize = 0;
    proof {
        reveal(Seq::filter);
        assert(views(out@) =~= Seq::<Seq<char>>::empty());
        assert(views(files@.take(0)) =~= Seq::<Seq<char>>::empty());
        assert(views(files@.take(0)).filter(pred) =~= Seq::<Seq<char>>::empty());
    }
    while k < files.len()
        invariant
            k <= files@.len(),
            views(out@) == views(files@.take(k as int)).filter(|p: Seq<char>| has_extension(p, ext@)),
            forall|i: int| 0 <= i < out@.len() ==> has_extension(#[trigger] out@[i]@, ext@),
        decreases files@.len() - k,
    {
        let x = files[k].clone();
        let keep = has_extension_exec(x.as_str(), ext);
        proof {
            reveal(Seq::filter);
            assert(x@ == files@[k as int]@);
            let vs = views(files@.take(k as int + 1));
            assert(vs =~= views(files@.take(k as int)).push(x@));
            assert(vs.drop_last() =~= views(files@.take(k as int)));
            assert(vs.last() == x@);
            assert(vs.filter(pred) == if pred(x@) {
                vs.drop_last().filter(pred).push(x@)
            } else {
                vs.drop_last().filter(pred)
            });
        }
        if keep {
            let ghost prev = views(out@);
            out.push(x);
            proof {
                assert(views(out@) =~= prev.push(x@));
            }
        }
        k += 1;
    }
    proof {
        assert(files@.take(files@.len() as int) =~= files@);
    }
    out
}

} // verus!
