//! The mathematical model of paths: joining, descendant tests and
//! prefix substitution (host root to container root).
//!
//! A path is modelled as its sequence of characters. Joining appends a
//! single `/` separator; a path is a strict descendant of a root when it
//! is the root, then `/`, then a non-empty suffix. Translation replaces
//! the root prefix of a strict descendant and keeps the suffix exactly.

use vstd::prelude::*;

verus! {

/// The characters of `a`, a single separator, then the characters of `b`.
pub open spec fn path_join(a: Seq<char>, b: Seq<char>) -> Seq<char> {
    a + seq!['/'] + b
}

/// `p` lies strictly below `root`: it is `root`, a separator, and a
/// non-empty suffix.
pub open spec fn is_strict_descendant(p: Seq<char>, root: Seq<char>) -> bool {
    &&& p.len() > root.len() + 1
    &&& p.subrange(0, root.len() as int) == root
    &&& p[root.len() as int] == '/'
}

/// The suffix of `p` relative to `root`, without the separator.
pub open spec fn suffix_under(p: Seq<char>, root: Seq<char>) -> Seq<char> {
    p.subrange(root.len() as int + 1, p.len() as int)
}

/// A strict descendant is exactly its root joined with its suffix.
pub proof fn lemma_descendant_is_join_of_suffix(p: Seq<char>, root: Seq<char>)
    requires
        is_strict_descendant(p, root),
    ensures
        path_join(root, suffix_under(p, root)) == p,
{
    assert(path_join(root, suffix_under(p, root)) =~= p);
}

/// Joining a non-empty suffix always produces a strict descendant.
pub proof fn lemma_join_is_strict_descendant(root: Seq<char>, suffix: Seq<char>)
    requires
        suffix.len() > 0,
    ensures
        is_strict_descendant(path_join(root, suffix), root),
        suffix_under(path_join(root, suffix), root) == suffix,
{
    assert(path_join(root, suffix).subrange(0, root.len() as int) =~= root);
    assert(suffix_under(path_join(root, suffix), root) =~= suffix);
}

/// Joining is associative: grouping does not change the path.
pub proof fn lemma_path_join_assoc(a: Seq<char>, b: Seq<char>, c: Seq<char>)
    ensures
        path_join(path_join(a, b), c) == path_join(a, path_join(b, c)),
{
    assert(path_join(path_join(a, b), c) =~= path_join(a, path_join(b, c)));
}

/// Joins two path fragments with a single separator between them.
pub fn join_path(a: &str, b: &str) -> (r: String)
    ensures
        r@ == path_join(a@, b@),
{
    let mut s = a.to_owned();
    s.append("/");
    s.append(b);
    proof {
        reveal_strlit("/");
        assert(s@ =~= path_join(a@, b@));
    }
    s
}

/// Re-roots `path` from `root` to `target`: checks that `path` is a
/// strict descendant of `root` and replaces that prefix by `target`,
/// keeping the suffix exactly. Returns `None` for any path that is not
/// a strict descendant: translation never invents an unrelated path.
pub fn translate_prefix(path: &str, root: &str, target: &str) -> (r: Option<String>)
    ensures
        r is Some <==> is_strict_descendant(path@, root@),
        r matches Some(s) ==> s@ == path_join(target@, suffix_under(path@, root@)),
{
    let p_len = path.unicode_len();
    let root_len = root.unicode_len();
    if p_len <= root_len {
        return None;
    }
    if p_len - root_len < 2 {
        return None;
    }
    if path.get_char(root_len) != '/' {
        return None;
    }
    let mut i: usize = 0;
    while i < root_len
        invariant
            i <= root_len,
            root_len < p_len,
            p_len == path@.len(),
            root_len == root@.len(),
            forall|j: int| 0 <= j < i ==> path@[j] == root@[j],
        decreases root_len - i,
    {
        if path.get_char(i) != root.get_char(i) {
            proof {
                assert(path@.subrange(0, root@.len() as int)[i as int] != root@[i as int]);
            }
            return None;
        }
        i += 1;
    }
    proof {
        assert(path@.subrange(0, root@.len() as int) =~= root@);
    }
    let suffix = path.substring_char(root_len + 1, p_len);
    Some(join_path(target, suffix))
}

/// The final path segment: the longest suffix free of separators.
pub open spec fn file_name_of(p: Seq<char>) -> Seq<char>
    decreases p.len(),
{
    if p.len() == 0 {
        Seq::empty()
    } else if p.last() == '/' {
        Seq::empty()
    } else {
        file_name_of(p.drop_last()).push(p.last())
    }
}

/// The index of the last `.` in `name`, or `-1` if there is none.
pub open spec fn last_dot_index(name: Seq<char>) -> int
    decreases name.len(),
{
    if name.len() == 0 {
        -1
    } else if name.last() == '.' {
        name.len() - 1
    } else {
        last_dot_index(name.drop_last())
    }
}

/// The stem of a file name: what stands before its last `.`, except
/// that a name whose only `.` is its first character keeps itself whole.
pub open spec fn stem_of(name: Seq<char>) -> Seq<char> {
    if last_dot_index(name) >= 1 {
        name.take(last_dot_index(name))
    } else {
        name
    }
}

/// A suffix that starts after a separator (or at the start) and is
/// itself free of separators is the file name.
proof fn lemma_file_name_is_clean_suffix(p: Seq<char>, cut: int)
    requires
        0 <= cut <= p.len(),
        cut > 0 ==> p[cut - 1] == '/',
        forall|j: int| cut <= j < p.len() ==> p[j] != '/',
    ensures
        file_name_of(p) == p.subrange(cut, p.len() as int),
    decreases p.len(),
{
    if cut == p.len() {
        assert(p.subrange(cut, p.len() as int) =~= Seq::empty());
    } else {
        assert(p.last() != '/');
        lemma_file_name_is_clean_suffix(p.drop_last(), cut);
        assert(p.drop_last().subrange(cut, p.len() - 1).push(p.last()) =~= p.subrange(
            cut,
            p.len() as int,
        ));
    }
}

/// If `name[k]` is a dot and nothing after it is, `k` is the last dot.
proof fn lemma_last_dot_at(name: Seq<char>, k: int)
    requires
        0 <= k < name.len(),
        name[k] == '.',
        forall|j: int| k < j < name.len() ==> name[j] != '.',
    ensures
        last_dot_index(name) == k,
    decreases name.len(),
{
    if k < name.len() - 1 {
        lemma_last_dot_at(name.drop_last(), k);
    }
}

/// If `name` holds no dot at all, there is no last dot.
proof fn lemma_no_dot(name: Seq<char>)
    requires
        forall|j: int| 0 <= j < name.len() ==> name[j] != '.',
    ensures
        last_dot_index(name) == -1,
    decreases name.len(),
{
    if name.len() > 0 {
        lemma_no_dot(name.drop_last());
    }
}

/// The final path segment of `p`, as Rust's path handling reads it for
/// separator-free segments.
pub fn file_name_exec(p: &str) -> (r: String)
    ensures
        r@ == file_name_of(p@),
{
    let len = p.unicode_len();
    let mut cut: usize = len;
    while cut > 0
        invariant
            cut <= len,
            len == p@.len(),
            forall|j: int| cut <= j < p@.len() ==> p@[j] != '/',
        decreases cut,
    {
        if p.get_char(cut - 1) == '/' {
            proof {
                lemma_file_name_is_clean_suffix(p@, cut as int);
            }
            let tail = p.substring_char(cut, len);
            return tail.to_owned();
        }
        cut -= 1;
    }
    proof {
        lemma_file_name_is_clean_suffix(p@, 0);
    }
    let tail = p.substring_char(0, len);
    tail.to_owned()
}

/// The stem of a file name: what stands before its last `.`, except
/// that a leading dot alone does not open an extension.
pub fn stem_exec(name: &str) -> (r: String)
    ensures
        r@ == stem_of(name@),
{
    let len = name.unicode_len();
    let mut i: usize = len;
    while i > 0
        invariant
            i <= len,
            len == name@.len(),
            forall|j: int| i <= j < name@.len() ==> name@[j] != '.',
        decreases i,
    {
        if name.get_char(i - 1) == '.' {
            proof {
                lemma_last_dot_at(name@, i - 1);
            }
            if i - 1 >= 1 {
                let head = name.substring_char(0, i - 1);
                proof {
                    assert(name@.subrange(0, i - 1) =~= name@.take(i - 1));
                }
                return head.to_owned();
            }
            return name.to_owned();
        }
        i -= 1;
    }
    proof {
        lemma_no_dot(name@);
    }
    name.to_owned()
}

} // verus!
