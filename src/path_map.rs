use vstd::prelude::*;
use vstd::string::*;

use crate::task::FileMover;

verus! {

/// The path separator.
pub open spec fn sep() -> char {
    '/'
}

/// `s` with one trailing separator removed, if it ends in one.
pub open spec fn strip_trailing_sep(s: Seq<char>) -> Seq<char> {
    if s.len() > 0 && s.last() == sep() {
        s.drop_last()
    } else {
        s
    }
}

/// Index at which the last path segment of `s` begins: just after the last
/// separator, or 0 when `s` holds none.
pub open spec fn segment_start(s: Seq<char>) -> nat
    decreases s.len(),
{
    if s.len() == 0 {
        0
    } else if s.last() == sep() {
        s.len()
    } else {
        segment_start(s.drop_last())
    }
}

/// The name of the directory a walk is started from: the last segment of the
/// root path, once one trailing separator is taken off.
pub open spec fn top_level_name(root: Seq<char>) -> Seq<char> {
    let t = strip_trailing_sep(root);
    t.subrange(segment_start(t) as int, t.len() as int)
}

/// Where a file is written: the destination root, then the top-level name,
/// then the file's path relative to the walked root.
pub open spec fn destination_of(
    destination: Seq<char>,
    top_level_dir: Seq<char>,
    relative: Seq<char>,
) -> Seq<char> {
    destination + top_level_dir + relative
}

/// The relative path of entry `name` inside the directory at `relative`.
pub open spec fn child_path(relative: Seq<char>, name: Seq<char>) -> Seq<char> {
    relative + seq![sep()] + name
}

proof fn lemma_segment_start_bounds(s: Seq<char>)
    ensures
        segment_start(s) <= s.len(),
        segment_start(s) > 0 ==> s[segment_start(s) - 1] == sep(),
        forall|i: int| segment_start(s) <= i < s.len() ==> s[i] != sep(),
    decreases s.len(),
{
    if s.len() > 0 && s.last() != sep() {
        lemma_segment_start_bounds(s.drop_last());
        assert forall|i: int| segment_start(s) <= i < s.len() implies s[i] != sep() by {
            if i < s.len() - 1 {
                assert(s[i] == s.drop_last()[i]);
            }
        }
    }
}

/// The last segment of `root`, ignoring one trailing separator.
pub fn get_top_level_dir(root: &str) -> (r: String)
    ensures
        r@ == top_level_name(root@),
        forall|i: int| 0 <= i < r@.len() ==> r@[i] != sep(),
{
    let n = root.unicode_len();
    let mut end = n;
    if n > 0 && root.get_char(n - 1) == '/' {
        end = n - 1;
    }
    let ghost t = strip_trailing_sep(root@);
    assert(t =~= root@.subrange(0, end as int));
    assert(t.subrange(0, end as int) =~= t);
    let mut start = end;
    while start > 0 && root.get_char(start - 1) != '/'
        invariant
            start <= end <= n,
            n == root@.len(),
            t == root@.subrange(0, end as int),
            segment_start(t) == segment_start(t.subrange(0, start as int)),
        decreases start,
    {
        assert(t.subrange(0, start as int).drop_last() =~= t.subrange(0, start - 1));
        start = start - 1;
    }
    assert(segment_start(t.subrange(0, start as int)) == start);
    proof {
        lemma_segment_start_bounds(t);
    }
    let r = String::from_str(root.substring_char(start, end));
    assert(r@ =~= top_level_name(root@));
    r
}

/// The relative path of entry `name` inside the directory at `relative`.
pub fn child_relative(relative: &str, name: &str) -> (r: String)
    ensures
        r@ == child_path(relative@, name@),
{
    let mut r = String::from_str(relative);
    r.append("/");
    r.append(name);
    proof {
        reveal_strlit("/");
    }
    assert(r@ =~= child_path(relative@, name@));
    r
}

/// The copy task for the file at `source_path`, whose path relative to the
/// walked root is `relative`.
pub fn get_file_mover_obj(
    source_path: String,
    destination: &str,
    top_level_dir: &str,
    relative: &str,
) -> (r: FileMover)
    ensures
        r.source_path@ == source_path@,
        r.destination@ == destination_of(destination@, top_level_dir@, relative@),
{
    let mut d = String::from_str(destination);
    d.append(top_level_dir);
    d.append(relative);
    FileMover { source_path, destination: d }
}

} // verus!
