//! Paths as strings: base names, joining, and the bundle predicate.
use vstd::prelude::*;

verus! {

/// Index just past the last `/` of `p`, or 0 when `p` holds none.
pub open spec fn name_start(p: Seq<char>) -> int
    decreases p.len(),
{
    if p.len() == 0 {
        0
    } else if p.last() == '/' {
        p.len() as int
    } else {
        name_start(p.drop_last())
    }
}

/// Whether the last character of `p` ends a `.` component: a `.` that
/// starts `p` or follows a `/`.
pub open spec fn ends_in_cur_dir(p: Seq<char>) -> bool {
    p.len() > 0 && p.last() == '.' && (p.len() == 1 || p[p.len() - 2] == '/')
}

/// Length of `p` once trailing `/` characters and `.` components are
/// dropped: what is left ends in the final named component, if any.
pub open spec fn significant_end(p: Seq<char>) -> int
    decreases p.len(),
{
    if p.len() == 0 {
        0
    } else if p.last() == '/' || ends_in_cur_dir(p) {
        significant_end(p.drop_last())
    } else {
        p.len() as int
    }
}

/// The final component of a path, ignoring trailing separators and `.`
/// components. Empty when there is none, or when it is `..`.
pub open spec fn base_name(p: Seq<char>) -> Seq<char> {
    let q = p.subrange(0, significant_end(p));
    let c = q.subrange(name_start(q), q.len() as int);
    if c == seq!['.', '.'] {
        seq![]
    } else {
        c
    }
}

/// The suffix that marks an application bundle.
pub open spec fn bundle_suffix() -> Seq<char> {
    seq!['.', 'a', 'p', 'p']
}

/// A name denotes a bundle iff its extension is exactly `app`: it ends in
/// `.app` and has something before that dot.
pub open spec fn is_bundle_name(n: Seq<char>) -> bool {
    n.len() > 4 && n.subrange(n.len() - 4, n.len() as int) == bundle_suffix()
}

pub open spec fn is_bundle_path(p: Seq<char>) -> bool {
    is_bundle_name(base_name(p))
}

/// `name` placed inside `dir`, with one separator between them.
pub open spec fn join_path(dir: Seq<char>, name: Seq<char>) -> Seq<char> {
    if dir.len() == 0 || dir.last() == '/' {
        dir + name
    } else {
        dir + seq!['/'] + name
    }
}

pub proof fn lemma_name_start_bounds(p: Seq<char>)
    ensures
        0 <= name_start(p) <= p.len(),
    decreases p.len(),
{
    if p.len() > 0 && p.last() != '/' {
        lemma_name_start_bounds(p.drop_last());
    }
}

/// Joining a name onto a directory is injective in the name.
pub proof fn lemma_join_injective(dir: Seq<char>, a: Seq<char>, b: Seq<char>)
    requires
        join_path(dir, a) == join_path(dir, b),
    ensures
        a == b,
{
    let ja = join_path(dir, a);
    let k = ja.len() - a.len();
    assert(a =~= ja.subrange(k, ja.len() as int));
    assert(b =~= join_path(dir, b).subrange(k, ja.len() as int));
}

pub proof fn lemma_significant_end_bounds(p: Seq<char>)
    ensures
        0 <= significant_end(p) <= p.len(),
    decreases p.len(),
{
    if p.len() > 0 {
        lemma_significant_end_bounds(p.drop_last());
    }
}

fn significant_end_of(p: &str) -> (r: usize)
    ensures
        r == significant_end(p@),
{
    let n = p.unicode_len();
    let mut i: usize = n;
    assert(p@.subrange(0, n as int) =~= p@);
    while i > 0 && (p.get_char(i - 1) == '/' || (p.get_char(i - 1) == '.' && (i == 1 || p.get_char(
        i - 2,
    ) == '/')))
        invariant
            i <= n == p@.len(),
            significant_end(p@) == significant_end(p@.subrange(0, i as int)),
        decreases i,
    {
        assert(p@.subrange(0, i as int).drop_last() =~= p@.subrange(0, i - 1));
        i = i - 1;
    }
    proof {
        let q = p@.subrange(0, i as int);
        if i > 0 {
            assert(q.last() == p@[i - 1]);
            if i > 1 {
                assert(q[q.len() - 2] == p@[i - 2]);
            }
        }
    }
    i
}

/// Index just past the last `/` among the first `end` characters of `p`.
fn name_start_of(p: &str, end: usize) -> (r: usize)
    requires
        end <= p@.len(),
    ensures
        r == name_start(p@.subrange(0, end as int)),
{
    let mut i: usize = end;
    assert(p@.subrange(0, end as int).subrange(0, end as int) =~= p@.subrange(0, end as int));
    while i > 0 && p.get_char(i - 1) != '/'
        invariant
            i <= end <= p@.len(),
            name_start(p@.subrange(0, end as int)) == name_start(p@.subrange(0, i as int)),
        decreases i,
    {
        assert(p@.subrange(0, i as int).drop_last() =~= p@.subrange(0, i - 1));
        i = i - 1;
    }
    proof {
        if i > 0 {
            assert(p@.subrange(0, i as int).last() == '/');
        }
    }
    i
}

/// The final component of `path`.
pub fn base_name_of(path: &str) -> (r: String)
    ensures
        r@ == base_name(path@),
{
    let end = significant_end_of(path);
    proof {
        lemma_significant_end_bounds(path@);
    }
    let start = name_start_of(path, end);
    let ghost q = path@.subrange(0, end as int);
    proof {
        lemma_name_start_bounds(q);
    }
    let c = path.substring_char(start, end);
    assert(c@ =~= q.subrange(name_start(q), q.len() as int));
    if end - start == 2 && path.get_char(start) == '.' && path.get_char(start + 1) == '.' {
        assert(c@ =~= seq!['.', '.']);
        String::new()
    } else {
        proof {
            if c@ == seq!['.', '.'] {
                assert(c@[0] == path@[start as int]);
                assert(c@[1] == path@[start + 1]);
            }
        }
        String::from_str(c)
    }
}

/// Whether a bare entry name denotes a bundle.
pub fn is_bundle_entry(name: &str) -> (r: bool)
    ensures
        r == is_bundle_name(name@),
{
    let n = name.unicode_len();
    if n <= 4 {
        return false;
    }
    let r = name.get_char(n - 4) == '.' && name.get_char(n - 3) == 'a' && name.get_char(n - 2)
        == 'p' && name.get_char(n - 1) == 'p';
    proof {
        let tail = name@.subrange(n - 4, n as int);
        if r {
            assert(tail =~= bundle_suffix());
        } else {
            assert(tail[0] != '.' || tail[1] != 'a' || tail[2] != 'p' || tail[3] != 'p');
        }
    }
    r
}

/// Whether `path` names an application bundle. Purely syntactic: the path
/// need not exist.
pub fn is_app_bundle(path: &str) -> (r: bool)
    ensures
        r == is_bundle_path(path@),
{
    let name = base_name_of(path);
    is_bundle_entry(name.as_str())
}

/// `name` placed inside `dir`.
pub fn join(dir: &str, name: &str) -> (r: String)
    ensures
        r@ == join_path(dir@, name@),
{
    let n = dir.unicode_len();
    let mut r = String::from_str(dir);
    if n > 0 && dir.get_char(n - 1) != '/' {
        r.append("/");
        proof {
            reveal_strlit("/");
        }
    }
    r.append(name);
    r
}

/// The launcher directory that shortcuts are kept in.
pub fn get_applications_dir() -> (r: String)
    ensures
        r@ == "/Applications"@,
{
    String::from_str("/Applications")
}

} // verus!
