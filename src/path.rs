//! Paths as byte strings: the file name, the parent directory, the split of a
//! name into stem and extension, and the join of a directory and a name.
//!
//! A path is the bytes that name it, components separated by `/`. Trailing
//! separators are ignored (a path of separators alone is the root), and a last
//! component that is empty, `.` or `..` is no file name.
use vstd::prelude::*;

verus! {

/// The separator of path components, `/`.
pub const SEPARATOR: u8 = 0x2f;

/// The byte that opens an extension, `.`.
pub const DOT: u8 = 0x2e;

/// Index of the last `b` in `s`, or -1 when there is none.
pub open spec fn last_index(s: Seq<u8>, b: u8) -> int
    decreases s.len(),
{
    if s.len() == 0 {
        -1
    } else if s.last() == b {
        s.len() - 1
    } else {
        last_index(s.drop_last(), b)
    }
}

/// `p` without its trailing separators; a run of separators keeps the first.
pub open spec fn trimmed(p: Seq<u8>) -> Seq<u8>
    decreases p.len(),
{
    if p.len() > 1 && p.last() == SEPARATOR {
        trimmed(p.drop_last())
    } else {
        p
    }
}

/// The last component of a path, which may be empty.
pub open spec fn last_component(p: Seq<u8>) -> Seq<u8> {
    let t = trimmed(p);
    t.subrange(last_index(t, SEPARATOR) + 1, t.len() as int)
}

/// The file name of a path: its last component, unless that is empty, `.` or
/// `..`.
pub open spec fn name_of(p: Seq<u8>) -> Option<Seq<u8>> {
    let c = last_component(p);
    if c.len() == 0 || c == seq![DOT] || c == seq![DOT, DOT] {
        None
    } else {
        Some(c)
    }
}

/// The directory a path stands in: what precedes its last component. The
/// empty path and the root have none; a single component stands in the empty
/// path.
pub open spec fn parent_of(p: Seq<u8>) -> Option<Seq<u8>> {
    let t = trimmed(p);
    let k = last_index(t, SEPARATOR);
    if t.len() == 0 || t == seq![SEPARATOR] {
        None
    } else if k < 0 {
        Some(Seq::empty())
    } else if k == 0 {
        Some(seq![SEPARATOR])
    } else {
        Some(t.subrange(0, k))
    }
}

/// Where the extension of a file name begins: at its last `.`, unless that is
/// the first byte or there is none (then at the end, and it is empty).
pub open spec fn ext_start(n: Seq<u8>) -> int {
    let k = last_index(n, DOT);
    if k <= 0 {
        n.len() as int
    } else {
        k
    }
}

/// The stem of a file name: all before its extension.
pub open spec fn stem_of(n: Seq<u8>) -> Seq<u8> {
    n.subrange(0, ext_start(n))
}

/// The extension of a file name with its `.`, or empty.
pub open spec fn ext_of(n: Seq<u8>) -> Seq<u8> {
    n.subrange(ext_start(n), n.len() as int)
}

/// `name` placed in the directory `dir`.
pub open spec fn joined(dir: Seq<u8>, name: Seq<u8>) -> Seq<u8> {
    if dir.len() == 0 {
        name
    } else if dir.last() == SEPARATOR {
        dir + name
    } else {
        dir + seq![SEPARATOR] + name
    }
}

proof fn lemma_last_index_bounds(s: Seq<u8>, b: u8)
    ensures
        -1 <= last_index(s, b) < s.len(),
        last_index(s, b) >= 0 ==> s[last_index(s, b)] == b,
    decreases s.len(),
{
    if s.len() > 0 && s.last() != b {
        lemma_last_index_bounds(s.drop_last(), b);
    }
}

proof fn lemma_trimmed_len(p: Seq<u8>)
    ensures
        trimmed(p).len() <= p.len(),
        p.len() > 0 ==> trimmed(p).len() > 0,
        trimmed(p) == p.subrange(0, trimmed(p).len() as int),
    decreases p.len(),
{
    if p.len() > 1 && p.last() == SEPARATOR {
        lemma_trimmed_len(p.drop_last());
        assert(p.drop_last().subrange(0, trimmed(p).len() as int) =~= p.subrange(
            0,
            trimmed(p).len() as int,
        ));
    } else {
        assert(p.subrange(0, p.len() as int) =~= p);
    }
}

/// The bytes of `s` from `from` up to `to`.
pub fn copy_range(s: &[u8], from: usize, to: usize) -> (r: Vec<u8>)
    requires
        from <= to <= s@.len(),
    ensures
        r@ == s@.subrange(from as int, to as int),
{
    let mut r: Vec<u8> = Vec::new();
    let mut i: usize = from;
    while i < to
        invariant
            from <= i <= to <= s@.len(),
            r@ == s@.subrange(from as int, i as int),
        decreases to - i,
    {
        r.push(s[i]);
        i = i + 1;
        assert(r@ =~= s@.subrange(from as int, i as int));
    }
    r
}

/// A copy of the bytes of `s`.
pub fn copy_bytes(s: &[u8]) -> (r: Vec<u8>)
    ensures
        r@ == s@,
{
    assert(s@.subrange(0, s@.len() as int) =~= s@);
    copy_range(s, 0, s.len())
}

/// Index of the last `b` in `s`.
fn find_last(s: &[u8], b: u8) -> (r: Option<usize>)
    ensures
        match r {
            Some(k) => k == last_index(s@, b),
            None => last_index(s@, b) == -1,
        },
{
    let mut i: usize = s.len();
    assert(s@.subrange(0, i as int) =~= s@);
    while i > 0
        invariant
            0 <= i <= s@.len(),
            last_index(s@.subrange(0, i as int), b) == last_index(s@, b),
        decreases i,
    {
        if s[i - 1] == b {
            return Some(i - 1);
        }
        assert(s@.subrange(0, i as int).drop_last() =~= s@.subrange(0, i - 1));
        i = i - 1;
    }
    None
}

/// Length of `p` without its trailing separators.
fn trimmed_len(p: &[u8]) -> (n: usize)
    ensures
        n <= p@.len(),
        trimmed(p@) == p@.subrange(0, n as int),
{
    let mut n: usize = p.len();
    assert(p@.subrange(0, n as int) =~= p@);
    while n > 1 && p[n - 1] == SEPARATOR
        invariant
            0 <= n <= p@.len(),
            trimmed(p@) == trimmed(p@.subrange(0, n as int)),
        decreases n,
    {
        assert(p@.subrange(0, n as int).drop_last() =~= p@.subrange(0, n - 1));
        n = n - 1;
    }
    n
}

/// Start and end of the last component of `p`.
fn last_component_range(p: &[u8]) -> (r: (usize, usize))
    ensures
        r.0 <= r.1 <= p@.len(),
        p@.subrange(r.0 as int, r.1 as int) == last_component(p@),
        trimmed(p@) == p@.subrange(0, r.1 as int),
        r.0 as int == last_index(trimmed(p@), SEPARATOR) + 1,
{
    let n = trimmed_len(p);
    let t = copy_range(p, 0, n);
    proof {
        lemma_last_index_bounds(t@, SEPARATOR);
    }
    let start = match find_last(t.as_slice(), SEPARATOR) {
        Some(k) => k + 1,
        None => 0,
    };
    assert(p@.subrange(start as int, n as int) =~= t@.subrange(start as int, n as int));
    (start, n)
}

/// The file name of `p`, if it has one.
pub fn file_name(p: &[u8]) -> (r: Option<Vec<u8>>)
    ensures
        match r {
            Some(n) => name_of(p@) == Some(n@),
            None => name_of(p@) is None,
        },
{
    let (start, end) = last_component_range(p);
    let c = copy_range(p, start, end);
    if c.len() == 0 || (c.len() == 1 && c[0] == DOT) || (c.len() == 2 && c[0] == DOT && c[1]
        == DOT) {
        assert(c.len() == 1 && c[0] == DOT ==> c@ =~= seq![DOT]);
        assert(c.len() == 2 && c[0] == DOT && c[1] == DOT ==> c@ =~= seq![DOT, DOT]);
        None
    } else {
        assert(c@ != seq![DOT]) by {
            if c@ == seq![DOT] {
                assert(c@.len() == 1 && c@[0] == DOT);
            }
        }
        assert(c@ != seq![DOT, DOT]) by {
            if c@ == seq![DOT, DOT] {
                assert(c@.len() == 2 && c@[0] == DOT && c@[1] == DOT);
            }
        }
        Some(c)
    }
}

/// The last component of `p`, which may be empty.
pub fn last_name(p: &[u8]) -> (r: Vec<u8>)
    ensures
        r@ == last_component(p@),
{
    let (start, end) = last_component_range(p);
    copy_range(p, start, end)
}

/// The directory that `p` stands in, if it has one.
pub fn parent(p: &[u8]) -> (r: Option<Vec<u8>>)
    ensures
        match r {
            Some(d) => parent_of(p@) == Some(d@),
            None => parent_of(p@) is None,
        },
{
    let (start, end) = last_component_range(p);
    let ghost t = trimmed(p@);
    if end == 0 || (end == 1 && p[0] == SEPARATOR) {
        assert(end == 1 && p[0] == SEPARATOR ==> t =~= seq![SEPARATOR]);
        return None;
    }
    assert(t != seq![SEPARATOR]) by {
        if t == seq![SEPARATOR] {
            assert(t.len() == 1 && t[0] == SEPARATOR);
        }
    }
    if start == 0 {
        Some(Vec::new())
    } else if start == 1 {
        let mut d: Vec<u8> = Vec::new();
        d.push(SEPARATOR);
        proof {
            lemma_last_index_bounds(t, SEPARATOR);
        }
        assert(d@ =~= seq![SEPARATOR]);
        Some(d)
    } else {
        let d = copy_range(p, 0, start - 1);
        assert(d@ =~= t.subrange(0, start - 1));
        Some(d)
    }
}

/// The stem and the extension (with its `.`, or empty) of the file name `n`.
pub fn split_name(n: &[u8]) -> (r: (Vec<u8>, Vec<u8>))
    ensures
        r.0@ == stem_of(n@),
        r.1@ == ext_of(n@),
{
    proof {
        lemma_last_index_bounds(n@, DOT);
    }
    let k = match find_last(n, DOT) {
        Some(k) => if k == 0 {
            n.len()
        } else {
            k
        },
        None => n.len(),
    };
    (copy_range(n, 0, k), copy_range(n, k, n.len()))
}

/// `name` placed in the directory `dir`.
pub fn join(dir: &[u8], name: &[u8]) -> (r: Vec<u8>)
    ensures
        r@ == joined(dir@, name@),
{
    let mut r = copy_range(dir, 0, dir.len());
    assert(dir@.subrange(0, dir@.len() as int) =~= dir@);
    if dir.len() > 0 && dir[dir.len() - 1] != SEPARATOR {
        r.push(SEPARATOR);
    }
    crate::bytes::push_bytes(&mut r, name);
    r
}

} // verus!
