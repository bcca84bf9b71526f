//! Lexical handling of Unix paths as the review and approval surfaces show
//! them: components, joining, relative display paths, and the split of a path
//! into its directory and file name.

use vstd::prelude::*;

use crate::text::{append_chars, chars_of, join, opt_chars, string_from, to_owned_string};

verus! {

/// One component of a path, as `Path::components` yields it on Unix.
pub enum PathPart {
    RootDir,
    CurDir,
    ParentDir,
    Normal(Seq<char>),
}

pub open spec fn is_absolute(s: Seq<char>) -> bool {
    s.len() > 0 && s[0] == '/'
}

/// Length of the segment before the first `/`.
pub open spec fn seg_len(s: Seq<char>) -> nat
    decreases s.len(),
{
    if s.len() == 0 || s[0] == '/' {
        0
    } else {
        1 + seg_len(s.drop_first())
    }
}

/// The component a segment contributes: empty segments and `.` vanish.
pub open spec fn part_of(seg: Seq<char>) -> Seq<PathPart> {
    if seg.len() == 0 || seg == seq!['.'] {
        seq![]
    } else if seg == seq!['.', '.'] {
        seq![PathPart::ParentDir]
    } else {
        seq![PathPart::Normal(seg)]
    }
}

pub proof fn lemma_seg_len(s: Seq<char>)
    ensures
        seg_len(s) <= s.len(),
        forall|j: int| 0 <= j < seg_len(s) ==> #[trigger] s[j] != '/',
        seg_len(s) < s.len() ==> s[seg_len(s) as int] == '/',
    decreases s.len(),
{
    if s.len() > 0 && s[0] != '/' {
        lemma_seg_len(s.drop_first());
        assert forall|j: int| 0 <= j < seg_len(s) implies #[trigger] s[j] != '/' by {
            if j > 0 {
                assert(s[j] == s.drop_first()[j - 1]);
            }
        }
    }
}

pub proof fn lemma_seg_len_unique(s: Seq<char>, k: int)
    requires
        0 <= k <= s.len(),
        forall|j: int| 0 <= j < k ==> #[trigger] s[j] != '/',
        k < s.len() ==> s[k] == '/',
    ensures
        seg_len(s) == k,
{
    lemma_seg_len(s);
    if (seg_len(s) as int) < k {
        assert(s[seg_len(s) as int] != '/');
    }
    if (seg_len(s) as int) > k {
        assert(s[k] != '/');
    }
}

/// The non-prefix components of `s`, segment by segment.
pub open spec fn normal_parts(s: Seq<char>) -> Seq<PathPart>
    decreases s.len(),
{
    if s.len() == 0 {
        seq![]
    } else {
        proof {
            lemma_seg_len(s);
        }
        let k = seg_len(s) as int;
        if k < s.len() {
            part_of(s.subrange(0, k)) + normal_parts(s.subrange(k + 1, s.len() as int))
        } else {
            part_of(s)
        }
    }
}

/// `Path::components` on Unix: a leading `/` is the root, a leading `.`
/// segment is kept as the current directory, other `.` segments and empty
/// segments are dropped.
pub open spec fn path_components(s: Seq<char>) -> Seq<PathPart> {
    (if is_absolute(s) {
        seq![PathPart::RootDir]
    } else if s == seq!['.'] || (s.len() >= 2 && s[0] == '.' && s[1] == '/') {
        seq![PathPart::CurDir]
    } else {
        seq![]
    }) + normal_parts(s)
}

/// Textual form of a component when it is pushed onto a relative path.
pub open spec fn part_text(p: PathPart) -> Seq<char> {
    match p {
        PathPart::RootDir => seq!['/'],
        PathPart::CurDir => seq!['.'],
        PathPart::ParentDir => seq!['.', '.'],
        PathPart::Normal(n) => n,
    }
}

/// Length of the longest common prefix of two component lists.
pub open spec fn common_len(a: Seq<PathPart>, b: Seq<PathPart>) -> nat
    decreases a.len(),
{
    if a.len() == 0 || b.len() == 0 || a[0] != b[0] {
        0
    } else {
        1 + common_len(a.drop_first(), b.drop_first())
    }
}

/// Number of components that a relative path must climb out of.
pub open spec fn climb_count(b: Seq<PathPart>) -> nat
    decreases b.len(),
{
    if b.len() == 0 {
        0
    } else {
        climb_count(b.drop_last()) + (if b.last() is Normal || b.last() is ParentDir {
            1nat
        } else {
            0nat
        })
    }
}

/// The segments of the path from `base` to `target`: one `..` per climbed
/// component, then the rest of the target.
pub open spec fn relative_segments(target: Seq<PathPart>, base: Seq<PathPart>) -> Seq<Seq<char>> {
    let c = common_len(target, base) as int;
    Seq::new(climb_count(base.subrange(c, base.len() as int)), |i: int| seq!['.', '.'])
        + target.subrange(c, target.len() as int).map_values(|p: PathPart| part_text(p))
}

/// Lexical relative path from `base` to `target`, when the two share at
/// least their first component.
pub open spec fn lexical_relative(target: Seq<char>, base: Seq<char>) -> Option<Seq<char>> {
    let t = path_components(target);
    let b = path_components(base);
    if common_len(t, b) == 0 {
        None
    } else {
        Some(join(relative_segments(t, b), seq!['/']))
    }
}

/// `base.join(p)` for a relative `p`: a separator is added when `base` does
/// not already end with one.
pub open spec fn join_path(base: Seq<char>, p: Seq<char>) -> Seq<char> {
    if base.len() > 0 && base.last() != '/' {
        base + seq!['/'] + p
    } else {
        base + p
    }
}

/// The filesystem target of a path reported relative to `cwd`.
pub open spec fn resolve_spec(path: Seq<char>, cwd: Option<Seq<char>>) -> Option<Seq<char>> {
    if is_absolute(path) {
        Some(path)
    } else {
        match cwd {
            Some(c) => Some(join_path(c, path)),
            None => None,
        }
    }
}

/// The path a review shows: absolute paths are shown relative to `cwd`
/// when that is possible, other paths exactly as reported.
pub open spec fn display_spec(path: Seq<char>, resolved: Option<Seq<char>>, cwd: Option<
    Seq<char>,
>) -> Seq<char> {
    if !is_absolute(path) {
        path
    } else {
        match (cwd, resolved) {
            (Some(c), Some(r)) => match lexical_relative(r, c) {
                Some(rel) => rel,
                None => path,
            },
            _ => path,
        }
    }
}

/// `Path::file_name`: the last component when it is a normal one.
pub open spec fn file_name(s: Seq<char>) -> Option<Seq<char>> {
    let parts = path_components(s);
    if parts.len() > 0 && parts.last() is Normal {
        Some(parts.last()->Normal_0)
    } else {
        None
    }
}

/// Bytes of the UTF-8 encoding of `c`.
pub open spec fn utf8_width(c: char) -> nat {
    let u = c as u32;
    if u < 0x80 {
        1
    } else if u < 0x800 {
        2
    } else if u < 0x10000 {
        3
    } else {
        4
    }
}

/// Bytes of the UTF-8 encoding of `s` (`str::len`).
pub open spec fn byte_len(s: Seq<char>) -> nat
    decreases s.len(),
{
    if s.len() == 0 {
        0
    } else {
        byte_len(s.drop_last()) + utf8_width(s.last())
    }
}

/// The name shown in bold after the directory: the file name, or the whole
/// path when it has none.
pub open spec fn display_name(path: Seq<char>) -> Seq<char> {
    match file_name(path) {
        Some(n) => n,
        None => path,
    }
}

/// Byte offset where the directory part ends.
pub open spec fn split_byte(path: Seq<char>) -> int {
    let b = byte_len(path) - byte_len(display_name(path));
    if b < 0 {
        0
    } else {
        b
    }
}

/// The byte offset where the directory part ends falls between two
/// characters (otherwise slicing there is not possible).
pub open spec fn splits_on_char_boundary(path: Seq<char>) -> bool {
    exists|k: int| 0 <= k <= path.len() && byte_len(#[trigger] path.subrange(0, k)) == split_byte(path)
}

/// The character index at which the directory part ends.
pub open spec fn split_index(path: Seq<char>) -> int {
    choose|k: int| 0 <= k <= path.len() && byte_len(#[trigger] path.subrange(0, k)) == split_byte(path)
}

pub proof fn lemma_byte_len_prefix_step(s: Seq<char>, k: int)
    requires
        0 <= k < s.len(),
    ensures
        byte_len(s.subrange(0, k + 1)) == byte_len(s.subrange(0, k)) + utf8_width(s[k]),
{
    assert(s.subrange(0, k + 1).drop_last() == s.subrange(0, k));
}

pub proof fn lemma_byte_len_prefix_monotone(s: Seq<char>, i: int, j: int)
    requires
        0 <= i < j <= s.len(),
    ensures
        byte_len(s.subrange(0, i)) < byte_len(s.subrange(0, j)),
    decreases j - i,
{
    lemma_byte_len_prefix_step(s, j - 1);
    if i < j - 1 {
        lemma_byte_len_prefix_monotone(s, i, j - 1);
    }
}

/// Exec form of a component, with normal names as index ranges of the path.
#[derive(Clone, Copy)]
enum Part {
    RootDir,
    CurDir,
    ParentDir,
    Normal(usize, usize),
}

spec fn part_view(p: Part, s: Seq<char>) -> PathPart {
    match p {
        Part::RootDir => PathPart::RootDir,
        Part::CurDir => PathPart::CurDir,
        Part::ParentDir => PathPart::ParentDir,
        Part::Normal(lo, hi) => PathPart::Normal(s.subrange(lo as int, hi as int)),
    }
}

spec fn parts_view(ps: Seq<Part>, s: Seq<char>) -> Seq<PathPart> {
    ps.map_values(|p: Part| part_view(p, s))
}

spec fn parts_in_range(ps: Seq<Part>, len: int) -> bool {
    forall|i: int|
        0 <= i < ps.len() ==> (#[trigger] ps[i] matches Part::Normal(lo, hi) ==> lo <= hi <= len)
}

proof fn lemma_normal_parts_step(s: Seq<char>, pos: int)
    requires
        0 <= pos < s.len(),
    ensures
        ({
            let rest = s.subrange(pos, s.len() as int);
            let k = seg_len(rest) as int;
            &&& k <= rest.len()
            &&& k < rest.len() ==> normal_parts(rest) == part_of(rest.subrange(0, k))
                + normal_parts(s.subrange(pos + k + 1, s.len() as int))
            &&& k == rest.len() ==> normal_parts(rest) == part_of(rest)
        }),
{
    let rest = s.subrange(pos, s.len() as int);
    lemma_seg_len(rest);
    let k = seg_len(rest) as int;
    if k < rest.len() {
        assert(rest.subrange(k + 1, rest.len() as int) == s.subrange(pos + k + 1, s.len() as int));
    }
}

/// The components of `v@`, with normal names as ranges of `v`.
fn components_of(v: &Vec<char>) -> (ps: Vec<Part>)
    ensures
        parts_view(ps@, v@) == path_components(v@),
        parts_in_range(ps@, v@.len() as int),
{
    let ghost s = v@;
    let n = v.len();
    let mut ps: Vec<Part> = Vec::new();
    if n > 0 && v[0] == '/' {
        ps.push(Part::RootDir);
    } else if (n == 1 && v[0] == '.') || (n >= 2 && v[0] == '.' && v[1] == '/') {
        ps.push(Part::CurDir);
        proof {
            if n == 1 {
                assert(s =~= seq!['.']);
            }
        }
    }
    proof {
        assert(parts_view(ps@, s) =~= path_components(s).subrange(
            0,
            path_components(s).len() - normal_parts(s).len(),
        ));
        assert(s.subrange(0, n as int) == s);
    }
    let ghost prefix = parts_view(ps@, s);
    let mut pos: usize = 0;
    while pos < n
        invariant
            s == v@,
            n == v.len(),
            pos <= n,
            parts_in_range(ps@, n as int),
            parts_view(ps@, s) + normal_parts(s.subrange(pos as int, n as int)) == path_components(
                s,
            ),
        decreases n - pos,
    {
        let ghost rest = s.subrange(pos as int, n as int);
        let mut end = pos;
        while end < n && v[end] != '/'
            invariant
                pos <= end <= n,
                n == v.len(),
                forall|j: int| pos <= j < end ==> #[trigger] v@[j] != '/',
            decreases n - end,
        {
            end += 1;
        }
        proof {
            assert forall|j: int| 0 <= j < end - pos implies #[trigger] rest[j] != '/' by {
                assert(rest[j] == s[pos + j]);
            }
            if end < n {
                assert(rest[end - pos] == s[end as int]);
            }
            lemma_seg_len_unique(rest, end - pos);
            lemma_normal_parts_step(s, pos as int);
            assert(rest.subrange(0, end - pos) == s.subrange(pos as int, end as int));
            if end == n {
                assert(rest == s.subrange(pos as int, end as int));
            }
        }
        let ghost before = ps@;
        let len = end - pos;
        if len == 0 || (len == 1 && v[pos] == '.') {
            proof {
                if len == 1 {
                    assert(s.subrange(pos as int, end as int) =~= seq!['.']);
                }
            }
        } else if len == 2 && v[pos] == '.' && v[pos + 1] == '.' {
            ps.push(Part::ParentDir);
            proof {
                assert(s.subrange(pos as int, end as int) =~= seq!['.', '.']);
                assert(!(s.subrange(pos as int, end as int) =~= seq!['.']));
            }
        } else {
            ps.push(Part::Normal(pos, end));
            proof {
                if len == 1 {
                    assert(s.subrange(pos as int, end as int)[0] != '.');
                    assert(!(s.subrange(pos as int, end as int) =~= seq!['.']));
                }
                if len == 2 {
                    assert(!(s.subrange(pos as int, end as int) =~= seq!['.', '.']));
                    assert(!(s.subrange(pos as int, end as int) =~= seq!['.']));
                }
                if len > 2 {
                    assert(s.subrange(pos as int, end as int).len() != seq!['.', '.'].len());
                    assert(s.subrange(pos as int, end as int).len() != seq!['.'].len());
                }
            }
        }
        proof {
            assert(parts_view(ps@, s) =~= parts_view(before, s) + part_of(
                s.subrange(pos as int, end as int),
            ));
            assert forall|i: int| 0 <= i < ps@.len() implies (#[trigger] ps@[i] matches Part::Normal(
                lo,
                hi,
            ) ==> lo <= hi <= n) by {
                if i < before.len() {
                    assert(ps@[i] == before[i]);
                }
            }
        }
        if end == n {
            proof {
                assert(s.subrange(n as int, n as int) =~= Seq::<char>::empty());
                assert(normal_parts(s.subrange(n as int, n as int)) =~= Seq::<PathPart>::empty());
                assert(parts_view(ps@, s) + normal_parts(s.subrange(n as int, n as int))
                    =~= parts_view(ps@, s));
            }
            pos = n;
        } else {
            pos = end + 1;
        }
    }
    proof {
        assert(s.subrange(n as int, n as int) =~= Seq::<char>::empty());
        assert(parts_view(ps@, s) + normal_parts(s.subrange(n as int, n as int)) =~= parts_view(
            ps@,
            s,
        ));
    }
    ps
}

/// Whether two components (of paths `a` and `b`) are equal.
fn part_eq(a: Part, va: &Vec<char>, b: Part, vb: &Vec<char>) -> (r: bool)
    requires
        a matches Part::Normal(lo, hi) ==> lo <= hi <= va.len(),
        b matches Part::Normal(lo, hi) ==> lo <= hi <= vb.len(),
    ensures
        r == (part_view(a, va@) == part_view(b, vb@)),
{
    match (a, b) {
        (Part::RootDir, Part::RootDir) => true,
        (Part::CurDir, Part::CurDir) => true,
        (Part::ParentDir, Part::ParentDir) => true,
        (Part::Normal(alo, ahi), Part::Normal(blo, bhi)) => {
            if ahi - alo != bhi - blo {
                proof {
                    assert(va@.subrange(alo as int, ahi as int).len() != vb@.subrange(
                        blo as int,
                        bhi as int,
                    ).len());
                }
                return false;
            }
            let ghost sa = va@.subrange(alo as int, ahi as int);
            let ghost sb = vb@.subrange(blo as int, bhi as int);
            let mut i: usize = 0;
            while i < ahi - alo
                invariant
                    alo <= ahi <= va.len(),
                    blo <= bhi <= vb.len(),
                    ahi - alo == bhi - blo,
                    a == Part::Normal(alo, ahi),
                    b == Part::Normal(blo, bhi),
                    i <= ahi - alo,
                    sa == va@.subrange(alo as int, ahi as int),
                    sb == vb@.subrange(blo as int, bhi as int),
                    forall|j: int| 0 <= j < i ==> #[trigger] sa[j] == sb[j],
                decreases ahi - alo - i,
            {
                if va[alo + i] != vb[blo + i] {
                    proof {
                        assert(sa[i as int] == va@[alo + i]);
                        assert(sb[i as int] == vb@[blo + i]);
                        assert(sa[i as int] != sb[i as int]);
                        assert(sa != sb);
                    }
                    return false;
                }
                proof {
                    assert(sa[i as int] == va@[alo + i]);
                    assert(sb[i as int] == vb@[blo + i]);
                }
                i += 1;
            }
            proof {
                assert(sa =~= sb);
            }
            true
        },
        _ => false,
    }
}

proof fn lemma_common_len_step(a: Seq<PathPart>, b: Seq<PathPart>, i: int)
    requires
        0 <= i < a.len(),
        i < b.len(),
        forall|j: int| 0 <= j < i ==> a[j] == b[j],
    ensures
        common_len(a, b) >= i,
        a[i] == b[i] ==> common_len(a, b) >= i + 1,
        a[i] != b[i] ==> common_len(a, b) == i,
    decreases i,
{
    if i > 0 {
        assert(a[0] == b[0]);
        lemma_common_len_step(a.drop_first(), b.drop_first(), i - 1);
    }
}

proof fn lemma_common_len_end(a: Seq<PathPart>, b: Seq<PathPart>, i: int)
    requires
        0 <= i,
        i == a.len() || i == b.len(),
        i <= a.len(),
        i <= b.len(),
        forall|j: int| 0 <= j < i ==> a[j] == b[j],
    ensures
        common_len(a, b) == i,
    decreases i,
{
    if i > 0 {
        assert(a[0] == b[0]);
        lemma_common_len_end(a.drop_first(), b.drop_first(), i - 1);
    }
}

proof fn lemma_join_push(parts: Seq<Seq<char>>, sep: Seq<char>, i: int)
    requires
        0 <= i < parts.len(),
    ensures
        join(parts.subrange(0, i + 1), sep) == if i == 0 {
            parts[0]
        } else {
            join(parts.subrange(0, i), sep) + sep + parts[i]
        },
{
    let t = parts.subrange(0, i + 1);
    assert(t.drop_last() == parts.subrange(0, i));
}

proof fn lemma_climb_count_step(b: Seq<PathPart>, c: int, i: int)
    requires
        0 <= c <= i < b.len(),
    ensures
        climb_count(b.subrange(c, i + 1)) == climb_count(b.subrange(c, i)) + (if b[i] is Normal
            || b[i] is ParentDir {
            1nat
        } else {
            0nat
        }),
{
    assert(b.subrange(c, i + 1).drop_last() == b.subrange(c, i));
}

/// Whether two paths are equal as `Path` compares them: component by
/// component, so `a//b`, `a/./b` and `a/b/` all equal `a/b`.
pub open spec fn same_path(a: Seq<char>, b: Seq<char>) -> bool {
    path_components(a) == path_components(b)
}

/// The components of a path's parent: all but the final component, and
/// none when the path is empty or only the root.
pub open spec fn parent_components(s: Seq<char>) -> Option<Seq<PathPart>> {
    let c = path_components(s);
    if c.len() == 0 || c.last() is RootDir {
        None
    } else {
        Some(c.drop_last())
    }
}

/// Whether `a` and `b` are the same path (see `same_path`).
pub fn paths_equal(a: &str, b: &str) -> (r: bool)
    ensures
        r == same_path(a@, b@),
{
    let va = chars_of(a);
    let vb = chars_of(b);
    let pa = components_of(&va);
    let pb = components_of(&vb);
    let ghost ca = parts_view(pa@, va@);
    let ghost cb = parts_view(pb@, vb@);
    if pa.len() != pb.len() {
        proof {
            assert(ca.len() != cb.len());
        }
        return false;
    }
    let mut i: usize = 0;
    while i < pa.len()
        invariant
            i <= pa.len(),
            pa.len() == pb.len(),
            ca == parts_view(pa@, va@),
            cb == parts_view(pb@, vb@),
            ca == path_components(a@),
            cb == path_components(b@),
            parts_in_range(pa@, va@.len() as int),
            parts_in_range(pb@, vb@.len() as int),
            forall|j: int| 0 <= j < i ==> #[trigger] ca[j] == cb[j],
        decreases pa.len() - i,
    {
        proof {
            assert(pa@[i as int] matches Part::Normal(lo, hi) ==> lo <= hi <= va@.len());
            assert(pb@[i as int] matches Part::Normal(lo, hi) ==> lo <= hi <= vb@.len());
        }
        if !part_eq(pa[i], &va, pb[i], &vb) {
            proof {
                assert(ca[i as int] != cb[i as int]);
            }
            return false;
        }
        i += 1;
    }
    proof {
        assert(ca =~= cb);
    }
    true
}

/// Lexical relative path from `base` to `target`.
fn lexical_relative_path(target: &Vec<char>, base: &Vec<char>) -> (r: Option<String>)
    ensures
        r matches Some(s) ==> lexical_relative(target@, base@) == Some(s@),
        r is None <==> lexical_relative(target@, base@) is None,
{
    let t = components_of(target);
    let b = components_of(base);
    let ghost tv = path_components(target@);
    let ghost bv = path_components(base@);
    proof {
        assert(tv.len() == t@.len());
        assert(bv.len() == b@.len());
    }
    let mut common: usize = 0;
    while common < t.len() && common < b.len() && part_eq(t[common], target, b[common], base)
        invariant
            common <= t.len(),
            common <= b.len(),
            parts_view(t@, target@) == tv,
            parts_view(b@, base@) == bv,
            parts_in_range(t@, target@.len() as int),
            parts_in_range(b@, base@.len() as int),
            tv.len() == t@.len(),
            bv.len() == b@.len(),
            forall|j: int| 0 <= j < common ==> tv[j] == bv[j],
        decreases t.len() - common,
    {
        proof {
            assert(tv[common as int] == part_view(t@[common as int], target@));
            assert(bv[common as int] == part_view(b@[common as int], base@));
        }
        common += 1;
    }
    proof {
        if common < t.len() && common < b.len() {
            assert(tv[common as int] == part_view(t@[common as int], target@));
            assert(bv[common as int] == part_view(b@[common as int], base@));
            lemma_common_len_step(tv, bv, common as int);
        } else {
            lemma_common_len_end(tv, bv, common as int);
        }
    }
    if common == 0 {
        return None;
    }
    let ghost segs = relative_segments(tv, bv);
    let mut climbs: usize = 0;
    let mut i = common;
    while i < b.len()
        invariant
            common <= i <= b.len(),
            parts_view(b@, base@) == bv,
            bv.len() == b@.len(),
            climbs <= i - common,
            climbs == climb_count(bv.subrange(common as int, i as int)),
        decreases b.len() - i,
    {
        proof {
            lemma_climb_count_step(bv, common as int, i as int);
            assert(bv[i as int] == part_view(b@[i as int], base@));
        }
        match b[i] {
            Part::Normal(_, _) | Part::ParentDir => {
                climbs += 1;
            },
            _ => {},
        }
        i += 1;
    }
    let mut out = String::new();
    let mut k: usize = 0;
    proof {
        assert(segs.len() == climbs + (tv.len() - common));
        assert(segs.subrange(0, 0) =~= Seq::<Seq<char>>::empty());
    }
    proof {
        reveal_strlit("/");
        reveal_strlit("..");
        reveal_strlit(".");
    }
    while k < climbs
        invariant
            "/"@ == seq!['/'],
            ".."@ == seq!['.', '.'],
            k <= climbs,
            segs == relative_segments(tv, bv),
            segs.len() == climbs + (tv.len() - common),
            climbs == climb_count(bv.subrange(common as int, bv.len() as int)),
            common == common_len(tv, bv),
            out@ == join(segs.subrange(0, k as int), seq!['/']),
        decreases climbs - k,
    {
        proof {
            lemma_join_push(segs, seq!['/'], k as int);
            assert(segs[k as int] == seq!['.', '.']);
        }
        if k > 0 {
            out.append("/");
        }
        out.append("..");
        k += 1;
    }
    let mut j = common;
    while j < t.len()
        invariant
            "/"@ == seq!['/'],
            ".."@ == seq!['.', '.'],
            "."@ == seq!['.'],
            common <= j <= t.len(),
            common >= 1,
            segs == relative_segments(tv, bv),
            segs.len() == climbs + (tv.len() - common),
            tv.len() == t@.len(),
            parts_view(t@, target@) == tv,
            parts_in_range(t@, target@.len() as int),
            climbs == climb_count(bv.subrange(common as int, bv.len() as int)),
            common == common_len(tv, bv),
            out@ == join(segs.subrange(0, climbs + (j - common)), seq!['/']),
        decreases t.len() - j,
    {
        let ghost idx: int = climbs + (j - common);
        proof {
            lemma_join_push(segs, seq!['/'], idx);
            assert(segs[idx] == part_text(tv[j as int]));
            assert(tv[j as int] == part_view(t@[j as int], target@));
        }
        if climbs > 0 || j > common {
            out.append("/");
        }
        match t[j] {
            Part::RootDir => {
                out.append("/");
            },
            Part::CurDir => {
                out.append(".");
            },
            Part::ParentDir => {
                out.append("..");
            },
            Part::Normal(lo, hi) => {
                append_chars(&mut out, target, lo, hi);
            },
        }
        j += 1;
    }
    proof {
        assert(segs.subrange(0, climbs + (t.len() - common)) == segs);
    }
    Some(out)
}

pub(crate) fn join_path_exec(base: &str, p: &str) -> (r: String)
    ensures
        r@ == join_path(base@, p@),
{
    let b = chars_of(base);
    let mut out = to_owned_string(base);
    if b.len() > 0 && b[b.len() - 1] != '/' {
        out.append("/");
        proof {
            reveal_strlit("/");
            assert("/"@ =~= seq!['/']);
        }
    }
    out.append(p);
    out
}

/// The filesystem target of `path`: itself when absolute, otherwise joined
/// onto `cwd` (none without a `cwd`).
pub fn resolve_review_path(path: &str, cwd: Option<&str>) -> (r: Option<String>)
    ensures
        r matches Some(s) ==> resolve_spec(path@, opt_chars(cwd)) == Some(s@),
        r is None <==> resolve_spec(path@, opt_chars(cwd)) is None,
{
    let v = chars_of(path);
    if v.len() > 0 && v[0] == '/' {
        return Some(to_owned_string(path));
    }
    match cwd {
        Some(c) => Some(join_path_exec(c, path)),
        None => None,
    }
}

/// The path a review row shows for `path`.
pub fn review_display_path(path: &str, resolved_path: Option<&str>, cwd: Option<&str>) -> (r:
    String)
    ensures
        r@ == display_spec(path@, opt_chars(resolved_path), opt_chars(cwd)),
{
    let v = chars_of(path);
    if !(v.len() > 0 && v[0] == '/') {
        return to_owned_string(path);
    }
    match (cwd, resolved_path) {
        (Some(c), Some(resolved)) => {
            let rv = chars_of(resolved);
            let cv = chars_of(c);
            match lexical_relative_path(&rv, &cv) {
                Some(rel) => rel,
                None => to_owned_string(path),
            }
        },
        _ => to_owned_string(path),
    }
}

fn utf8_width_exec(c: char) -> (w: usize)
    ensures
        w == utf8_width(c),
{
    let u = c as u32;
    if u < 0x80 {
        1
    } else if u < 0x800 {
        2
    } else if u < 0x10000 {
        3
    } else {
        4
    }
}

/// Byte length of `v[..k]`, for a prefix that fits the address space.
fn prefix_bytes(v: &Vec<char>, k: usize) -> (n: usize)
    requires
        k <= v.len(),
        byte_len(v@.subrange(0, k as int)) <= usize::MAX,
    ensures
        n == byte_len(v@.subrange(0, k as int)),
{
    let mut n: usize = 0;
    let mut i: usize = 0;
    proof {
        assert(v@.subrange(0, 0) =~= Seq::<char>::empty());
    }
    while i < k
        invariant
            i <= k <= v.len(),
            n == byte_len(v@.subrange(0, i as int)),
            byte_len(v@.subrange(0, k as int)) <= usize::MAX,
        decreases k - i,
    {
        proof {
            lemma_byte_len_prefix_step(v@, i as int);
            if i + 1 < k {
                lemma_byte_len_prefix_monotone(v@, (i + 1) as int, k as int);
            }
        }
        n = n + utf8_width_exec(v[i]);
        i += 1;
    }
    n
}

/// The name of `path` as a range of `v`: the last normal component, or the
/// whole path.
fn display_name_range(v: &Vec<char>) -> (r: (usize, usize))
    ensures
        r.0 <= r.1 <= v.len(),
        v@.subrange(r.0 as int, r.1 as int) == display_name(v@),
{
    let ps = components_of(v);
    proof {
        assert(v@.subrange(0, v@.len() as int) == v@);
    }
    if ps.len() == 0 {
        return (0, v.len());
    }
    match ps[ps.len() - 1] {
        Part::Normal(lo, hi) => {
            proof {
                assert(parts_view(ps@, v@).last() == part_view(ps@[ps@.len() - 1], v@));
            }
            (lo, hi)
        },
        _ => {
            proof {
                assert(parts_view(ps@, v@).last() == part_view(ps@[ps@.len() - 1], v@));
            }
            (0, v.len())
        },
    }
}

/// The character index at which the first `split` bytes of `v` end.
fn char_index_at_byte(v: &Vec<char>, split: usize) -> (k: usize)
    requires
        exists|w: int| 0 <= w <= v@.len() && byte_len(#[trigger] v@.subrange(0, w)) == split,
    ensures
        k <= v.len(),
        byte_len(v@.subrange(0, k as int)) == split,
{
    let ghost w = choose|w: int| 0 <= w <= v@.len() && byte_len(#[trigger] v@.subrange(0, w)) == split;
    let mut k: usize = 0;
    let mut cum: usize = 0;
    proof {
        assert(v@.subrange(0, 0) =~= Seq::<char>::empty());
    }
    while cum < split
        invariant
            0 <= w <= v.len(),
            k <= w,
            byte_len(v@.subrange(0, w)) == split,
            cum == byte_len(v@.subrange(0, k as int)),
        decreases w - k,
    {
        proof {
            if k == w {
                assert(false);
            }
            lemma_byte_len_prefix_step(v@, k as int);
            if k + 1 < w {
                lemma_byte_len_prefix_monotone(v@, k + 1, w);
            }
        }
        cum = cum + utf8_width_exec(v[k]);
        k += 1;
    }
    proof {
        if k < w {
            lemma_byte_len_prefix_monotone(v@, k as int, w);
        }
    }
    k
}

/// Splits a path into the directory shown in regular weight and the file
/// name shown in bold. The split falls where the file name's byte length,
/// counted from the end of the path, begins.
pub fn split_directory_and_name(path: &str) -> (r: (&str, &str))
    requires
        splits_on_char_boundary(path@),
        byte_len(path@) <= usize::MAX,
    ensures
        r.0@ == path@.subrange(0, split_index(path@)),
        r.1@ == path@.subrange(split_index(path@), path@.len() as int),
{
    let v = chars_of(path);
    let (lo, hi) = display_name_range(&v);
    proof {
        assert(v@.subrange(0, v@.len() as int) == v@);
        byte_len_suffix_bound(v@, lo as int, hi as int);
    }
    let total = prefix_bytes(&v, v.len());
    let name_bytes = byte_len_range(&v, lo, hi);
    let split = total.saturating_sub(name_bytes);
    let k = char_index_at_byte(&v, split);
    let dir = path.substring_char(0, k);
    let name = path.substring_char(k, v.len());
    proof {
        let w = split_index(path@);
        if w < k {
            lemma_byte_len_prefix_monotone(v@, w, k as int);
        } else if w > k {
            lemma_byte_len_prefix_monotone(v@, k as int, w);
        }
    }
    (dir, name)
}

proof fn byte_len_suffix_bound(s: Seq<char>, lo: int, hi: int)
    requires
        0 <= lo <= hi <= s.len(),
    ensures
        byte_len(s.subrange(lo, hi)) <= byte_len(s),
{
    byte_len_range_le_prefix(s, lo, hi);
    if hi < s.len() {
        lemma_byte_len_prefix_monotone(s, hi, s.len() as int);
    }
    assert(s.subrange(0, s.len() as int) == s);
}

proof fn byte_len_range_le_prefix(s: Seq<char>, lo: int, hi: int)
    requires
        0 <= lo <= hi <= s.len(),
    ensures
        byte_len(s.subrange(lo, hi)) <= byte_len(s.subrange(0, hi)),
    decreases hi - lo,
{
    if lo < hi {
        assert(s.subrange(lo, hi).drop_last() == s.subrange(lo, hi - 1));
        byte_len_range_le_prefix(s, lo, hi - 1);
        lemma_byte_len_prefix_step(s, hi - 1);
    }
}

/// Byte length of `v[lo..hi]`.
fn byte_len_range(v: &Vec<char>, lo: usize, hi: usize) -> (n: usize)
    requires
        lo <= hi <= v.len(),
        byte_len(v@) <= usize::MAX,
    ensures
        n == byte_len(v@.subrange(lo as int, hi as int)),
{
    let mut n: usize = 0;
    let mut i = lo;
    proof {
        assert(v@.subrange(lo as int, lo as int) =~= Seq::<char>::empty());
    }
    while i < hi
        invariant
            lo <= i <= hi <= v.len(),
            n == byte_len(v@.subrange(lo as int, i as int)),
            byte_len(v@) <= usize::MAX,
        decreases hi - i,
    {
        proof {
            assert(v@.subrange(lo as int, i + 1).drop_last() == v@.subrange(lo as int, i as int));
            byte_len_suffix_bound(v@, lo as int, i + 1);
        }
        n = n + utf8_width_exec(v[i]);
        i += 1;
    }
    n
}

/// The file name of `v@` as a range of `v` (see `file_name`).
pub fn file_name_range(v: &Vec<char>) -> (r: Option<(usize, usize)>)
    ensures
        match r {
            Some((lo, hi)) => lo <= hi <= v.len() && file_name(v@) == Some(
                v@.subrange(lo as int, hi as int),
            ),
            None => file_name(v@) is None,
        },
{
    let ps = components_of(v);
    if ps.len() == 0 {
        return None;
    }
    proof {
        assert(parts_view(ps@, v@).last() == part_view(ps@[ps@.len() - 1], v@));
    }
    match ps[ps.len() - 1] {
        Part::Normal(lo, hi) => {
            proof {
                assert(parts_in_range(ps@, v@.len() as int));
            }
            Some((lo, hi))
        },
        _ => None,
    }
}

/// Index of the last `c` in `s`.
pub open spec fn last_index_of(s: Seq<char>, c: char) -> Option<int>
    decreases s.len(),
{
    if s.len() == 0 {
        None
    } else if s.last() == c {
        Some(s.len() - 1)
    } else {
        last_index_of(s.drop_last(), c)
    }
}

/// `Path::extension`: what follows the last `.` of the file name, unless
/// that dot starts the name.
pub open spec fn extension(path: Seq<char>) -> Option<Seq<char>> {
    match file_name(path) {
        None => None,
        Some(name) => match last_index_of(name, '.') {
            Some(k) => if k == 0 {
                None
            } else {
                Some(name.subrange(k + 1, name.len() as int))
            },
            None => None,
        },
    }
}

/// The extension of `path` as a range of `v` (`v@ == path@`).
pub fn extension_range(v: &Vec<char>) -> (r: Option<(usize, usize)>)
    ensures
        match r {
            Some((lo, hi)) => lo <= hi <= v.len() && extension(v@) == Some(
                v@.subrange(lo as int, hi as int),
            ),
            None => extension(v@) is None,
        },
{
    let (lo, hi) = match file_name_range(v) {
        Some(r) => r,
        None => {
            return None;
        },
    };
    let ghost name = v@.subrange(lo as int, hi as int);
    let mut k = hi;
    proof {
        assert(name.subrange(0, hi - lo) =~= name);
    }
    while k > lo && v[k - 1] != '.'
        invariant
            lo <= k <= hi <= v.len(),
            name == v@.subrange(lo as int, hi as int),
            last_index_of(name, '.') == last_index_of(name.subrange(0, k - lo), '.'),
        decreases k - lo,
    {
        proof {
            let pre = name.subrange(0, k - lo);
            assert(pre.last() == v@[k - 1]);
            assert(pre.drop_last() =~= name.subrange(0, k - 1 - lo));
        }
        k -= 1;
    }
    proof {
        assert(name.subrange(0, hi - lo) =~= name);
    }
    if k == lo {
        proof {
            assert(name.subrange(0, 0) =~= Seq::<char>::empty());
        }
        return None;
    }
    proof {
        let pre = name.subrange(0, k - lo);
        assert(pre.last() == v@[k - 1]);
        assert(last_index_of(pre, '.') == Some(k - 1 - lo));
    }
    if k - 1 == lo {
        return None;
    }
    proof {
        assert(name.subrange(k - lo, name.len() as int) =~= v@.subrange(k as int, hi as int));
    }
    Some((k, hi))
}

} // verus!
