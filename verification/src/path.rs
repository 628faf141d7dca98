//! Unix paths as strings: joining, components, prefixes and file names, as
//! `std::path::Path` defines them.
use crate::text::{first_index, lemma_first_index_bounds, lemma_first_index_is, split_on};
use crate::text::{chars_of, owned, push_char, push_str, string_from};
use vstd::prelude::*;

verus! {

/// `PathBuf::push` on Unix: an absolute `part` replaces `base`; otherwise a
/// separator is added unless `base` is empty or already ends with one.
pub open spec fn join_path(base: Seq<char>, part: Seq<char>) -> Seq<char> {
    if part.len() > 0 && part[0] == '/' {
        part
    } else if base.len() == 0 {
        part
    } else if base.last() == '/' {
        base + part
    } else {
        base + seq!['/'] + part
    }
}

/// `Path::is_absolute` on Unix.
pub open spec fn is_absolute(p: Seq<char>) -> bool {
    p.len() > 0 && p[0] == '/'
}

/// The segments between separators that name something: empty segments and
/// `.` are dropped.
pub open spec fn keep_segments(segs: Seq<Seq<char>>) -> Seq<Seq<char>>
    decreases segs.len(),
{
    if segs.len() == 0 {
        seq![]
    } else {
        let rest = keep_segments(segs.drop_first());
        let h = segs[0];
        if h.len() == 0 || h == seq!['.'] {
            rest
        } else {
            seq![h] + rest
        }
    }
}

/// `Path::components` on Unix, each component by its text: the root is
/// `"/"`, a leading current-directory component is `"."`.
pub open spec fn components(p: Seq<char>) -> Seq<Seq<char>> {
    let segs = split_on(p, '/');
    if is_absolute(p) {
        seq![seq!['/']] + keep_segments(segs)
    } else if segs[0] == seq!['.'] {
        seq![seq!['.']] + keep_segments(segs.drop_first())
    } else {
        keep_segments(segs)
    }
}

/// `Path::starts_with`: the components of `base` begin those of `p`.
pub open spec fn path_starts_with(p: Seq<char>, base: Seq<char>) -> bool {
    let a = components(p);
    let b = components(base);
    b.len() <= a.len() && a.subrange(0, b.len() as int) == b
}

/// `Path::file_name`: the last component when it names something.
pub open spec fn file_name(p: Seq<char>) -> Option<Seq<char>> {
    let c = components(p);
    if c.len() == 0 {
        None
    } else {
        let l = c.last();
        if l == seq!['/'] || l == seq!['.'] || l == seq!['.', '.'] {
            None
        } else {
            Some(l)
        }
    }
}

pub proof fn lemma_split_on_nonempty(s: Seq<char>, c: char)
    ensures
        split_on(s, c).len() >= 1,
    decreases s.len(),
{
    lemma_first_index_bounds(s, c);
}

/// `Path::new(base).join(part)` as a string.
pub fn join(base: &str, part: &str) -> (r: String)
    ensures
        r@ == join_path(base@, part@),
{
    let b = chars_of(base);
    let p = chars_of(part);
    if p.len() > 0 && p[0] == '/' {
        return owned(part);
    }
    if b.len() == 0 {
        return owned(part);
    }
    let mut r = owned(base);
    if b[b.len() - 1] != '/' {
        push_char(&mut r, '/');
    }
    push_str(&mut r, part);
    r
}

/// Ranges of the pieces of `cs` between occurrences of `c` (`str::split`).
pub fn split_ranges(cs: &Vec<char>, c: char) -> (r: Vec<(usize, usize)>)
    ensures
        r@.len() == split_on(cs@, c).len(),
        forall|k: int| 0 <= k < r@.len() ==> (#[trigger] r@[k]).0 <= r@[k].1 <= cs@.len(),
        forall|k: int|
            0 <= k < r@.len() ==> #[trigger] split_on(cs@, c)[k] == cs@.subrange(
                r@[k].0 as int,
                r@[k].1 as int,
            ),
{
    let ghost s = cs@;
    let n = cs.len();
    let mut r: Vec<(usize, usize)> = Vec::new();
    let mut pos: usize = 0;
    assert(s.subrange(0, n as int) == s);
    loop
        invariant
            n == cs.len(),
            s == cs@,
            pos <= n,
            r@.len() + split_on(s.subrange(pos as int, n as int), c).len() == split_on(s, c).len(),
            forall|k: int| 0 <= k < r@.len() ==> (#[trigger] r@[k]).0 <= r@[k].1 <= n,
            forall|k: int|
                0 <= k < r@.len() ==> #[trigger] split_on(s, c)[k] == s.subrange(
                    r@[k].0 as int,
                    r@[k].1 as int,
                ),
            forall|k: int|
                0 <= k < split_on(s.subrange(pos as int, n as int), c).len() ==> split_on(s, c)[r@.len() + k]
                    == #[trigger] split_on(s.subrange(pos as int, n as int), c)[k],
        decreases n - pos,
    {
        let ghost rest = s.subrange(pos as int, n as int);
        let ghost old_r = r@;
        let mut i = pos;
        while i < n && cs[i] != c
            invariant
                pos <= i <= n,
                n == cs.len(),
                forall|j: int| pos <= j < i ==> cs@[j] != c,
            decreases n - i,
        {
            i = i + 1;
        }
        proof {
            lemma_first_index_is(rest, c, i - pos);
            assert(rest.subrange(0, i - pos) == s.subrange(pos as int, i as int));
        }
        if i == n {
            assert(split_on(rest, c) == seq![rest]);
            r.push((pos, n));
            assert forall|k: int| 0 <= k < r@.len() implies (#[trigger] r@[k]).0 <= r@[k].1 <= n by {
                if k < old_r.len() {
                    assert(r@[k] == old_r[k]);
                }
            }
            assert(split_on(s, c)[old_r.len() as int] == split_on(rest, c)[0]);
            assert forall|k: int| 0 <= k < r@.len() implies #[trigger] split_on(s, c)[k] == s.subrange(
                r@[k].0 as int, r@[k].1 as int) by {
                if k < old_r.len() {
                    assert(r@[k] == old_r[k]);
                }
            }
            return r;
        }
        let ghost tail = s.subrange(i + 1, n as int);
        assert(rest.subrange(i - pos + 1, rest.len() as int) == tail);
        assert(split_on(rest, c) == seq![s.subrange(pos as int, i as int)] + split_on(tail, c));
        assert forall|k: int| 0 <= k < split_on(tail, c).len() implies split_on(rest, c)[k + 1]
            == #[trigger] split_on(tail, c)[k] by {}
        let ghost old_pos = pos;
        r.push((pos, i));
        pos = i + 1;
        assert(split_on(s, c)[old_r.len() as int] == split_on(rest, c)[0]);
        assert forall|k: int| 0 <= k < r@.len() implies (#[trigger] r@[k]).0 <= r@[k].1 <= n by {
            if k < old_r.len() {
                assert(r@[k] == old_r[k]);
            }
        }
        assert forall|k: int| 0 <= k < r@.len() implies #[trigger] split_on(s, c)[k] == s.subrange(
            r@[k].0 as int, r@[k].1 as int) by {
            if k < old_r.len() {
                assert(r@[k] == old_r[k]);
            } else {
                assert(r@[k] == (old_pos, i));
            }
        }
        assert forall|k: int| 0 <= k < split_on(tail, c).len() implies split_on(s, c)[r@.len() + k]
            == #[trigger] split_on(tail, c)[k] by {
            assert(split_on(s, c)[old_r.len() + (k + 1)] == split_on(rest, c)[k + 1]);
        }
    }
}

/// Whether a piece is empty or `.`.
fn is_skipped_segment(cs: &Vec<char>, lo: usize, hi: usize) -> (r: bool)
    requires
        lo <= hi <= cs.len(),
    ensures
        r == (cs@.subrange(lo as int, hi as int).len() == 0 || cs@.subrange(lo as int, hi as int)
            == seq!['.']),
{
    if lo == hi {
        return true;
    }
    if hi - lo == 1 && cs[lo] == '.' {
        assert(cs@.subrange(lo as int, hi as int) == seq!['.']);
        return true;
    }
    if hi - lo == 1 {
        assert(cs@.subrange(lo as int, hi as int)[0] != '.');
    }
    false
}

/// The components of a path, each by its text (`Path::components`).
#[verifier::spinoff_prover]
pub fn path_components(p: &str) -> (r: Vec<String>)
    ensures
        crate::text::views(r@) == components(p@),
{
    let cs = chars_of(p);
    let ghost s = cs@;
    let ranges = split_ranges(&cs, '/');
    proof {
        lemma_split_on_nonempty(s, '/');
    }
    let ghost segs = split_on(s, '/');
    let mut r: Vec<String> = Vec::new();
    let mut start: usize = 0;
    if cs.len() > 0 && cs[0] == '/' {
        let mut root = String::new();
        push_char(&mut root, '/');
        r.push(root);
    } else if ranges[0].1 - ranges[0].0 == 1 && cs[ranges[0].0] == '.' {
        assert(segs[0] == seq!['.']);
        let mut dot = String::new();
        push_char(&mut dot, '.');
        r.push(dot);
        start = 1;
    } else {
        assert(segs[0] == cs@.subrange(ranges@[0].0 as int, ranges@[0].1 as int));
        assert(segs[0] != seq!['.']) by {
            if segs[0] == seq!['.'] {
                assert(segs[0].len() == 1);
                assert(segs[0][0] == cs@[ranges@[0].0 as int]);
            }
        }
    }
    let ghost prefix = crate::text::views(r@);
    let mut i = start;
    while i < ranges.len()
        invariant
            ranges@.len() == segs.len(),
            start <= i <= ranges@.len(),
            start <= 1,
            segs == split_on(s, '/'),
            s == cs@,
            forall|k: int| 0 <= k < ranges@.len() ==> (#[trigger] ranges@[k]).0 <= ranges@[k].1 <= cs@.len(),
            forall|k: int| 0 <= k < ranges@.len() ==> #[trigger] segs[k] == cs@.subrange(
                ranges@[k].0 as int, ranges@[k].1 as int),
            crate::text::views(r@) + keep_segments(segs.subrange(i as int, segs.len() as int))
                == prefix + keep_segments(segs.subrange(start as int, segs.len() as int)),
        decreases ranges@.len() - i,
    {
        let (lo, hi) = ranges[i];
        let ghost cur = segs.subrange(i as int, segs.len() as int);
        let ghost tailsegs = segs.subrange(i + 1, segs.len() as int);
        assert(cur.drop_first() == tailsegs);
        assert(cur[0] == segs[i as int]);
        let ghost before = crate::text::views(r@);
        if !is_skipped_segment(&cs, lo, hi) {
            let piece = string_from(&cs, lo, hi);
            r.push(piece);
            assert(crate::text::views(r@) == before.push(segs[i as int]));
            assert(keep_segments(cur) == seq![segs[i as int]] + keep_segments(tailsegs));
            assert(before.push(segs[i as int]) + keep_segments(tailsegs) =~= before + keep_segments(cur));
        }
        i = i + 1;
    }
    assert(segs.subrange(ranges@.len() as int, segs.len() as int).len() == 0);
    assert(crate::text::views(r@) =~= crate::text::views(r@) + keep_segments(segs.subrange(ranges@.len() as int, segs.len() as int)));
    if start == 0 {
        assert(segs.subrange(0, segs.len() as int) == segs);
    } else {
        assert(segs.subrange(1, segs.len() as int) == segs.drop_first());
    }
    r
}

/// `Path::new(p).starts_with(base)`.
pub fn starts_with_path(p: &str, base: &str) -> (r: bool)
    ensures
        r == path_starts_with(p@, base@),
{
    let a = path_components(p);
    let b = path_components(base);
    if b.len() > a.len() {
        return false;
    }
    let mut i: usize = 0;
    while i < b.len()
        invariant
            b.len() <= a.len(),
            i <= b.len(),
            crate::text::views(a@) == components(p@),
            crate::text::views(b@) == components(base@),
            forall|j: int| 0 <= j < i ==> a@[j]@ == b@[j]@,
        decreases b.len() - i,
    {
        if a[i] != b[i] {
            assert(components(p@)[i as int] != components(base@)[i as int]);
            return false;
        }
        i = i + 1;
    }
    assert(components(p@).subrange(0, components(base@).len() as int) =~= components(base@));
    true
}

/// `Path::parent(p) == Some(parent)`, paths being equal when their
/// components are.
pub open spec fn parent_is(p: Seq<char>, parent: Seq<char>) -> bool {
    let c = components(p);
    c.len() > 0 && c.last() != seq!['/'] && c.drop_last() == components(parent)
}

/// `Path::new(p).parent() == Some(Path::new(parent))`.
pub fn has_parent(p: &str, parent: &str) -> (r: bool)
    ensures
        r == parent_is(p@, parent@),
{
    let a = path_components(p);
    let b = path_components(parent);
    let ghost ca = components(p@);
    let ghost cb = components(parent@);
    if a.len() == 0 {
        return false;
    }
    let last = chars_of(a[a.len() - 1].as_str());
    assert(last@ == ca.last());
    if last.len() == 1 && last[0] == '/' {
        assert(ca.last() == seq!['/']);
        return false;
    }
    assert(ca.last() != seq!['/']) by {
        if ca.last().len() == 1 {
            assert(ca.last()[0] != '/');
        }
    }
    if b.len() != a.len() - 1 {
        assert(ca.drop_last().len() != cb.len());
        return false;
    }
    let mut i: usize = 0;
    while i < b.len()
        invariant
            b.len() == a.len() - 1,
            i <= b.len(),
            ca == components(p@),
            cb == components(parent@),
            crate::text::views(a@) == ca,
            crate::text::views(b@) == cb,
            forall|j: int| 0 <= j < i ==> a@[j]@ == b@[j]@,
        decreases b.len() - i,
    {
        if a[i] != b[i] {
            assert(crate::text::views(a@)[i as int] == a@[i as int]@);
            assert(crate::text::views(b@)[i as int] == b@[i as int]@);
            assert(ca.drop_last()[i as int] != cb[i as int]);
            return false;
        }
        i = i + 1;
    }
    assert forall|j: int| 0 <= j < cb.len() implies ca.drop_last()[j] == cb[j] by {
        assert(crate::text::views(a@)[j] == a@[j]@);
        assert(crate::text::views(b@)[j] == b@[j]@);
    }
    assert(ca.drop_last() =~= cb);
    true
}

/// `Path::new(p).file_name()` as a string.
pub fn path_file_name(p: &str) -> (r: Option<String>)
    ensures
        crate::text::opt_view(r) == file_name(p@),
{
    let c = path_components(p);
    if c.len() == 0 {
        return None;
    }
    let last = c[c.len() - 1].clone();
    let lc = chars_of(last.as_str());
    let ghost l = components(p@).last();
    assert(lc@ == l);
    if lc.len() == 1 && (lc[0] == '/' || lc[0] == '.') {
        assert(l == seq![lc@[0]]);
        return None;
    }
    if lc.len() == 2 && lc[0] == '.' && lc[1] == '.' {
        assert(l == seq!['.', '.']);
        return None;
    }
    assert(l != seq!['/'] && l != seq!['.'] && l != seq!['.', '.']) by {
        if l.len() == 1 {
            assert(l[0] != '/' && l[0] != '.');
        }
        if l.len() == 2 {
            assert(l[0] != '.' || l[1] != '.');
        }
    }
    Some(last)
}

} // verus!
