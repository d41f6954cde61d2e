//! The current path as wrapped header lines, and clicks on those lines.
use vstd::prelude::*;
use crate::path::{DirPath, names, lemma_names_push, joined, path_str};

verus! {

/// The text cut into lines of `w` characters, the last one possibly shorter;
/// an empty text gives one empty line, and a width of zero one line holding all.
pub open spec fn wrap(s: Seq<char>, w: nat) -> Seq<Seq<char>>
    decreases s.len(),
{
    if w == 0 || s.len() <= w {
        seq![s]
    } else {
        seq![s.take(w as int)] + wrap(s.skip(w as int), w)
    }
}

/// The lines of `text` wrapped at `width` columns.
pub fn wrap_lines(text: &String, width: u16) -> (r: Vec<String>)
    ensures
        names(r@) == wrap(text@, width as nat),
{
    let t = text.as_str();
    let n = t.unicode_len();
    let w = width as usize;
    let mut lines: Vec<String> = Vec::new();
    let mut start: usize = 0;
    assert(text@.skip(0) =~= text@);
    while w > 0 && n - start > w
        invariant
            t@ == text@,
            n == text@.len(),
            w == width,
            start <= n,
            names(lines@) + wrap(text@.skip(start as int), w as nat) == wrap(text@, w as nat),
        decreases n - start,
    {
        let ghost rest = text@.skip(start as int);
        let line = String::from_str(t.substring_char(start, start + w));
        proof {
            lemma_names_push(lines@, line);
            assert(rest.take(w as int) =~= line@);
            assert(rest.skip(w as int) =~= text@.skip(start + w));
            assert(names(lines@).push(line@) + wrap(text@.skip(start + w), w as nat) =~= names(lines@) + wrap(rest, w as nat));
        }
        lines.push(line);
        start = start + w;
    }
    let last = String::from_str(t.substring_char(start, n));
    proof {
        lemma_names_push(lines@, last);
        assert(text@.skip(start as int) =~= last@);
        assert(names(lines@).push(last@) =~= names(lines@) + wrap(text@.skip(start as int), w as nat));
    }
    lines.push(last);
    lines
}

/// How far the header text reaches once the root and the first `k`
/// components are drawn, each component counted with one separator.
pub open spec fn reach(s: Seq<Seq<char>>, k: int) -> int
    decreases k,
{
    if k <= 0 {
        1
    } else {
        reach(s, k - 1) + s[k - 1].len() + 1
    }
}

/// The first depth from `k` on whose reach attains `pos`, or the full depth.
pub open spec fn depth_from(s: Seq<Seq<char>>, pos: int, k: int) -> int
    decreases s.len() - k,
{
    if k >= s.len() || reach(s, k) >= pos {
        k
    } else {
        depth_from(s, pos, k + 1)
    }
}

/// The number of components kept when the header is clicked at offset `pos`.
pub open spec fn click_depth(s: Seq<Seq<char>>, pos: int) -> int {
    depth_from(s, pos, 0)
}

/// The offset into the unwrapped header of the 1-based cell `(x, y)`.
pub open spec fn click_offset(x: int, y: int, w: int) -> int {
    (x - 1) + (y - 1) * w
}

proof fn lemma_depth_from_bounds(s: Seq<Seq<char>>, pos: int, k: int)
    requires
        0 <= k <= s.len(),
    ensures
        k <= depth_from(s, pos, k) <= s.len(),
        depth_from(s, pos, k) < s.len() ==> pos <= reach(s, depth_from(s, pos, k)),
        forall|j: int| k <= j < depth_from(s, pos, k) ==> reach(s, j) < pos,
    decreases s.len() - k,
{
    if k < s.len() && reach(s, k) < pos {
        lemma_depth_from_bounds(s, pos, k + 1);
    }
}

/// The number of components of `dir` kept when the header is clicked at `pos`.
pub fn click_depth_exec(dir: &DirPath, pos: usize) -> (r: usize)
    ensures
        r as int == click_depth(dir@, pos as int),
        r <= dir@.len(),
{
    let n = dir.segments.len();
    let mut k: usize = 0;
    let mut len: usize = 1;
    proof {
        lemma_depth_from_bounds(dir@, pos as int, 0);
    }
    while k < n && len < pos
        invariant
            n == dir@.len(),
            k <= n,
            len as int == reach(dir@, k as int),
            click_depth(dir@, pos as int) == depth_from(dir@, pos as int, k as int),
        decreases n - k,
    {
        let sl = dir.segments[k].as_str().unicode_len();
        assert(sl == dir@[k as int].len());
        if sl >= pos - len - 1 {
            assert(reach(dir@, k + 1) >= pos);
            assert(depth_from(dir@, pos as int, k as int) == depth_from(dir@, pos as int, k + 1));
            assert(depth_from(dir@, pos as int, k + 1) == k + 1);
            return k + 1;
        }
        len = len + sl + 1;
        k = k + 1;
    }
    k
}

/// The path that a click on the header cell `(x, y)` leads to, the header
/// being wrapped at `width` columns.
pub fn clicked_path(dir: &DirPath, width: u16, x: u16, y: u16) -> (r: DirPath)
    requires
        dir.wf(),
        x >= 1,
        y >= 1,
    ensures
        r@ == dir@.take(click_depth(dir@, click_offset(x as int, y as int, width as int))),
        r.wf(),
{
    let a = (x - 1) as usize;
    let b = (y - 1) as usize;
    let w = width as usize;
    assert(b * w <= 65535 * 65535) by (nonlinear_arith)
        requires
            b <= 65535,
            w <= 65535,
    ;
    let pos = a + b * w;
    let k = click_depth_exec(dir, pos);
    dir.prefix(k)
}

/// `p` is the start of `q`.
pub open spec fn is_prefix(p: Seq<char>, q: Seq<char>) -> bool {
    p.len() <= q.len() && q.take(p.len() as int) == p
}

proof fn lemma_joined_prefix(s: Seq<Seq<char>>, k: int)
    requires
        0 <= k <= s.len(),
    ensures
        is_prefix(joined(s.take(k)), joined(s)),
        k < s.len() ==> joined(s)[joined(s.take(k)).len() as int] == '/',
    decreases s.len(),
{
    if k < s.len() {
        let d = s.drop_last();
        assert(d.take(k) =~= s.take(k));
        if k < d.len() {
            lemma_joined_prefix(d, k);
            let p = joined(s.take(k));
            assert(joined(s).take(p.len() as int) =~= joined(d).take(p.len() as int));
        } else {
            assert(s.take(k) =~= d);
            assert(joined(s).take(joined(d).len() as int) =~= joined(d));
        }
    } else {
        assert(s.take(k) =~= s);
        assert(joined(s).take(joined(s).len() as int) =~= joined(s));
    }
}

/// Clicking a header cell at a positive width leads to a path whose text
/// starts the current path's text and ends at a component boundary: the first
/// depth whose drawn span reaches the clicked offset.
pub proof fn lemma_click_prefix(s: Seq<Seq<char>>, w: int, x: int, y: int)
    requires
        w > 0,
        x >= 1,
        y >= 1,
    ensures
        ({
            let pos = click_offset(x, y, w);
            let k = click_depth(s, pos);
            &&& 0 <= k <= s.len()
            &&& is_prefix(path_str(s.take(k)), path_str(s))
            &&& (0 < k < s.len() ==> path_str(s)[path_str(s.take(k)).len() as int] == '/')
            &&& (k > 0 ==> reach(s, k - 1) < pos)
            &&& (k < s.len() ==> pos <= reach(s, k))
        }),
{
    let pos = click_offset(x, y, w);
    lemma_depth_from_bounds(s, pos, 0);
    let k = click_depth(s, pos);
    lemma_joined_prefix(s, k);
    if s.len() == 0 {
        assert(s.take(k) =~= s);
        assert(path_str(s).take(1) =~= path_str(s));
    } else if k == 0 {
        assert(s.take(0) =~= Seq::<Seq<char>>::empty());
        assert(joined(s.take(0)) =~= Seq::<char>::empty());
        assert(joined(s).take(1) =~= seq!['/']);
    } else {
        assert(path_str(s) == joined(s));
        assert(path_str(s.take(k)) == joined(s.take(k)));
    }
}

} // verus!
