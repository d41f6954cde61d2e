//! Absolute, normalized directory paths held as their components.
use vstd::prelude::*;

verus! {

/// A valid path component: not empty, no separator, not `.` or `..`.
pub open spec fn valid_segment(s: Seq<char>) -> bool {
    &&& s.len() > 0
    &&& forall|i: int| 0 <= i < s.len() ==> s[i] != '/'
    &&& s != seq!['.']
    &&& s != seq!['.', '.']
}

/// The components of a list of strings, as character sequences.
pub open spec fn names(v: Seq<String>) -> Seq<Seq<char>> {
    v.map_values(|s: String| s@)
}

/// Components joined, each preceded by a separator (`/a/b` for `[a, b]`).
pub open spec fn joined(s: Seq<Seq<char>>) -> Seq<char>
    decreases s.len(),
{
    if s.len() == 0 {
        Seq::empty()
    } else {
        joined(s.drop_last()) + seq!['/'] + s.last()
    }
}

/// The text of an absolute path with the given components.
pub open spec fn path_str(s: Seq<Seq<char>>) -> Seq<char> {
    if s.len() == 0 {
        seq!['/']
    } else {
        joined(s)
    }
}

/// The components of a list extended by one string.
pub proof fn lemma_names_push(v: Seq<String>, x: String)
    ensures
        names(v.push(x)) == names(v).push(x@),
{
    assert(names(v.push(x)) =~= names(v).push(x@));
}

/// An absolute directory path, held as the components that follow the root.
pub struct DirPath {
    pub segments: Vec<String>,
}

impl View for DirPath {
    type V = Seq<Seq<char>>;

    open spec fn view(&self) -> Seq<Seq<char>> {
        names(self.segments@)
    }
}

impl DirPath {
    /// Every component is valid, so the path is normalized.
    pub open spec fn wf(&self) -> bool {
        forall|i: int| 0 <= i < self@.len() ==> valid_segment(#[trigger] self@[i])
    }

    /// The root directory `/`.
    pub fn root() -> (r: DirPath)
        ensures
            r@ == Seq::<Seq<char>>::empty(),
            r.wf(),
    {
        let r = DirPath { segments: Vec::new() };
        assert(r@ =~= Seq::<Seq<char>>::empty());
        r
    }

    /// Builds a path from components, or `None` where one of them is not valid.
    pub fn from_segments(segments: Vec<String>) -> (r: Option<DirPath>)
        ensures
            r is Some <==> (forall|i: int| 0 <= i < segments@.len() ==> valid_segment(#[trigger] segments@[i]@)),
            r matches Some(p) ==> p@ == names(segments@) && p.wf(),
    {
        let mut i: usize = 0;
        while i < segments.len()
            invariant
                i <= segments@.len(),
                forall|k: int| 0 <= k < i ==> valid_segment(#[trigger] segments@[k]@),
            decreases segments@.len() - i,
        {
            if !is_valid_segment(&segments[i]) {
                return None;
            }
            i = i + 1;
        }
        Some(DirPath { segments })
    }

    /// Whether the path has a parent, that is, is not the root.
    pub fn has_parent(&self) -> (r: bool)
        ensures
            r == (self@.len() > 0),
    {
        self.segments.len() > 0
    }

    /// The parent directory; the root is its own parent.
    pub fn parent(&self) -> (r: DirPath)
        requires
            self.wf(),
        ensures
            r@ == (if self@.len() == 0 { self@ } else { self@.drop_last() }),
            r.wf(),
    {
        let mut segments: Vec<String> = Vec::new();
        let n = if self.segments.len() == 0 { 0 } else { self.segments.len() - 1 };
        let mut i: usize = 0;
        while i < n
            invariant
                n <= self.segments@.len(),
                n == (if self@.len() == 0 { 0 } else { self@.len() - 1 }),
                i <= n,
                names(segments@) == self@.take(i as int),
            decreases n - i,
        {
            let c = self.segments[i].clone();
            proof {
                lemma_names_push(segments@, c);
            }
            segments.push(c);
            assert(self@.take(i + 1) =~= self@.take(i as int).push(self@[i as int]));
            i = i + 1;
        }
        let r = DirPath { segments };
        assert(r@ =~= (if self@.len() == 0 { self@ } else { self@.drop_last() }));
        r
    }

    /// The last component, or `None` for the root.
    pub fn file_name(&self) -> (r: Option<String>)
        ensures
            r is Some <==> self@.len() > 0,
            r matches Some(n) ==> n@ == self@.last(),
    {
        if self.segments.len() == 0 {
            None
        } else {
            Some(self.segments[self.segments.len() - 1].clone())
        }
    }

    /// The path extended by the component `name`.
    pub fn join(&self, name: &String) -> (r: DirPath)
        requires
            self.wf(),
            valid_segment(name@),
        ensures
            r@ == self@.push(name@),
            r.wf(),
    {
        let mut segments: Vec<String> = Vec::new();
        let mut i: usize = 0;
        while i < self.segments.len()
            invariant
                i <= self.segments@.len(),
                names(segments@) == self@.take(i as int),
            decreases self.segments@.len() - i,
        {
            let c = self.segments[i].clone();
            proof {
                lemma_names_push(segments@, c);
            }
            segments.push(c);
            assert(self@.take(i + 1) =~= self@.take(i as int).push(self@[i as int]));
            i = i + 1;
        }
        segments.push(name.clone());
        let r = DirPath { segments };
        assert(self@.take(self@.len() as int) =~= self@);
        assert(r@ =~= self@.push(name@));
        r
    }

    /// The first `k` components, as a path.
    pub fn prefix(&self, k: usize) -> (r: DirPath)
        requires
            self.wf(),
            k <= self@.len(),
        ensures
            r@ == self@.take(k as int),
            r.wf(),
    {
        let mut segments: Vec<String> = Vec::new();
        let mut i: usize = 0;
        while i < k
            invariant
                k <= self.segments@.len(),
                i <= k,
                names(segments@) == self@.take(i as int),
            decreases k - i,
        {
            let c = self.segments[i].clone();
            proof {
                lemma_names_push(segments@, c);
            }
            segments.push(c);
            assert(self@.take(i + 1) =~= self@.take(i as int).push(self@[i as int]));
            i = i + 1;
        }
        DirPath { segments }
    }

    /// The text of the path: `/` for the root, else `/` before each component.
    pub fn to_text(&self) -> (r: String)
        ensures
            r@ == path_str(self@),
    {
        let slash = "/";
        proof {
            reveal_strlit("/");
        }
        assert(slash@ =~= seq!['/']);
        if self.segments.len() == 0 {
            return String::from_str(slash);
        }
        let mut r = String::new();
        let mut i: usize = 0;
        while i < self.segments.len()
            invariant
                i <= self.segments@.len(),
                slash@ == seq!['/'],
                r@ == joined(self@.take(i as int)),
            decreases self.segments@.len() - i,
        {
            assert(self@.take(i + 1).drop_last() =~= self@.take(i as int));
            r.append(slash);
            r.append(self.segments[i].as_str());
            i = i + 1;
        }
        assert(self@.take(self@.len() as int) =~= self@);
        r
    }
}

/// Whether `s` is a valid path component.
pub fn is_valid_segment(s: &String) -> (r: bool)
    ensures
        r == valid_segment(s@),
{
    let t = s.as_str();
    let n = t.unicode_len();
    if n == 0 {
        return false;
    }
    let mut i: usize = 0;
    while i < n
        invariant
            t@ == s@,
            n == s@.len(),
            i <= n,
            forall|k: int| 0 <= k < i ==> s@[k] != '/',
        decreases n - i,
    {
        if t.get_char(i) == '/' {
            return false;
        }
        i = i + 1;
    }
    if n == 1 && t.get_char(0) == '.' {
        assert(s@ =~= seq!['.']);
        return false;
    }
    if n == 2 && t.get_char(0) == '.' && t.get_char(1) == '.' {
        assert(s@ =~= seq!['.', '.']);
        return false;
    }
    assert(s@ != seq!['.']) by {
        if s@ == seq!['.'] {
            assert(s@[0] == '.');
        }
    }
    assert(s@ != seq!['.', '.']) by {
        if s@ == seq!['.', '.'] {
            assert(s@[0] == '.' && s@[1] == '.');
        }
    }
    true
}

} // verus!
