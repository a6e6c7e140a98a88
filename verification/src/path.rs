//! Absolute paths as sequences of name segments.  The root is the empty
//! sequence; `dir/a.txt` is the two segments `dir`, `a.txt`.  Ancestry is
//! segment-prefix order, which is what the dependency predicate needs.

use vstd::prelude::*;
use vstd::string::StringExecFns;

verus! {

/// An absolute filesystem path, stored as its name segments from the root
/// down.
#[derive(Debug, PartialEq, Eq)]
pub struct AbsPath {
    pub segs: Vec<String>,
}

impl View for AbsPath {
    type V = Seq<Seq<char>>;

    open spec fn view(&self) -> Seq<Seq<char>> {
        Seq::new(self.segs@.len(), |i: int| self.segs@[i]@)
    }
}

/// `a` names the same object as `b` or an ancestor directory of it.
pub open spec fn spec_is_prefix(a: Seq<Seq<char>>, b: Seq<Seq<char>>) -> bool {
    a.len() <= b.len() && (forall|i: int| 0 <= i < a.len() ==> a[i] == b[i])
}

impl AbsPath {
    /// The root path, with no segments.
    pub fn root() -> (r: AbsPath)
        ensures
            r@ =~= Seq::<Seq<char>>::empty(),
    {
        AbsPath { segs: Vec::new() }
    }

    /// An exact copy of this path.
    pub fn duplicate(&self) -> (r: AbsPath)
        ensures
            r@ =~= self@,
    {
        let mut segs: Vec<String> = Vec::new();
        let mut i: usize = 0;
        while i < self.segs.len()
            invariant
                0 <= i <= self.segs.len(),
                segs@.len() == i,
                forall|k: int| 0 <= k < i ==> segs@[k]@ == self@[k],
            decreases self.segs.len() - i,
        {
            segs.push(self.segs[i].clone());
            i = i + 1;
        }
        AbsPath { segs }
    }

    /// Whether the two paths name the same object.
    pub fn same_as(&self, other: &AbsPath) -> (r: bool)
        ensures
            r == (self@ == other@),
    {
        if self.segs.len() != other.segs.len() {
            proof {
                assert(self@.len() == self.segs@.len());
                assert(other@.len() == other.segs@.len());
            }
            return false;
        }
        let mut i: usize = 0;
        while i < self.segs.len()
            invariant
                self.segs.len() == other.segs.len(),
                0 <= i <= self.segs.len(),
                forall|k: int| 0 <= k < i ==> self@[k] == other@[k],
            decreases self.segs.len() - i,
        {
            if !(self.segs[i] == other.segs[i]) {
                assert(self@[i as int] != other@[i as int]);
                return false;
            }
            i = i + 1;
        }
        proof {
            assert(self@ =~= other@);
        }
        true
    }

    /// Whether this path is the other, or an ancestor directory of it.
    pub fn is_prefix_of(&self, other: &AbsPath) -> (r: bool)
        ensures
            r == spec_is_prefix(self@, other@),
    {
        if self.segs.len() > other.segs.len() {
            return false;
        }
        let mut i: usize = 0;
        while i < self.segs.len()
            invariant
                self.segs.len() <= other.segs.len(),
                0 <= i <= self.segs.len(),
                forall|k: int| 0 <= k < i ==> self@[k] == other@[k],
            decreases self.segs.len() - i,
        {
            if !(self.segs[i] == other.segs[i]) {
                assert(self@[i as int] != other@[i as int]);
                return false;
            }
            i = i + 1;
        }
        true
    }

    /// The path of `name` inside this directory.
    pub fn child(&self, name: &String) -> (r: AbsPath)
        ensures
            r@ =~= self@.push(name@),
    {
        let mut r = self.duplicate();
        r.segs.push(name.clone());
        r
    }

    /// The containing directory, or `None` for the root.
    pub fn parent(&self) -> (r: Option<AbsPath>)
        ensures
            self@.len() == 0 ==> r is None,
            self@.len() > 0 ==> (r matches Some(p) && p@ =~= self@.drop_last()),
    {
        if self.segs.len() == 0 {
            return None;
        }
        let mut segs: Vec<String> = Vec::new();
        let mut i: usize = 0;
        let last = self.segs.len() - 1;
        while i < last
            invariant
                last == self.segs.len() - 1,
                self.segs.len() >= 1,
                0 <= i <= last,
                segs@.len() == i,
                forall|k: int| 0 <= k < i ==> segs@[k]@ == self@[k],
            decreases last - i,
        {
            segs.push(self.segs[i].clone());
            i = i + 1;
        }
        Some(AbsPath { segs })
    }

    /// The object's own name: the last segment, or the empty string for the
    /// root.
    pub fn name(&self) -> (r: String)
        ensures
            self@.len() == 0 ==> r@ == Seq::<char>::empty(),
            self@.len() > 0 ==> r@ == self@.last(),
    {
        if self.segs.len() == 0 {
            String::new()
        } else {
            self.segs[self.segs.len() - 1].clone()
        }
    }

    /// Render the path for messages: `/` followed by the segments, slash
    /// separated; the bare root renders as `/`.
    pub fn render(&self) -> (r: String)
        ensures
            r@ == spec_path_display(self@),
    {
        if self.segs.len() == 0 {
            let mut s = String::new();
            s.append("/");
            return s;
        }
        let mut s = String::new();
        let mut i: usize = 0;
        while i < self.segs.len()
            invariant
                0 <= i <= self.segs.len(),
                self@.len() == self.segs.len(),
                s@ == spec_segments_display(self@.take(i as int)),
            decreases self.segs.len() - i,
        {
            proof {
                assert(self@.take(i as int + 1).drop_last() =~= self@.take(i as int));
                assert(self@.take(i as int + 1).last() == self@[i as int]);
            }
            s.append("/");
            s.append(self.segs[i].as_str());
            i = i + 1;
        }
        proof {
            assert(self@.take(self.segs.len() as int) =~= self@);
        }
        s
    }
}

/// The display form of a non-root path: each segment preceded by a slash.
pub open spec fn spec_segments_display(p: Seq<Seq<char>>) -> Seq<char>
    decreases p.len(),
{
    if p.len() == 0 {
        Seq::<char>::empty()
    } else {
        spec_segments_display(p.drop_last()) + "/"@ + p.last()
    }
}

/// The display form of a path; the root shows as a single slash.
pub open spec fn spec_path_display(p: Seq<Seq<char>>) -> Seq<char> {
    if p.len() == 0 {
        "/"@
    } else {
        spec_segments_display(p)
    }
}

} // verus!
