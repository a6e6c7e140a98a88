//! The dependency capability: a construct can say whether it depends on
//! another, and scan a whole slice of others in one pass.

use vstd::prelude::*;

verus! {

/// Something whose history entries can depend on one another.
pub trait Construct {
    /// What `depends_on` decides, as a predicate.
    spec fn dep_spec(&self, other: &Self) -> bool;

    /// Whether this construct depends on `other` in the history.
    fn depends_on(&self, other: &Self) -> (r: bool)
        ensures
            r == self.dep_spec(other),
    ;

    /// One dependency answer per element of `others`, in order.
    fn scan(&self, others: &[Self]) -> (r: Vec<bool>) where Self: Sized
        ensures
            r@.len() == others@.len(),
            forall|i: int| 0 <= i < others@.len() ==> r@[i] == self.dep_spec(&others@[i]),
    {
        let mut out: Vec<bool> = Vec::new();
        let mut idx: usize = 0;
        while idx < others.len()
            invariant
                0 <= idx <= others@.len(),
                out@.len() == idx,
                forall|i: int| 0 <= i < idx ==> out@[i] == self.dep_spec(&others@[i]),
            decreases others@.len() - idx,
        {
            out.push(self.depends_on(&others[idx]));
            idx = idx + 1;
        }
        out
    }
}

} // verus!
