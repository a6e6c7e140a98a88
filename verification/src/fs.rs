//! The engine's view of the filesystem and of the backup store.  The
//! filesystem is a flat table of objects, each an absolute path with a kind
//! and a content digest; the store is the set of digests whose content has
//! been backed up.  The external world keeps this view current; every
//! decision the engine proves is about this view.

use vstd::prelude::*;
use crate::digest::ContentDigest;
use crate::object::Type;
use crate::path::AbsPath;

verus! {

/// One filesystem object as the engine sees it.
pub struct FsEntry {
    pub path: AbsPath,
    pub kind: Type,
    pub digest: ContentDigest,
}

/// Whether an entry records the given path, kind and digest.
pub open spec fn entry_matches(e: FsEntry, p: Seq<Seq<char>>, k: Type, d: Seq<u8>) -> bool {
    e.path@ == p && e.kind == k && e.digest@ == d
}

/// Whether the table holds an object with the given path, kind and digest.
pub open spec fn fs_contains(s: Seq<FsEntry>, p: Seq<Seq<char>>, k: Type, d: Seq<u8>) -> bool {
    exists|i: int| 0 <= i < s.len() && entry_matches(s[i], p, k, d)
}

/// Whether any object sits at the given path.
pub open spec fn fs_has_path(s: Seq<FsEntry>, p: Seq<Seq<char>>) -> bool {
    exists|i: int| 0 <= i < s.len() && s[i].path@ == p
}

/// Paths are unique: the table is a map from path to object.
pub open spec fn fs_wf(s: Seq<FsEntry>) -> bool {
    forall|i: int, j: int| 0 <= i < j < s.len() ==> s[i].path@ != s[j].path@
}

/// With unique paths, the object at a path is determined.
pub proof fn lemma_fs_at_most_one(
    s: Seq<FsEntry>,
    p: Seq<Seq<char>>,
    k1: Type,
    d1: Seq<u8>,
    k2: Type,
    d2: Seq<u8>,
)
    requires
        fs_wf(s),
        fs_contains(s, p, k1, d1),
        fs_contains(s, p, k2, d2),
    ensures
        k1 == k2,
        d1 == d2,
{
    let i1 = choose|i: int| 0 <= i < s.len() && entry_matches(s[i], p, k1, d1);
    let i2 = choose|i: int| 0 <= i < s.len() && entry_matches(s[i], p, k2, d2);
    if i1 != i2 {
        assert(s[i1].path@ != s[i2].path@);
    }
}

/// Where an object sits at `p`, the table holds its kind and digest.
pub proof fn lemma_has_path_contains(s: Seq<FsEntry>, p: Seq<Seq<char>>)
    requires
        fs_has_path(s, p),
    ensures
        exists|k: Type, d: Seq<u8>| fs_contains(s, p, k, d),
{
    let i = choose|i: int| 0 <= i < s.len() && s[i].path@ == p;
    assert(entry_matches(s[i], p, s[i].kind, s[i].digest@));
    assert(fs_contains(s, p, s[i].kind, s[i].digest@));
}

/// Holding an object's kind and digest at `p` means something sits at `p`.
pub proof fn lemma_contains_has_path(s: Seq<FsEntry>, p: Seq<Seq<char>>, k: Type, d: Seq<u8>)
    requires
        fs_contains(s, p, k, d),
    ensures
        fs_has_path(s, p),
{
    let i = choose|i: int| 0 <= i < s.len() && entry_matches(s[i], p, k, d);
    assert(0 <= i < s.len() && s[i].path@ == p);
}

/// What recording one more object does to the table: the new object is
/// present, every other path is untouched, and at the new object's path
/// nothing but the new object is found among the additions.
pub proof fn lemma_push_effects(
    s0: Seq<FsEntry>,
    s1: Seq<FsEntry>,
    p: Seq<Seq<char>>,
    k: Type,
    d: Seq<u8>,
)
    requires
        s1.len() == s0.len() + 1,
        forall|i: int| 0 <= i < s0.len() ==> s1[i] == s0[i],
        entry_matches(s1[s0.len() as int], p, k, d),
    ensures
        fs_contains(s1, p, k, d),
        forall|q: Seq<Seq<char>>, k2: Type, d2: Seq<u8>|
            q != p ==> (#[trigger] fs_contains(s1, q, k2, d2) <==> fs_contains(s0, q, k2, d2)),
        forall|k2: Type, d2: Seq<u8>|
            #[trigger] fs_contains(s1, p, k2, d2) ==> ((k2 == k && d2 == d) || fs_contains(
                s0,
                p,
                k2,
                d2,
            )),
{
    assert(fs_contains(s1, p, k, d)) by {
        assert(entry_matches(s1[s0.len() as int], p, k, d));
    }
    assert forall|q: Seq<Seq<char>>, k2: Type, d2: Seq<u8>| q != p implies (
    #[trigger] fs_contains(s1, q, k2, d2) <==> fs_contains(s0, q, k2, d2)) by {
        if fs_contains(s1, q, k2, d2) {
            let i = choose|i: int| 0 <= i < s1.len() && entry_matches(s1[i], q, k2, d2);
            assert(i < s0.len());
            assert(entry_matches(s0[i], q, k2, d2));
        }
        if fs_contains(s0, q, k2, d2) {
            let i = choose|i: int| 0 <= i < s0.len() && entry_matches(s0[i], q, k2, d2);
            assert(entry_matches(s1[i], q, k2, d2));
        }
    }
    assert forall|k2: Type, d2: Seq<u8>| #[trigger]
        fs_contains(s1, p, k2, d2) implies ((k2 == k && d2 == d) || fs_contains(
        s0,
        p,
        k2,
        d2,
    )) by {
        let i = choose|i: int| 0 <= i < s1.len() && entry_matches(s1[i], p, k2, d2);
        if i < s0.len() {
            assert(entry_matches(s0[i], p, k2, d2));
        }
    }
}

/// The in-memory model of the filesystem.
pub struct FsModel {
    pub entries: Vec<FsEntry>,
}

impl FsModel {
    /// An empty filesystem view.
    pub fn new() -> (r: FsModel)
        ensures
            r.entries@.len() == 0,
            fs_wf(r.entries@),
    {
        FsModel { entries: Vec::new() }
    }

    /// Index of the object at `p`, if any.
    fn find(&self, p: &AbsPath) -> (r: Option<usize>)
        ensures
            match r {
                Some(i) => i < self.entries@.len() && self.entries@[i as int].path@ == p@,
                None => !fs_has_path(self.entries@, p@),
            },
    {
        let mut i: usize = 0;
        while i < self.entries.len()
            invariant
                0 <= i <= self.entries@.len(),
                forall|k: int| 0 <= k < i ==> self.entries@[k].path@ != p@,
            decreases self.entries@.len() - i,
        {
            if self.entries[i].path.same_as(p) {
                return Some(i);
            }
            i = i + 1;
        }
        None
    }

    /// Whether any object sits at `p`.
    pub fn exists_at(&self, p: &AbsPath) -> (r: bool)
        ensures
            r == fs_has_path(self.entries@, p@),
    {
        match self.find(p) {
            Some(i) => {
                proof {
                    let ii = i as int;
                    assert(0 <= ii < self.entries@.len() && self.entries@[ii].path@ == p@);
                }
                true
            },
            None => false,
        }
    }

    /// The kind and digest of the object at `p`, if any.
    pub fn lookup(&self, p: &AbsPath) -> (r: Option<(Type, ContentDigest)>)
        ensures
            match r {
                Some(kd) => fs_contains(self.entries@, p@, kd.0, kd.1@),
                None => !fs_has_path(self.entries@, p@),
            },
    {
        match self.find(p) {
            Some(i) => {
                let k = self.entries[i].kind;
                let d = self.entries[i].digest;
                proof {
                    let ii = i as int;
                    assert(entry_matches(self.entries@[ii], p@, k, d@));
                }
                Some((k, d))
            },
            None => None,
        }
    }

    /// Record a new object; refused (`false`) when the path is taken.
    pub fn put(&mut self, path: AbsPath, kind: Type, digest: ContentDigest) -> (r: bool)
        requires
            fs_wf(old(self).entries@),
        ensures
            fs_wf(final(self).entries@),
            r == !fs_has_path(old(self).entries@, path@),
            r ==> final(self).entries@ =~= old(self).entries@.push(
                FsEntry { path, kind, digest },
            ),
            !r ==> final(self).entries@ == old(self).entries@,
    {
        match self.find(&path) {
            Some(i) => {
                proof {
                    let ii = i as int;
                    assert(0 <= ii < self.entries@.len() && self.entries@[ii].path@ == path@);
                }
                false
            },
            None => {
                self.entries.push(FsEntry { path, kind, digest });
                true
            },
        }
    }

    /// Remove the object at `p`; `false` when nothing sits there.
    pub fn remove_at(&mut self, p: &AbsPath) -> (r: bool)
        requires
            fs_wf(old(self).entries@),
        ensures
            fs_wf(final(self).entries@),
            r == fs_has_path(old(self).entries@, p@),
            !fs_has_path(final(self).entries@, p@),
            forall|q: Seq<Seq<char>>, k: Type, d: Seq<u8>|
                q != p@ ==> (#[trigger] fs_contains(final(self).entries@, q, k, d) <==> fs_contains(
                    old(self).entries@,
                    q,
                    k,
                    d,
                )),
            !r ==> final(self).entries@ == old(self).entries@,
    {
        let ghost s0 = self.entries@;
        match self.find(p) {
            Some(i) => {
                self.entries.remove(i);
                proof {
                    let ii = i as int;
                    assert(self.entries@ =~= s0.subrange(0, ii) + s0.subrange(
                        ii + 1,
                        s0.len() as int,
                    ));
                    assert(fs_has_path(s0, p@));
                    assert forall|jj: int| 0 <= jj < self.entries@.len() implies self.entries@[jj]
                        == (if jj < ii {
                        s0[jj]
                    } else {
                        s0[jj + 1]
                    }) by {}
                    assert forall|jj: int|
                        0 <= jj < self.entries@.len() implies #[trigger] self.entries@[jj].path@
                        != p@ by {
                        if jj < ii {
                            assert(s0[jj].path@ != s0[ii].path@);
                        } else {
                            assert(s0[ii].path@ != s0[jj + 1].path@);
                        }
                    }
                    assert forall|q: Seq<Seq<char>>, k: Type, d: Seq<u8>| q != p@ implies (
                    #[trigger] fs_contains(self.entries@, q, k, d) <==> fs_contains(
                        s0,
                        q,
                        k,
                        d,
                    )) by {
                        if fs_contains(self.entries@, q, k, d) {
                            let jj = choose|jj: int|
                                0 <= jj < self.entries@.len() && entry_matches(
                                    self.entries@[jj],
                                    q,
                                    k,
                                    d,
                                );
                            if jj < ii {
                                assert(entry_matches(s0[jj], q, k, d));
                            } else {
                                assert(entry_matches(s0[jj + 1], q, k, d));
                            }
                        }
                        if fs_contains(s0, q, k, d) {
                            let jj = choose|jj: int|
                                0 <= jj < s0.len() && entry_matches(s0[jj], q, k, d);
                            if jj < ii {
                                assert(entry_matches(self.entries@[jj], q, k, d));
                            } else {
                                assert(jj != ii);
                                assert(entry_matches(self.entries@[jj - 1], q, k, d));
                            }
                        }
                    }
                }
                true
            },
            None => {
                proof {
                    assert(self.entries@ == s0);
                }
                false
            },
        }
    }

    /// Move the object at `from` to the free path `to`, keeping its kind and
    /// digest; `false` when nothing sits at `from`.
    pub fn relocate(&mut self, from: &AbsPath, to: &AbsPath) -> (r: bool)
        requires
            fs_wf(old(self).entries@),
            !fs_has_path(old(self).entries@, to@),
        ensures
            fs_wf(final(self).entries@),
            r == fs_has_path(old(self).entries@, from@),
            !r ==> final(self).entries@ == old(self).entries@,
            r ==> !fs_has_path(final(self).entries@, from@),
            r ==> (forall|k: Type, d: Seq<u8>|
                #[trigger] fs_contains(old(self).entries@, from@, k, d) ==> fs_contains(
                    final(self).entries@,
                    to@,
                    k,
                    d,
                )),
            r ==> (forall|k: Type, d: Seq<u8>|
                #[trigger] fs_contains(final(self).entries@, to@, k, d) ==> fs_contains(
                    old(self).entries@,
                    from@,
                    k,
                    d,
                )),
            forall|q: Seq<Seq<char>>, k: Type, d: Seq<u8>|
                q != from@ && q != to@ ==> (#[trigger] fs_contains(final(self).entries@, q, k, d)
                    <==> fs_contains(old(self).entries@, q, k, d)),
    {
        let ghost s0 = self.entries@;
        match self.find(from) {
            Some(i) => {
                let k = self.entries[i].kind;
                let d = self.entries[i].digest;
                proof {
                    let ii = i as int;
                    assert(entry_matches(s0[ii], from@, k, d@));
                }
                let removed = self.remove_at(from);
                let ghost s1 = self.entries@;
                proof {
                    assert(!fs_has_path(s1, to@)) by {
                        if fs_has_path(s1, to@) {
                            lemma_has_path_contains(s1, to@);
                            let kd = choose|k2: Type, d2: Seq<u8>| fs_contains(s1, to@, k2, d2);
                            assert(to@ != from@);
                            assert(fs_contains(s0, to@, kd.0, kd.1));
                            let jj = choose|jj: int|
                                0 <= jj < s0.len() && entry_matches(s0[jj], to@, kd.0, kd.1);
                            assert(s0[jj].path@ == to@);
                            assert(fs_has_path(s0, to@));
                        }
                    };
                }
                let added = self.put(to.duplicate(), k, d);
                proof {
                    assert(added);
                    assert(fs_contains(self.entries@, to@, k, d@)) by {
                        assert(entry_matches(
                            self.entries@[self.entries@.len() - 1],
                            to@,
                            k,
                            d@,
                        ));
                    }
                    assert forall|k2: Type, d2: Seq<u8>|
                        #[trigger] fs_contains(s0, from@, k2, d2) implies fs_contains(
                        self.entries@,
                        to@,
                        k2,
                        d2,
                    ) by {
                        lemma_fs_at_most_one(s0, from@, k2, d2, k, d@);
                    }
                    assert forall|k2: Type, d2: Seq<u8>|
                        #[trigger] fs_contains(self.entries@, to@, k2, d2) implies fs_contains(
                        s0,
                        from@,
                        k2,
                        d2,
                    ) by {
                        let jj = choose|jj: int|
                            0 <= jj < self.entries@.len() && entry_matches(
                                self.entries@[jj],
                                to@,
                                k2,
                                d2,
                            );
                        if jj < self.entries@.len() - 1 {
                            assert(fs_contains(s1, to@, k2, d2));
                            assert(false);
                        }
                        assert(k2 == k && d2 == d@);
                        assert(entry_matches(s0[i as int], from@, k2, d2));
                    }
                    assert(!fs_has_path(self.entries@, from@)) by {
                        if fs_has_path(self.entries@, from@) {
                            let jj = choose|jj: int|
                                0 <= jj < self.entries@.len() && self.entries@[jj].path@
                                    == from@;
                            if jj < self.entries@.len() - 1 {
                                assert(s1[jj].path@ == from@);
                                assert(fs_has_path(s1, from@));
                            }
                        }
                    }
                    assert forall|q: Seq<Seq<char>>, k2: Type, d2: Seq<u8>|
                        q != from@ && q != to@ implies (#[trigger] fs_contains(
                        self.entries@,
                        q,
                        k2,
                        d2,
                    ) <==> fs_contains(s0, q, k2, d2)) by {
                        if fs_contains(self.entries@, q, k2, d2) {
                            let jj = choose|jj: int|
                                0 <= jj < self.entries@.len() && entry_matches(
                                    self.entries@[jj],
                                    q,
                                    k2,
                                    d2,
                                );
                            assert(jj < self.entries@.len() - 1);
                            assert(fs_contains(s1, q, k2, d2));
                        }
                        if fs_contains(s1, q, k2, d2) {
                            let jj = choose|jj: int|
                                0 <= jj < s1.len() && entry_matches(s1[jj], q, k2, d2);
                            assert(entry_matches(self.entries@[jj], q, k2, d2));
                        }
                    }
                }
                true
            },
            None => false,
        }
    }
}

/// Whether the store has backed-up content for the digest.
pub open spec fn store_has(s: Seq<ContentDigest>, d: Seq<u8>) -> bool {
    exists|i: int| 0 <= i < s.len() && s[i]@ == d
}

/// The content-addressed backup store, as the set of digests it can
/// materialize.
pub struct Store {
    pub digests: Vec<ContentDigest>,
}

impl Store {
    /// An empty store.
    pub fn new() -> (r: Store)
        ensures
            r.digests@.len() == 0,
    {
        Store { digests: Vec::new() }
    }

    /// Whether content with this digest has been backed up.
    pub fn contains(&self, d: &ContentDigest) -> (r: bool)
        ensures
            r == store_has(self.digests@, d@),
    {
        let mut i: usize = 0;
        while i < self.digests.len()
            invariant
                0 <= i <= self.digests@.len(),
                forall|k: int| 0 <= k < i ==> self.digests@[k]@ != d@,
            decreases self.digests@.len() - i,
        {
            if self.digests[i].matches(d) {
                proof {
                    let ii = i as int;
                    assert(0 <= ii < self.digests@.len() && self.digests@[ii]@ == d@);
                }
                return true;
            }
            i = i + 1;
        }
        false
    }

    /// Back up content under its digest.
    pub fn put(&mut self, d: ContentDigest)
        ensures
            store_has(final(self).digests@, d@),
            forall|x: Seq<u8>|
                #[trigger] store_has(final(self).digests@, x) <==> (store_has(
                    old(self).digests@,
                    x,
                ) || x == d@),
    {
        let ghost s0 = self.digests@;
        if !self.contains(&d) {
            self.digests.push(d);
            proof {
                assert(self.digests@[s0.len() as int]@ == d@);
                assert forall|x: Seq<u8>| #[trigger]
                    store_has(self.digests@, x) implies (store_has(s0, x) || x == d@) by {
                    let jj = choose|jj: int|
                        0 <= jj < self.digests@.len() && self.digests@[jj]@ == x;
                    if jj < s0.len() {
                        assert(s0[jj]@ == x);
                    }
                }
                assert forall|x: Seq<u8>| (store_has(s0, x) || x == d@) implies #[trigger]
                    store_has(self.digests@, x) by {
                    if store_has(s0, x) {
                        let jj = choose|jj: int| 0 <= jj < s0.len() && s0[jj]@ == x;
                        assert(self.digests@[jj]@ == x);
                    } else {
                        assert(self.digests@[s0.len() as int]@ == x);
                    }
                }
            }
        }
    }
}

} // verus!
