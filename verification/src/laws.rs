//! The engine's global guarantees, stated and proved once: dependency
//! never points forward in time, and reverting an executed delete or move
//! is owed and restores the object with its recorded digest.

use vstd::prelude::*;
use crate::command::{
    spec_execute_apply, spec_revert_apply, spec_revert_failure, Command, Type,
};
use crate::construct::Construct;
use crate::digest::ContentDigest;
use crate::fs::{fs_contains, store_has, FsEntry};

verus! {

/// Dependency never points forward: a command never depends on one with a
/// greater identifier, so the dependency graph follows time.
pub proof fn lemma_dependency_never_forward(a: Command, b: Command)
    requires
        a.id.0 < b.id.0,
    ensures
        !a.dep_spec(&b),
{
}

/// Undoing a delete restores the object.  Once an executed delete has run
/// against a filesystem that held its target, its revert is owed — nothing
/// blocks it — and any state it produces holds the object again at its
/// original path, with its original kind and digest.
pub proof fn lemma_delete_round_trip(
    c: Command,
    fs0: Seq<FsEntry>,
    fs1: Seq<FsEntry>,
    st0: Seq<ContentDigest>,
    st1: Seq<ContentDigest>,
    fs2: Seq<FsEntry>,
    st2: Seq<ContentDigest>,
)
    requires
        c.wf(),
        !c.executed,
        !c.reverted,
        c.kind == Type::Delete,
        fs_contains(fs0, c.src.path@, c.src.kind, c.digest@),
        spec_execute_apply(c, fs0, fs1, st0, st1),
    ensures
        spec_revert_failure(c.spec_with_executed(), fs1, st1) is None,
        spec_revert_apply(c.spec_with_executed(), fs1, fs2, st1, st2) ==> fs_contains(
            fs2,
            c.src.path@,
            c.src.kind,
            c.digest@,
        ),
{
    assert(store_has(st1, c.digest@)) by {
        assert(fs_contains(fs0, c.src.path@, c.src.kind, c.digest@));
    }
}

/// Undoing a move restores the object at its original path.  Once an
/// executed move has run against a filesystem that held its target, its
/// revert is owed, and any state it produces holds the object at the
/// original source path with an unchanged digest.
pub proof fn lemma_move_round_trip(
    c: Command,
    fs0: Seq<FsEntry>,
    fs1: Seq<FsEntry>,
    st0: Seq<ContentDigest>,
    st1: Seq<ContentDigest>,
    fs2: Seq<FsEntry>,
    st2: Seq<ContentDigest>,
)
    requires
        c.wf(),
        !c.executed,
        !c.reverted,
        c.kind == Type::Move,
        fs_contains(fs0, c.src.path@, c.src.kind, c.digest@),
        spec_execute_apply(c, fs0, fs1, st0, st1),
    ensures
        spec_revert_failure(c.spec_with_executed(), fs1, st1) is None,
        spec_revert_apply(c.spec_with_executed(), fs1, fs2, st1, st2) ==> fs_contains(
            fs2,
            c.src.path@,
            c.src.kind,
            c.digest@,
        ),
{
    let cx = c.spec_with_executed();
    assert(fs_contains(fs1, c.spec_dest(), c.src.kind, c.digest@));
    assert(cx.spec_dest() == c.spec_dest());
    crate::fs::lemma_contains_has_path(fs1, c.spec_dest(), c.src.kind, c.digest@);
    assert(exists|k: crate::object::Type| fs_contains(fs1, cx.spec_dest(), k, cx.digest@)) by {
        assert(fs_contains(fs1, cx.spec_dest(), cx.src.kind, cx.digest@));
    }
    if spec_revert_apply(cx, fs1, fs2, st1, st2) {
        assert(fs_contains(fs2, c.src.path@, c.src.kind, c.digest@));
    }
}

} // verus!
