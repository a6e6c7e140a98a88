//! The append-only, time-ordered log of executed commands, and the engine
//! that reverts a past command: it computes which later commands causally
//! depend on the target (transitively), refuses with a conflict while any
//! of them is still live, and otherwise performs the single safe revert.

use vstd::prelude::*;
use crate::command::{spec_revert_apply, spec_revert_failure, Command, CommandId, Type};
use crate::construct::Construct;
use crate::error::{Error, ValidationError};
use crate::digest::ContentDigest;
use crate::fs::{fs_contains, fs_has_path, fs_wf, FsEntry, FsModel, Store};
use crate::object::Object;
use crate::path::AbsPath;

verus! {

/// The log's invariant: identifiers strictly increase with append order,
/// and every entry has run and is well shaped.
pub open spec fn hb_wf(s: Seq<Command>) -> bool {
    &&& (forall|i: int, j: int| 0 <= i < j < s.len() ==> s[i].id.0 < s[j].id.0)
    &&& (forall|i: int| 0 <= i < s.len() ==> (#[trigger] s[i]).executed && s[i].wf())
}

/// Whether entry `j` is in the dependency closure of entry `t`: it depends,
/// directly or through a chain of later entries, on `t`.
pub open spec fn reach(s: Seq<Command>, t: int, j: int) -> bool
    decreases j,
{
    if t < 0 || j <= t || j >= s.len() {
        false
    } else {
        exists|i: int|
            t <= i < j && (i == t || reach(s, t, i)) && (#[trigger] s[j].dep_spec(&s[i]))
    }
}

/// Whether some not-yet-reverted entry still depends on entry `t`.
pub open spec fn spec_has_live_dependent(s: Seq<Command>, t: int) -> bool {
    exists|j: int| 0 <= j < s.len() && reach(s, t, j) && !s[j].reverted
}

/// `ids` holds exactly the identifiers of the live dependents of `t`, in
/// descending identifier order.
pub open spec fn spec_blockers_exact(s: Seq<Command>, t: int, ids: Seq<CommandId>) -> bool {
    &&& (forall|j: int|
        0 <= j < s.len() ==> ((reach(s, t, j) && !s[j].reverted) <==> ids.contains(
            #[trigger] s[j].id,
        )))
    &&& (forall|a: int|
        0 <= a < ids.len() ==> exists|j: int|
            0 <= j < s.len() && reach(s, t, j) && !s[j].reverted && s[j].id == #[trigger] ids[a])
    &&& (forall|a: int, b: int| 0 <= a < b < ids.len() ==> ids[a].0 > ids[b].0)
}

/// The identifiers of the members of `t`'s dependency closure among the
/// first `n` log entries, in log order — which is ascending identifier
/// order.
pub open spec fn spec_closure_ids(s: Seq<Command>, t: int, n: int) -> Seq<CommandId>
    decreases n,
{
    if n <= 0 || n <= t + 1 {
        Seq::<CommandId>::empty()
    } else if reach(s, t, n - 1) {
        spec_closure_ids(s, t, n - 1).push(s[n - 1].id)
    } else {
        spec_closure_ids(s, t, n - 1)
    }
}

/// The identifiers of the direct dependents of `t` among the first `n` log
/// entries, in log order — which is ascending identifier order.
pub open spec fn spec_direct_ids(s: Seq<Command>, t: int, n: int) -> Seq<CommandId>
    decreases n,
{
    if n <= 0 || n <= t + 1 || t < 0 {
        Seq::<CommandId>::empty()
    } else if n - 1 < s.len() && s[n - 1].dep_spec(&s[t]) {
        spec_direct_ids(s, t, n - 1).push(s[n - 1].id)
    } else {
        spec_direct_ids(s, t, n - 1)
    }
}

/// The index of the most recent entry that has not been reverted, or `-1`
/// when every entry has been.
pub open spec fn spec_last_unreverted(s: Seq<Command>) -> int
    decreases s.len(),
{
    if s.len() == 0 {
        -1
    } else if !s.last().reverted {
        s.len() - 1
    } else {
        spec_last_unreverted(s.drop_last())
    }
}

proof fn lemma_last_unreverted_take(s: Seq<Command>, i: int)
    requires
        0 <= i <= s.len(),
        forall|k: int| i <= k < s.len() ==> (#[trigger] s[k]).reverted,
    ensures
        spec_last_unreverted(s) == spec_last_unreverted(s.take(i)),
    decreases s.len() - i,
{
    if i < s.len() {
        assert(s.last().reverted);
        assert(s.drop_last() =~= s.take(s.len() - 1));
        lemma_last_unreverted_take(s.take(s.len() - 1), i);
        assert(s.take(s.len() - 1).take(i) =~= s.take(i));
    } else {
        assert(s.take(i) =~= s);
    }
}

/// What a committed pass leaves behind: the command `c` carries the given
/// identity, targets the given path, has run and is appended to the log,
/// its recorded digest is what the filesystem held, and the filesystem and
/// store changed exactly as executing `c` says.
pub open spec fn spec_run_committed(
    c: Command,
    id: CommandId,
    kind: Type,
    src_path_v: Seq<Seq<char>>,
    h0: Seq<Command>,
    h1: Seq<Command>,
    fs0: Seq<FsEntry>,
    fs1: Seq<FsEntry>,
    st0: Seq<ContentDigest>,
    st1: Seq<ContentDigest>,
) -> bool {
    &&& c.id == id
    &&& c.kind == kind
    &&& c.src.path@ == src_path_v
    &&& c.executed
    &&& !c.reverted
    &&& h1 == h0.push(c)
    &&& fs_contains(fs0, src_path_v, c.src.kind, c.digest@)
    &&& crate::command::spec_execute_apply(Command { executed: false, ..c }, fs0, fs1, st0, st1)
}

/// The view of an optional destination directory.
pub open spec fn spec_opt_dir(dst: Option<AbsPath>) -> Seq<Seq<char>> {
    match dst {
        Some(d) => d@,
        None => Seq::<Seq<char>>::empty(),
    }
}

/// The append-only, id-ordered log of executed commands.
pub struct HistoryBuffer {
    pub entries: Vec<Command>,
}

impl HistoryBuffer {
    /// An empty log.
    pub fn new() -> (r: HistoryBuffer)
        ensures
            r.entries@.len() == 0,
            hb_wf(r.entries@),
    {
        HistoryBuffer { entries: Vec::new() }
    }

    /// How many commands the log holds.
    pub fn len(&self) -> (r: usize)
        ensures
            r == self.entries@.len(),
    {
        self.entries.len()
    }

    /// The command at a log position.
    pub fn get(&self, i: usize) -> (r: &Command)
        requires
            i < self.entries@.len(),
        ensures
            *r == self.entries@[i as int],
    {
        &self.entries[i]
    }

    /// Append an executed command.  The caller hands commands over in
    /// construction order, so the new identifier exceeds every recorded one.
    pub fn push(&mut self, cmd: Command) -> (r: CommandId)
        requires
            hb_wf(old(self).entries@),
            cmd.executed,
            !cmd.reverted,
            cmd.wf(),
            old(self).entries@.len() > 0 ==> old(self).entries@.last().id.0 < cmd.id.0,
        ensures
            hb_wf(final(self).entries@),
            final(self).entries@ =~= old(self).entries@.push(cmd),
            r == cmd.id,
    {
        let ghost s0 = self.entries@;
        let id = cmd.id;
        self.entries.push(cmd);
        proof {
            assert forall|i: int, j: int|
                0 <= i < j < self.entries@.len() implies self.entries@[i].id.0
                < self.entries@[j].id.0 by {
                if j < s0.len() {
                } else if i < s0.len() - 1 {
                    assert(s0[i].id.0 < s0[s0.len() - 1].id.0);
                }
            }
        }
        id
    }

    /// The log position holding the given identifier, if any.
    fn index_of(&self, id: CommandId) -> (r: Option<usize>)
        ensures
            match r {
                Some(t) => t < self.entries@.len() && self.entries@[t as int].id == id,
                None => forall|t: int|
                    0 <= t < self.entries@.len() ==> (#[trigger] self.entries@[t]).id != id,
            },
    {
        let mut i: usize = 0;
        while i < self.entries.len()
            invariant
                0 <= i <= self.entries@.len(),
                forall|k: int| 0 <= k < i ==> (#[trigger] self.entries@[k]).id != id,
            decreases self.entries@.len() - i,
        {
            if self.entries[i].id.0 == id.0 {
                return Some(i);
            }
            i = i + 1;
        }
        None
    }

    /// For each log position, whether it is the target `t` or a member of
    /// `t`'s dependency closure.  A single forward pass suffices because a
    /// command only ever depends on earlier commands.
    fn closure_marks(&self, t: usize) -> (r: Vec<bool>)
        requires
            hb_wf(self.entries@),
            t < self.entries@.len(),
        ensures
            r@.len() == self.entries@.len(),
            forall|j: int|
                0 <= j < r@.len() ==> r@[j] == (j == t || reach(self.entries@, t as int, j)),
    {
        let ghost s = self.entries@;
        let n = self.entries.len();
        let mut marks: Vec<bool> = Vec::new();
        let mut a: usize = 0;
        while a < t
            invariant
                t < s.len(),
                s == self.entries@,
                0 <= a <= t,
                marks@.len() == a,
                forall|k: int| 0 <= k < a ==> marks@[k] == false,
            decreases t - a,
        {
            marks.push(false);
            a = a + 1;
        }
        marks.push(true);
        let mut j: usize = t + 1;
        while j < n
            invariant
                hb_wf(s),
                s == self.entries@,
                n == s.len(),
                t < n,
                t + 1 <= j <= n,
                marks@.len() == j,
                forall|k: int| 0 <= k < j ==> marks@[k] == (k == t || reach(s, t as int, k)),
            decreases n - j,
        {
            let mut found = false;
            let mut i: usize = t;
            while i < j
                invariant
                    hb_wf(s),
                    s == self.entries@,
                    n == s.len(),
                    t < n,
                    t + 1 <= j < n,
                    t <= i <= j,
                    marks@.len() == j,
                    forall|k: int| 0 <= k < j ==> marks@[k] == (k == t || reach(s, t as int, k)),
                    found ==> reach(s, t as int, j as int),
                    !found ==> forall|m: int|
                        t <= m < i ==> !((m == t || reach(s, t as int, m)) && (#[trigger] s[
                            j as int
                        ].dep_spec(&s[m]))),
                decreases j - i,
            {
                if marks[i] {
                    let c = &self.entries[j];
                    let e = &self.entries[i];
                    if c.depends_on(e) {
                        proof {
                            assert(s[j as int].dep_spec(&s[i as int]));
                            assert(i as int == t as int || reach(s, t as int, i as int));
                            assert(reach(s, t as int, j as int));
                        }
                        found = true;
                    }
                }
                i = i + 1;
            }
            proof {
                if !found {
                    if reach(s, t as int, j as int) {
                        let m0 = choose|m: int|
                            t as int <= m < j as int && (m == t as int || reach(s, t as int, m))
                                && s[j as int].dep_spec(&s[m]);
                        assert(!((m0 == t as int || reach(s, t as int, m0)) && s[
                            j as int
                        ].dep_spec(&s[m0])));
                        assert(false);
                    }
                }
                assert(found == reach(s, t as int, j as int));
            }
            marks.push(found);
            j = j + 1;
        }
        marks
    }

    /// The identifiers of the commands that depend on the given one,
    /// directly or transitively, in ascending identifier order; `None` when
    /// the identifier is not in the log.
    pub fn dependency_closure(&self, id: CommandId) -> (r: Option<Vec<CommandId>>)
        requires
            hb_wf(self.entries@),
        ensures
            match r {
                Some(v) => forall|t: int|
                    0 <= t < self.entries@.len() && (#[trigger] self.entries@[t]).id == id ==> v@
                        == spec_closure_ids(self.entries@, t, self.entries@.len() as int),
                None => forall|t: int|
                    0 <= t < self.entries@.len() ==> (#[trigger] self.entries@[t]).id != id,
            },
    {
        let ghost s = self.entries@;
        let t = match self.index_of(id) {
            Some(t) => t,
            None => {
                return None;
            },
        };
        let marks = self.closure_marks(t);
        let n = self.entries.len();
        let mut v: Vec<CommandId> = Vec::new();
        let mut j: usize = t + 1;
        while j < n
            invariant
                hb_wf(s),
                s == self.entries@,
                n == s.len(),
                t < n,
                t + 1 <= j <= n,
                marks@.len() == n,
                forall|k: int| 0 <= k < n ==> marks@[k] == (k == t as int || reach(s, t as int, k)),
                v@ == spec_closure_ids(s, t as int, j as int),
            decreases n - j,
        {
            let ghost v0 = v@;
            if marks[j] {
                v.push(self.entries[j].id);
                proof {
                    assert(v@ =~= v0.push(s[j as int].id));
                }
            }
            proof {
                assert(v@ == spec_closure_ids(s, t as int, j as int + 1));
            }
            j = j + 1;
        }
        proof {
            assert forall|t2: int|
                0 <= t2 < s.len() && (#[trigger] s[t2]).id == id implies t2 == t as int by {
                if t2 < t as int {
                    assert(s[t2].id.0 < s[t as int].id.0);
                } else if t2 > t as int {
                    assert(s[t as int].id.0 < s[t2].id.0);
                }
            }
        }
        Some(v)
    }

    /// The identifiers of the commands that depend directly on the given
    /// one, in ascending identifier order; `None` when the identifier is
    /// not in the log.
    pub fn direct_dependents(&self, id: CommandId) -> (r: Option<Vec<CommandId>>)
        requires
            hb_wf(self.entries@),
        ensures
            match r {
                Some(v) => forall|t: int|
                    0 <= t < self.entries@.len() && (#[trigger] self.entries@[t]).id == id ==> v@
                        == spec_direct_ids(self.entries@, t, self.entries@.len() as int),
                None => forall|t: int|
                    0 <= t < self.entries@.len() ==> (#[trigger] self.entries@[t]).id != id,
            },
    {
        let ghost s = self.entries@;
        let t = match self.index_of(id) {
            Some(t) => t,
            None => {
                return None;
            },
        };
        let n = self.entries.len();
        let mut v: Vec<CommandId> = Vec::new();
        let mut j: usize = t + 1;
        while j < n
            invariant
                hb_wf(s),
                s == self.entries@,
                n == s.len(),
                t < n,
                t + 1 <= j <= n,
                v@ == spec_direct_ids(s, t as int, j as int),
            decreases n - j,
        {
            let ghost v0 = v@;
            let c = &self.entries[j];
            let e = &self.entries[t];
            if c.depends_on(e) {
                v.push(self.entries[j].id);
                proof {
                    assert(v@ =~= v0.push(s[j as int].id));
                }
            }
            proof {
                assert(v@ == spec_direct_ids(s, t as int, j as int + 1));
            }
            j = j + 1;
        }
        proof {
            assert forall|t2: int|
                0 <= t2 < s.len() && (#[trigger] s[t2]).id == id implies t2 == t as int by {
                if t2 < t as int {
                    assert(s[t2].id.0 < s[t as int].id.0);
                } else if t2 > t as int {
                    assert(s[t as int].id.0 < s[t2].id.0);
                }
            }
        }
        Some(v)
    }

    /// Revert the command with the given identifier.  Refused while any
    /// not-yet-reverted command still depends on it — the conflict lists
    /// those blockers, most recent first — and when the target's recorded
    /// digest no longer matches the filesystem.  On any failure nothing is
    /// changed.
    pub fn revert(&mut self, id: CommandId, fs: &mut FsModel, store: &mut Store) -> (r: Result<
        (),
        Error,
    >)
        requires
            hb_wf(old(self).entries@),
            fs_wf(old(fs).entries@),
        ensures
            hb_wf(final(self).entries@),
            fs_wf(final(fs).entries@),
            r is Err ==> final(self).entries@ == old(self).entries@ && final(fs).entries@ == old(
                fs,
            ).entries@ && final(store).digests@ == old(store).digests@,
            (forall|t: int|
                0 <= t < old(self).entries@.len() ==> (#[trigger] old(self).entries@[t]).id != id)
                ==> r == Err::<(), Error>(Error::NotExecuted),
            forall|t: int|
                0 <= t < old(self).entries@.len() && (#[trigger] old(self).entries@[t]).id == id
                    ==> {
                    &&& (old(self).entries@[t].reverted ==> r == Err::<(), Error>(
                        Error::AlreadyReverted,
                    ))
                    &&& (!old(self).entries@[t].reverted && spec_has_live_dependent(
                        old(self).entries@,
                        t,
                    ) ==> (r matches Err(e) && e matches Error::ConflictError(ids)
                        && spec_blockers_exact(old(self).entries@, t, ids@)))
                    &&& (!old(self).entries@[t].reverted && !spec_has_live_dependent(
                        old(self).entries@,
                        t,
                    ) ==> match r {
                        Ok(()) => {
                            &&& spec_revert_failure(
                                old(self).entries@[t],
                                old(fs).entries@,
                                old(store).digests@,
                            ) is None
                            &&& final(self).entries@ == old(self).entries@.update(
                                t,
                                old(self).entries@[t].spec_with_reverted(),
                            )
                            &&& spec_revert_apply(
                                old(self).entries@[t],
                                old(fs).entries@,
                                final(fs).entries@,
                                old(store).digests@,
                                final(store).digests@,
                            )
                        },
                        Err(e) => match spec_revert_failure(
                            old(self).entries@[t],
                            old(fs).entries@,
                            old(store).digests@,
                        ) {
                            Some(Error::NameTaken(_)) => e matches Error::NameTaken(p) && p@
                                == old(self).entries@[t].src.path@,
                            Some(f) => e == f,
                            None => false,
                        },
                    })
                },
    {
        let ghost s0 = self.entries@;
        let t = match self.index_of(id) {
            Some(t) => t,
            None => {
                return Err(Error::NotExecuted);
            },
        };
        if self.entries[t].reverted {
            return Err(Error::AlreadyReverted);
        }
        let marks = self.closure_marks(t);
        let n = self.entries.len();
        let mut blockers: Vec<CommandId> = Vec::new();
        let ghost mut idxs = Seq::<int>::empty();
        let mut j: usize = n;
        while j > t + 1
            invariant
                hb_wf(s0),
                s0 == self.entries@,
                n == s0.len(),
                t < n,
                t + 1 <= j <= n,
                marks@.len() == n,
                forall|k: int|
                    0 <= k < n ==> marks@[k] == (k == t as int || reach(s0, t as int, k)),
                idxs.len() == blockers@.len(),
                forall|a: int| 0 <= a < idxs.len() ==> j <= (#[trigger] idxs[a]) < n,
                forall|a: int, b: int| 0 <= a < b < idxs.len() ==> idxs[a] > idxs[b],
                forall|a: int|
                    0 <= a < idxs.len() ==> reach(s0, t as int, #[trigger] idxs[a]) && !s0[idxs[
                        a
                    ]].reverted,
                forall|a: int| 0 <= a < idxs.len() ==> s0[#[trigger] idxs[a]].id == blockers@[a],
                forall|k: int|
                    j <= k < n && reach(s0, t as int, k) && !s0[k].reverted ==> blockers@.contains(
                        #[trigger] s0[k].id,
                    ),
            decreases j,
        {
            j = j - 1;
            if marks[j] && !self.entries[j].reverted {
                let ghost b0 = blockers@;
                blockers.push(self.entries[j].id);
                proof {
                    assert(blockers@ =~= b0.push(s0[j as int].id));
                    idxs = idxs.push(j as int);
                    assert forall|k: int|
                        j <= k < n && reach(s0, t as int, k) && !s0[k].reverted implies blockers@
                        .contains(#[trigger] s0[k].id) by {
                        if k > j {
                            let a = choose|a: int| 0 <= a < b0.len() && b0[a] == s0[k].id;
                            assert(blockers@[a] == s0[k].id);
                        } else {
                            assert(blockers@[blockers@.len() - 1] == s0[k].id);
                        }
                    }
                }
            }
        }
        if blockers.len() > 0 {
            proof {
                let k0 = idxs[0];
                assert(reach(s0, t as int, k0) && !s0[k0].reverted);
                assert(spec_has_live_dependent(s0, t as int));
                assert forall|jj: int|
                    0 <= jj < s0.len() implies ((reach(s0, t as int, jj) && !s0[jj].reverted)
                    <==> blockers@.contains(#[trigger] s0[jj].id)) by {
                    if blockers@.contains(s0[jj].id) {
                        let a = choose|a: int|
                            0 <= a < blockers@.len() && blockers@[a] == s0[jj].id;
                        let kk = idxs[a];
                        assert(reach(s0, t as int, kk) && !s0[kk].reverted && s0[kk].id == s0[
                            jj
                        ].id);
                        if kk != jj {
                            if kk < jj {
                                assert(s0[kk].id.0 < s0[jj].id.0);
                            } else {
                                assert(s0[jj].id.0 < s0[kk].id.0);
                            }
                            assert(false);
                        }
                    }
                }
                assert forall|a: int|
                    0 <= a < blockers@.len() implies (exists|jj: int|
                    0 <= jj < s0.len() && reach(s0, t as int, jj) && !s0[jj].reverted && s0[
                        jj
                    ].id == (#[trigger] blockers@[a])) by {
                    assert(0 <= idxs[a] < s0.len() && reach(s0, t as int, idxs[a]) && !s0[idxs[
                        a
                    ]].reverted && s0[idxs[a]].id == blockers@[a]);
                }
                assert forall|a: int, b: int|
                    0 <= a < b < blockers@.len() implies blockers@[a].0 > blockers@[b].0 by {
                    assert(idxs[a] > idxs[b]);
                    assert(s0[idxs[b]].id.0 < s0[idxs[a]].id.0);
                }
                assert(spec_blockers_exact(s0, t as int, blockers@));
            }
            return Err(Error::ConflictError(blockers));
        }
        proof {
            assert(!spec_has_live_dependent(s0, t as int)) by {
                if spec_has_live_dependent(s0, t as int) {
                    let k = choose|k: int|
                        0 <= k < s0.len() && reach(s0, t as int, k) && !s0[k].reverted;
                    assert(k > t);
                    assert(blockers@.contains(s0[k].id));
                    let a = choose|a: int| 0 <= a < blockers@.len() && blockers@[a] == s0[k].id;
                }
            }
        }
        let mut cmd = self.entries.remove(t);
        let res = cmd.revert(fs, store);
        self.entries.insert(t, cmd);
        proof {
            if res is Ok {
                assert(self.entries@ =~= s0.update(t as int, s0[t as int].spec_with_reverted()));
            } else {
                assert(self.entries@ =~= s0);
            }
            assert forall|i: int, j2: int|
                0 <= i < j2 < self.entries@.len() implies self.entries@[i].id.0
                < self.entries@[j2].id.0 by {
                assert(s0[i].id.0 < s0[j2].id.0);
            }
        }
        res
    }

    /// Revert the most recent command that has not been reverted yet: the
    /// ordinary undo.  With no dependencies between commands this is a
    /// plain LIFO undo; the most recent live command never has live
    /// dependents, so no conflict can arise.
    pub fn revert_last(&mut self, fs: &mut FsModel, store: &mut Store) -> (r: Result<
        CommandId,
        Error,
    >)
        requires
            hb_wf(old(self).entries@),
            fs_wf(old(fs).entries@),
        ensures
            hb_wf(final(self).entries@),
            fs_wf(final(fs).entries@),
            r is Err ==> final(self).entries@ == old(self).entries@ && final(fs).entries@ == old(
                fs,
            ).entries@ && final(store).digests@ == old(store).digests@,
            spec_last_unreverted(old(self).entries@) == -1 ==> r == Err::<CommandId, Error>(
                Error::NotExecuted,
            ),
            spec_last_unreverted(old(self).entries@) >= 0 ==> match r {
                Ok(rid) => {
                    &&& rid == old(self).entries@[spec_last_unreverted(old(self).entries@)].id
                    &&& spec_revert_failure(
                        old(self).entries@[spec_last_unreverted(old(self).entries@)],
                        old(fs).entries@,
                        old(store).digests@,
                    ) is None
                    &&& final(self).entries@ == old(self).entries@.update(
                        spec_last_unreverted(old(self).entries@),
                        old(self).entries@[spec_last_unreverted(
                            old(self).entries@,
                        )].spec_with_reverted(),
                    )
                    &&& spec_revert_apply(
                        old(self).entries@[spec_last_unreverted(old(self).entries@)],
                        old(fs).entries@,
                        final(fs).entries@,
                        old(store).digests@,
                        final(store).digests@,
                    )
                },
                Err(e) => match spec_revert_failure(
                    old(self).entries@[spec_last_unreverted(old(self).entries@)],
                    old(fs).entries@,
                    old(store).digests@,
                ) {
                    Some(Error::NameTaken(_)) => e matches Error::NameTaken(p) && p@ == old(
                        self,
                    ).entries@[spec_last_unreverted(old(self).entries@)].src.path@,
                    Some(f) => e == f,
                    None => false,
                },
            },
    {
        let ghost s0 = self.entries@;
        let n = self.entries.len();
        let ghost f0 = fs.entries@;
        let ghost st0 = store.digests@;
        let mut i: usize = n;
        while i > 0
            invariant
                hb_wf(s0),
                fs_wf(f0),
                s0 == old(self).entries@,
                f0 == old(fs).entries@,
                st0 == old(store).digests@,
                s0 == self.entries@,
                f0 == fs.entries@,
                st0 == store.digests@,
                n == s0.len(),
                0 <= i <= n,
                forall|k: int| i <= k < n ==> (#[trigger] s0[k]).reverted,
            decreases i,
        {
            if !self.entries[i - 1].reverted {
                let t = i - 1;
                proof {
                    lemma_last_unreverted_take(s0, t as int + 1);
                    assert(s0.take(t as int + 1).last() == s0[t as int]);
                    assert(spec_last_unreverted(s0.take(t as int + 1)) == t as int);
                }
                let id = self.entries[t].id;
                let ghost tt = t as int;
                proof {
                    assert forall|k: int| 0 <= k < s0.len() && s0[k].id == id implies k == tt by {
                        if k < tt {
                            assert(s0[k].id.0 < s0[tt].id.0);
                        } else if k > tt {
                            assert(s0[tt].id.0 < s0[k].id.0);
                        }
                    }
                }
                let res = self.revert(id, fs, store);
                match res {
                    Ok(()) => {
                        return Ok(id);
                    },
                    Err(e) => {
                        proof {
                            assert(!s0[tt].reverted);
                            assert(!spec_has_live_dependent(s0, tt)) by {
                                if spec_has_live_dependent(s0, tt) {
                                    let k = choose|k: int|
                                        0 <= k < s0.len() && reach(s0, tt, k) && !s0[k].reverted;
                                    assert(k > tt);
                                    assert(s0[k].reverted);
                                }
                            }
                        }
                        return Err(e);
                    },
                }
            }
            i = i - 1;
        }
        proof {
            lemma_last_unreverted_take(s0, 0);
            assert(s0.take(0) =~= Seq::<Command>::empty());
        }
        Err(Error::NotExecuted)
    }
}

/// One full pass of the tool, against the model: open the object at
/// `src_path`, wrap it into a command with the given identifier, execute
/// the mutation, and append the command to the history.  Nothing is changed
/// on failure.
pub fn run_with_id(
    id: CommandId,
    kind: Type,
    src_path: AbsPath,
    dst: Option<AbsPath>,
    fs: &mut FsModel,
    store: &mut Store,
    history: &mut HistoryBuffer,
) -> (r: Result<CommandId, Error>)
    requires
        hb_wf(old(history).entries@),
        fs_wf(old(fs).entries@),
        (kind == Type::Delete) == (dst is None),
        old(history).entries@.len() > 0 ==> old(history).entries@.last().id.0 < id.0,
    ensures
        hb_wf(final(history).entries@),
        fs_wf(final(fs).entries@),
        r is Err ==> final(history).entries@ == old(history).entries@ && final(fs).entries@
            == old(fs).entries@ && final(store).digests@ == old(store).digests@,
        match r {
            Ok(rid) => rid == id && (exists|c: Command|
                #[trigger] spec_run_committed(
                    c,
                    id,
                    kind,
                    src_path@,
                    old(history).entries@,
                    final(history).entries@,
                    old(fs).entries@,
                    final(fs).entries@,
                    old(store).digests@,
                    final(store).digests@,
                )),
            Err(e) => {
                ||| (e == Error::Validation(ValidationError::NotExists) && !fs_has_path(
                    old(fs).entries@,
                    src_path@,
                ))
                ||| (e == Error::CannotRenameRoot && kind != Type::Delete && src_path@.len() == 0)
                ||| (e == Error::MoveDestNotDir && kind != Type::Delete && !(exists|d: Seq<u8>|
                    #[trigger] fs_contains(
                        old(fs).entries@,
                        spec_opt_dir(dst),
                        crate::object::Type::Dir,
                        d,
                    )))
                ||| (e matches Error::NameTaken(p) && kind != Type::Delete && src_path@.len() > 0
                    && p@ == spec_opt_dir(dst).push(src_path@.last()) && fs_has_path(
                    old(fs).entries@,
                    p@,
                ))
            },
        },
{
    let obj = match Object::from_existing(src_path, fs) {
        Ok(o) => o,
        Err(e) => {
            return Err(e);
        },
    };
    let is_delete = match kind {
        Type::Delete => true,
        _ => false,
    };
    if !is_delete && obj.path.segs.len() == 0 {
        proof {
            assert(obj.path@.len() == 0);
        }
        return Err(Error::CannotRenameRoot);
    }
    let ghost fs0 = fs.entries@;
    let ghost st0 = store.digests@;
    let ghost h0 = history.entries@;
    let ghost objk = obj.kind;
    let mut cmd = match Command::with_id(id, kind, obj, dst, fs) {
        Ok(c) => c,
        Err(e) => {
            proof {
                match e {
                    Error::Validation(ValidationError::WrongType { expected, got }) => {
                        let d1 = choose|d: Seq<u8>| fs_contains(fs0, src_path@, objk, d);
                        let d2 = choose|d: Seq<u8>| fs_contains(fs0, src_path@, got, d);
                        crate::fs::lemma_fs_at_most_one(fs0, src_path@, objk, d1, got, d2);
                        assert(false);
                    },
                    _ => {
                        assert(false);
                    },
                }
            }
            return Err(e);
        },
    };
    let ghost cpre = cmd;
    match cmd.execute(fs, store) {
        Ok(()) => {},
        Err(e) => {
            proof {
                crate::fs::lemma_contains_has_path(fs0, src_path@, cpre.src.kind, cpre.digest@);
                assert(crate::command::spec_dst_dir(cpre) == spec_opt_dir(dst));
                assert(cpre.kind != Type::Delete);
                assert(cpre.spec_dest() == spec_opt_dir(dst).push(src_path@.last()));
            }
            return Err(e);
        },
    }
    let ghost cexec = cmd;
    let rid = history.push(cmd);
    proof {
        assert(cexec == cpre.spec_with_executed());
        assert(Command { executed: false, ..cexec } == cpre);
        assert(history.entries@ == h0.push(cexec));
        assert(spec_run_committed(
            cexec,
            id,
            kind,
            src_path@,
            h0,
            history.entries@,
            fs0,
            fs.entries@,
            st0,
            store.digests@,
        ));
    }
    Ok(rid)
}

/// One full pass of the tool with a freshly drawn identifier.  The
/// identifier comes from the clock; where it fails to advance past the last
/// recorded one, the pass is refused as an environment failure and nothing
/// is changed.
pub fn run(
    kind: Type,
    src_path: AbsPath,
    dst: Option<AbsPath>,
    fs: &mut FsModel,
    store: &mut Store,
    history: &mut HistoryBuffer,
) -> (r: Result<CommandId, Error>)
    requires
        hb_wf(old(history).entries@),
        fs_wf(old(fs).entries@),
        (kind == Type::Delete) == (dst is None),
    ensures
        hb_wf(final(history).entries@),
        fs_wf(final(fs).entries@),
        r is Err ==> final(history).entries@ == old(history).entries@ && final(fs).entries@
            == old(fs).entries@ && final(store).digests@ == old(store).digests@,
        r == Err::<CommandId, Error>(Error::IO) ==> old(history).entries@.len() > 0,
        match r {
            Ok(rid) => exists|c: Command|
                #[trigger] spec_run_committed(
                    c,
                    rid,
                    kind,
                    src_path@,
                    old(history).entries@,
                    final(history).entries@,
                    old(fs).entries@,
                    final(fs).entries@,
                    old(store).digests@,
                    final(store).digests@,
                ),
            Err(e) => {
                ||| e == Error::IO
                ||| (e == Error::Validation(ValidationError::NotExists) && !fs_has_path(
                    old(fs).entries@,
                    src_path@,
                ))
                ||| (e == Error::CannotRenameRoot && kind != Type::Delete && src_path@.len() == 0)
                ||| (e == Error::MoveDestNotDir && kind != Type::Delete && !(exists|d: Seq<u8>|
                    #[trigger] fs_contains(
                        old(fs).entries@,
                        spec_opt_dir(dst),
                        crate::object::Type::Dir,
                        d,
                    )))
                ||| (e matches Error::NameTaken(p) && kind != Type::Delete && src_path@.len() > 0
                    && p@ == spec_opt_dir(dst).push(src_path@.last()) && fs_has_path(
                    old(fs).entries@,
                    p@,
                ))
            },
        },
{
    let id = crate::command::fresh_command_id();
    if history.len() > 0 {
        let last = history.len() - 1;
        if history.get(last).id.0 >= id.0 {
            return Err(Error::IO);
        }
    }
    run_with_id(id, kind, src_path, dst, fs, store, history)
}

} // verus!
