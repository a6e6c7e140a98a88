//! Commands: one recorded mutation attempt each — identity, kind, target
//! handle, the digest recorded at construction, and the optional
//! destination — together with executing the mutation and reverting it.
//! Reverting re-checks the target's digest first and refuses to touch
//! anything that changed out of band.

use vstd::prelude::*;
use uuid::{NoContext, Timestamp, Uuid};
use crate::digest::ContentDigest;
use crate::error::{Error, ValidationError};
use crate::fs::{entry_matches, fs_contains, fs_has_path, fs_wf, store_has, FsEntry, FsModel, Store};
use crate::object::{kinds_equal, Object};
use crate::path::AbsPath;

verus! {

/// The kind of mutation a command performs.
#[derive(Clone, Copy, Debug, PartialEq, Eq, Structural)]
pub enum Type {
    Move,
    Copy,
    Delete,
}

/// A time-ordered, globally unique command identifier.
#[derive(Clone, Copy, Debug, PartialEq, Eq, Structural)]
pub struct CommandId(pub u128);

/// Relies on uuid's `Uuid::new_v7` over the current timestamp: a fresh
/// identifier; nothing is assumed of the value drawn, since it depends on
/// the clock.
#[verifier::external_body]
fn fresh_uuid_v7() -> u128 {
    Uuid::new_v7(Timestamp::now(NoContext)).as_u128()
}

/// A freshly drawn command identifier; its value depends on the clock.
pub(crate) fn fresh_command_id() -> CommandId {
    CommandId(fresh_uuid_v7())
}

/// One recorded mutation attempt.
pub struct Command {
    pub id: CommandId,
    pub kind: Type,
    pub src: Object,
    pub digest: ContentDigest,
    pub dst: Option<AbsPath>,
    pub executed: bool,
    pub reverted: bool,
}

impl Command {
    /// A command's shape: a delete has no destination, a move or copy has
    /// one and never targets the root; a reverted command has run.
    pub open spec fn wf(&self) -> bool {
        &&& (self.kind == Type::Delete <==> self.dst is None)
        &&& (self.kind != Type::Delete ==> self.src.path@.len() > 0)
        &&& (self.reverted ==> self.executed)
    }

    /// The command, marked as having run.
    pub open spec fn spec_with_executed(self) -> Command {
        Command { executed: true, ..self }
    }

    /// The command, marked as reverted.
    pub open spec fn spec_with_reverted(self) -> Command {
        Command { reverted: true, ..self }
    }

    /// The full path a move or copy puts the object at: its name inside the
    /// destination directory.
    pub open spec fn spec_dest(self) -> Seq<Seq<char>> {
        match self.dst {
            Some(d) => d@.push(self.src.path@.last()),
            None => Seq::<Seq<char>>::empty(),
        }
    }

    /// Build a command with a caller-chosen identifier, recording the
    /// target's current digest.  Fails exactly when the target cannot be
    /// validated.
    pub fn with_id(
        id: CommandId,
        kind: Type,
        src: Object,
        dst: Option<AbsPath>,
        fs: &FsModel,
    ) -> (r: Result<Command, Error>)
        requires
            fs_wf(fs.entries@),
            (kind == Type::Delete) == (dst is None),
            kind != Type::Delete ==> src.path@.len() > 0,
        ensures
            match r {
                Ok(c) => {
                    &&& c.id == id
                    &&& c.kind == kind
                    &&& c.src == src
                    &&& c.dst == dst
                    &&& !c.executed
                    &&& !c.reverted
                    &&& c.wf()
                    &&& fs_contains(fs.entries@, src.path@, src.kind, c.digest@)
                },
                Err(e) => match e {
                    Error::Validation(ValidationError::NotExists) => !fs_has_path(
                        fs.entries@,
                        src.path@,
                    ),
                    Error::Validation(ValidationError::WrongType { expected, got }) => expected
                        == src.kind && got != src.kind && (exists|d: Seq<u8>|
                        fs_contains(fs.entries@, src.path@, got, d)),
                    _ => false,
                },
            },
    {
        let digest = match src.digest(fs) {
            Ok(d) => d,
            Err(e) => {
                return Err(e);
            },
        };
        Ok(Command { id, kind, src, digest, dst, executed: false, reverted: false })
    }

    /// Build a command with a fresh time-ordered identifier.  The identifier
    /// is drawn from the clock, so nothing is promised of its value.
    pub fn new(kind: Type, src: Object, dst: Option<AbsPath>, fs: &FsModel) -> (r: Result<
        Command,
        Error,
    >)
        requires
            fs_wf(fs.entries@),
            (kind == Type::Delete) == (dst is None),
            kind != Type::Delete ==> src.path@.len() > 0,
        ensures
            match r {
                Ok(c) => {
                    &&& c.kind == kind
                    &&& c.src == src
                    &&& c.dst == dst
                    &&& !c.executed
                    &&& !c.reverted
                    &&& c.wf()
                    &&& fs_contains(fs.entries@, src.path@, src.kind, c.digest@)
                },
                Err(e) => match e {
                    Error::Validation(ValidationError::NotExists) => !fs_has_path(
                        fs.entries@,
                        src.path@,
                    ),
                    Error::Validation(ValidationError::WrongType { expected, got }) => expected
                        == src.kind && got != src.kind && (exists|d: Seq<u8>|
                        fs_contains(fs.entries@, src.path@, got, d)),
                    _ => false,
                },
            },
    {
        let id = CommandId(fresh_uuid_v7());
        Command::with_id(id, kind, src, dst, fs)
    }

    /// Perform the mutation: delete removes the object after backing its
    /// content up; move backs the content up and transports the object into
    /// the destination directory; copy places a second object there.  Runs
    /// at most once.
    pub fn execute(&mut self, fs: &mut FsModel, store: &mut Store) -> (r: Result<(), Error>)
        requires
            old(self).wf(),
            fs_wf(old(fs).entries@),
        ensures
            final(self).wf(),
            fs_wf(final(fs).entries@),
            r is Err ==> *final(self) == *old(self) && final(fs).entries@ == old(fs).entries@
                && final(store).digests@ == old(store).digests@,
            match r {
                Ok(()) => {
                    &&& *final(self) == old(self).spec_with_executed()
                    &&& !old(self).executed
                    &&& spec_execute_apply(
                        *old(self),
                        old(fs).entries@,
                        final(fs).entries@,
                        old(store).digests@,
                        final(store).digests@,
                    )
                },
                Err(e) => match spec_execute_failure(*old(self), old(fs).entries@) {
                    Some(Error::NameTaken(_)) => e matches Error::NameTaken(p) && p@ == old(
                        self,
                    ).spec_dest(),
                    Some(f) => e == f,
                    None => false,
                },
            },
            r is Ok <==> spec_execute_failure(*old(self), old(fs).entries@) is None,
    {
        let ghost fs0 = fs.entries@;
        let ghost c0 = *self;
        if self.executed {
            return Err(Error::AlreadyExecuted);
        }
        match self.src.validate(fs) {
            Ok(()) => {},
            Err(e) => {
                proof {
                    match e {
                        Error::Validation(ValidationError::WrongType { expected, got }) => {
                            let d = choose|d: Seq<u8>|
                                fs_contains(fs0, self.src.path@, got, d);
                            crate::fs::lemma_contains_has_path(fs0, self.src.path@, got, d);
                            let kd0 = (got, d);
                            assert(fs_contains(fs0, self.src.path@, kd0.0, kd0.1));
                            let kd = choose|kd: (crate::object::Type, Seq<u8>)|
                                fs_contains(fs0, self.src.path@, kd.0, kd.1);
                            crate::fs::lemma_fs_at_most_one(
                                fs0,
                                self.src.path@,
                                got,
                                d,
                                kd.0,
                                kd.1,
                            );
                        },
                        _ => {},
                    }
                }
                return Err(e);
            },
        }
        let cur = match self.src.digest(fs) {
            Ok(d) => d,
            Err(_) => {
                proof {
                    assert(false);
                }
                return Err(Error::IO);
            },
        };
        proof {
            crate::fs::lemma_contains_has_path(fs0, self.src.path@, self.src.kind, cur@);
            assert forall|x: Seq<u8>| #[trigger]
                fs_contains(fs0, self.src.path@, self.src.kind, x) implies x == cur@ by {
                crate::fs::lemma_fs_at_most_one(
                    fs0,
                    self.src.path@,
                    self.src.kind,
                    x,
                    self.src.kind,
                    cur@,
                );
            }
        }
        match self.kind {
            Type::Delete => {
                proof {
                    assert(spec_execute_failure(c0, fs0) is None);
                }
                store.put(cur);
                fs.remove_at(&self.src.path);
                self.executed = true;
                Ok(())
            },
            Type::Move => {
                let dst_dir = match &self.dst {
                    Some(d) => d,
                    None => {
                        proof {
                            assert(false);
                        }
                        return Err(Error::IO);
                    },
                };
                match fs.lookup(dst_dir) {
                    Some(kd) => {
                        if !kinds_equal(kd.0, crate::object::Type::Dir) {
                            proof {
                                if exists|d: Seq<u8>|
                                    fs_contains(fs0, dst_dir@, crate::object::Type::Dir, d) {
                                    let d = choose|d: Seq<u8>|
                                        fs_contains(fs0, dst_dir@, crate::object::Type::Dir, d);
                                    crate::fs::lemma_fs_at_most_one(
                                        fs0,
                                        dst_dir@,
                                        crate::object::Type::Dir,
                                        d,
                                        kd.0,
                                        kd.1@,
                                    );
                                }
                            }
                            return Err(Error::MoveDestNotDir);
                        }
                        proof {
                            assert(spec_dst_dir(c0) == dst_dir@);
                            assert(fs_contains(
                                fs0,
                                spec_dst_dir(c0),
                                crate::object::Type::Dir,
                                kd.1@,
                            ));
                        }
                    },
                    None => {
                        proof {
                            if exists|d: Seq<u8>|
                                fs_contains(fs0, dst_dir@, crate::object::Type::Dir, d) {
                                let d = choose|d: Seq<u8>|
                                    fs_contains(fs0, dst_dir@, crate::object::Type::Dir, d);
                                crate::fs::lemma_contains_has_path(
                                    fs0,
                                    dst_dir@,
                                    crate::object::Type::Dir,
                                    d,
                                );
                            }
                        }
                        return Err(Error::MoveDestNotDir);
                    },
                }
                let name = self.src.path.name();
                let dest = dst_dir.child(&name);
                proof {
                    assert(dest@ == self.spec_dest());
                }
                if fs.exists_at(&dest) {
                    return Err(Error::NameTaken(dest));
                }
                proof {
                    assert(spec_execute_failure(c0, fs0) is None);
                }
                store.put(cur);
                fs.relocate(&self.src.path, &dest);
                self.executed = true;
                Ok(())
            },
            Type::Copy => {
                let dst_dir = match &self.dst {
                    Some(d) => d,
                    None => {
                        proof {
                            assert(false);
                        }
                        return Err(Error::IO);
                    },
                };
                match fs.lookup(dst_dir) {
                    Some(kd) => {
                        if !kinds_equal(kd.0, crate::object::Type::Dir) {
                            proof {
                                if exists|d: Seq<u8>|
                                    fs_contains(fs0, dst_dir@, crate::object::Type::Dir, d) {
                                    let d = choose|d: Seq<u8>|
                                        fs_contains(fs0, dst_dir@, crate::object::Type::Dir, d);
                                    crate::fs::lemma_fs_at_most_one(
                                        fs0,
                                        dst_dir@,
                                        crate::object::Type::Dir,
                                        d,
                                        kd.0,
                                        kd.1@,
                                    );
                                }
                            }
                            return Err(Error::MoveDestNotDir);
                        }
                        proof {
                            assert(spec_dst_dir(c0) == dst_dir@);
                            assert(fs_contains(
                                fs0,
                                spec_dst_dir(c0),
                                crate::object::Type::Dir,
                                kd.1@,
                            ));
                        }
                    },
                    None => {
                        proof {
                            if exists|d: Seq<u8>|
                                fs_contains(fs0, dst_dir@, crate::object::Type::Dir, d) {
                                let d = choose|d: Seq<u8>|
                                    fs_contains(fs0, dst_dir@, crate::object::Type::Dir, d);
                                crate::fs::lemma_contains_has_path(
                                    fs0,
                                    dst_dir@,
                                    crate::object::Type::Dir,
                                    d,
                                );
                            }
                        }
                        return Err(Error::MoveDestNotDir);
                    },
                }
                let name = self.src.path.name();
                let dest = dst_dir.child(&name);
                proof {
                    assert(dest@ == self.spec_dest());
                }
                if fs.exists_at(&dest) {
                    return Err(Error::NameTaken(dest));
                }
                let k = self.src.kind;
                let ghost destv = dest@;
                proof {
                    assert(spec_execute_failure(c0, fs0) is None);
                }
                fs.put(dest, k, cur);
                proof {
                    assert(fs.entries@.len() == fs0.len() + 1);
                    assert(entry_matches(fs.entries@[fs0.len() as int], destv, k, cur@));
                    crate::fs::lemma_push_effects(fs0, fs.entries@, destv, k, cur@);
                    assert forall|k2: crate::object::Type, d2: Seq<u8>| #[trigger]
                        fs_contains(fs.entries@, destv, k2, d2) implies (k2 == k && fs_contains(
                        fs0,
                        self.src.path@,
                        k2,
                        d2,
                    )) by {
                        if fs_contains(fs0, destv, k2, d2) {
                            crate::fs::lemma_contains_has_path(fs0, destv, k2, d2);
                        }
                    }
                }
                self.executed = true;
                Ok(())
            },
        }
    }

    /// Reverse the mutation, if it is safe: the command must have run and
    /// not been reverted yet, and the on-disk target must still carry the
    /// recorded digest.  Runs at most once; on any failure nothing is
    /// touched.
    pub fn revert(&mut self, fs: &mut FsModel, store: &mut Store) -> (r: Result<(), Error>)
        requires
            old(self).wf(),
            fs_wf(old(fs).entries@),
        ensures
            final(self).wf(),
            fs_wf(final(fs).entries@),
            r is Err ==> *final(self) == *old(self) && final(fs).entries@ == old(fs).entries@
                && final(store).digests@ == old(store).digests@,
            match r {
                Ok(()) => {
                    &&& *final(self) == old(self).spec_with_reverted()
                    &&& spec_revert_failure(
                        *old(self),
                        old(fs).entries@,
                        old(store).digests@,
                    ) is None
                    &&& spec_revert_apply(
                        *old(self),
                        old(fs).entries@,
                        final(fs).entries@,
                        old(store).digests@,
                        final(store).digests@,
                    )
                },
                Err(e) => match spec_revert_failure(
                    *old(self),
                    old(fs).entries@,
                    old(store).digests@,
                ) {
                    Some(Error::NameTaken(_)) => e matches Error::NameTaken(p) && p@ == old(
                        self,
                    ).src.path@,
                    Some(f) => e == f,
                    None => false,
                },
            },
            r is Ok <==> spec_revert_failure(
                *old(self),
                old(fs).entries@,
                old(store).digests@,
            ) is None,
    {
        let ghost fs0 = fs.entries@;
        if !self.executed {
            return Err(Error::NotExecuted);
        }
        if self.reverted {
            return Err(Error::AlreadyReverted);
        }
        match self.kind {
            Type::Delete => {
                if fs.exists_at(&self.src.path) {
                    return Err(Error::DriftError);
                }
                if !store.contains(&self.digest) {
                    return Err(Error::IO);
                }
                let k = self.src.kind;
                let d = self.digest;
                let ghost pv = self.src.path@;
                fs.put(self.src.path.duplicate(), k, d);
                proof {
                    assert(fs.entries@.len() == fs0.len() + 1);
                    assert(entry_matches(fs.entries@[fs0.len() as int], pv, k, d@));
                    crate::fs::lemma_push_effects(fs0, fs.entries@, pv, k, d@);
                }
                self.reverted = true;
                Ok(())
            },
            Type::Move => {
                let dst_dir = match &self.dst {
                    Some(d) => d,
                    None => {
                        proof {
                            assert(false);
                        }
                        return Err(Error::IO);
                    },
                };
                let name = self.src.path.name();
                let dest = dst_dir.child(&name);
                proof {
                    assert(dest@ == self.spec_dest());
                }
                let kd = match fs.lookup(&dest) {
                    Some(kd) => kd,
                    None => {
                        return Err(Error::Validation(ValidationError::NotExists));
                    },
                };
                proof {
                    crate::fs::lemma_contains_has_path(fs0, dest@, kd.0, kd.1@);
                }
                if !kd.1.matches(&self.digest) {
                    proof {
                        assert forall|k2: crate::object::Type|
                            !fs_contains(fs0, self.spec_dest(), k2, self.digest@) by {
                            if fs_contains(fs0, self.spec_dest(), k2, self.digest@) {
                                crate::fs::lemma_fs_at_most_one(
                                    fs0,
                                    self.spec_dest(),
                                    k2,
                                    self.digest@,
                                    kd.0,
                                    kd.1@,
                                );
                            }
                        }
                    }
                    return Err(Error::DriftError);
                }
                if fs.exists_at(&self.src.path) {
                    return Err(Error::NameTaken(self.src.path.duplicate()));
                }
                fs.relocate(&dest, &self.src.path);
                self.reverted = true;
                Ok(())
            },
            Type::Copy => {
                let dst_dir = match &self.dst {
                    Some(d) => d,
                    None => {
                        proof {
                            assert(false);
                        }
                        return Err(Error::IO);
                    },
                };
                let name = self.src.path.name();
                let dest = dst_dir.child(&name);
                proof {
                    assert(dest@ == self.spec_dest());
                }
                let kd = match fs.lookup(&dest) {
                    Some(kd) => kd,
                    None => {
                        return Err(Error::Validation(ValidationError::NotExists));
                    },
                };
                proof {
                    crate::fs::lemma_contains_has_path(fs0, dest@, kd.0, kd.1@);
                }
                if !kd.1.matches(&self.digest) {
                    proof {
                        assert forall|k2: crate::object::Type|
                            !fs_contains(fs0, self.spec_dest(), k2, self.digest@) by {
                            if fs_contains(fs0, self.spec_dest(), k2, self.digest@) {
                                crate::fs::lemma_fs_at_most_one(
                                    fs0,
                                    self.spec_dest(),
                                    k2,
                                    self.digest@,
                                    kd.0,
                                    kd.1@,
                                );
                            }
                        }
                    }
                    return Err(Error::DivergedCopy);
                }
                fs.remove_at(&dest);
                self.reverted = true;
                Ok(())
            },
        }
    }
}

/// The exact failure `execute` reports in the given state, if any; `None`
/// means the mutation is owed.  The destination-occupied failure carries the
/// destination path, which this predicate identifies by its view.
pub open spec fn spec_execute_failure(c: Command, fs: Seq<FsEntry>) -> Option<Error> {
    if c.executed {
        Some(Error::AlreadyExecuted)
    } else if !fs_has_path(fs, c.src.path@) {
        Some(Error::Validation(ValidationError::NotExists))
    } else if !(exists|d: Seq<u8>| fs_contains(fs, c.src.path@, c.src.kind, d)) {
        Some(
            Error::Validation(
                ValidationError::WrongType {
                    expected: c.src.kind,
                    got: spec_kind_at(fs, c.src.path@),
                },
            ),
        )
    } else if c.kind == Type::Delete {
        None
    } else if !(exists|d: Seq<u8>|
        fs_contains(fs, spec_dst_dir(c), crate::object::Type::Dir, d)) {
        Some(Error::MoveDestNotDir)
    } else if fs_has_path(fs, c.spec_dest()) {
        Some(Error::NameTaken(c.src.path))
    } else {
        None
    }
}

/// The destination directory of a move or copy.
pub open spec fn spec_dst_dir(c: Command) -> Seq<Seq<char>> {
    match c.dst {
        Some(d) => d@,
        None => Seq::<Seq<char>>::empty(),
    }
}

/// The kind of the object at `p`, where one exists.
pub open spec fn spec_kind_at(fs: Seq<FsEntry>, p: Seq<Seq<char>>) -> crate::object::Type {
    (choose|kd: (crate::object::Type, Seq<u8>)| fs_contains(fs, p, kd.0, kd.1)).0
}

/// What a successful `execute` does to the filesystem view and the store.
pub open spec fn spec_execute_apply(
    c: Command,
    fs0: Seq<FsEntry>,
    fs1: Seq<FsEntry>,
    st0: Seq<ContentDigest>,
    st1: Seq<ContentDigest>,
) -> bool {
    match c.kind {
        Type::Delete => {
            &&& !fs_has_path(fs1, c.src.path@)
            &&& (forall|q: Seq<Seq<char>>, k: crate::object::Type, d: Seq<u8>|
                q != c.src.path@ ==> (#[trigger] fs_contains(fs1, q, k, d) <==> fs_contains(
                    fs0,
                    q,
                    k,
                    d,
                )))
            &&& (forall|d: Seq<u8>|
                #[trigger] fs_contains(fs0, c.src.path@, c.src.kind, d) ==> store_has(st1, d))
            &&& (forall|x: Seq<u8>|
                #[trigger] store_has(st1, x) <==> (store_has(st0, x) || fs_contains(
                    fs0,
                    c.src.path@,
                    c.src.kind,
                    x,
                )))
        },
        Type::Move => {
            &&& !fs_has_path(fs1, c.src.path@)
            &&& (forall|k: crate::object::Type, d: Seq<u8>|
                #[trigger] fs_contains(fs0, c.src.path@, k, d) ==> fs_contains(
                    fs1,
                    c.spec_dest(),
                    k,
                    d,
                ))
            &&& (forall|k: crate::object::Type, d: Seq<u8>|
                #[trigger] fs_contains(fs1, c.spec_dest(), k, d) ==> fs_contains(
                    fs0,
                    c.src.path@,
                    k,
                    d,
                ))
            &&& (forall|q: Seq<Seq<char>>, k: crate::object::Type, d: Seq<u8>|
                q != c.src.path@ && q != c.spec_dest() ==> (#[trigger] fs_contains(
                    fs1,
                    q,
                    k,
                    d,
                ) <==> fs_contains(fs0, q, k, d)))
            &&& (forall|d: Seq<u8>|
                #[trigger] fs_contains(fs0, c.src.path@, c.src.kind, d) ==> store_has(st1, d))
            &&& (forall|x: Seq<u8>|
                #[trigger] store_has(st1, x) <==> (store_has(st0, x) || fs_contains(
                    fs0,
                    c.src.path@,
                    c.src.kind,
                    x,
                )))
        },
        Type::Copy => {
            &&& (forall|d: Seq<u8>|
                #[trigger] fs_contains(fs0, c.src.path@, c.src.kind, d) ==> fs_contains(
                    fs1,
                    c.spec_dest(),
                    c.src.kind,
                    d,
                ))
            &&& (forall|k: crate::object::Type, d: Seq<u8>|
                #[trigger] fs_contains(fs1, c.spec_dest(), k, d) ==> k == c.src.kind
                    && fs_contains(fs0, c.src.path@, k, d))
            &&& (forall|q: Seq<Seq<char>>, k: crate::object::Type, d: Seq<u8>|
                q != c.spec_dest() ==> (#[trigger] fs_contains(fs1, q, k, d) <==> fs_contains(
                    fs0,
                    q,
                    k,
                    d,
                )))
            &&& st1 == st0
        },
    }
}

/// The exact failure `revert` reports in the given state, if any; `None`
/// means the revert is owed.
pub open spec fn spec_revert_failure(
    c: Command,
    fs: Seq<FsEntry>,
    st: Seq<ContentDigest>,
) -> Option<Error> {
    if !c.executed {
        Some(Error::NotExecuted)
    } else if c.reverted {
        Some(Error::AlreadyReverted)
    } else if c.kind == Type::Delete {
        if fs_has_path(fs, c.src.path@) {
            Some(Error::DriftError)
        } else if !store_has(st, c.digest@) {
            Some(Error::IO)
        } else {
            None
        }
    } else if !fs_has_path(fs, c.spec_dest()) {
        Some(Error::Validation(ValidationError::NotExists))
    } else if !(exists|k: crate::object::Type|
        fs_contains(fs, c.spec_dest(), k, c.digest@)) {
        if c.kind == Type::Move {
            Some(Error::DriftError)
        } else {
            Some(Error::DivergedCopy)
        }
    } else if c.kind == Type::Move && fs_has_path(fs, c.src.path@) {
        Some(Error::NameTaken(c.src.path))
    } else {
        None
    }
}

/// What a successful `revert` does to the filesystem view; the store is
/// never changed by a revert.
pub open spec fn spec_revert_apply(
    c: Command,
    fs0: Seq<FsEntry>,
    fs1: Seq<FsEntry>,
    st0: Seq<ContentDigest>,
    st1: Seq<ContentDigest>,
) -> bool {
    st1 == st0 && match c.kind {
        Type::Delete => {
            &&& fs_contains(fs1, c.src.path@, c.src.kind, c.digest@)
            &&& (forall|q: Seq<Seq<char>>, k: crate::object::Type, d: Seq<u8>|
                q != c.src.path@ ==> (#[trigger] fs_contains(fs1, q, k, d) <==> fs_contains(
                    fs0,
                    q,
                    k,
                    d,
                )))
        },
        Type::Move => {
            &&& !fs_has_path(fs1, c.spec_dest())
            &&& (forall|k: crate::object::Type, d: Seq<u8>|
                #[trigger] fs_contains(fs0, c.spec_dest(), k, d) ==> fs_contains(
                    fs1,
                    c.src.path@,
                    k,
                    d,
                ))
            &&& (forall|k: crate::object::Type, d: Seq<u8>|
                #[trigger] fs_contains(fs1, c.src.path@, k, d) ==> fs_contains(
                    fs0,
                    c.spec_dest(),
                    k,
                    d,
                ))
            &&& (forall|q: Seq<Seq<char>>, k: crate::object::Type, d: Seq<u8>|
                q != c.spec_dest() && q != c.src.path@ ==> (#[trigger] fs_contains(
                    fs1,
                    q,
                    k,
                    d,
                ) <==> fs_contains(fs0, q, k, d)))
        },
        Type::Copy => {
            &&& !fs_has_path(fs1, c.spec_dest())
            &&& (forall|q: Seq<Seq<char>>, k: crate::object::Type, d: Seq<u8>|
                q != c.spec_dest() ==> (#[trigger] fs_contains(fs1, q, k, d) <==> fs_contains(
                    fs0,
                    q,
                    k,
                    d,
                )))
        },
    }
}


impl crate::construct::Construct for Command {
    /// A command depends on an earlier one exactly when the earlier command
    /// is older and its source path or its destination directory is this
    /// command's target or an ancestor of it: the earlier command produced
    /// or freed state this command then operated on.
    open spec fn dep_spec(&self, other: &Command) -> bool {
        &&& other.id.0 < self.id.0
        &&& (crate::path::spec_is_prefix(other.src.path@, self.src.path@) || (other.dst matches
            Some(d) && crate::path::spec_is_prefix(d@, self.src.path@)))
    }

    fn depends_on(&self, other: &Command) -> (r: bool)
        ensures
            r == self.dep_spec(other),
    {
        if !(other.id.0 < self.id.0) {
            return false;
        }
        if other.src.path.is_prefix_of(&self.src.path) {
            return true;
        }
        match &other.dst {
            Some(d) => d.is_prefix_of(&self.src.path),
            None => false,
        }
    }
}

} // verus!
