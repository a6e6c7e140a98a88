//! Object handles: a validated path plus the kind it had when last checked.
//! Every mutating operation re-validates the handle against the filesystem
//! view first and fails without side effects when the check fails.

use vstd::prelude::*;
use vstd::string::StrSliceExecFns;
use crate::digest::ContentDigest;
use crate::error::{Error, ValidationError};
use crate::fs::{fs_contains, fs_has_path, fs_wf, FsEntry, FsModel};
use crate::path::AbsPath;

verus! {

/// The kind of a filesystem object.
#[derive(Clone, Copy, Debug, PartialEq, Eq, Structural)]
pub enum Type {
    File,
    Dir,
    Symlink,
}

/// The user-facing name of each kind.
pub open spec fn spec_type_str(t: Type) -> Seq<char> {
    match t {
        Type::File => "file"@,
        Type::Dir => "directory"@,
        Type::Symlink => "symbolic link"@,
    }
}

/// Render a kind for messages.
pub fn type_str(t: Type) -> (r: &'static str)
    ensures
        r@ == spec_type_str(t),
{
    match t {
        Type::File => "file",
        Type::Dir => "directory",
        Type::Symlink => "symbolic link",
    }
}

/// A handle to a filesystem object: its absolute path and the kind it had
/// when the handle was made.
pub struct Object {
    pub path: AbsPath,
    pub kind: Type,
}

/// Whether the view holds a directory at `p`.
pub open spec fn spec_dir_at(s: Seq<FsEntry>, p: Seq<Seq<char>>) -> bool {
    exists|d: Seq<u8>| fs_contains(s, p, Type::Dir, d)
}

/// Whether the proposed object name holds a character a name may not hold.
pub open spec fn spec_has_forbidden_char(s: Seq<char>) -> bool {
    exists|i: int| 0 <= i < s.len() && (s[i] == '/' || s[i] == '\0')
}

/// Check a proposed name for a path separator or a NUL.
pub fn has_forbidden_char(s: &str) -> (r: bool)
    ensures
        r == spec_has_forbidden_char(s@),
{
    let n = s.unicode_len();
    let mut i: usize = 0;
    while i < n
        invariant
            n == s@.len(),
            0 <= i <= n,
            forall|k: int| 0 <= k < i ==> !(s@[k] == '/' || s@[k] == '\0'),
        decreases n - i,
    {
        let c = s.get_char(i);
        if c == '/' || c == '\0' {
            assert(s@[i as int] == '/' || s@[i as int] == '\0');
            return true;
        }
        i = i + 1;
    }
    false
}

impl Object {
    /// Whether the view still holds an object of this handle's kind at this
    /// handle's path: what a successful re-validation certifies.
    pub open spec fn current_in(&self, s: Seq<FsEntry>) -> bool {
        exists|d: Seq<u8>| fs_contains(s, self.path@, self.kind, d)
    }

    /// Open a handle to an existing object; fails exactly when nothing sits
    /// at the path.
    pub fn from_existing(path: AbsPath, fs: &FsModel) -> (r: Result<Object, Error>)
        ensures
            match r {
                Ok(o) => o.path@ == path@ && fs_has_path(fs.entries@, path@) && (exists|
                    d: Seq<u8>,
                |
                    fs_contains(fs.entries@, path@, o.kind, d)),
                Err(e) => e == Error::Validation(ValidationError::NotExists) && !fs_has_path(
                    fs.entries@,
                    path@,
                ),
            },
    {
        match fs.lookup(&path) {
            Some(kd) => {
                let o = Object { path, kind: kd.0 };
                proof {
                    assert(fs_contains(fs.entries@, o.path@, o.kind, kd.1@));
                }
                Ok(o)
            },
            None => Err(Error::Validation(ValidationError::NotExists)),
        }
    }

    /// Re-check that the object still exists with the recorded kind.
    pub fn validate(&self, fs: &FsModel) -> (r: Result<(), Error>)
        requires
            fs_wf(fs.entries@),
        ensures
            match r {
                Ok(()) => exists|d: Seq<u8>|
                    fs_contains(fs.entries@, self.path@, self.kind, d),
                Err(e) => match e {
                    Error::Validation(ValidationError::NotExists) => !fs_has_path(
                        fs.entries@,
                        self.path@,
                    ),
                    Error::Validation(ValidationError::WrongType { expected, got }) => expected
                        == self.kind && got != self.kind && (exists|d: Seq<u8>|
                        fs_contains(fs.entries@, self.path@, got, d)),
                    _ => false,
                },
            },
    {
        match fs.lookup(&self.path) {
            Some(kd) => {
                if kinds_equal(kd.0, self.kind) {
                    proof {
                        assert(fs_contains(fs.entries@, self.path@, self.kind, kd.1@));
                    }
                    Ok(())
                } else {
                    proof {
                        assert(fs_contains(fs.entries@, self.path@, kd.0, kd.1@));
                    }
                    Err(
                        Error::Validation(
                            ValidationError::WrongType { expected: self.kind, got: kd.0 },
                        ),
                    )
                }
            },
            None => Err(Error::Validation(ValidationError::NotExists)),
        }
    }

    /// The object's content digest as the filesystem currently records it.
    pub fn digest(&self, fs: &FsModel) -> (r: Result<ContentDigest, Error>)
        requires
            fs_wf(fs.entries@),
        ensures
            match r {
                Ok(d) => fs_contains(fs.entries@, self.path@, self.kind, d@),
                Err(e) => match e {
                    Error::Validation(ValidationError::NotExists) => !fs_has_path(
                        fs.entries@,
                        self.path@,
                    ),
                    Error::Validation(ValidationError::WrongType { expected, got }) => expected
                        == self.kind && got != self.kind && (exists|d: Seq<u8>|
                        fs_contains(fs.entries@, self.path@, got, d)),
                    _ => false,
                },
            },
    {
        match fs.lookup(&self.path) {
            Some(kd) => {
                if kinds_equal(kd.0, self.kind) {
                    Ok(kd.1)
                } else {
                    Err(
                        Error::Validation(
                            ValidationError::WrongType { expected: self.kind, got: kd.0 },
                        ),
                    )
                }
            },
            None => Err(Error::Validation(ValidationError::NotExists)),
        }
    }

    /// Remove the object, after re-validation: it succeeds exactly when the
    /// view still holds this handle's kind at this handle's path.
    pub fn delete(&self, fs: &mut FsModel) -> (r: Result<(), Error>)
        requires
            fs_wf(old(fs).entries@),
        ensures
            fs_wf(final(fs).entries@),
            r is Ok <==> self.current_in(old(fs).entries@),
            match r {
                Ok(()) => !fs_has_path(final(fs).entries@, self.path@) && (forall|
                    q: Seq<Seq<char>>,
                    k: Type,
                    d: Seq<u8>,
                |
                    q != self.path@ ==> (#[trigger] fs_contains(final(fs).entries@, q, k, d)
                        <==> fs_contains(old(fs).entries@, q, k, d))),
                Err(e) => final(fs).entries@ == old(fs).entries@ && match e {
                    Error::Validation(ValidationError::NotExists) => !fs_has_path(
                        old(fs).entries@,
                        self.path@,
                    ),
                    Error::Validation(ValidationError::WrongType { expected, got }) => expected
                        == self.kind && got != self.kind && (exists|d: Seq<u8>|
                        fs_contains(old(fs).entries@, self.path@, got, d)),
                    _ => false,
                },
            },
    {
        match self.validate(fs) {
            Ok(()) => {
                fs.remove_at(&self.path);
                Ok(())
            },
            Err(e) => {
                proof {
                    self.lemma_not_current_on_validate_error(fs.entries@, e);
                }
                Err(e)
            },
        }
    }

    /// A failed re-validation means the view does not hold this handle's
    /// kind at its path.
    proof fn lemma_not_current_on_validate_error(&self, s: Seq<FsEntry>, e: Error)
        requires
            fs_wf(s),
            match e {
                Error::Validation(ValidationError::NotExists) => !fs_has_path(s, self.path@),
                Error::Validation(ValidationError::WrongType { expected, got }) => expected
                    == self.kind && got != self.kind && (exists|d: Seq<u8>|
                    fs_contains(s, self.path@, got, d)),
                _ => false,
            },
        ensures
            !self.current_in(s),
    {
        if self.current_in(s) {
            let d = choose|d: Seq<u8>| fs_contains(s, self.path@, self.kind, d);
            crate::fs::lemma_contains_has_path(s, self.path@, self.kind, d);
            match e {
                Error::Validation(ValidationError::WrongType { expected, got }) => {
                    let d2 = choose|d2: Seq<u8>| fs_contains(s, self.path@, got, d2);
                    crate::fs::lemma_fs_at_most_one(s, self.path@, self.kind, d, got, d2);
                },
                _ => {},
            }
        }
    }

    /// Move the object into the directory `to`, after re-validation.  The
    /// destination must be an existing directory, and it must not already
    /// hold an object with this object's name.  Returns the path the object
    /// ends up at.  It succeeds exactly when the handle re-validates, the
    /// object is not the root, a directory sits at `to`, and the new path
    /// is free; the checks run in that order.
    pub fn move_into(&self, to: &AbsPath, fs: &mut FsModel) -> (r: Result<AbsPath, Error>)
        requires
            fs_wf(old(fs).entries@),
        ensures
            fs_wf(final(fs).entries@),
            r is Err ==> final(fs).entries@ == old(fs).entries@,
            r is Ok <==> (self.current_in(old(fs).entries@) && self.path@.len() > 0
                && spec_dir_at(old(fs).entries@, to@) && !fs_has_path(
                old(fs).entries@,
                to@.push(self.path@.last()),
            )),
            match r {
                Ok(dest) => {
                    &&& self.path@.len() > 0
                    &&& dest@ == to@.push(self.path@.last())
                    &&& !fs_has_path(final(fs).entries@, self.path@)
                    &&& (forall|k: Type, d: Seq<u8>|
                        #[trigger] fs_contains(old(fs).entries@, self.path@, k, d)
                            ==> fs_contains(final(fs).entries@, dest@, k, d))
                    &&& (forall|k: Type, d: Seq<u8>|
                        #[trigger] fs_contains(final(fs).entries@, dest@, k, d) ==> fs_contains(
                            old(fs).entries@,
                            self.path@,
                            k,
                            d,
                        ))
                    &&& (forall|q: Seq<Seq<char>>, k: Type, d: Seq<u8>|
                        q != self.path@ && q != dest@ ==> (#[trigger] fs_contains(
                            final(fs).entries@,
                            q,
                            k,
                            d,
                        ) <==> fs_contains(old(fs).entries@, q, k, d)))
                },
                Err(e) => match e {
                    Error::Validation(ValidationError::NotExists) => !fs_has_path(
                        old(fs).entries@,
                        self.path@,
                    ),
                    Error::Validation(ValidationError::WrongType { expected, got }) => expected
                        == self.kind && got != self.kind && (exists|d: Seq<u8>|
                        fs_contains(old(fs).entries@, self.path@, got, d)),
                    Error::CannotRenameRoot => self.path@.len() == 0 && self.current_in(
                        old(fs).entries@,
                    ),
                    Error::MoveDestNotDir => !spec_dir_at(old(fs).entries@, to@)
                        && self.current_in(old(fs).entries@) && self.path@.len() > 0,
                    Error::NameTaken(p) => p@ == to@.push(self.path@.last()) && fs_has_path(
                        old(fs).entries@,
                        p@,
                    ) && self.current_in(old(fs).entries@) && self.path@.len() > 0
                        && spec_dir_at(old(fs).entries@, to@),
                    _ => false,
                },
            },
    {
        match self.validate(fs) {
            Ok(()) => {},
            Err(e) => {
                proof {
                    self.lemma_not_current_on_validate_error(fs.entries@, e);
                }
                return Err(e);
            },
        }
        if self.path.segs.len() == 0 {
            return Err(Error::CannotRenameRoot);
        }
        let dest_dir_ok = match fs.lookup(to) {
            Some(kd) => kinds_equal(kd.0, Type::Dir),
            None => false,
        };
        if !dest_dir_ok {
            proof {
                if exists|d: Seq<u8>| fs_contains(fs.entries@, to@, Type::Dir, d) {
                    let d = choose|d: Seq<u8>| fs_contains(fs.entries@, to@, Type::Dir, d);
                    assert(fs_has_path(fs.entries@, to@)) by {
                        let ii = choose|ii: int|
                            0 <= ii < fs.entries@.len() && crate::fs::entry_matches(
                                fs.entries@[ii],
                                to@,
                                Type::Dir,
                                d,
                            );
                        assert(fs.entries@[ii].path@ == to@);
                    }
                }
            }
            return Err(Error::MoveDestNotDir);
        }
        proof {
            assert(spec_dir_at(fs.entries@, to@));
        }
        let name = self.path.name();
        let dest = to.child(&name);
        if fs.exists_at(&dest) {
            return Err(Error::NameTaken(dest));
        }
        fs.relocate(&self.path, &dest);
        Ok(dest)
    }

    /// Give the object a new name inside its directory, after re-validation.
    /// The name may not hold a separator or a NUL; the root has no name to
    /// change; the new path must be free.  Returns the path the object ends
    /// up at.  It succeeds exactly when the handle re-validates, the name is
    /// clean, the object is not the root, and the new path is free; the
    /// checks run in that order.
    pub fn rename(&self, to: &String, fs: &mut FsModel) -> (r: Result<AbsPath, Error>)
        requires
            fs_wf(old(fs).entries@),
        ensures
            fs_wf(final(fs).entries@),
            r is Err ==> final(fs).entries@ == old(fs).entries@,
            r is Ok <==> (self.current_in(old(fs).entries@) && !spec_has_forbidden_char(to@)
                && self.path@.len() > 0 && !fs_has_path(
                old(fs).entries@,
                self.path@.drop_last().push(to@),
            )),
            match r {
                Ok(dest) => {
                    &&& self.path@.len() > 0
                    &&& !spec_has_forbidden_char(to@)
                    &&& dest@ == self.path@.drop_last().push(to@)
                    &&& !fs_has_path(final(fs).entries@, self.path@)
                    &&& (forall|k: Type, d: Seq<u8>|
                        #[trigger] fs_contains(old(fs).entries@, self.path@, k, d)
                            ==> fs_contains(final(fs).entries@, dest@, k, d))
                    &&& (forall|k: Type, d: Seq<u8>|
                        #[trigger] fs_contains(final(fs).entries@, dest@, k, d) ==> fs_contains(
                            old(fs).entries@,
                            self.path@,
                            k,
                            d,
                        ))
                    &&& (forall|q: Seq<Seq<char>>, k: Type, d: Seq<u8>|
                        q != self.path@ && q != dest@ ==> (#[trigger] fs_contains(
                            final(fs).entries@,
                            q,
                            k,
                            d,
                        ) <==> fs_contains(old(fs).entries@, q, k, d)))
                },
                Err(e) => match e {
                    Error::Validation(ValidationError::NotExists) => !fs_has_path(
                        old(fs).entries@,
                        self.path@,
                    ),
                    Error::Validation(ValidationError::WrongType { expected, got }) => expected
                        == self.kind && got != self.kind && (exists|d: Seq<u8>|
                        fs_contains(old(fs).entries@, self.path@, got, d)),
                    Error::ForbiddenNameChars => spec_has_forbidden_char(to@)
                        && self.current_in(old(fs).entries@),
                    Error::CannotRenameRoot => self.path@.len() == 0 && self.current_in(
                        old(fs).entries@,
                    ) && !spec_has_forbidden_char(to@),
                    Error::NameTaken(p) => p@ == self.path@.drop_last().push(to@)
                        && fs_has_path(old(fs).entries@, p@) && self.current_in(
                        old(fs).entries@,
                    ) && !spec_has_forbidden_char(to@) && self.path@.len() > 0,
                    _ => false,
                },
            },
    {
        match self.validate(fs) {
            Ok(()) => {},
            Err(e) => {
                proof {
                    self.lemma_not_current_on_validate_error(fs.entries@, e);
                }
                return Err(e);
            },
        }
        if has_forbidden_char(to.as_str()) {
            return Err(Error::ForbiddenNameChars);
        }
        let parent = match self.path.parent() {
            Some(p) => p,
            None => {
                return Err(Error::CannotRenameRoot);
            },
        };
        let dest = parent.child(to);
        if fs.exists_at(&dest) {
            return Err(Error::NameTaken(dest));
        }
        fs.relocate(&self.path, &dest);
        Ok(dest)
    }
}

/// Compare two object kinds.
pub fn kinds_equal(a: Type, b: Type) -> (r: bool)
    ensures
        r == (a == b),
{
    a == b
}

} // verus!
