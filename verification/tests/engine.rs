use fs_undo::command::{Command, CommandId, Type};
use fs_undo::construct::Construct;
use fs_undo::digest::ContentDigest;
use fs_undo::error::Error;
use fs_undo::fs::{FsModel, Store};
use fs_undo::history::HistoryBuffer;
use fs_undo::object::{Object, Type as ObjType};
use fs_undo::path::AbsPath;

fn path(segs: &[&str]) -> AbsPath {
    AbsPath {
        segs: segs.iter().map(|s| s.to_string()).collect(),
    }
}

fn digest(tag: u8) -> ContentDigest {
    ContentDigest([tag; 32])
}

fn file_at(fs: &mut FsModel, segs: &[&str], d: ContentDigest) {
    assert!(fs.put(path(segs), ObjType::File, d));
}

fn dir_at(fs: &mut FsModel, segs: &[&str], d: ContentDigest) {
    assert!(fs.put(path(segs), ObjType::Dir, d));
}

fn delete_cmd(id: u128, segs: &[&str], fs: &FsModel) -> Command {
    let obj = Object::from_existing(path(segs), fs).unwrap();
    Command::with_id(CommandId(id), Type::Delete, obj, None, fs).unwrap()
}

fn move_cmd(id: u128, segs: &[&str], dst: &[&str], fs: &FsModel) -> Command {
    let obj = Object::from_existing(path(segs), fs).unwrap();
    Command::with_id(CommandId(id), Type::Move, obj, Some(path(dst)), fs).unwrap()
}

fn copy_cmd(id: u128, segs: &[&str], dst: &[&str], fs: &FsModel) -> Command {
    let obj = Object::from_existing(path(segs), fs).unwrap();
    Command::with_id(CommandId(id), Type::Copy, obj, Some(path(dst)), fs).unwrap()
}

// Deleting a file and undoing the delete brings the file back with the
// digest recorded when the command was made.
#[test]
fn delete_then_revert_restores_file() {
    let mut fs = FsModel::new();
    let mut store = Store::new();
    let mut history = HistoryBuffer::new();
    let d1 = digest(1);
    file_at(&mut fs, &["foo.txt"], d1);

    let mut cmd = delete_cmd(1, &["foo.txt"], &fs);
    cmd.execute(&mut fs, &mut store).unwrap();
    assert!(!fs.exists_at(&path(&["foo.txt"])));
    let id = history.push(cmd);

    history.revert(id, &mut fs, &mut store).unwrap();
    assert_eq!(fs.lookup(&path(&["foo.txt"])), Some((ObjType::File, d1)));
}

// The plain LIFO undo reverts the most recent live command.
#[test]
fn revert_last_is_lifo_undo() {
    let mut fs = FsModel::new();
    let mut store = Store::new();
    let mut history = HistoryBuffer::new();
    let d1 = digest(1);
    file_at(&mut fs, &["foo.txt"], d1);

    let mut cmd = delete_cmd(1, &["foo.txt"], &fs);
    cmd.execute(&mut fs, &mut store).unwrap();
    let id = history.push(cmd);

    assert_eq!(history.revert_last(&mut fs, &mut store), Ok(id));
    assert_eq!(fs.lookup(&path(&["foo.txt"])), Some((ObjType::File, d1)));
    assert_eq!(
        history.revert_last(&mut fs, &mut store),
        Err(Error::NotExecuted)
    );
}

// Moving a file and undoing the move restores it at its original path
// with an unchanged digest.
#[test]
fn move_then_revert_restores_original_path() {
    let mut fs = FsModel::new();
    let mut store = Store::new();
    let mut history = HistoryBuffer::new();
    let d1 = digest(1);
    file_at(&mut fs, &["a.txt"], d1);
    dir_at(&mut fs, &["dir"], digest(9));

    let mut cmd = move_cmd(1, &["a.txt"], &["dir"], &fs);
    cmd.execute(&mut fs, &mut store).unwrap();
    assert_eq!(fs.lookup(&path(&["dir", "a.txt"])), Some((ObjType::File, d1)));
    assert!(!fs.exists_at(&path(&["a.txt"])));
    let id = history.push(cmd);

    history.revert(id, &mut fs, &mut store).unwrap();
    assert_eq!(fs.lookup(&path(&["a.txt"])), Some((ObjType::File, d1)));
    assert!(!fs.exists_at(&path(&["dir", "a.txt"])));
}

// A second revert of the same command is refused and changes nothing.
#[test]
fn revert_twice_is_refused() {
    let mut fs = FsModel::new();
    let mut store = Store::new();
    let mut history = HistoryBuffer::new();
    let d1 = digest(1);
    file_at(&mut fs, &["foo.txt"], d1);

    let mut cmd = delete_cmd(1, &["foo.txt"], &fs);
    cmd.execute(&mut fs, &mut store).unwrap();
    let id = history.push(cmd);

    history.revert(id, &mut fs, &mut store).unwrap();
    assert_eq!(
        history.revert(id, &mut fs, &mut store),
        Err(Error::AlreadyReverted)
    );
    assert_eq!(fs.lookup(&path(&["foo.txt"])), Some((ObjType::File, d1)));
}

// When the target drifted after the command ran, the revert is refused
// and nothing changes.
#[test]
fn revert_detects_drift() {
    let mut fs = FsModel::new();
    let mut store = Store::new();
    let mut history = HistoryBuffer::new();
    file_at(&mut fs, &["foo.txt"], digest(1));

    let mut cmd = delete_cmd(1, &["foo.txt"], &fs);
    cmd.execute(&mut fs, &mut store).unwrap();
    let id = history.push(cmd);

    // Something else reappears at the deleted path out of band.
    file_at(&mut fs, &["foo.txt"], digest(2));
    assert_eq!(
        history.revert(id, &mut fs, &mut store),
        Err(Error::DriftError)
    );
    assert_eq!(fs.lookup(&path(&["foo.txt"])), Some((ObjType::File, digest(2))));
}

// Moving a file into a directory and then deleting it there makes the
// delete depend on the move; the move can only be undone after the
// delete, and then everything returns to where it started.
#[test]
fn conflict_then_ordered_revert() {
    let mut fs = FsModel::new();
    let mut store = Store::new();
    let mut history = HistoryBuffer::new();
    let d1 = digest(1);
    file_at(&mut fs, &["a.txt"], d1);
    dir_at(&mut fs, &["dir"], digest(9));

    let mut mv = move_cmd(1, &["a.txt"], &["dir"], &fs);
    mv.execute(&mut fs, &mut store).unwrap();
    let id1 = history.push(mv);

    let mut del = delete_cmd(2, &["dir", "a.txt"], &fs);
    del.execute(&mut fs, &mut store).unwrap();
    let id2 = history.push(del);

    assert!(history.get(1).depends_on(history.get(0)));
    assert!(!history.get(0).depends_on(history.get(1)));
    assert_eq!(
        history.dependency_closure(id1),
        Some(vec![CommandId(2)])
    );

    assert_eq!(
        history.revert(id1, &mut fs, &mut store),
        Err(Error::ConflictError(vec![CommandId(2)]))
    );
    // The failed revert touched nothing.
    assert!(!fs.exists_at(&path(&["a.txt"])));

    history.revert(id2, &mut fs, &mut store).unwrap();
    history.revert(id1, &mut fs, &mut store).unwrap();
    assert_eq!(fs.lookup(&path(&["a.txt"])), Some((ObjType::File, d1)));
    assert!(!fs.exists_at(&path(&["dir", "a.txt"])));
}

// A copy whose destination was edited out of band is never deleted by a
// revert: it is refused as diverged and left in place.
#[test]
fn diverged_copy_is_left_in_place() {
    let mut fs = FsModel::new();
    let mut store = Store::new();
    let mut history = HistoryBuffer::new();
    let d1 = digest(1);
    let d2 = digest(2);
    file_at(&mut fs, &["a.txt"], d1);
    dir_at(&mut fs, &["dir"], digest(9));

    let mut cp = copy_cmd(1, &["a.txt"], &["dir"], &fs);
    cp.execute(&mut fs, &mut store).unwrap();
    assert_eq!(fs.lookup(&path(&["dir", "a.txt"])), Some((ObjType::File, d1)));
    let id = history.push(cp);

    // The copy is edited out of band.
    assert!(fs.remove_at(&path(&["dir", "a.txt"])));
    assert!(fs.put(path(&["dir", "a.txt"]), ObjType::File, d2));

    assert_eq!(
        history.revert(id, &mut fs, &mut store),
        Err(Error::DivergedCopy)
    );
    assert_eq!(fs.lookup(&path(&["dir", "a.txt"])), Some((ObjType::File, d2)));
}

// An unknown identifier, an unexecuted command, and a missing target all
// report their own errors.
#[test]
fn error_cases() {
    let mut fs = FsModel::new();
    let mut store = Store::new();
    let mut history = HistoryBuffer::new();
    assert_eq!(
        history.revert(CommandId(7), &mut fs, &mut store),
        Err(Error::NotExecuted)
    );

    file_at(&mut fs, &["foo.txt"], digest(1));
    let mut cmd = delete_cmd(1, &["foo.txt"], &fs);
    assert_eq!(cmd.revert(&mut fs, &mut store), Err(Error::NotExecuted));
    cmd.execute(&mut fs, &mut store).unwrap();
    assert_eq!(
        cmd.execute(&mut fs, &mut store),
        Err(Error::AlreadyExecuted)
    );

    assert!(matches!(
        Object::from_existing(path(&["missing"]), &fs),
        Err(Error::Validation(_))
    ));
}

// Moving into a plain file or onto a taken name is refused before
// anything changes.
#[test]
fn move_preconditions() {
    let mut fs = FsModel::new();
    let mut store = Store::new();
    file_at(&mut fs, &["a.txt"], digest(1));
    file_at(&mut fs, &["not_dir"], digest(2));
    dir_at(&mut fs, &["dir"], digest(9));
    file_at(&mut fs, &["dir", "a.txt"], digest(3));

    let mut into_file = move_cmd(1, &["a.txt"], &["not_dir"], &fs);
    assert_eq!(
        into_file.execute(&mut fs, &mut store),
        Err(Error::MoveDestNotDir)
    );

    let mut taken = move_cmd(2, &["a.txt"], &["dir"], &fs);
    match taken.execute(&mut fs, &mut store) {
        Err(Error::NameTaken(p)) => assert_eq!(p, path(&["dir", "a.txt"])),
        other => panic!("expected NameTaken, got {:?}", other),
    }
    assert_eq!(fs.lookup(&path(&["a.txt"])), Some((ObjType::File, digest(1))));
}

// One full pass appends exactly one executed command to the history.
#[test]
fn run_with_id_commits_one_command() {
    let mut fs = FsModel::new();
    let mut store = Store::new();
    let mut history = HistoryBuffer::new();
    file_at(&mut fs, &["foo.txt"], digest(1));

    let rid = fs_undo::history::run_with_id(
        CommandId(1),
        Type::Delete,
        path(&["foo.txt"]),
        None,
        &mut fs,
        &mut store,
        &mut history,
    )
    .unwrap();
    assert_eq!(rid, CommandId(1));
    assert_eq!(history.len(), 1);
    assert!(!fs.exists_at(&path(&["foo.txt"])));
    history.revert(rid, &mut fs, &mut store).unwrap();
    assert!(fs.exists_at(&path(&["foo.txt"])));
}

// Renaming checks the proposed name and the destination before touching
// anything.
#[test]
fn rename_preconditions_and_effect() {
    let mut fs = FsModel::new();
    file_at(&mut fs, &["a.txt"], digest(1));
    let obj = Object::from_existing(path(&["a.txt"]), &fs).unwrap();

    assert_eq!(
        obj.rename(&"bad/name".to_string(), &mut fs),
        Err(Error::ForbiddenNameChars)
    );
    let dest = obj.rename(&"b.txt".to_string(), &mut fs).unwrap();
    assert_eq!(dest, path(&["b.txt"]));
    assert!(!fs.exists_at(&path(&["a.txt"])));
    assert_eq!(fs.lookup(&path(&["b.txt"])), Some((ObjType::File, digest(1))));
}

// A freshly built command draws its own identifier and runs like any
// other; a full pass with a drawn identifier commits on an empty history.
#[test]
fn fresh_identifiers_work_end_to_end() {
    let mut fs = FsModel::new();
    let mut store = Store::new();
    let mut history = HistoryBuffer::new();
    let d1 = digest(1);
    file_at(&mut fs, &["foo.txt"], d1);

    let obj = Object::from_existing(path(&["foo.txt"]), &fs).unwrap();
    let mut cmd = Command::new(Type::Delete, obj, None, &fs).unwrap();
    assert_eq!(cmd.kind, Type::Delete);
    assert!(!cmd.executed && !cmd.reverted);
    cmd.execute(&mut fs, &mut store).unwrap();
    assert!(!fs.exists_at(&path(&["foo.txt"])));

    file_at(&mut fs, &["bar.txt"], digest(2));
    let rid = fs_undo::history::run(
        Type::Delete,
        path(&["bar.txt"]),
        None,
        &mut fs,
        &mut store,
        &mut history,
    )
    .unwrap();
    assert_eq!(history.len(), 1);
    history.revert(rid, &mut fs, &mut store).unwrap();
    assert_eq!(fs.lookup(&path(&["bar.txt"])), Some((ObjType::File, digest(2))));
}

// When several preconditions fail at once, re-validation is checked
// first: a missing object is reported before a bad name or a bad
// destination.
#[test]
fn validation_outranks_other_precondition_failures() {
    let mut fs = FsModel::new();
    file_at(&mut fs, &["real"], digest(1));

    let missing = Object {
        path: path(&["gone"]),
        kind: ObjType::File,
    };
    assert_eq!(
        missing.rename(&"bad/name".to_string(), &mut fs),
        Err(Error::Validation(fs_undo::error::ValidationError::NotExists))
    );
    assert_eq!(
        missing.move_into(&path(&["also_gone"]), &mut fs),
        Err(Error::Validation(fs_undo::error::ValidationError::NotExists))
    );
    assert_eq!(
        missing.delete(&mut fs),
        Err(Error::Validation(fs_undo::error::ValidationError::NotExists))
    );
    assert_eq!(fs.lookup(&path(&["real"])), Some((ObjType::File, digest(1))));
}
