use git_lock::acquire::Fail;
use ref_transaction::edit::{Change, RefEdit, Reflog, Update};
use ref_transaction::store::Store;
use ref_transaction::target::{ObjectId, Target};
use ref_transaction::plan::{Operation, Plan, Progress};
use ref_transaction::transaction::{
    AcquireError, Action, Commit, Error, Event, Failure, State, Transaction,
};
use std::collections::BTreeMap;
use std::time::Duration;

/// A lock of the store below: the path it reserves and what was staged in it.
#[derive(Debug, Clone, PartialEq, Eq)]
struct Lock {
    path: Vec<u8>,
    content: Vec<u8>,
}

/// A store in memory that does what a transaction asks and keeps a record of it.
#[derive(Default)]
struct Disk {
    files: BTreeMap<Vec<u8>, Vec<u8>>,
    /// Paths whose lock is held by someone else.
    taken: Vec<Vec<u8>>,
    /// Paths that cannot be read.
    unreadable: Vec<Vec<u8>>,
    /// Paths whose lock cannot be written to.
    unwritable: Vec<Vec<u8>>,
    /// Paths whose lock cannot be committed.
    unpublishable: Vec<Vec<u8>>,
    /// The lock that was acquired and is not closed yet.
    open: Option<Vec<u8>>,
    record: Vec<String>,
}

fn text(bytes: &[u8]) -> String {
    String::from_utf8_lossy(bytes).into_owned()
}

impl Disk {
    fn with(files: &[(&str, &str)]) -> Disk {
        let mut disk = Disk::default();
        for (path, content) in files {
            disk.files.insert(path.as_bytes().to_vec(), content.as_bytes().to_vec());
        }
        disk
    }

    fn perform(&mut self, action: Action) -> Event<Lock> {
        match action {
            Action::Read { path } => {
                self.record.push(format!("read {}", text(&path)));
                if self.unreadable.contains(&path) {
                    Event::Contents(Err(std::io::Error::new(
                        std::io::ErrorKind::PermissionDenied,
                        "unreadable",
                    )))
                } else {
                    Event::Contents(Ok(self.files.get(&path).cloned()))
                }
            }
            Action::Acquire { path, mode, boundary } => {
                self.record
                    .push(format!("acquire {} {:?} {}", text(&path), mode, text(&boundary)));
                if self.taken.contains(&path) {
                    Event::Acquired(Err(AcquireError::PermanentlyLocked { attempts: 1 }))
                } else {
                    self.open = Some(path);
                    Event::Acquired(Ok(()))
                }
            }
            Action::Stage { content } => {
                let path = self.open.take().expect("a lock was acquired");
                self.record.push(format!("stage {} {:?}", text(&path), text(&content)));
                if self.unwritable.contains(&path) {
                    Event::Staged(Err(std::io::Error::new(std::io::ErrorKind::Other, "full")))
                } else {
                    Event::Staged(Ok(Lock { path, content }))
                }
            }
            Action::Done => unreachable!("nothing is left to do"),
        }
    }

    fn prepare<'a>(
        &mut self,
        mut tx: Transaction<'a, Lock>,
    ) -> Result<Transaction<'a, Lock>, Failure<Lock>> {
        let mut event = Event::Begin;
        loop {
            let (next, action) = tx.prepare(event)?;
            tx = next;
            if action == Action::Done {
                return Ok(tx);
            }
            event = self.perform(action);
        }
    }

    fn carry_out(&mut self, plan: &Plan<Lock>, operation: Operation<Lock>) -> std::io::Result<()> {
        match operation {
            Operation::Publish { lock, index, log } => {
                assert_eq!(lock.path, plan.edits()[index].name);
                if self.unpublishable.contains(&lock.path) {
                    return Err(std::io::Error::new(std::io::ErrorKind::Other, "no rename"));
                }
                self.record.push(format!("publish {} log={}", text(&lock.path), log));
                self.files.insert(lock.path, lock.content);
            }
            Operation::Remove { index, prune } => {
                let name = &plan.edits()[index].name;
                let dirs: Vec<String> = prune.iter().map(|d| text(d)).collect();
                self.record.push(format!("remove {} prune={:?}", text(name), dirs));
                self.files.remove(name);
            }
        }
        Ok(())
    }

    fn commit(&mut self, mut tx: Transaction<'_, Lock>) -> Result<Vec<RefEdit>, Failure<Lock>> {
        let mut event = Event::Begin;
        let mut plan = loop {
            match tx.commit(event)? {
                Commit::Pending(next, action) => {
                    tx = next;
                    event = self.perform(action);
                }
                Commit::Ready(plan) => break plan,
            }
        };
        let mut outcome = Ok(());
        loop {
            match plan.proceed(outcome)? {
                Progress::Next(rest, operation) => {
                    outcome = self.carry_out(&rest, operation);
                    plan = rest;
                }
                Progress::Done(edits) => return Ok(edits),
            }
        }
    }
}

fn id(byte: u8) -> ObjectId {
    ObjectId::from_bytes(vec![byte; 20]).unwrap()
}

fn update(name: &str, previous: Option<Target>, new: Target) -> RefEdit {
    RefEdit {
        edit: Change::Update(Update { mode: Reflog::AutoAndNoDeref, previous, new }),
        name: name.as_bytes().to_vec(),
        deref: false,
    }
}

fn delete(name: &str, previous: Option<Target>) -> RefEdit {
    RefEdit { edit: Change::Delete { previous }, name: name.as_bytes().to_vec(), deref: false }
}

fn store() -> Store {
    Store::at(b"/repo/.git".to_vec())
}

fn previous_of(edit: &RefEdit) -> &Option<Target> {
    match &edit.edit {
        Change::Update(update) => &update.previous,
        Change::Delete { previous } => previous,
    }
}

#[test]
fn update_of_a_new_reference_writes_hex_and_newline_and_finds_no_previous() {
    let store = store();
    let mut disk = Disk::default();
    let new = Target::Peeled(
        ObjectId::from_hex(&b"7b333369de1221f9bfbbe03a3a13e9a09bc1c907".to_vec()).unwrap(),
    );
    let tx = store.transaction(vec![update("refs/heads/main", None, new.clone())], Fail::Immediately);
    let edits = disk.commit(tx).expect("nothing fails");
    assert_eq!(
        disk.files.get(&b"refs/heads/main".to_vec()),
        Some(&b"7b333369de1221f9bfbbe03a3a13e9a09bc1c907\n".to_vec())
    );
    assert_eq!(disk.files.get(&b"refs/heads/main".to_vec()).unwrap().len(), 41);
    assert_eq!(edits, vec![update("refs/heads/main", None, new)]);
    assert_eq!(previous_of(&edits[0]), &None);
    assert_eq!(
        disk.record,
        vec![
            "read refs/heads/main".to_string(),
            "acquire refs/heads/main Immediately /repo/.git".to_string(),
            "stage refs/heads/main \"7b333369de1221f9bfbbe03a3a13e9a09bc1c907\\n\"".to_string(),
            "publish refs/heads/main log=true".to_string(),
        ]
    );
}

#[test]
fn update_of_an_existing_reference_finds_its_previous_target() {
    let store = store();
    let mut disk =
        Disk::with(&[("refs/heads/main", "0101010101010101010101010101010101010101\n")]);
    let tx = store
        .transaction(vec![update("refs/heads/main", None, Target::Peeled(id(2)))], Fail::Immediately);
    let edits = disk.commit(tx).expect("nothing fails");
    assert_eq!(previous_of(&edits[0]), &Some(Target::Peeled(id(1))));
    assert_eq!(
        disk.files.get(&b"refs/heads/main".to_vec()),
        Some(&b"0202020202020202020202020202020202020202\n".to_vec())
    );
}

#[test]
fn update_finds_a_symbolic_previous_target() {
    let store = store();
    let mut disk = Disk::with(&[("HEAD", "ref: refs/heads/main\n")]);
    let tx = store.transaction(vec![update("HEAD", None, Target::Peeled(id(2)))], Fail::Immediately);
    let edits = disk.commit(tx).expect("nothing fails");
    assert_eq!(previous_of(&edits[0]), &Some(Target::Symbolic(b"refs/heads/main".to_vec())));
}

#[test]
fn symbolic_update_is_written_with_prefix_and_is_not_logged() {
    let store = store();
    let mut disk = Disk::default();
    let tx = store.transaction(
        vec![update("HEAD", None, Target::Symbolic(b"refs/heads/main".to_vec()))],
        Fail::AfterDurationWithBackoff(Duration::from_millis(5)),
    );
    disk.commit(tx).expect("nothing fails");
    assert_eq!(disk.files.get(&b"HEAD".to_vec()), Some(&b"ref: refs/heads/main\n".to_vec()));
    assert_eq!(disk.record.last(), Some(&"publish HEAD log=false".to_string()));
    assert_eq!(disk.record[1], "acquire HEAD AfterDurationWithBackoff(5ms) /repo/.git".to_string());
}

#[test]
fn nothing_is_visible_before_the_commit() {
    let store = store();
    let mut disk =
        Disk::with(&[("refs/heads/main", "0101010101010101010101010101010101010101\n")]);
    let before = disk.files.clone();
    let tx = store.transaction(
        vec![
            update("refs/heads/main", None, Target::Peeled(id(2))),
            update("refs/heads/next", None, Target::Peeled(id(3))),
        ],
        Fail::Immediately,
    );
    assert_eq!(tx.state(), State::Open);
    let tx = disk.prepare(tx).ok().expect("nothing fails");
    assert_eq!(tx.state(), State::Prepared);
    assert_eq!(tx.action(), Action::Done);
    assert_eq!(disk.files, before);
    let edits = tx.into_edits();
    assert_eq!(previous_of(&edits[0]), &Some(Target::Peeled(id(1))));
    assert_eq!(previous_of(&edits[1]), &None);
    assert_eq!(disk.files, before);
}

#[test]
fn prepare_is_idempotent() {
    let store = store();
    let mut disk = Disk::default();
    let tx = store
        .transaction(vec![update("refs/heads/main", None, Target::Peeled(id(2)))], Fail::Immediately);
    let tx = disk.prepare(tx).ok().expect("nothing fails");
    let steps = disk.record.len();
    let (tx, action) = tx.prepare(Event::Begin).ok().expect("a prepared transaction stays");
    assert_eq!(action, Action::Done);
    assert_eq!(tx.state(), State::Prepared);
    let (tx, action) = tx
        .prepare(Event::Acquired(Err(AcquireError::PermanentlyLocked { attempts: 3 })))
        .ok()
        .expect("whatever the event");
    assert_eq!(action, Action::Done);
    let tx = disk.prepare(tx).ok().expect("nothing fails");
    assert_eq!(disk.record.len(), steps);
    let edits = disk.commit(tx).expect("nothing fails");
    assert_eq!(disk.record.len(), steps + 1);
    assert_eq!(edits.len(), 1);
}

#[test]
fn empty_batch_is_prepared_at_once() {
    let store = store();
    let mut disk = Disk::default();
    let tx: Transaction<'_, Lock> = store.transaction(Vec::new(), Fail::Immediately);
    let (tx, action) = tx.prepare(Event::Begin).ok().expect("nothing fails");
    assert_eq!(action, Action::Done);
    assert_eq!(tx.state(), State::Prepared);
    assert_eq!(disk.commit(tx).expect("nothing fails"), Vec::new());
    assert!(disk.record.is_empty());
}

#[test]
fn duplicate_names_are_rejected_before_anything_is_done() {
    let store = store();
    let mut disk = Disk::default();
    let tx = store.transaction(
        vec![
            update("refs/heads/a", None, Target::Peeled(id(1))),
            update("refs/heads/b", None, Target::Peeled(id(2))),
            delete("refs/heads/c", None),
            update("refs/heads/b", None, Target::Peeled(id(3))),
        ],
        Fail::Immediately,
    );
    let failure = disk.prepare(tx).err().expect("the name occurs twice");
    match failure.error {
        Error::DuplicateRefEdits { first_name } => assert_eq!(first_name, b"refs/heads/b".to_vec()),
        other => panic!("unexpected error {:?}", other),
    }
    assert!(failure.release.is_empty());
    assert!(disk.record.is_empty());
    assert!(disk.files.is_empty());
}

#[test]
fn commit_rejects_duplicate_names_too() {
    let store = store();
    let mut disk = Disk::default();
    let tx = store.transaction(
        vec![delete("refs/heads/a", None), update("refs/heads/a", None, Target::Peeled(id(3)))],
        Fail::Immediately,
    );
    let failure = disk.commit(tx).err().expect("the name occurs twice");
    assert!(matches!(
        failure.error,
        Error::DuplicateRefEdits { first_name } if first_name == b"refs/heads/a".to_vec()
    ));
    assert!(disk.record.is_empty());
}

#[test]
fn first_duplicate_is_the_first_edit_whose_name_comes_again() {
    let store = store();
    let mut disk = Disk::default();
    let tx = store.transaction(
        vec![
            delete("refs/b", None),
            delete("refs/a", None),
            delete("refs/a", None),
            delete("refs/b", None),
        ],
        Fail::Immediately,
    );
    let failure = disk.prepare(tx).err().expect("names occur twice");
    assert!(matches!(
        failure.error,
        Error::DuplicateRefEdits { first_name } if first_name == b"refs/b".to_vec()
    ));
}

#[test]
fn failing_lock_releases_every_lock_acquired_before() {
    let store = store();
    let mut disk = Disk::default();
    disk.taken.push(b"refs/heads/c".to_vec());
    let tx = store.transaction(
        vec![
            update("refs/heads/a", None, Target::Peeled(id(1))),
            update("refs/heads/b", None, Target::Peeled(id(2))),
            update("refs/heads/c", None, Target::Peeled(id(3))),
            update("refs/heads/d", None, Target::Peeled(id(4))),
        ],
        Fail::Immediately,
    );
    let failure = disk.prepare(tx).err().expect("the lock is taken");
    match &failure.error {
        Error::LockAcquire { name, cause: AcquireError::PermanentlyLocked { attempts } } => {
            assert_eq!(name, &b"refs/heads/c".to_vec());
            assert_eq!(*attempts, 1);
        }
        other => panic!("unexpected error {:?}", other),
    }
    assert_eq!(
        failure.release,
        vec![
            Lock {
                path: b"refs/heads/b".to_vec(),
                content: b"0202020202020202020202020202020202020202\n".to_vec()
            },
            Lock {
                path: b"refs/heads/a".to_vec(),
                content: b"0101010101010101010101010101010101010101\n".to_vec()
            },
        ]
    );
    assert!(disk.files.is_empty());
    assert!(!disk.record.iter().any(|line| line.contains("refs/heads/d")));
}

#[test]
fn lock_failure_with_an_io_error_is_reported_with_its_cause() {
    let store = store();
    let tx: Transaction<'_, Lock> = store
        .transaction(vec![update("refs/heads/a", None, Target::Peeled(id(1)))], Fail::Immediately);
    let (tx, action) = tx.prepare(Event::Begin).ok().expect("nothing fails");
    assert_eq!(action, Action::Read { path: b"refs/heads/a".to_vec() });
    let (tx, action) = tx.prepare(Event::Contents(Ok(None))).ok().expect("nothing fails");
    assert_eq!(
        action,
        Action::Acquire {
            path: b"refs/heads/a".to_vec(),
            mode: Fail::Immediately,
            boundary: b"/repo/.git".to_vec()
        }
    );
    let cause = std::io::Error::new(std::io::ErrorKind::PermissionDenied, "denied");
    let failure =
        tx.prepare(Event::Acquired(Err(AcquireError::Io(cause)))).err().expect("it fails");
    match failure.error {
        Error::LockAcquire { name, cause: AcquireError::Io(err) } => {
            assert_eq!(name, b"refs/heads/a".to_vec());
            assert_eq!(err.kind(), std::io::ErrorKind::PermissionDenied);
        }
        other => panic!("unexpected error {:?}", other),
    }
    assert!(failure.release.is_empty());
}

#[test]
fn unreadable_reference_fails_before_its_lock_is_tried_for() {
    let store = store();
    let mut disk = Disk::default();
    disk.unreadable.push(b"refs/heads/b".to_vec());
    let tx = store.transaction(
        vec![
            update("refs/heads/a", None, Target::Peeled(id(1))),
            update("refs/heads/b", None, Target::Peeled(id(2))),
        ],
        Fail::Immediately,
    );
    let failure = disk.prepare(tx).err().expect("the file cannot be read");
    match &failure.error {
        Error::Io { name, err } => {
            assert_eq!(name, &b"refs/heads/b".to_vec());
            assert_eq!(err.kind(), std::io::ErrorKind::PermissionDenied);
        }
        other => panic!("unexpected error {:?}", other),
    }
    assert_eq!(failure.release.len(), 1);
    assert_eq!(failure.release[0].path, b"refs/heads/a".to_vec());
    assert_eq!(disk.record.last(), Some(&"read refs/heads/b".to_string()));
}

#[test]
fn failure_to_stage_is_an_io_error() {
    let store = store();
    let mut disk = Disk::default();
    disk.unwritable.push(b"refs/heads/a".to_vec());
    let tx = store
        .transaction(vec![update("refs/heads/a", None, Target::Peeled(id(1)))], Fail::Immediately);
    let failure = disk.commit(tx).err().expect("the lock cannot be written");
    match &failure.error {
        Error::Io { name, err } => {
            assert_eq!(name, &b"refs/heads/a".to_vec());
            assert_eq!(err.kind(), std::io::ErrorKind::Other);
        }
        other => panic!("unexpected error {:?}", other),
    }
    assert!(failure.release.is_empty());
    assert!(disk.files.is_empty());
}

#[test]
fn corrupt_reference_is_not_taken_for_a_missing_one() {
    let store = store();
    let mut disk = Disk::with(&[("refs/heads/a", "not a reference")]);
    let tx = store
        .transaction(vec![update("refs/heads/a", None, Target::Peeled(id(1)))], Fail::Immediately);
    let failure = disk.prepare(tx).err().expect("the file holds no target");
    match &failure.error {
        Error::ReferenceDecode { name, decode } => {
            assert_eq!(name, &b"refs/heads/a".to_vec());
            assert_eq!(decode.content, b"not a reference".to_vec());
        }
        other => panic!("unexpected error {:?}", other),
    }
    assert_eq!(disk.record, vec!["read refs/heads/a".to_string()]);
    assert_eq!(disk.files.get(&b"refs/heads/a".to_vec()), Some(&b"not a reference".to_vec()));
}

#[test]
fn update_that_expects_another_target_fails_after_the_lock_and_stages_nothing() {
    let store = store();
    let mut disk = Disk::with(&[
        ("refs/heads/a", "0101010101010101010101010101010101010101\n"),
        ("refs/heads/b", "0202020202020202020202020202020202020202\n"),
    ]);
    let before = disk.files.clone();
    let tx = store.transaction(
        vec![
            update("refs/heads/a", Some(Target::Peeled(id(1))), Target::Peeled(id(5))),
            update("refs/heads/b", Some(Target::Peeled(id(9))), Target::Peeled(id(6))),
        ],
        Fail::Immediately,
    );
    let failure = disk.commit(tx).err().expect("the reference holds something else");
    match &failure.error {
        Error::PreconditionMismatch { name, expected, actual } => {
            assert_eq!(name, &b"refs/heads/b".to_vec());
            assert_eq!(expected, &Target::Peeled(id(9)));
            assert_eq!(actual, &Some(Target::Peeled(id(2))));
        }
        other => panic!("unexpected error {:?}", other),
    }
    assert_eq!(failure.release.len(), 1);
    assert_eq!(failure.release[0].path, b"refs/heads/a".to_vec());
    assert_eq!(disk.record.last(), Some(&"acquire refs/heads/b Immediately /repo/.git".to_string()));
    assert_eq!(disk.files, before);
}

#[test]
fn update_that_expects_a_target_fails_where_the_reference_is_missing() {
    let store = store();
    let mut disk = Disk::default();
    let tx = store.transaction(
        vec![update("refs/heads/a", Some(Target::Peeled(id(1))), Target::Peeled(id(5)))],
        Fail::Immediately,
    );
    let failure = disk.prepare(tx).err().expect("the reference is missing");
    assert!(matches!(
        failure.error,
        Error::PreconditionMismatch { actual: None, .. }
    ));
}

#[test]
fn update_that_expects_the_target_found_goes_through_and_keeps_it() {
    let store = store();
    let mut disk =
        Disk::with(&[("refs/heads/a", "0101010101010101010101010101010101010101\n")]);
    let edit = update("refs/heads/a", Some(Target::Peeled(id(1))), Target::Peeled(id(5)));
    let tx = store.transaction(vec![edit.clone()], Fail::Immediately);
    let edits = disk.commit(tx).expect("nothing fails");
    assert_eq!(edits, vec![edit]);
    assert_eq!(
        disk.files.get(&b"refs/heads/a".to_vec()),
        Some(&b"0505050505050505050505050505050505050505\n".to_vec())
    );
}

#[test]
fn deletion_is_held_against_what_it_expects() {
    let store = store();
    let mut disk =
        Disk::with(&[("refs/heads/a", "0101010101010101010101010101010101010101\n")]);
    let tx = store
        .transaction(vec![delete("refs/heads/a", Some(Target::Peeled(id(2))))], Fail::Immediately);
    let failure = disk.commit(tx).err().expect("the reference holds something else");
    match &failure.error {
        Error::PreconditionMismatch { name, expected, actual } => {
            assert_eq!(name, &b"refs/heads/a".to_vec());
            assert_eq!(expected, &Target::Peeled(id(2)));
            assert_eq!(actual, &Some(Target::Peeled(id(1))));
        }
        other => panic!("unexpected error {:?}", other),
    }
    assert_eq!(disk.record, vec!["read refs/heads/a".to_string()]);
    assert_eq!(disk.files.len(), 1);
}

#[test]
fn deletion_takes_no_lock_and_removes_the_reference_on_commit() {
    let store = store();
    let mut disk =
        Disk::with(&[("refs/heads/topic/a", "0101010101010101010101010101010101010101\n")]);
    let edit = delete("refs/heads/topic/a", Some(Target::Peeled(id(1))));
    let tx = store.transaction(vec![edit.clone()], Fail::Immediately);
    let tx = disk.prepare(tx).ok().expect("nothing fails");
    assert_eq!(disk.record, vec!["read refs/heads/topic/a".to_string()]);
    assert_eq!(disk.files.len(), 1);
    let edits = disk.commit(tx).expect("nothing fails");
    assert_eq!(edits, vec![edit]);
    assert!(disk.files.is_empty());
    assert_eq!(
        disk.record.last(),
        Some(
            &"remove refs/heads/topic/a prune=[\"refs/heads/topic\", \"refs/heads\", \"refs\"]"
                .to_string()
        )
    );
}

#[test]
fn updates_are_published_before_deletions_whatever_the_order() {
    let store = store();
    let mut disk =
        Disk::with(&[("refs/heads/old", "0101010101010101010101010101010101010101\n")]);
    let tx = store.transaction(
        vec![
            delete("refs/heads/old", None),
            update("refs/heads/new", None, Target::Peeled(id(1))),
            delete("refs/heads/gone", None),
            update("HEAD", None, Target::Symbolic(b"refs/heads/new".to_vec())),
        ],
        Fail::Immediately,
    );
    let edits = disk.commit(tx).expect("nothing fails");
    assert_eq!(edits.len(), 4);
    assert_eq!(edits[0].name, b"refs/heads/old".to_vec());
    assert_eq!(edits[3].name, b"HEAD".to_vec());
    let done: Vec<&String> = disk
        .record
        .iter()
        .filter(|line| line.starts_with("publish") || line.starts_with("remove"))
        .collect();
    assert_eq!(
        done,
        vec![
            "publish refs/heads/new log=true",
            "publish HEAD log=false",
            "remove refs/heads/old prune=[\"refs/heads\", \"refs\"]",
            "remove refs/heads/gone prune=[\"refs/heads\", \"refs\"]",
        ]
    );
    let mut left: Vec<Vec<u8>> = disk.files.keys().cloned().collect();
    left.sort();
    assert_eq!(left, vec![b"HEAD".to_vec(), b"refs/heads/new".to_vec()]);
}

#[test]
fn plan_refers_to_the_edits_by_their_place() {
    let store = store();
    let tx: Transaction<'_, Lock> = store.transaction(
        vec![delete("refs/a", None), update("refs/b", None, Target::Peeled(id(1)))],
        Fail::Immediately,
    );
    let mut disk = Disk::default();
    let tx = disk.prepare(tx).ok().expect("nothing fails");
    let plan = match tx.commit(Event::Begin).ok().expect("nothing fails") {
        Commit::Ready(plan) => plan,
        Commit::Pending(..) => panic!("the transaction is prepared"),
    };
    assert_eq!(plan.edits().len(), 2);
    let plan = match plan.proceed(Ok(())).ok().expect("nothing failed") {
        Progress::Next(plan, operation) => {
            assert_eq!(
                operation,
                Operation::Publish {
                    lock: Lock {
                        path: b"refs/b".to_vec(),
                        content: b"0101010101010101010101010101010101010101\n".to_vec()
                    },
                    index: 1,
                    log: true
                }
            );
            assert_eq!(operation.edit(), 1);
            plan
        }
        Progress::Done(_) => panic!("two operations are due"),
    };
    let plan = match plan.proceed(Ok(())).ok().expect("nothing failed") {
        Progress::Next(plan, operation) => {
            assert_eq!(operation, Operation::Remove { index: 0, prune: vec![b"refs".to_vec()] });
            assert_eq!(operation.edit(), 0);
            plan
        }
        Progress::Done(_) => panic!("one operation is due"),
    };
    match plan.proceed(Ok(())).ok().expect("nothing failed") {
        Progress::Done(edits) => {
            assert_eq!(
                edits,
                vec![delete("refs/a", None), update("refs/b", None, Target::Peeled(id(1)))]
            );
        }
        Progress::Next(..) => panic!("nothing is left to do"),
    }
}

#[test]
fn commit_prepares_an_open_transaction_step_by_step() {
    let store = store();
    let tx: Transaction<'_, Lock> =
        store.transaction(vec![update("refs/a", None, Target::Peeled(id(1)))], Fail::Immediately);
    let tx = match tx.commit(Event::Begin).ok().expect("nothing fails") {
        Commit::Pending(tx, action) => {
            assert_eq!(action, Action::Read { path: b"refs/a".to_vec() });
            assert_eq!(tx.state(), State::Open);
            tx
        }
        Commit::Ready(_) => panic!("nothing is locked yet"),
    };
    let tx = match tx.commit(Event::Contents(Ok(None))).ok().expect("nothing fails") {
        Commit::Pending(tx, action) => {
            assert!(matches!(action, Action::Acquire { .. }));
            tx
        }
        Commit::Ready(_) => panic!("nothing is locked yet"),
    };
    let tx = match tx.commit(Event::Acquired(Ok(()))).ok().expect("nothing fails") {
        Commit::Pending(tx, action) => {
            assert_eq!(
                action,
                Action::Stage { content: b"0101010101010101010101010101010101010101\n".to_vec() }
            );
            tx
        }
        Commit::Ready(_) => panic!("nothing is staged yet"),
    };
    let lock = Lock { path: b"refs/a".to_vec(), content: Vec::new() };
    match tx.commit(Event::Staged(Ok(lock.clone()))).ok().expect("nothing fails") {
        Commit::Ready(plan) => match plan.proceed(Ok(())).ok().expect("nothing failed") {
            Progress::Next(_, operation) => {
                assert_eq!(operation, Operation::Publish { lock, index: 0, log: true });
            }
            Progress::Done(_) => panic!("one operation is due"),
        },
        Commit::Pending(..) => panic!("everything is prepared"),
    }
}

#[test]
fn commit_stops_at_the_first_operation_that_fails_and_undoes_nothing() {
    let store = store();
    let mut disk =
        Disk::with(&[("refs/heads/old", "0909090909090909090909090909090909090909\n")]);
    disk.unpublishable.push(b"refs/heads/b".to_vec());
    let tx = store.transaction(
        vec![
            delete("refs/heads/old", None),
            update("refs/heads/a", None, Target::Peeled(id(1))),
            update("refs/heads/b", None, Target::Peeled(id(2))),
            update("refs/heads/c", None, Target::Peeled(id(3))),
            update("refs/heads/d", None, Target::Peeled(id(4))),
        ],
        Fail::Immediately,
    );
    let failure = disk.commit(tx).err().expect("the lock cannot be committed");
    match &failure.error {
        Error::Io { name, err } => {
            assert_eq!(name, &b"refs/heads/b".to_vec());
            assert_eq!(err.kind(), std::io::ErrorKind::Other);
        }
        other => panic!("unexpected error {:?}", other),
    }
    let released: Vec<Vec<u8>> = failure.release.iter().map(|lock| lock.path.clone()).collect();
    assert_eq!(released, vec![b"refs/heads/c".to_vec(), b"refs/heads/d".to_vec()]);
    let mut left: Vec<Vec<u8>> = disk.files.keys().cloned().collect();
    left.sort();
    assert_eq!(left, vec![b"refs/heads/a".to_vec(), b"refs/heads/old".to_vec()]);
    assert_eq!(disk.record.last(), Some(&"publish refs/heads/a log=true".to_string()));
}

#[test]
fn outcome_reported_before_any_operation_counts_for_nothing() {
    let store = store();
    let mut disk = Disk::default();
    let tx: Transaction<'_, Lock> =
        store.transaction(vec![delete("refs/a", None)], Fail::Immediately);
    let tx = disk.prepare(tx).ok().expect("nothing fails");
    let plan = match tx.commit(Event::Begin).ok().expect("nothing fails") {
        Commit::Ready(plan) => plan,
        Commit::Pending(..) => panic!("the transaction is prepared"),
    };
    let early = Err(std::io::Error::new(std::io::ErrorKind::Other, "nothing was tried"));
    let plan = match plan.proceed(early).ok().expect("nothing was handed out") {
        Progress::Next(plan, operation) => {
            assert_eq!(operation, Operation::Remove { index: 0, prune: vec![b"refs".to_vec()] });
            plan
        }
        Progress::Done(_) => panic!("one operation is due"),
    };
    let failed = Err(std::io::Error::new(std::io::ErrorKind::PermissionDenied, "denied"));
    let failure = plan.proceed(failed).err().expect("the removal failed");
    assert!(matches!(
        failure.error,
        Error::Io { name, err } if name == b"refs/a".to_vec()
            && err.kind() == std::io::ErrorKind::PermissionDenied
    ));
    assert!(failure.release.is_empty());
}

#[test]
fn event_that_answers_nothing_asked_for_changes_nothing() {
    let store = store();
    let tx: Transaction<'_, Lock> =
        store.transaction(vec![update("refs/a", None, Target::Peeled(id(1)))], Fail::Immediately);
    let (tx, first) = tx.prepare(Event::Begin).ok().expect("nothing fails");
    let (tx, again) = tx.prepare(Event::Acquired(Ok(()))).ok().expect("nothing fails");
    assert_eq!(first, again);
    let (tx, again) = tx.prepare(Event::Begin).ok().expect("nothing fails");
    assert_eq!(first, again);
    assert_eq!(tx.action(), first);
    assert_eq!(tx.state(), State::Open);
    let edits = tx.into_edits();
    assert_eq!(edits, vec![update("refs/a", None, Target::Peeled(id(1)))]);
}

#[test]
fn into_edits_hands_back_the_edits_of_an_open_transaction() {
    let store = store();
    let given = vec![
        update("refs/a", None, Target::Peeled(id(1))),
        delete("refs/b", Some(Target::Symbolic(b"refs/a".to_vec()))),
    ];
    let tx: Transaction<'_, Lock> = store.transaction(given.clone(), Fail::Immediately);
    assert_eq!(tx.into_edits(), given);
}

#[test]
fn change_is_held_against_the_target_found() {
    let expects_nothing = Change::Delete { previous: None };
    assert_eq!(expects_nothing.unmet(&None), None);
    assert_eq!(expects_nothing.unmet(&Some(Target::Peeled(id(1)))), None);
    let expects_one = Change::Delete { previous: Some(Target::Peeled(id(1))) };
    assert_eq!(expects_one.unmet(&Some(Target::Peeled(id(1)))), None);
    assert_eq!(expects_one.unmet(&None), Some(Target::Peeled(id(1))));
    assert_eq!(expects_one.unmet(&Some(Target::Peeled(id(2)))), Some(Target::Peeled(id(1))));
    let mut change = Change::Update(Update {
        mode: Reflog::CreateUnconditionally,
        previous: None,
        new: Target::Peeled(id(3)),
    });
    change.found(Some(Target::Peeled(id(2))));
    assert_eq!(
        change,
        Change::Update(Update {
            mode: Reflog::CreateUnconditionally,
            previous: Some(Target::Peeled(id(2))),
            new: Target::Peeled(id(3)),
        })
    );
    change.found(Some(Target::Peeled(id(7))));
    assert_eq!(change.unmet(&Some(Target::Peeled(id(2)))), None);
    let mut deletion = Change::Delete { previous: None };
    deletion.found(Some(Target::Peeled(id(2))));
    assert_eq!(deletion, Change::Delete { previous: None });
}
