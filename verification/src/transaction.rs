//! The transaction: a batch of edits that is applied to the store as a whole
//! or not at all.
//!
//! A transaction is prepared, then committed. Preparing locks the file of
//! every reference that is to be updated and stages its new content, without
//! anything becoming visible; committing publishes what was staged and then
//! removes what is to be deleted.
//!
//! The engine touches no file. Each call takes the outcome of what the caller
//! did last, an [`Event`], and answers with what the caller is to do next, an
//! [`Action`]. What the engine decides is stated by [`step`], a function of
//! the transaction and the event alone. A prepared transaction that is
//! committed turns into a [`Plan`], which is carried out in the same way.
use crate::bytes::equal;
use crate::edit::{
    is_first_duplicate, models, names, Change, ChangeModel, RefEdit, RefEditModel,
};
use crate::plan::{operations, Operation, OperationModel, Plan, PlanModel};
use crate::store::{parents, Store};
use crate::target::{decoded, encoded, optional, DecodeError, Target, TargetModel};
use git_lock::acquire::Fail;
use vstd::prelude::*;

verus! {

/// How far a transaction has come. A committed transaction is gone.
#[derive(Clone, Copy, Debug, PartialEq, Eq)]
pub enum State {
    /// Nothing is locked for good yet.
    Open,
    /// Every update holds its lock and its new content is staged.
    Prepared,
}

/// What a transaction has asked its caller for and waits to hear about.
#[derive(Clone, Copy, Debug, PartialEq, Eq)]
pub enum Awaiting {
    /// Nothing was asked for.
    Nothing,
    /// The content of the file of the edit at hand.
    Contents,
    /// The lock on the file of the update at hand.
    Lock,
    /// The lock of the update at hand, with the new content staged and closed.
    Staged,
}

/// What the caller did, as far as the transaction needs to know.
pub enum Event<L> {
    /// Nothing yet: the transaction is to say what comes first.
    Begin,
    /// The file was read: its content, or `None` where there is no such file.
    Contents(Result<Option<Vec<u8>>, std::io::Error>),
    /// The lock was tried for.
    Acquired(Result<(), AcquireError>),
    /// The content was written to the lock and the lock was closed: here it
    /// is, ready to be committed.
    Staged(Result<L, std::io::Error>),
}

/// Why a lock could not be acquired.
#[derive(Debug)]
pub enum AcquireError {
    /// Trying for the lock failed for a reason other than its being held.
    Io(std::io::Error),
    /// The lock is held by someone else, and was still held after this many
    /// attempts.
    PermanentlyLocked { attempts: usize },
}

/// What the caller is to do next.
#[derive(Debug, PartialEq, Eq)]
pub enum Action {
    /// Read the file at `path`, and come back with [`Event::Contents`].
    Read { path: Vec<u8> },
    /// Acquire the lock on the file at `path`, creating the directories that
    /// are missing below `boundary` and failing as `mode` says, and come back
    /// with [`Event::Acquired`].
    Acquire { path: Vec<u8>, mode: Fail, boundary: Vec<u8> },
    /// Write `content` to the lock just acquired and close it, and come back
    /// with [`Event::Staged`].
    Stage { content: Vec<u8> },
    /// Nothing: the transaction waits for nothing.
    Done,
}

/// Why a transaction failed.
#[derive(Debug)]
pub enum Error {
    /// Two edits have the same name. `first_name` is the name of the first
    /// edit whose name a later one has too.
    DuplicateRefEdits { first_name: Vec<u8> },
    /// The lock on the file of the reference `name` could not be acquired.
    LockAcquire { name: Vec<u8>, cause: AcquireError },
    /// Reading or writing for the reference `name` failed.
    Io { name: Vec<u8>, err: std::io::Error },
    /// The file of the reference `name` does not hold a target.
    ReferenceDecode { name: Vec<u8>, decode: DecodeError },
    /// The reference `name` does not hold the target that its edit expects.
    PreconditionMismatch { name: Vec<u8>, expected: Target, actual: Option<Target> },
}

/// A failed transaction: why it failed, and the locks that it held, the
/// latest first. The caller lets go of them, and of the lock that it may have
/// acquired for the action that was pending.
#[derive(Debug)]
pub struct Failure<L> {
    pub error: Error,
    pub release: Vec<L>,
}

/// How a call to commit came out.
pub enum Commit<'a, L> {
    /// The transaction is still being prepared: the caller is to do what the
    /// action says and to commit again.
    Pending(Transaction<'a, L>, Action),
    /// The transaction is prepared, and gone: the plan remains to be carried
    /// out, by [`Plan::proceed`].
    Ready(Plan<L>),
}

/// An event as a value of the model.
pub enum EventModel<L> {
    Begin,
    Contents(Result<Option<Seq<u8>>, std::io::Error>),
    Acquired(Result<(), AcquireError>),
    Staged(Result<L, std::io::Error>),
}

/// An action as a value of the model.
pub enum ActionModel {
    Read { path: Seq<u8> },
    Acquire { path: Seq<u8>, mode: Fail, boundary: Seq<u8> },
    Stage { content: Seq<u8> },
    Done,
}

/// An error as a value of the model.
pub enum ErrorModel {
    DuplicateRefEdits { first_name: Seq<u8> },
    LockAcquire { name: Seq<u8>, cause: AcquireError },
    Io { name: Seq<u8>, err: std::io::Error },
    ReferenceDecode { name: Seq<u8>, content: Seq<u8> },
    PreconditionMismatch { name: Seq<u8>, expected: TargetModel, actual: Option<TargetModel> },
}

/// A failure as a value of the model.
pub struct FailureModel<L> {
    pub error: ErrorModel,
    pub release: Seq<L>,
}

impl<L> View for Event<L> {
    type V = EventModel<L>;

    open spec fn view(&self) -> EventModel<L> {
        match self {
            Event::Begin => EventModel::Begin,
            Event::Contents(Ok(Some(content))) => EventModel::Contents(Ok(Some(content@))),
            Event::Contents(Ok(None)) => EventModel::Contents(Ok(None)),
            Event::Contents(Err(err)) => EventModel::Contents(Err(*err)),
            Event::Acquired(result) => EventModel::Acquired(*result),
            Event::Staged(result) => EventModel::Staged(*result),
        }
    }
}

impl View for Action {
    type V = ActionModel;

    open spec fn view(&self) -> ActionModel {
        match self {
            Action::Read { path } => ActionModel::Read { path: path@ },
            Action::Acquire { path, mode, boundary } => ActionModel::Acquire {
                path: path@,
                mode: *mode,
                boundary: boundary@,
            },
            Action::Stage { content } => ActionModel::Stage { content: content@ },
            Action::Done => ActionModel::Done,
        }
    }
}

impl View for Error {
    type V = ErrorModel;

    open spec fn view(&self) -> ErrorModel {
        match self {
            Error::DuplicateRefEdits { first_name } => ErrorModel::DuplicateRefEdits {
                first_name: first_name@,
            },
            Error::LockAcquire { name, cause } => ErrorModel::LockAcquire {
                name: name@,
                cause: *cause,
            },
            Error::Io { name, err } => ErrorModel::Io { name: name@, err: *err },
            Error::ReferenceDecode { name, decode } => ErrorModel::ReferenceDecode {
                name: name@,
                content: decode.content@,
            },
            Error::PreconditionMismatch { name, expected, actual } => {
                ErrorModel::PreconditionMismatch {
                    name: name@,
                    expected: expected@,
                    actual: optional(*actual),
                }
            },
        }
    }
}

impl<L> View for Failure<L> {
    type V = FailureModel<L>;

    open spec fn view(&self) -> FailureModel<L> {
        FailureModel { error: self.error@, release: self.release@ }
    }
}

/// A transaction as a value of the model.
pub struct Model<L> {
    /// The root directory of the store.
    pub root: Seq<u8>,
    /// The edits, in the order in which the caller gave them.
    pub edits: Seq<RefEditModel>,
    /// For each edit, the lock that it holds.
    pub locks: Seq<Option<L>>,
    pub state: State,
    /// What to do where a lock is held by someone else.
    pub policy: Fail,
    /// The place of the edit at hand: the edits before it are prepared.
    pub position: int,
    pub awaiting: Awaiting,
    /// The target that the reference of the edit at hand was found to hold,
    /// kept while its lock is tried for.
    pub found: Option<TargetModel>,
}

impl<L> Model<L> {
    /// What holds of every transaction: an edit holds a lock exactly if it is
    /// an update and prepared; a transaction that is under way or prepared
    /// has no name twice.
    pub open spec fn wf(self) -> bool {
        &&& self.locks.len() == self.edits.len()
        &&& 0 <= self.position <= self.edits.len()
        &&& forall|i: int|
            0 <= i < self.edits.len() ==> ((#[trigger] self.locks[i]) is Some <==> i
                < self.position && self.edits[i].edit is Update)
        &&& self.state is Prepared ==> self.awaiting is Nothing && self.position
            == self.edits.len()
        &&& self.state is Open && self.awaiting is Nothing ==> self.position == 0
        &&& !(self.awaiting is Nothing) ==> self.position < self.edits.len()
        &&& self.awaiting is Lock || self.awaiting is Staged ==> self.edits[self.position].edit is Update
        &&& !(self.awaiting is Lock) ==> self.found is None
        &&& self.started() ==> names(self.edits).no_duplicates()
    }

    /// Whether the names were examined: the transaction is under way or
    /// prepared.
    pub open spec fn started(self) -> bool {
        self.state is Prepared || !(self.awaiting is Nothing)
    }

    /// The name of the edit at hand.
    pub open spec fn name(self) -> Seq<u8> {
        self.edits[self.position].name
    }
}

/// The locks that are held, the latest first.
pub open spec fn held<L>(locks: Seq<Option<L>>) -> Seq<L>
    decreases locks.len(),
{
    if locks.len() == 0 {
        Seq::empty()
    } else {
        match locks.last() {
            Some(lock) => seq![lock] + held(locks.drop_last()),
            None => held(locks.drop_last()),
        }
    }
}

/// The first place whose name occurs again later.
pub open spec fn first_duplicate(names: Seq<Seq<u8>>) -> int {
    choose|i: int| is_first_duplicate(names, i)
}

/// The transaction fails with `error`: every lock it holds is to be released.
pub open spec fn failed<L>(tx: Model<L>, error: ErrorModel) -> Result<Model<L>, FailureModel<L>> {
    Err(FailureModel { error, release: held(tx.locks) })
}

/// The transaction turns to the edit at `position`, or is prepared where
/// there is no such edit.
pub open spec fn turned_to<L>(tx: Model<L>, position: int) -> Model<L> {
    if position >= tx.edits.len() {
        Model {
            root: tx.root,
            edits: tx.edits,
            locks: tx.locks,
            state: State::Prepared,
            policy: tx.policy,
            position: tx.edits.len() as int,
            awaiting: Awaiting::Nothing,
            found: None,
        }
    } else {
        Model {
            root: tx.root,
            edits: tx.edits,
            locks: tx.locks,
            state: State::Open,
            policy: tx.policy,
            position,
            awaiting: Awaiting::Contents,
            found: None,
        }
    }
}

/// What the transaction has asked for and waits to hear about: the file of
/// the edit at hand, the lock on it, or the new content staged in that lock.
pub open spec fn pending<L>(tx: Model<L>) -> ActionModel {
    match tx.awaiting {
        Awaiting::Nothing => ActionModel::Done,
        Awaiting::Contents => ActionModel::Read { path: tx.name() },
        Awaiting::Lock => ActionModel::Acquire {
            path: tx.name(),
            mode: tx.policy,
            boundary: tx.root,
        },
        Awaiting::Staged => ActionModel::Stage {
            content: match tx.edits[tx.position].edit {
                ChangeModel::Update(update) => encoded(update.new),
                ChangeModel::Delete { .. } => Seq::empty(),
            },
        },
    }
}

/// The first step of an open transaction: no name may occur twice.
pub open spec fn begun<L>(tx: Model<L>) -> Result<Model<L>, FailureModel<L>> {
    let all = names(tx.edits);
    if all.no_duplicates() {
        Ok(turned_to(tx, 0))
    } else {
        failed(tx, ErrorModel::DuplicateRefEdits { first_name: all[first_duplicate(all)] })
    }
}

/// The target that was found, where the file was read as `content`.
pub open spec fn target_found(content: Option<Seq<u8>>) -> Option<TargetModel> {
    match content {
        Some(bytes) => decoded(bytes),
        None => None,
    }
}

/// The reference of the edit at hand does not hold what the edit expects.
pub open spec fn mismatch<L>(tx: Model<L>, current: Option<TargetModel>) -> ErrorModel {
    ErrorModel::PreconditionMismatch {
        name: tx.name(),
        expected: tx.edits[tx.position].edit.previous()->0,
        actual: current,
    }
}

/// A step for the edit at hand of a transaction that is under way.
///
/// The file is read first, and a file that holds no target ends the
/// transaction. A deletion is then held against what was found and is done.
/// For an update the lock is acquired, the update is held against what was
/// found, recording it where nothing was expected, and the new content is
/// staged; with the closed lock in hand the update is done. An event that
/// does not answer what was asked for changes nothing.
pub open spec fn applied<L>(tx: Model<L>, event: EventModel<L>) -> Result<
    Model<L>,
    FailureModel<L>,
> {
    let edit = tx.edits[tx.position];
    match (tx.awaiting, event) {
        (Awaiting::Contents, EventModel::Contents(Err(err))) => failed(
            tx,
            ErrorModel::Io { name: tx.name(), err },
        ),
        (Awaiting::Contents, EventModel::Contents(Ok(content))) => {
            let current = target_found(content);
            if content is Some && current is None {
                failed(tx, ErrorModel::ReferenceDecode { name: tx.name(), content: content->0 })
            } else if edit.edit is Update {
                Ok(Model { awaiting: Awaiting::Lock, found: current, ..tx })
            } else if edit.edit.expects(current) {
                Ok(turned_to(tx, tx.position + 1))
            } else {
                failed(tx, mismatch(tx, current))
            }
        },
        (Awaiting::Lock, EventModel::Acquired(Err(err))) => failed(
            tx,
            ErrorModel::LockAcquire { name: tx.name(), cause: err },
        ),
        (Awaiting::Lock, EventModel::Acquired(Ok(_))) => {
            if edit.edit.expects(tx.found) {
                Ok(
                    Model {
                        awaiting: Awaiting::Staged,
                        found: None,
                        edits: tx.edits.update(tx.position, edit.having_found(tx.found)),
                        ..tx
                    },
                )
            } else {
                failed(tx, mismatch(tx, tx.found))
            }
        },
        (Awaiting::Staged, EventModel::Staged(Err(err))) => failed(
            tx,
            ErrorModel::Io { name: tx.name(), err },
        ),
        (Awaiting::Staged, EventModel::Staged(Ok(lock))) => Ok(
            turned_to(Model { locks: tx.locks.update(tx.position, Some(lock)), ..tx }, tx.position + 1),
        ),
        _ => Ok(tx),
    }
}

/// One step of preparing: what becomes of the transaction `tx` when `event`
/// comes in. The caller is then to do what [`pending`] says of the result.
///
/// A prepared transaction stays as it is. An open one that has not begun
/// examines its names and turns to its first edit; one that is under way
/// goes on with the edit at hand.
pub open spec fn step<L>(tx: Model<L>, event: EventModel<L>) -> Result<Model<L>, FailureModel<L>> {
    match tx.state {
        State::Prepared => Ok(tx),
        State::Open => match tx.awaiting {
            Awaiting::Nothing => begun(tx),
            _ => applied(tx, event),
        },
    }
}

/// A transaction as it is opened: nothing is locked and nothing was asked for.
pub open spec fn opened<L>(root: Seq<u8>, edits: Seq<RefEditModel>, policy: Fail) -> Model<L> {
    Model {
        root,
        edits,
        locks: Seq::new(edits.len(), |i: int| None),
        state: State::Open,
        policy,
        position: 0,
        awaiting: Awaiting::Nothing,
        found: None,
    }
}

/// The publications that are due for the updates among the first `upto`
/// edits, in the order of the edits. The log is written for peeled targets
/// only.
pub open spec fn publications<L>(tx: Model<L>, upto: int) -> Seq<OperationModel<L>>
    decreases upto,
{
    if upto <= 0 {
        Seq::empty()
    } else {
        match tx.edits[upto - 1].edit {
            ChangeModel::Update(update) => publications(tx, upto - 1).push(
                OperationModel::Publish {
                    lock: tx.locks[upto - 1]->0,
                    index: upto - 1,
                    log: update.new is Peeled,
                },
            ),
            ChangeModel::Delete { .. } => publications(tx, upto - 1),
        }
    }
}

/// The removals that are due for the deletions among the first `upto` edits,
/// in the order of the edits.
pub open spec fn removals<L>(tx: Model<L>, upto: int) -> Seq<OperationModel<L>>
    decreases upto,
{
    if upto <= 0 {
        Seq::empty()
    } else {
        match tx.edits[upto - 1].edit {
            ChangeModel::Update(_) => removals(tx, upto - 1),
            ChangeModel::Delete { .. } => removals(tx, upto - 1).push(
                OperationModel::Remove { index: upto - 1, prune: parents(tx.edits[upto - 1].name) },
            ),
        }
    }
}

/// What committing the prepared transaction `tx` comes to: every update is
/// published, then every deletion is carried out.
pub open spec fn planned<L>(tx: Model<L>) -> PlanModel<L> {
    PlanModel {
        operations: publications(tx, tx.edits.len() as int) + removals(tx, tx.edits.len() as int),
        edits: tx.edits,
        at: None,
    }
}

/// An edit with its lock.
struct Edit<L> {
    update: RefEdit,
    lock: Option<L>,
    /// The place of the edit that this one was made for, where it stands for
    /// the reference that a symbolic reference points at.
    #[allow(dead_code)]
    parent_index: Option<usize>,
}

impl<L> Edit<L> {
    /// The edit as the caller sees it.
    fn borrow(&self) -> (edit: &RefEdit)
        ensures
            *edit == self.update,
    {
        &self.update
    }
}

/// The edits of the entries, in their order.
spec fn edits_of<L>(updates: Seq<Edit<L>>) -> Seq<RefEditModel> {
    updates.map_values(|e: Edit<L>| e.update@)
}

/// The locks of the entries, in their order.
spec fn locks_of<L>(updates: Seq<Edit<L>>) -> Seq<Option<L>> {
    updates.map_values(|e: Edit<L>| e.lock)
}

/// A transaction on a store.
pub struct Transaction<'a, L> {
    store: &'a Store,
    updates: Vec<Edit<L>>,
    state: State,
    lock_fail_mode: Fail,
    position: usize,
    awaiting: Awaiting,
    found: Option<Target>,
}

impl<'a, L> View for Transaction<'a, L> {
    type V = Model<L>;

    closed spec fn view(&self) -> Model<L> {
        Model {
            root: self.store.root(),
            edits: edits_of(self.updates@),
            locks: locks_of(self.updates@),
            state: self.state,
            policy: self.lock_fail_mode,
            position: self.position as int,
            awaiting: self.awaiting,
            found: optional(self.found),
        }
    }
}

/// Tells whether every name belongs to one edit only, or gives the name of
/// the first edit whose name a later one has too.
fn assure_one_name_has_one_edit<L>(updates: &Vec<Edit<L>>) -> (outcome: Result<(), Vec<u8>>)
    ensures
        outcome is Ok <==> names(edits_of(updates@)).no_duplicates(),
        outcome matches Err(name) ==> is_first_duplicate(
            names(edits_of(updates@)),
            first_duplicate(names(edits_of(updates@))),
        ) && name@ == names(edits_of(updates@))[first_duplicate(names(edits_of(updates@)))],
{
    let ghost all = names(edits_of(updates@));
    let n = updates.len();
    let mut i: usize = 0;
    while i < n
        invariant
            n == updates.len(),
            all == names(edits_of(updates@)),
            i <= n,
            forall|k: int| 0 <= k < i ==> !crate::edit::occurs_again(all, k),
        decreases n - i,
    {
        let mut j: usize = i + 1;
        while j < n
            invariant
                n == updates.len(),
                all == names(edits_of(updates@)),
                all.len() == n,
                i < j <= n,
                forall|k: int| 0 <= k < i ==> !crate::edit::occurs_again(all, k),
                forall|m: int| i < m < j ==> all[m] != all[i as int],
            decreases n - j,
        {
            if equal(&updates[i].borrow().name, &updates[j].borrow().name) {
                proof {
                    assert(all[j as int] == all[i as int]);
                    assert(crate::edit::occurs_again(all, i as int));
                    assert(is_first_duplicate(all, i as int));
                    crate::edit::first_duplicate_is_unique(all, i as int, first_duplicate(all));
                }
                return Err(updates[i].borrow().name.clone());
            }
            j += 1;
        }
        i += 1;
    }
    proof {
        assert forall|a: int, b: int| 0 <= a < all.len() && 0 <= b < all.len() && a != b implies all[a]
            != all[b] by {
            if all[a] == all[b] {
                if a < b {
                    assert(crate::edit::occurs_again(all, a));
                } else {
                    assert(crate::edit::occurs_again(all, b));
                }
            }
        }
    }
    Ok(())
}

/// Ends a transaction: takes the locks out of its entries, the latest first.
fn fail<L>(updates: Vec<Edit<L>>, error: Error) -> (failure: Failure<L>)
    ensures
        failure@ == (FailureModel { error: error@, release: held(locks_of(updates@)) }),
{
    let mut updates = updates;
    let ghost all = locks_of(updates@);
    let mut release: Vec<L> = Vec::new();
    while updates.len() > 0
        invariant
            release@ + held(locks_of(updates@)) == held(all),
        decreases updates.len(),
    {
        let ghost before = locks_of(updates@);
        let ghost so_far = release@;
        let entry = updates.pop().unwrap();
        assert(locks_of(updates@) =~= before.drop_last());
        assert(before.last() == entry.lock);
        match entry.lock {
            Some(lock) => {
                release.push(lock);
                assert(release@ + held(before.drop_last()) =~= so_far + (seq![lock] + held(
                    before.drop_last(),
                )));
            },
            None => {},
        }
    }
    assert(release@ + held(locks_of(updates@)) =~= release@);
    Failure { error, release }
}

impl<'a, L> Transaction<'a, L> {
    #[verifier::type_invariant]
    spec fn well_formed(&self) -> bool {
        self@.wf()
    }

    /// Turns to the entry at `position`, or ends preparing where there is none.
    fn turn_to(
        store: &'a Store,
        updates: Vec<Edit<L>>,
        lock_fail_mode: Fail,
        position: usize,
        Ghost(tx): Ghost<Model<L>>,
    ) -> (next: (Transaction<'a, L>, Action))
        requires
            tx.root == store.root(),
            tx.edits == edits_of(updates@),
            tx.locks == locks_of(updates@),
            tx.policy == lock_fail_mode,
            turned_to(tx, position as int).wf(),
            position <= updates.len(),
        ensures
            next.0@ == turned_to(tx, position as int),
            next.1@ == pending(next.0@),
    {
        if position < updates.len() {
            let path = store.ref_path(&updates[position].borrow().name);
            let next = Transaction {
                store,
                updates,
                state: State::Open,
                lock_fail_mode,
                position,
                awaiting: Awaiting::Contents,
                found: None,
            };
            (next, Action::Read { path })
        } else {
            let next = Transaction {
                store,
                updates,
                state: State::Prepared,
                lock_fail_mode,
                position,
                awaiting: Awaiting::Nothing,
                found: None,
            };
            (next, Action::Done)
        }
    }

    /// What the transaction has asked for and waits to hear about, and
    /// [`Action::Done`] where it waits for nothing: it has not begun, or it
    /// is prepared.
    pub fn action(&self) -> (action: Action)
        ensures
            action@ == pending(self@),
    {
        proof {
            use_type_invariant(self);
        }
        match self.awaiting {
            Awaiting::Nothing => Action::Done,
            Awaiting::Contents => Action::Read {
                path: self.store.ref_path(&self.updates[self.position].borrow().name),
            },
            Awaiting::Lock => Action::Acquire {
                path: self.store.ref_path(&self.updates[self.position].borrow().name),
                mode: self.lock_fail_mode,
                boundary: self.store.base().clone(),
            },
            Awaiting::Staged => match &self.updates[self.position].borrow().edit {
                Change::Update(update) => Action::Stage { content: update.new.encode() },
                Change::Delete { .. } => Action::Stage { content: Vec::new() },
            },
        }
    }

    /// Goes on with the edit at hand, given what the caller did for it.
    fn lock_ref_and_apply_change(self, event: Event<L>) -> (next: Result<
        (Transaction<'a, L>, Action),
        Failure<L>,
    >)
        requires
            self@.state is Open,
            !(self@.awaiting is Nothing),
        ensures
            match next {
                Ok((tx, action)) => applied(self@, event@) == Ok::<Model<L>, FailureModel<L>>(tx@)
                    && action@ == pending(tx@),
                Err(failure) => applied(self@, event@) == Err::<Model<L>, FailureModel<L>>(
                    failure@,
                ),
            },
    {
        proof {
            use_type_invariant(&self);
        }
        let ghost before = self@;
        let Transaction { store, mut updates, state, lock_fail_mode, position, awaiting, found } =
            self;
        assert(position < updates.len());
        match (awaiting, event) {
            (Awaiting::Contents, Event::Contents(Err(err))) => {
                let name = updates[position].borrow().name.clone();
                Err(fail(updates, Error::Io { name, err }))
            },
            (Awaiting::Contents, Event::Contents(Ok(content))) => {
                let name = updates[position].borrow().name.clone();
                let current = match content {
                    None => None,
                    Some(bytes) => match Target::decode(&bytes) {
                        Ok(target) => Some(target),
                        Err(err) => {
                            return Err(fail(updates, Error::ReferenceDecode { name, decode: err }));
                        },
                    },
                };
                match &updates[position].borrow().edit {
                    Change::Update(_) => {
                        let next = Transaction {
                            store,
                            updates,
                            state,
                            lock_fail_mode,
                            position,
                            awaiting: Awaiting::Lock,
                            found: current,
                        };
                        let action = next.action();
                        Ok((next, action))
                    },
                    Change::Delete { .. } => {
                        match updates[position].borrow().edit.unmet(&current) {
                            None => {
                                proof {
                                    assert(turned_to(before, position + 1).wf());
                                }
                                Ok(
                                    Self::turn_to(
                                        store,
                                        updates,
                                        lock_fail_mode,
                                        position + 1,
                                        Ghost(before),
                                    ),
                                )
                            },
                            Some(expected) => Err(
                                fail(
                                    updates,
                                    Error::PreconditionMismatch { name, expected, actual: current },
                                ),
                            ),
                        }
                    },
                }
            },
            (Awaiting::Lock, Event::Acquired(Err(err))) => {
                let name = updates[position].borrow().name.clone();
                Err(fail(updates, Error::LockAcquire { name, cause: err }))
            },
            (Awaiting::Lock, Event::Acquired(Ok(_))) => {
                match updates[position].borrow().edit.unmet(&found) {
                    None => {
                        let ghost old_edits = edits_of(updates@);
                        let ghost old_locks = locks_of(updates@);
                        updates[position].update.edit.found(found);
                        proof {
                            assert(edits_of(updates@) =~= old_edits.update(
                                position as int,
                                old_edits[position as int].having_found(before.found),
                            ));
                            assert(locks_of(updates@) =~= old_locks);
                            assert(names(edits_of(updates@)) =~= names(old_edits));
                        }
                        let next = Transaction {
                            store,
                            updates,
                            state,
                            lock_fail_mode,
                            position,
                            awaiting: Awaiting::Staged,
                            found: None,
                        };
                        let action = next.action();
                        Ok((next, action))
                    },
                    Some(expected) => {
                        let name = updates[position].borrow().name.clone();
                        Err(
                            fail(
                                updates,
                                Error::PreconditionMismatch { name, expected, actual: found },
                            ),
                        )
                    },
                }
            },
            (Awaiting::Staged, Event::Staged(Err(err))) => {
                let name = updates[position].borrow().name.clone();
                Err(fail(updates, Error::Io { name, err }))
            },
            (Awaiting::Staged, Event::Staged(Ok(lock))) => {
                let ghost old_edits = edits_of(updates@);
                let ghost old_locks = locks_of(updates@);
                updates[position].lock = Some(lock);
                let ghost locked = Model { locks: before.locks.update(position as int, Some(lock)), ..before };
                proof {
                    assert(edits_of(updates@) =~= old_edits);
                    assert(locks_of(updates@) =~= old_locks.update(position as int, Some(lock)));
                    assert(turned_to(locked, position + 1).wf());
                }
                Ok(Self::turn_to(store, updates, lock_fail_mode, position + 1, Ghost(locked)))
            },
            (_, _) => {
                let next = Transaction {
                    store,
                    updates,
                    state,
                    lock_fail_mode,
                    position,
                    awaiting,
                    found,
                };
                let action = next.action();
                Ok((next, action))
            },
        }
    }

    /// How far the transaction has come.
    pub fn state(&self) -> (state: State)
        ensures
            state == self@.state,
    {
        self.state
    }

    /// Gives the transaction up and hands back its edits as they stand. The
    /// locks that it held are dropped.
    pub fn into_edits(self) -> (edits: Vec<RefEdit>)
        ensures
            models(edits@) == self@.edits,
    {
        let ghost entries = self.updates@;
        let mut edits: Vec<RefEdit> = Vec::new();
        for entry in it: self.updates
            invariant
                entries == it.seq(),
                models(edits@) == edits_of(entries.take(it.index() as int)),
        {
            let ghost so_far = models(edits@);
            edits.push(entry.update);
            proof {
                assert(entries.take(it.index() + 1) =~= entries.take(it.index() as int).push(entry));
                assert(models(edits@) =~= so_far.push(entry.update@));
            }
        }
        assert(entries.take(entries.len() as int) =~= entries);
        edits
    }

    /// Takes preparing one step further.
    ///
    /// `event` says what the caller did since the last call; on the first
    /// call that is [`Event::Begin`]. The answer is the transaction as it now
    /// stands and what the caller is to do next, where [`Action::Done`] says
    /// that the transaction is prepared; or the failure that ended it, with
    /// all the locks that it held. [`step`] states which it is.
    ///
    /// A prepared transaction comes back as it is, whatever the event.
    pub fn prepare(self, event: Event<L>) -> (next: Result<(Transaction<'a, L>, Action), Failure<L>>)
        ensures
            match next {
                Ok((tx, action)) => step(self@, event@) == Ok::<Model<L>, FailureModel<L>>(tx@)
                    && tx@.wf() && action@ == pending(tx@),
                Err(failure) => step(self@, event@) == Err::<Model<L>, FailureModel<L>>(failure@),
            },
            self@.state is Prepared ==> (next matches Ok((tx, action)) && tx == self && action
                == Action::Done),
    {
        proof {
            use_type_invariant(&self);
        }
        match self.state {
            State::Prepared => Ok((self, Action::Done)),
            State::Open => match self.awaiting {
                Awaiting::Nothing => {
                    let ghost before = self@;
                    match assure_one_name_has_one_edit(&self.updates) {
                        Err(first_name) => Err(
                            fail(self.updates, Error::DuplicateRefEdits { first_name }),
                        ),
                        Ok(()) => {
                            proof {
                                assert(turned_to(before, 0).wf());
                            }
                            let next = Self::turn_to(
                                self.store,
                                self.updates,
                                self.lock_fail_mode,
                                0,
                                Ghost(before),
                            );
                            proof {
                                use_type_invariant(&next.0);
                            }
                            Ok(next)
                        },
                    }
                },
                _ => {
                    match self.lock_ref_and_apply_change(event) {
                        Ok((tx, action)) => {
                            proof {
                                use_type_invariant(&tx);
                            }
                            Ok((tx, action))
                        },
                        Err(failure) => Err(failure),
                    }
                },
            },
        }
    }

    /// The plan for committing a prepared transaction.
    fn plan(self) -> (plan: Plan<L>)
        requires
            self@.state is Prepared,
        ensures
            plan@ == planned(self@),
    {
        proof {
            use_type_invariant(&self);
        }
        let ghost tx = self@;
        let ghost entries = self.updates@;
        let store = self.store;
        let mut publishing: Vec<Operation<L>> = Vec::new();
        let mut removing: Vec<Operation<L>> = Vec::new();
        let mut edits: Vec<RefEdit> = Vec::new();
        let mut index: usize = 0;
        for entry in it: self.updates
            invariant
                entries == it.seq(),
                entries.len() <= usize::MAX,
                tx.wf(),
                tx.state is Prepared,
                tx.edits == edits_of(entries),
                tx.locks == locks_of(entries),
                index == it.index(),
                operations(publishing@) == publications(tx, index as int),
                operations(removing@) == removals(tx, index as int),
                forall|k: int|
                    0 <= k < publishing@.len() ==> 0 <= (#[trigger] publishing@[k])@.edit() < index,
                forall|k: int|
                    0 <= k < removing@.len() ==> 0 <= (#[trigger] removing@[k])@.edit() < index,
                models(edits@) == tx.edits.take(index as int),
        {
            let ghost so_far = models(edits@);
            let ghost published = operations(publishing@);
            let ghost removed = operations(removing@);
            let Edit { update, lock, parent_index: _ } = entry;
            assert(tx.edits[index as int] == update@);
            assert(tx.locks[index as int] == lock);
            match &update.edit {
                Change::Update(change) => {
                    let log = match change.new {
                        Target::Peeled(_) => true,
                        Target::Symbolic(_) => false,
                    };
                    let operation = Operation::Publish { lock: lock.unwrap(), index, log };
                    publishing.push(operation);
                    assert(operations(publishing@) =~= published.push(operation@));
                },
                Change::Delete { .. } => {
                    let prune = store.parent_directories(&update.name);
                    let operation = Operation::Remove { index, prune };
                    removing.push(operation);
                    assert(operations(removing@) =~= removed.push(operation@));
                },
            }
            edits.push(update);
            proof {
                assert(models(edits@) =~= so_far.push(update@));
                assert(tx.edits.take(index + 1) =~= tx.edits.take(index as int).push(update@));
            }
            index += 1;
        }
        let ghost published = operations(publishing@);
        let ghost removed = operations(removing@);
        publishing.append(&mut removing);
        proof {
            assert(tx.edits.take(tx.edits.len() as int) =~= tx.edits);
            assert(operations(publishing@) =~= published + removed);
        }
        Plan::new(publishing, edits)
    }

    /// Takes committing one step further.
    ///
    /// A transaction that is not prepared is prepared first, step by step as
    /// [`Transaction::prepare`] does it: while that goes on the answer is
    /// [`Commit::Pending`]. Once the transaction is prepared the answer is
    /// [`Commit::Ready`], with the plan that [`planned`] states: the updates
    /// are published in the order of the edits, then the deletions are
    /// carried out in the order of the edits.
    pub fn commit(self, event: Event<L>) -> (next: Result<Commit<'a, L>, Failure<L>>)
        ensures
            match next {
                Ok(Commit::Pending(tx, action)) => step(self@, event@) == Ok::<
                    Model<L>,
                    FailureModel<L>,
                >(tx@) && tx@.wf() && tx@.state is Open && action@ == pending(tx@),
                Ok(Commit::Ready(plan)) => step(self@, event@) matches Ok(tx) && tx.wf()
                    && tx.state is Prepared && plan@ == planned(tx),
                Err(failure) => step(self@, event@) == Err::<Model<L>, FailureModel<L>>(failure@),
            },
    {
        match self.prepare(event) {
            Ok((tx, action)) => match tx.state {
                State::Open => Ok(Commit::Pending(tx, action)),
                State::Prepared => Ok(Commit::Ready(tx.plan())),
            },
            Err(failure) => Err(failure),
        }
    }
}

impl Store {
    /// Opens a transaction with the given `edits`; `lock` says what to do
    /// where a lock is held by someone else.
    pub fn transaction<L>(&self, edits: Vec<RefEdit>, lock: Fail) -> (tx: Transaction<'_, L>)
        ensures
            tx@ == opened::<L>(self.root(), models(edits@), lock),
            tx@.wf(),
    {
        let ghost given = edits@;
        let mut updates: Vec<Edit<L>> = Vec::new();
        for update in it: edits
            invariant
                given == it.seq(),
                edits_of(updates@) == models(given.take(it.index() as int)),
                forall|i: int| 0 <= i < updates@.len() ==> (#[trigger] updates@[i]).lock is None,
                updates@.len() == it.index(),
        {
            let ghost so_far = edits_of(updates@);
            updates.push(Edit { update, lock: None, parent_index: None });
            proof {
                assert(edits_of(updates@) =~= so_far.push(update@));
                assert(given.take(it.index() + 1) =~= given.take(it.index() as int).push(update));
                assert(models(given.take(it.index() + 1)) =~= models(
                    given.take(it.index() as int),
                ).push(update@));
            }
        }
        proof {
            assert(given.take(given.len() as int) =~= given);
            assert(locks_of(updates@) =~= Seq::new(updates@.len(), |i: int| None::<L>));
        }
        Transaction {
            store: self,
            updates,
            state: State::Open,
            lock_fail_mode: lock,
            position: 0,
            awaiting: Awaiting::Nothing,
            found: None,
        }
    }
}

} // verus!
