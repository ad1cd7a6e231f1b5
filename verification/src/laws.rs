//! What holds of every transaction, whatever the caller reports.
//!
//! The laws are stated over [`step`], which says what a call to
//! [`Transaction::prepare`](crate::transaction::Transaction::prepare) or
//! [`Transaction::commit`](crate::transaction::Transaction::commit) does,
//! over [`planned`], which says what a commit comes to, and over
//! [`proceeded`], which says how a commit goes on.
use crate::edit::{is_first_duplicate, names, occurs_again, ChangeModel, RefEditModel};
use crate::target::{decoded, TargetModel};
use crate::plan::{proceeded, unpublished, OperationModel, PlanModel, ProgressModel};
use crate::transaction::{
    first_duplicate, held, opened, pending, planned, publications, removals, step, target_found,
    AcquireError, ActionModel, ErrorModel, EventModel, FailureModel, Model,
};
use git_lock::acquire::Fail;
use vstd::prelude::*;

verus! {

/// Where a name occurs again, some place is the first whose name does.
pub proof fn some_duplicate_is_first(all: Seq<Seq<u8>>, i: int)
    requires
        0 <= i < all.len(),
        occurs_again(all, i),
    ensures
        is_first_duplicate(all, first_duplicate(all)),
        first_duplicate(all) <= i,
    decreases i,
{
    if forall|k: int| 0 <= k < i ==> !occurs_again(all, k) {
        assert(is_first_duplicate(all, i));
        crate::edit::first_duplicate_is_unique(all, i, first_duplicate(all));
    } else {
        let k = choose|k: int| 0 <= k < i && occurs_again(all, k);
        some_duplicate_is_first(all, k);
    }
}

/// Every lock that is held is among those that a failure hands back, and
/// nothing else is.
pub proof fn held_are_the_locks<L>(locks: Seq<Option<L>>)
    ensures
        forall|i: int|
            0 <= i < locks.len() && (#[trigger] locks[i]) is Some ==> held(locks).contains(
                locks[i]->0,
            ),
        forall|lock: L| #[trigger]
            held(locks).contains(lock) ==> exists|i: int|
                0 <= i < locks.len() && locks[i] == Some(lock),
        held(locks).len() <= locks.len(),
        (forall|i: int| 0 <= i < locks.len() ==> (#[trigger] locks[i]) is None) ==> held(locks)
            == Seq::<L>::empty(),
    decreases locks.len(),
{
    if locks.len() > 0 {
        let rest = locks.drop_last();
        held_are_the_locks(rest);
        assert forall|i: int| 0 <= i < locks.len() && (#[trigger] locks[i]) is Some implies held(
            locks,
        ).contains(locks[i]->0) by {
            if i < locks.len() - 1 {
                assert(rest[i] == locks[i]);
                let k = choose|k: int| 0 <= k < held(rest).len() && held(rest)[k] == locks[i]->0;
                if locks.last() is Some {
                    assert(held(locks)[k + 1] == locks[i]->0);
                } else {
                    assert(held(locks)[k] == locks[i]->0);
                }
            } else {
                assert(held(locks)[0] == locks[i]->0);
            }
        }
        assert forall|lock: L| #[trigger] held(locks).contains(lock) implies exists|i: int|
            0 <= i < locks.len() && locks[i] == Some(lock) by {
            let k = choose|k: int| 0 <= k < held(locks).len() && held(locks)[k] == lock;
            if locks.last() is Some && k == 0 {
                assert(locks[locks.len() - 1] == Some(lock));
            } else {
                let in_rest = if locks.last() is Some {
                    k - 1
                } else {
                    k
                };
                assert(held(rest)[in_rest] == lock);
                assert(held(rest).contains(lock));
                let i = choose|i: int| 0 <= i < rest.len() && rest[i] == Some(lock);
                assert(locks[i] == Some(lock));
            }
        }
        if forall|i: int| 0 <= i < locks.len() ==> (#[trigger] locks[i]) is None {
            assert forall|i: int| 0 <= i < rest.len() implies (#[trigger] rest[i]) is None by {
                assert(locks[i] is None);
            }
            assert(locks[locks.len() - 1] is None);
        }
    }
}

/// A transaction as it is opened is well formed, and so is every transaction
/// that a step leads to. A step never leads back: a prepared transaction
/// stays prepared, the edit at hand never moves to an earlier one, and the
/// edits keep their number, their names and their order.
pub proof fn steps_keep_transactions_well_formed<L>(tx: Model<L>, event: EventModel<L>)
    requires
        tx.wf(),
    ensures
        step(tx, event) matches Ok(next) ==> {
            &&& next.wf()
            &&& tx.state is Prepared ==> next.state is Prepared
            &&& tx.position <= next.position
            &&& names(next.edits) == names(tx.edits)
            &&& next.root == tx.root
            &&& next.policy == tx.policy
        },
{
    if let Ok(next) = step(tx, event) {
        assert(names(next.edits) =~= names(tx.edits));
    }
}

/// A transaction as it is opened is well formed.
pub proof fn opened_transaction_is_well_formed<L>(
    root: Seq<u8>,
    edits: Seq<RefEditModel>,
    policy: Fail,
)
    ensures
        opened::<L>(root, edits, policy).wf(),
{
}

/// Preparing is atomic: a step that fails ends the transaction and hands
/// back every lock that the transaction held, so that none outlives it.
pub proof fn failure_releases_every_lock<L>(tx: Model<L>, event: EventModel<L>)
    requires
        tx.wf(),
        step(tx, event) is Err,
    ensures
        step(tx, event)->Err_0.release == held(tx.locks),
        forall|i: int|
            0 <= i < tx.locks.len() && (#[trigger] tx.locks[i]) is Some ==> step(
                tx,
                event,
            )->Err_0.release.contains(tx.locks[i]->0),
{
    held_are_the_locks(tx.locks);
}

/// A lock that cannot be acquired fails the transaction, whatever was
/// prepared before: the failure names the reference and the cause, and hands
/// back every lock that the edits before it hold.
pub proof fn failed_acquisition_ends_the_transaction<L>(tx: Model<L>, cause: AcquireError)
    requires
        tx.wf(),
        tx.awaiting is Lock,
    ensures
        step(tx, EventModel::Acquired(Err(cause))) == Err::<Model<L>, FailureModel<L>>(
            FailureModel {
                error: ErrorModel::LockAcquire { name: tx.name(), cause },
                release: held(tx.locks),
            },
        ),
        forall|i: int|
            0 <= i < tx.position && tx.edits[i].edit is Update ==> held(tx.locks).contains(
                (#[trigger] tx.locks[i])->0,
            ),
{
    held_are_the_locks(tx.locks);
}

/// Two edits with the same name fail the transaction at its first step,
/// whatever the event: the failure names the first edit whose name a later
/// one has too, nothing was asked of the caller, and no lock is held.
pub proof fn duplicate_names_are_rejected<L>(tx: Model<L>, event: EventModel<L>, i: int, j: int)
    requires
        tx.wf(),
        0 <= i < j < tx.edits.len(),
        tx.edits[i].name == tx.edits[j].name,
    ensures
        tx.state is Open && tx.awaiting is Nothing,
        is_first_duplicate(names(tx.edits), first_duplicate(names(tx.edits))),
        step(tx, event) == Err::<Model<L>, FailureModel<L>>(
            FailureModel {
                error: ErrorModel::DuplicateRefEdits {
                    first_name: tx.edits[first_duplicate(names(tx.edits))].name,
                },
                release: Seq::empty(),
            },
        ),
{
    let all = names(tx.edits);
    assert(all[i] == all[j]);
    assert(occurs_again(all, i));
    some_duplicate_is_first(all, i);
    held_are_the_locks(tx.locks);
}

/// A step changes no edit but the one at hand, and that one only by
/// recording what was found; it gives a lock to no edit but the one at hand,
/// and takes none away. So what an edit has recorded, and the lock that it
/// holds, stay with it until the transaction is committed or fails.
pub proof fn steps_change_only_the_edit_at_hand<L>(tx: Model<L>, event: EventModel<L>)
    requires
        tx.wf(),
    ensures
        step(tx, event) matches Ok(next) ==> {
            &&& next.edits.len() == tx.edits.len()
            &&& next.locks.len() == tx.locks.len()
            &&& forall|i: int|
                0 <= i < tx.edits.len() && i != tx.position ==> #[trigger] next.edits[i]
                    == tx.edits[i] && next.locks[i] == tx.locks[i]
            &&& tx.position < tx.edits.len() ==> {
                ||| next.edits[tx.position] == tx.edits[tx.position]
                ||| tx.awaiting is Lock && next.edits[tx.position]
                    == tx.edits[tx.position].having_found(tx.found)
            }
            &&& tx.position < tx.edits.len() ==> {
                ||| next.locks[tx.position] == tx.locks[tx.position]
                ||| tx.awaiting is Staged && tx.locks[tx.position] is None
                    && next.locks[tx.position] is Some
            }
        },
{
}

/// An update that expects nothing learns what it replaces. Where the file
/// of its reference does not exist, the update records no previous target;
/// where the file holds a target, the update records that target. The edit
/// keeps what it recorded, as [`steps_change_only_the_edit_at_hand`] states,
/// and the commit hands the edits back as they stand, as
/// [`updates_are_published_before_deletions`] states.
pub proof fn update_records_what_it_found<L>(tx: Model<L>, content: Option<Seq<u8>>)
    requires
        tx.wf(),
        tx.awaiting is Contents,
        tx.edits[tx.position].edit matches ChangeModel::Update(update) && update.previous
            is None,
        content matches Some(bytes) ==> decoded(bytes) is Some,
    ensures
        step(tx, EventModel::Contents(Ok(content))) matches Ok(read) && step(
            read,
            EventModel::Acquired(Ok(())),
        ) matches Ok(locked) && {
            &&& locked.position == tx.position
            &&& locked.awaiting is Staged
            &&& locked.edits[tx.position].edit.previous() == target_found(content)
            &&& content is None ==> locked.edits[tx.position].edit.previous() is None
            &&& content matches Some(bytes) ==> locked.edits[tx.position].edit.previous()
                == decoded(bytes)
            &&& locked.edits[tx.position].name == tx.edits[tx.position].name
        },
{
}

/// An update that expects a target goes through only where the reference
/// holds it: otherwise the transaction fails once the lock is acquired, and
/// nothing was staged.
pub proof fn update_holds_the_reference_to_what_it_expects<L>(tx: Model<L>, expected: TargetModel)
    requires
        tx.wf(),
        tx.awaiting is Lock,
        tx.edits[tx.position].edit.previous() == Some(expected),
    ensures
        tx.found == Some(expected) ==> (step(tx, EventModel::Acquired(Ok(()))) matches Ok(next)
            && next.edits == tx.edits && next.awaiting is Staged),
        tx.found != Some(expected) ==> step(tx, EventModel::Acquired(Ok(()))) == Err::<
            Model<L>,
            FailureModel<L>,
        >(
            FailureModel {
                error: ErrorModel::PreconditionMismatch {
                    name: tx.name(),
                    expected,
                    actual: tx.found,
                },
                release: held(tx.locks),
            },
        ),
{
    if tx.found == Some(expected) {
        let edit = tx.edits[tx.position];
        assert(edit.having_found(tx.found) == edit);
        assert(tx.edits.update(tx.position, edit) =~= tx.edits);
    }
}

/// Preparing is idempotent: a prepared transaction stays as it is whatever
/// the event, and nothing is asked of the caller.
pub proof fn prepared_transaction_stays_as_it_is<L>(tx: Model<L>, event: EventModel<L>)
    requires
        tx.wf(),
        tx.state is Prepared,
    ensures
        step(tx, event) == Ok::<Model<L>, FailureModel<L>>(tx),
        pending(tx) == ActionModel::Done,
{
}

/// A prepared transaction holds a lock for every update and for nothing
/// else, and no two of its edits have the same name.
pub proof fn prepared_transaction_holds_its_locks<L>(tx: Model<L>)
    requires
        tx.wf(),
        tx.state is Prepared,
    ensures
        forall|i: int|
            0 <= i < tx.edits.len() ==> ((#[trigger] tx.locks[i]) is Some
                <==> tx.edits[i].edit is Update),
        names(tx.edits).no_duplicates(),
{
}

/// A lock is asked for only for an update that holds none.
pub proof fn lock_is_asked_for_once<L>(tx: Model<L>)
    requires
        tx.wf(),
        pending(tx) is Acquire,
    ensures
        tx.edits[tx.position].edit is Update,
        tx.locks[tx.position] is None,
{
}

/// Among the first `upto` edits, every publication stands for an update and
/// every removal for a deletion, each at its place and in the order of the
/// edits.
pub proof fn operations_follow_the_edits<L>(tx: Model<L>, upto: int)
    requires
        0 <= upto <= tx.edits.len(),
    ensures
        publications(tx, upto).len() + removals(tx, upto).len() == upto,
        forall|k: int|
            0 <= k < publications(tx, upto).len() ==> ((#[trigger] publications(tx, upto)[k])
                matches OperationModel::Publish { index, lock, .. } && 0 <= index < upto
                && tx.edits[index].edit is Update && lock == tx.locks[index]->0),
        forall|k: int|
            0 <= k < removals(tx, upto).len() ==> ((#[trigger] removals(tx, upto)[k])
                matches OperationModel::Remove { index, .. } && 0 <= index < upto
                && tx.edits[index].edit is Delete),
        forall|a: int, b: int|
            0 <= a < b < publications(tx, upto).len() ==> (#[trigger] publications(tx, upto)[a])->Publish_index
                < (#[trigger] publications(tx, upto)[b])->Publish_index,
        forall|a: int, b: int|
            0 <= a < b < removals(tx, upto).len() ==> (#[trigger] removals(tx, upto)[a])->Remove_index
                < (#[trigger] removals(tx, upto)[b])->Remove_index,
    decreases upto,
{
    if upto > 0 {
        operations_follow_the_edits(tx, upto - 1);
    }
}

/// Updates come before deletions: in the plan of a commit no removal stands
/// before a publication, whatever the order of the edits. Every edit has
/// exactly one operation, and the edits are handed back as they stand.
pub proof fn updates_are_published_before_deletions<L>(tx: Model<L>)
    ensures
        planned(tx).wf(),
        planned(tx).operations.len() == tx.edits.len(),
        planned(tx).edits == tx.edits,
        forall|a: int, b: int|
            0 <= a < b < planned(tx).operations.len() && (#[trigger] planned(tx).operations[a])
                is Remove ==> (#[trigger] planned(tx).operations[b]) is Remove,
{
    operations_follow_the_edits(tx, tx.edits.len() as int);
}

/// The locks of the publications that remain are the unpublished locks, and
/// nothing else is.
pub proof fn unpublished_are_the_locks_that_remain<L>(operations: Seq<OperationModel<L>>)
    ensures
        forall|k: int|
            0 <= k < operations.len() && (#[trigger] operations[k]) is Publish ==> unpublished(
                operations,
            ).contains(operations[k]->lock),
        forall|lock: L| #[trigger]
            unpublished(operations).contains(lock) ==> exists|k: int|
                0 <= k < operations.len() && operations[k] is Publish && operations[k]->lock
                    == lock,
    decreases operations.len(),
{
    if operations.len() > 0 {
        let rest = operations.skip(1);
        unpublished_are_the_locks_that_remain(rest);
        let shift: int = if operations.first() is Publish {
            1
        } else {
            0
        };
        assert forall|k: int|
            0 <= k < operations.len() && (#[trigger] operations[k]) is Publish implies unpublished(
            operations,
        ).contains(operations[k]->lock) by {
            if k == 0 {
                assert(unpublished(operations)[0] == operations[k]->lock);
            } else {
                assert(rest[k - 1] == operations[k]);
                let at = choose|at: int|
                    0 <= at < unpublished(rest).len() && unpublished(rest)[at]
                        == operations[k]->lock;
                assert(unpublished(operations)[at + shift] == operations[k]->lock);
            }
        }
        assert forall|lock: L| #[trigger] unpublished(operations).contains(lock) implies exists|
            k: int,
        |
            0 <= k < operations.len() && operations[k] is Publish && operations[k]->lock
                == lock by {
            let at = choose|at: int|
                0 <= at < unpublished(operations).len() && unpublished(operations)[at] == lock;
            if shift == 1 && at == 0 {
                assert(operations[0] is Publish && operations[0]->lock == lock);
            } else {
                assert(unpublished(rest)[at - shift] == lock);
                assert(unpublished(rest).contains(lock));
                let k = choose|k: int|
                    0 <= k < rest.len() && rest[k] is Publish && rest[k]->lock == lock;
                assert(operations[k + 1] == rest[k]);
            }
        }
    }
}

/// A commit reports the first operation that fails and stops: the failure
/// names the reference of that operation and the cause, and hands back the
/// lock of every publication that was not handed out. Nothing is undone.
pub proof fn failed_operation_ends_the_commit<L>(plan: PlanModel<L>, err: std::io::Error)
    requires
        plan.wf(),
        plan.at is Some,
    ensures
        proceeded(plan, Err(err)) == Err::<ProgressModel<L>, FailureModel<L>>(
            FailureModel {
                error: ErrorModel::Io { name: plan.edits[plan.at->0].name, err },
                release: unpublished(plan.operations),
            },
        ),
        forall|k: int|
            0 <= k < plan.operations.len() && (#[trigger] plan.operations[k]) is Publish
                ==> unpublished(plan.operations).contains(plan.operations[k]->lock),
{
    unpublished_are_the_locks_that_remain(plan.operations);
}

/// The plan after `n` operations went well.
pub open spec fn carried_out<L>(plan: PlanModel<L>, n: nat) -> PlanModel<L>
    decreases n,
{
    if n == 0 {
        plan
    } else {
        match proceeded(carried_out(plan, (n - 1) as nat), Ok(())) {
            Ok(ProgressModel::Next(rest, _)) => rest,
            _ => carried_out(plan, (n - 1) as nat),
        }
    }
}

/// A commit hands out the operations of its plan one at a time and in their
/// order, and then the edits. With the order of the plan, this is what
/// publishes every update before any deletion is carried out.
pub proof fn commit_goes_on_in_order<L>(plan: PlanModel<L>, n: nat)
    requires
        plan.wf(),
        n <= plan.operations.len(),
    ensures
        carried_out(plan, n).wf(),
        carried_out(plan, n).operations == plan.operations.skip(n as int),
        carried_out(plan, n).edits == plan.edits,
        n < plan.operations.len() ==> (proceeded(carried_out(plan, n), Ok(())) matches Ok(
            ProgressModel::Next(_, operation),
        ) && operation == plan.operations[n as int]),
        n == plan.operations.len() ==> proceeded(carried_out(plan, n), Ok(())) == Ok::<
            ProgressModel<L>,
            FailureModel<L>,
        >(ProgressModel::Done(plan.edits)),
    decreases n,
{
    if n == 0 {
        assert(plan.operations.skip(0) =~= plan.operations);
    } else {
        commit_goes_on_in_order(plan, (n - 1) as nat);
        let before = carried_out(plan, (n - 1) as nat);
        assert(before.operations.first() == plan.operations[n - 1]);
        assert(before.operations.skip(1) =~= plan.operations.skip(n as int));
    }
}

} // verus!
