//! Carrying out a commit.
//!
//! A prepared transaction turns into a [`Plan`]: the operations that make
//! its edits visible, in the order in which they are due. The caller takes
//! them out one at a time, does each, and says how it went. The first
//! operation that fails ends the commit: what was done stays done, and the
//! locks of the operations that were not yet handed out are given back.
use crate::edit::{models, RefEdit, RefEditModel};
use crate::store::paths;
use crate::transaction::{Error, ErrorModel, Failure, FailureModel};
use vstd::prelude::*;

verus! {

/// One thing to do to the store when a transaction is committed.
#[derive(Debug, PartialEq, Eq)]
pub enum Operation<L> {
    /// Commit `lock`, which puts the staged content in the place of the file
    /// of the edit at `index`; then, where `log` holds, write the change to
    /// the log of the reference as the mode of the edit says.
    Publish { lock: L, index: usize, log: bool },
    /// Remove the file of the edit at `index` and the log of the reference,
    /// then each directory of `prune` in turn for as long as they are empty.
    Remove { index: usize, prune: Vec<Vec<u8>> },
}

/// An operation as a value of the model.
pub enum OperationModel<L> {
    Publish { lock: L, index: int, log: bool },
    Remove { index: int, prune: Seq<Seq<u8>> },
}

impl<L> OperationModel<L> {
    /// The place of the edit that the operation is for.
    pub open spec fn edit(self) -> int {
        match self {
            OperationModel::Publish { index, .. } => index,
            OperationModel::Remove { index, .. } => index,
        }
    }
}

impl<L> View for Operation<L> {
    type V = OperationModel<L>;

    open spec fn view(&self) -> OperationModel<L> {
        match self {
            Operation::Publish { lock, index, log } => OperationModel::Publish {
                lock: *lock,
                index: *index as int,
                log: *log,
            },
            Operation::Remove { index, prune } => OperationModel::Remove {
                index: *index as int,
                prune: paths(prune@),
            },
        }
    }
}

impl<L> Operation<L> {
    /// The place of the edit that the operation is for.
    pub fn edit(&self) -> (index: usize)
        ensures
            index == self@.edit(),
    {
        match self {
            Operation::Publish { index, .. } => *index,
            Operation::Remove { index, .. } => *index,
        }
    }
}

/// The views of the operations, in their order.
pub open spec fn operations<L>(list: Seq<Operation<L>>) -> Seq<OperationModel<L>> {
    list.map_values(|o: Operation<L>| o@)
}

/// What remains to be done of a commit.
pub struct Plan<L> {
    /// The operations that remain, the one that is due first at the end.
    due: Vec<Operation<L>>,
    edits: Vec<RefEdit>,
    /// The place of the edit whose operation was handed out last.
    at: Option<usize>,
}

/// A plan as a value of the model.
pub struct PlanModel<L> {
    /// The operations that remain, in the order in which they are due.
    pub operations: Seq<OperationModel<L>>,
    /// The edits of the transaction, as they stood when it was prepared.
    pub edits: Seq<RefEditModel>,
    /// The place of the edit whose operation the caller is carrying out.
    pub at: Option<int>,
}

impl<L> PlanModel<L> {
    /// What holds of every plan: its operations are for edits that it has.
    pub open spec fn wf(self) -> bool {
        &&& forall|k: int|
            0 <= k < self.operations.len() ==> 0 <= (#[trigger] self.operations[k]).edit()
                < self.edits.len()
        &&& self.at matches Some(i) ==> 0 <= i < self.edits.len()
    }
}

/// The operations in the order in which they are due, given as they are kept.
spec fn in_order<L>(due: Seq<Operation<L>>) -> Seq<OperationModel<L>> {
    Seq::new(due.len(), |k: int| due[due.len() - 1 - k]@)
}

impl<L> View for Plan<L> {
    type V = PlanModel<L>;

    closed spec fn view(&self) -> PlanModel<L> {
        PlanModel {
            operations: in_order(self.due@),
            edits: models(self.edits@),
            at: match self.at {
                Some(i) => Some(i as int),
                None => None,
            },
        }
    }
}

/// The locks of the publications among `operations`, in their order: the
/// locks that were not committed.
pub open spec fn unpublished<L>(operations: Seq<OperationModel<L>>) -> Seq<L>
    decreases operations.len(),
{
    if operations.len() == 0 {
        Seq::empty()
    } else {
        match operations.first() {
            OperationModel::Publish { lock, .. } => seq![lock] + unpublished(operations.skip(1)),
            OperationModel::Remove { .. } => unpublished(operations.skip(1)),
        }
    }
}

/// How a commit goes on.
pub enum Progress<L> {
    /// The caller is to carry out the operation and to say how it went.
    Next(Plan<L>, Operation<L>),
    /// Nothing remains to be done: these are the edits as they were applied.
    Done(Vec<RefEdit>),
}

/// The progress of a commit as a value of the model.
pub enum ProgressModel<L> {
    Next(PlanModel<L>, OperationModel<L>),
    Done(Seq<RefEditModel>),
}

impl<L> View for Progress<L> {
    type V = ProgressModel<L>;

    open spec fn view(&self) -> ProgressModel<L> {
        match self {
            Progress::Next(plan, operation) => ProgressModel::Next(plan@, operation@),
            Progress::Done(edits) => ProgressModel::Done(models(edits@)),
        }
    }
}

/// What becomes of the plan when the operation handed out last came out as
/// `outcome`.
///
/// Where that operation failed, the commit ends: the failure names the
/// reference of the operation, and hands back the locks of the publications
/// that remain. Nothing is undone. Otherwise the operation that is due first
/// is handed out, or the edits where none remains. An outcome that is
/// reported before any operation was handed out counts for nothing.
pub open spec fn proceeded<L>(plan: PlanModel<L>, outcome: Result<(), std::io::Error>) -> Result<
    ProgressModel<L>,
    FailureModel<L>,
> {
    match (outcome, plan.at) {
        (Err(err), Some(i)) => Err(
            FailureModel {
                error: ErrorModel::Io { name: plan.edits[i].name, err },
                release: unpublished(plan.operations),
            },
        ),
        _ => if plan.operations.len() == 0 {
            Ok(ProgressModel::Done(plan.edits))
        } else {
            Ok(
                ProgressModel::Next(
                    PlanModel {
                        operations: plan.operations.skip(1),
                        edits: plan.edits,
                        at: Some(plan.operations.first().edit()),
                    },
                    plan.operations.first(),
                ),
            )
        },
    }
}

impl<L> Plan<L> {
    #[verifier::type_invariant]
    spec fn well_formed(&self) -> bool {
        self@.wf()
    }

    /// The plan that has `operations` to do, in this order, for `edits`.
    pub(crate) fn new(operations: Vec<Operation<L>>, edits: Vec<RefEdit>) -> (plan: Plan<L>)
        requires
            forall|k: int|
                0 <= k < operations@.len() ==> 0 <= (#[trigger] operations@[k])@.edit()
                    < edits@.len(),
        ensures
            plan@ == (PlanModel {
                operations: self::operations(operations@),
                edits: models(edits@),
                at: None,
            }),
    {
        let ghost given = operations@;
        let mut operations = operations;
        let mut due: Vec<Operation<L>> = Vec::new();
        while operations.len() > 0
            invariant
                operations@.len() + due@.len() == given.len(),
                operations@ == given.take(operations@.len() as int),
                forall|k: int| 0 <= k < due@.len() ==> due@[k] == given[given.len() - 1 - k],
            decreases operations.len(),
        {
            let operation = operations.pop().unwrap();
            due.push(operation);
        }
        assert(in_order(due@) =~= self::operations(given));
        Plan { due, edits, at: None }
    }

    /// The edits of the transaction.
    pub fn edits(&self) -> (edits: &Vec<RefEdit>)
        ensures
            models(edits@) == self@.edits,
    {
        &self.edits
    }

    /// Ends the commit: takes the locks out of the publications that remain.
    fn release(due: Vec<Operation<L>>) -> (release: Vec<L>)
        ensures
            release@ == unpublished(in_order(due@)),
    {
        let ghost all = in_order(due@);
        let mut due = due;
        let mut release: Vec<L> = Vec::new();
        while due.len() > 0
            invariant
                release@ + unpublished(in_order(due@)) == unpublished(all),
            decreases due.len(),
        {
            let ghost before = in_order(due@);
            let ghost so_far = release@;
            let operation = due.pop().unwrap();
            assert(in_order(due@) =~= before.skip(1));
            assert(before.first() == operation@);
            match operation {
                Operation::Publish { lock, .. } => {
                    release.push(lock);
                    assert(release@ + unpublished(before.skip(1)) =~= so_far + (seq![lock]
                        + unpublished(before.skip(1))));
                },
                Operation::Remove { .. } => {},
            }
        }
        assert(release@ + unpublished(in_order(due@)) =~= release@);
        release
    }

    /// Takes the commit one step further.
    ///
    /// `outcome` says how the operation that was handed out last went; on
    /// the first call, when none was handed out, it counts for nothing. The
    /// answer is the operation to carry out next, or the edits where the
    /// commit is done; or the failure that ended it, with the locks that were
    /// not committed. [`proceeded`] states which it is.
    pub fn proceed(self, outcome: Result<(), std::io::Error>) -> (next: Result<
        Progress<L>,
        Failure<L>,
    >)
        ensures
            match next {
                Ok(progress) => proceeded(self@, outcome) == Ok::<
                    ProgressModel<L>,
                    FailureModel<L>,
                >(progress@) && (progress matches Progress::Next(plan, _) ==> plan@.wf()),
                Err(failure) => proceeded(self@, outcome) == Err::<
                    ProgressModel<L>,
                    FailureModel<L>,
                >(failure@),
            },
    {
        proof {
            use_type_invariant(&self);
        }
        let Plan { mut due, edits, at } = self;
        let ghost before = in_order(due@);
        match (outcome, at) {
            (Err(err), Some(i)) => {
                let name = edits[i].name.clone();
                Err(Failure { error: Error::Io { name, err }, release: Self::release(due) })
            },
            _ => {
                match due.pop() {
                    None => Ok(Progress::Done(edits)),
                    Some(operation) => {
                        assert(in_order(due@) =~= before.skip(1));
                        assert(before.first() == operation@);
                        let at = Some(operation.edit());
                        let plan = Plan { due, edits, at };
                        proof {
                            use_type_invariant(&plan);
                        }
                        Ok(Progress::Next(plan, operation))
                    },
                }
            },
        }
    }
}

} // verus!
