//! What a caller asks of a transaction: one change to one reference.
use crate::target::{optional, Target, TargetModel};
use vstd::prelude::*;

verus! {

/// How the log of a reference is to be kept when the reference is updated.
#[derive(Clone, Copy, Debug, PartialEq, Eq, Hash)]
pub enum Reflog {
    /// Write to the log where the store keeps one for this reference.
    AutoAndNoDeref,
    /// Write to the log and create it where there is none.
    CreateUnconditionally,
}

/// Sets a reference to a new target.
#[derive(Debug, PartialEq, Eq)]
pub struct Update {
    /// How to keep the log.
    pub mode: Reflog,
    /// The target that the reference must hold before the update. Where it is
    /// `None` nothing is expected, and the target found is recorded here.
    pub previous: Option<Target>,
    /// The target that the reference holds after the update.
    pub new: Target,
}

/// The change asked for.
#[derive(Debug, PartialEq, Eq)]
pub enum Change {
    /// Set the reference, creating it where it does not exist.
    Update(Update),
    /// Remove the reference and its log.
    Delete {
        /// The target that the reference must hold before it is removed, if
        /// anything is expected of it.
        previous: Option<Target>,
    },
}

/// One change to the reference of one name.
#[derive(Debug, PartialEq, Eq)]
pub struct RefEdit {
    /// The change.
    pub edit: Change,
    /// The name of the reference, its segments separated by `/`.
    pub name: Vec<u8>,
    /// Whether the change is meant for the reference that a symbolic
    /// reference of this name points at.
    pub deref: bool,
}

/// An update as a value of the model.
pub struct UpdateModel {
    pub mode: Reflog,
    pub previous: Option<TargetModel>,
    pub new: TargetModel,
}

/// A change as a value of the model.
pub enum ChangeModel {
    Update(UpdateModel),
    Delete { previous: Option<TargetModel> },
}

/// An edit as a value of the model.
pub struct RefEditModel {
    pub edit: ChangeModel,
    pub name: Seq<u8>,
    pub deref: bool,
}

impl View for Update {
    type V = UpdateModel;

    open spec fn view(&self) -> UpdateModel {
        UpdateModel { mode: self.mode, previous: optional(self.previous), new: self.new@ }
    }
}

impl View for Change {
    type V = ChangeModel;

    open spec fn view(&self) -> ChangeModel {
        match self {
            Change::Update(update) => ChangeModel::Update(update@),
            Change::Delete { previous } => ChangeModel::Delete { previous: optional(*previous) },
        }
    }
}

impl View for RefEdit {
    type V = RefEditModel;

    open spec fn view(&self) -> RefEditModel {
        RefEditModel { edit: self.edit@, name: self.name@, deref: self.deref }
    }
}

impl ChangeModel {
    /// The target that the change expects to find, if it expects one.
    pub open spec fn previous(self) -> Option<TargetModel> {
        match self {
            ChangeModel::Update(update) => update.previous,
            ChangeModel::Delete { previous } => previous,
        }
    }

    /// Whether finding `current` in the store is what the change expects:
    /// it expects nothing, or it expects exactly `current`.
    pub open spec fn expects(self, current: Option<TargetModel>) -> bool {
        self.previous() is None || self.previous() == current
    }

    /// The change once `current` was found in the store: an update that
    /// expected nothing has recorded it; anything else is as it was.
    pub open spec fn having_found(self, current: Option<TargetModel>) -> ChangeModel {
        match self {
            ChangeModel::Update(update) => if update.previous is None {
                ChangeModel::Update(UpdateModel { previous: current, ..update })
            } else {
                self
            },
            ChangeModel::Delete { .. } => self,
        }
    }
}

impl RefEditModel {
    /// The edit once `current` was found in the store.
    pub open spec fn having_found(self, current: Option<TargetModel>) -> RefEditModel {
        RefEditModel { edit: self.edit.having_found(current), ..self }
    }
}

/// The views of the edits, in their order.
pub open spec fn models(edits: Seq<RefEdit>) -> Seq<RefEditModel> {
    edits.map_values(|e: RefEdit| e@)
}

/// The names of the edits, in their order.
pub open spec fn names(edits: Seq<RefEditModel>) -> Seq<Seq<u8>> {
    edits.map_values(|e: RefEditModel| e.name)
}

/// Whether the name at `i` is also the name at a later place.
pub open spec fn occurs_again(names: Seq<Seq<u8>>, i: int) -> bool {
    exists|j: int| i < j < names.len() && names[j] == names[i]
}

/// Whether `i` is the first place whose name occurs again later.
pub open spec fn is_first_duplicate(names: Seq<Seq<u8>>, i: int) -> bool {
    &&& 0 <= i < names.len()
    &&& occurs_again(names, i)
    &&& forall|k: int| 0 <= k < i ==> !occurs_again(names, k)
}

/// Names are pairwise distinct exactly where none occurs again, and there is
/// at most one first duplicate.
pub proof fn first_duplicate_is_unique(names: Seq<Seq<u8>>, i: int, j: int)
    requires
        is_first_duplicate(names, i),
        is_first_duplicate(names, j),
    ensures
        i == j,
        !names.no_duplicates(),
{
    let k = choose|k: int| i < k < names.len() && names[k] == names[i];
    assert(names[k] == names[i]);
}

impl Clone for Update {
    fn clone(&self) -> (copy: Self)
        ensures
            copy@ == self@,
    {
        let previous = match &self.previous {
            Some(target) => Some(target.clone()),
            None => None,
        };
        Update { mode: self.mode, previous, new: self.new.clone() }
    }
}

impl Clone for Change {
    fn clone(&self) -> (copy: Self)
        ensures
            copy@ == self@,
    {
        match self {
            Change::Update(update) => Change::Update(update.clone()),
            Change::Delete { previous } => Change::Delete {
                previous: match previous {
                    Some(target) => Some(target.clone()),
                    None => None,
                },
            },
        }
    }
}

impl Clone for RefEdit {
    fn clone(&self) -> (copy: Self)
        ensures
            copy@ == self@,
    {
        RefEdit { edit: self.edit.clone(), name: self.name.clone(), deref: self.deref }
    }
}

impl Change {
    /// Holds the change against `current`, the target found in the store:
    /// `None` where that is what the change expects, else the target that it
    /// expects.
    pub fn unmet(&self, current: &Option<Target>) -> (expected: Option<Target>)
        ensures
            expected is None <==> self@.expects(optional(*current)),
            expected matches Some(target) ==> self@.previous() == Some(target@),
    {
        let previous = match self {
            Change::Update(update) => &update.previous,
            Change::Delete { previous } => previous,
        };
        match previous {
            None => None,
            Some(target) => if crate::target::same_target(previous, current) {
                None
            } else {
                Some(target.clone())
            },
        }
    }

    /// Records `current` as the target found, in an update that expected none.
    pub fn found(&mut self, current: Option<Target>)
        ensures
            final(self)@ == old(self)@.having_found(optional(current)),
    {
        match self {
            Change::Update(update) => {
                if update.previous.is_none() {
                    update.previous = current;
                }
            },
            Change::Delete { .. } => {},
        }
    }
}

} // verus!
