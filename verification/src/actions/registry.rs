//! The registry of actions: an arena in which every action refers only to
//! actions that were registered before it.

use crate::actions::conditionals::{Choice, IfAction};
use crate::actions::ActionId;
use crate::errors::Failure;
use vstd::prelude::*;

verus! {

/// A unit of work of a run.
#[derive(Debug, PartialEq, Eq)]
pub enum Action {
    /// Runs one of two lists of actions, as its conditions decide.
    If(IfAction),
    /// Runs the listed actions in their order.
    Actions(Vec<ActionId>),
    /// Work that the driver of the run performs, known here by its name
    /// only.
    External(String),
}

/// The identifiers that an action refers to, in the order in which it holds
/// them.
pub open spec fn references(action: Action) -> Seq<ActionId> {
    match action {
        Action::If(branching) => branching.chosen(Choice::Then) + branching.chosen(Choice::Else),
        Action::Actions(ids) => ids@,
        Action::External(_) => Seq::empty(),
    }
}

/// Every action refers only to actions that stand before it. No action can
/// then reach itself.
pub open spec fn acyclic(actions: Seq<Action>) -> bool {
    forall|i: int, k: int|
        0 <= i < actions.len() && 0 <= k < references(actions[i]).len() ==> (#[trigger] references(
            actions[i],
        )[k]).0 < i
}

/// Where the first identifier stands that is not below `bound`.
pub open spec fn first_unknown(ids: Seq<ActionId>, bound: int) -> Option<int>
    decreases ids.len(),
{
    if ids.len() == 0 {
        None
    } else {
        match first_unknown(ids.drop_last(), bound) {
            Some(at) => Some(at),
            None => if ids.last().0 >= bound {
                Some(ids.len() - 1)
            } else {
                None
            },
        }
    }
}

/// `first_unknown` finds an identifier that is not below the bound, with
/// none before it, and finds none only where there is none.
pub proof fn lemma_first_unknown(ids: Seq<ActionId>, bound: int)
    ensures
        match first_unknown(ids, bound) {
            Some(at) => {
                &&& 0 <= at < ids.len()
                &&& ids[at].0 >= bound
                &&& forall|k: int| 0 <= k < at ==> (#[trigger] ids[k]).0 < bound
            },
            None => forall|k: int| 0 <= k < ids.len() ==> (#[trigger] ids[k]).0 < bound,
        },
    decreases ids.len(),
{
    if ids.len() > 0 {
        lemma_first_unknown(ids.drop_last(), bound);
        assert forall|k: int| 0 <= k < ids.len() - 1 implies ids[k] == ids.drop_last()[k] by {}
    }
}

/// Finds the first identifier in `ids` that is not below `bound`.
fn find_unknown(ids: &Vec<ActionId>, bound: usize) -> (found: Option<ActionId>)
    ensures
        match found {
            Some(id) => first_unknown(ids@, bound as int) matches Some(at) && ids@[at] == id,
            None => first_unknown(ids@, bound as int) is None,
        },
{
    let mut i: usize = 0;
    while i < ids.len()
        invariant
            i <= ids.len(),
            first_unknown(ids@.subrange(0, i as int), bound as int) is None,
        decreases ids.len() - i,
    {
        proof {
            assert(ids@.subrange(0, i + 1).drop_last() =~= ids@.subrange(0, i as int));
        }
        if ids[i].0 >= bound {
            proof {
                lemma_first_unknown_extends(ids@, i + 1, bound as int);
            }
            return Some(ids[i]);
        }
        i = i + 1;
    }
    proof {
        assert(ids@.subrange(0, i as int) =~= ids@);
    }
    None
}

/// What `first_unknown` finds in a prefix, it finds in the whole.
pub proof fn lemma_first_unknown_extends(ids: Seq<ActionId>, upto: int, bound: int)
    requires
        0 <= upto <= ids.len(),
        first_unknown(ids.subrange(0, upto), bound) is Some,
    ensures
        first_unknown(ids, bound) == first_unknown(ids.subrange(0, upto), bound),
    decreases ids.len() - upto,
{
    if upto == ids.len() {
        assert(ids.subrange(0, upto) =~= ids);
    } else {
        assert(ids.subrange(0, upto + 1).drop_last() =~= ids.subrange(0, upto));
        lemma_first_unknown_extends(ids, upto + 1, bound);
    }
}

/// The registry of the actions of a run. An identifier is the place of an
/// action in it. An action is registered after the actions that it refers
/// to, so that no chain of references comes back to where it began: a
/// registry that grew from `new` by `add` is `acyclic`.
pub struct Registry {
    actions: Vec<Action>,
}

impl Registry {
    /// The registered actions, each at the place that its identifier names.
    pub closed spec fn view(&self) -> Seq<Action> {
        self.actions@
    }

    /// A registry without actions.
    pub fn new() -> (registry: Self)
        ensures
            registry@.len() == 0,
            acyclic(registry@),
    {
        Registry { actions: Vec::new() }
    }

    /// The number of registered actions.
    pub fn len(&self) -> (n: usize)
        ensures
            n == self@.len(),
    {
        self.actions.len()
    }

    /// Registers `action` and returns its identifier. An action that refers
    /// to an identifier that is not registered yet is refused, with the first
    /// such identifier, and the registry stays as it is.
    pub fn add(&mut self, action: Action) -> (added: Result<ActionId, Failure>)
        requires
            acyclic(old(self)@),
        ensures
            acyclic(final(self)@),
            match first_unknown(references(action), old(self)@.len() as int) {
                None => final(self)@ == old(self)@.push(action) && added == Ok::<
                    ActionId,
                    Failure,
                >(ActionId(old(self)@.len() as usize)),
                Some(at) => final(self)@ == old(self)@ && added == Err::<ActionId, Failure>(
                    Failure::Resolution(references(action)[at]),
                ),
            },
    {
        let bound = self.actions.len();
        let unknown = match &action {
            Action::If(branching) => {
                proof {
                    let first = branching.chosen(Choice::Then);
                    let second = branching.chosen(Choice::Else);
                    lemma_first_unknown_concat(first, second, bound as int);
                    lemma_first_unknown(first, bound as int);
                    lemma_first_unknown(second, bound as int);
                }
                match find_unknown(branching.then_actions(), bound) {
                    Some(id) => Some(id),
                    None => match branching.else_actions() {
                        Some(ids) => find_unknown(ids, bound),
                        None => None,
                    },
                }
            },
            Action::Actions(ids) => find_unknown(ids, bound),
            Action::External(_) => None,
        };
        match unknown {
            Some(id) => Err(Failure::Resolution(id)),
            None => {
                proof {
                    lemma_first_unknown(references(action), bound as int);
                }
                self.actions.push(action);
                proof {
                    let before = old(self).actions@;
                    let after = self.actions@;
                    assert forall|i: int, k: int|
                        0 <= i < after.len() && 0 <= k < references(after[i]).len() implies (
                    #[trigger] references(after[i])[k]).0 < i by {
                        if i < before.len() {
                            assert(after[i] == before[i]);
                        }
                    }
                }
                Ok(ActionId(bound))
            },
        }
    }

    /// The action that `id` names. An identifier that names none is a
    /// failure of resolution.
    pub fn resolve(&self, id: ActionId) -> (found: Result<&Action, Failure>)
        ensures
            match found {
                Ok(action) => id.0 < self@.len() && *action == self@[id.0 as int],
                Err(failure) => id.0 >= self@.len() && failure == Failure::Resolution(id),
            },
    {
        if id.0 < self.actions.len() {
            Ok(&self.actions[id.0])
        } else {
            Err(Failure::Resolution(id))
        }
    }
}

/// In two sequences joined, the first unknown identifier is that of the
/// first sequence, or else that of the second.
pub proof fn lemma_first_unknown_concat(first: Seq<ActionId>, second: Seq<ActionId>, bound: int)
    ensures
        first_unknown(first + second, bound) == match first_unknown(first, bound) {
            Some(at) => Some(at),
            None => match first_unknown(second, bound) {
                Some(at) => Some(first.len() + at),
                None => None,
            },
        },
    decreases second.len(),
{
    if second.len() == 0 {
        assert(first + second =~= first);
    } else {
        lemma_first_unknown_concat(first, second.drop_last(), bound);
        assert((first + second).drop_last() =~= first + second.drop_last());
        assert((first + second).last() == second.last());
    }
}

} // verus!
