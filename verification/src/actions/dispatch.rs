//! The dispatch of actions: which outside work comes next.
//!
//! The dispatcher holds the identifiers that are still to be executed, in
//! their order. It resolves them, decides the branching actions and lists
//! their chosen actions in place, until it reaches work that only the driver
//! of the run can do: an external action to perform, or a query to answer.

use crate::actions::conditionals::Choice;
use crate::actions::registry::{acyclic, references, Action, Registry};
use crate::actions::ActionId;
use crate::context::{Context, Json};
use crate::errors::Failure;
use crate::findings::{Findings, Known, PathState, Query};
use crate::rules::RulesContext;
use vstd::prelude::*;

verus! {

/// A bound on the steps that the execution of the action at `index` takes:
/// one for the action itself, and the costs of all that it refers to.
pub open spec fn cost(actions: Seq<Action>, index: int) -> nat
    decreases index, 1nat, 0nat,
{
    if 0 <= index < actions.len() {
        1 + costs(actions, references(actions[index]), index)
    } else {
        1
    }
}

/// The costs of the actions that `ids` name, added up. An identifier that is
/// not below `below` counts as one step.
pub open spec fn costs(actions: Seq<Action>, ids: Seq<ActionId>, below: int) -> nat
    decreases below, 0nat, ids.len(),
{
    if ids.len() == 0 {
        0
    } else if ids[0].0 < below {
        cost(actions, ids[0].0 as int) + costs(actions, ids.drop_first(), below)
    } else {
        1 + costs(actions, ids.drop_first(), below)
    }
}

/// A bound on the steps that are left when `pending` is still to be
/// executed.
pub open spec fn load(actions: Seq<Action>, pending: Seq<ActionId>) -> nat {
    costs(actions, pending, actions.len() as int)
}

/// The costs of two lists joined are the costs of each, added.
pub proof fn lemma_costs_concat(
    actions: Seq<Action>,
    first: Seq<ActionId>,
    second: Seq<ActionId>,
    below: int,
)
    ensures
        costs(actions, first + second, below) == costs(actions, first, below) + costs(
            actions,
            second,
            below,
        ),
    decreases first.len(),
{
    if first.len() == 0 {
        assert(first + second =~= second);
    } else {
        lemma_costs_concat(actions, first.drop_first(), second, below);
        assert((first + second).drop_first() =~= first.drop_first() + second);
    }
}

/// Where every identifier is below both bounds, the bound does not matter.
pub proof fn lemma_costs_bound(actions: Seq<Action>, ids: Seq<ActionId>, one: int, other: int)
    requires
        forall|k: int| 0 <= k < ids.len() ==> (#[trigger] ids[k]).0 < one && ids[k].0 < other,
    ensures
        costs(actions, ids, one) == costs(actions, ids, other),
    decreases ids.len(),
{
    if ids.len() > 0 {
        assert(ids[0].0 < one && ids[0].0 < other);
        assert forall|k: int| 0 <= k < ids.drop_first().len() implies (#[trigger] ids.drop_first()[k]).0
            < one && ids.drop_first()[k].0 < other by {
            assert(ids.drop_first()[k] == ids[k + 1]);
        }
        lemma_costs_bound(actions, ids.drop_first(), one, other);
    }
}

/// To replace the first pending action by all that it refers to takes one
/// step off the load.
pub proof fn lemma_load_unfolds(actions: Seq<Action>, pending: Seq<ActionId>)
    requires
        acyclic(actions),
        pending.len() > 0,
        pending[0].0 < actions.len(),
    ensures
        load(actions, pending) == 1 + load(
            actions,
            references(actions[pending[0].0 as int]) + pending.drop_first(),
        ),
{
    let index = pending[0].0 as int;
    let inner = references(actions[index]);
    assert forall|k: int| 0 <= k < inner.len() implies (#[trigger] inner[k]).0 < index && inner[k].0
        < actions.len() by {
        assert(references(actions[index])[k].0 < index);
    }
    lemma_costs_bound(actions, inner, index, actions.len() as int);
    lemma_costs_concat(actions, inner, pending.drop_first(), actions.len() as int);
    assert(cost(actions, index) == 1 + costs(actions, inner, index));
    assert(load(actions, pending) == cost(actions, index) + load(actions, pending.drop_first()));
}

/// To replace the first pending action, a branching one, by the actions of
/// one of its branches takes at least one step off the load.
pub proof fn lemma_load_branches(actions: Seq<Action>, pending: Seq<ActionId>, choice: Choice)
    requires
        acyclic(actions),
        pending.len() > 0,
        pending[0].0 < actions.len(),
        actions[pending[0].0 as int] is If,
    ensures
        load(actions, actions[pending[0].0 as int]->If_0.chosen(choice) + pending.drop_first())
            < load(actions, pending),
{
    let branching = actions[pending[0].0 as int]->If_0;
    let first = branching.chosen(Choice::Then);
    let second = branching.chosen(Choice::Else);
    let rest = pending.drop_first();
    let below = actions.len() as int;
    lemma_load_unfolds(actions, pending);
    lemma_costs_concat(actions, first + second, rest, below);
    lemma_costs_concat(actions, first, second, below);
    lemma_costs_concat(actions, branching.chosen(choice), rest, below);
    assert(costs(actions, Seq::<ActionId>::empty(), below) == 0);
}

/// What the dispatcher hands to the driver.
#[derive(Debug, PartialEq, Eq)]
pub enum Step {
    /// Nothing is left to execute: the run has succeeded.
    Finished,
    /// The run has failed. What was pending is given up; what was performed
    /// before stands.
    Failed(Failure),
    /// A condition cannot be decided before the driver has answered this
    /// query. Nothing else has changed.
    Ask(Query),
    /// The driver is to perform the external action of this identifier.
    Perform(ActionId),
}

/// The next step and what is pending after it, when `pending` is still to be
/// executed: the first pending identifier is resolved; a list of actions, or
/// the branch that a branching action chooses, takes its place in front of
/// the others; and so on until there is something to hand to the driver.
pub open spec fn course(
    actions: Seq<Action>,
    pending: Seq<ActionId>,
    variables: Map<Seq<char>, Json>,
    switches: Set<Seq<char>>,
    known: Known,
) -> (Step, Seq<ActionId>)
    decreases load(actions, pending),
    when acyclic(actions)
{
    if pending.len() == 0 {
        (Step::Finished, pending)
    } else if pending[0].0 >= actions.len() {
        (Step::Failed(Failure::Resolution(pending[0])), Seq::empty())
    } else {
        match actions[pending[0].0 as int] {
            Action::External(_) => (Step::Perform(pending[0]), pending.drop_first()),
            Action::Actions(ids) => {
                proof {
                    lemma_load_unfolds(actions, pending);
                }
                course(actions, ids@ + pending.drop_first(), variables, switches, known)
            },
            Action::If(branching) => match branching.choice(variables, switches, known) {
                Choice::Failed(failure) => (Step::Failed(failure), Seq::empty()),
                Choice::Needs(query) => (Step::Ask(query), pending),
                choice => {
                    proof {
                        lemma_load_branches(actions, pending, choice);
                    }
                    course(
                        actions,
                        branching.chosen(choice) + pending.drop_first(),
                        variables,
                        switches,
                        known,
                    )
                },
            },
        }
    }
}

/// The state of one run: what is still to be executed, and what the run has
/// learnt since the variables and the filesystem last changed.
pub struct Dispatcher {
    /// The pending identifiers, the next one last.
    agenda: Vec<ActionId>,
    findings: Findings,
}

impl Dispatcher {
    /// The identifiers that are still to be executed, the next one first.
    pub closed spec fn pending(&self) -> Seq<ActionId> {
        Seq::new(self.agenda@.len(), |i: int| self.agenda@[self.agenda@.len() - 1 - i])
    }

    /// What the run knows of renderings and paths.
    pub closed spec fn known(&self) -> Known {
        self.findings@
    }

    /// A run that is to execute `root`, with its paths below `destination`.
    pub fn new(root: ActionId, destination: String) -> (dispatcher: Self)
        ensures
            dispatcher.pending() == seq![root],
            dispatcher.known().destination == destination,
            dispatcher.known().renders == Map::<Seq<char>, Result<String, Failure>>::empty(),
            dispatcher.known().probes == Map::<Seq<char>, Result<PathState, Failure>>::empty(),
    {
        let mut agenda: Vec<ActionId> = Vec::new();
        agenda.push(root);
        let dispatcher = Dispatcher { agenda, findings: Findings::new(destination) };
        assert(dispatcher.pending() =~= seq![root]);
        dispatcher
    }

    /// What the run knows of renderings and paths.
    pub fn findings(&self) -> (findings: &Findings)
        ensures
            findings@ == self.known(),
    {
        &self.findings
    }

    /// Whether nothing is left to execute.
    pub fn is_finished(&self) -> (finished: bool)
        ensures
            finished == (self.pending().len() == 0),
    {
        self.agenda.len() == 0
    }

    /// Records the answer to a query for a rendering.
    pub fn record_render(&mut self, template: String, outcome: Result<String, Failure>)
        ensures
            final(self).pending() == old(self).pending(),
            final(self).known().destination == old(self).known().destination,
            final(self).known().renders == old(self).known().renders.insert(template@, outcome),
            final(self).known().probes == old(self).known().probes,
    {
        self.findings.record_render(template, outcome);
    }

    /// Records the answer to a query for a path.
    pub fn record_probe(&mut self, path: String, outcome: Result<PathState, Failure>)
        ensures
            final(self).pending() == old(self).pending(),
            final(self).known().destination == old(self).known().destination,
            final(self).known().renders == old(self).known().renders,
            final(self).known().probes == old(self).known().probes.insert(path@, outcome),
    {
        self.findings.record_probe(path, outcome);
    }

    /// Gives up what is pending, as after an external action that failed.
    pub fn abort(&mut self)
        ensures
            final(self).pending().len() == 0,
            final(self).known() == old(self).known(),
    {
        self.agenda.clear();
    }

    /// Puts `ids` in front of what is pending, in their order.
    fn schedule(&mut self, ids: &Vec<ActionId>)
        ensures
            final(self).pending() == ids@ + old(self).pending(),
            final(self).known() == old(self).known(),
    {
        let mut i: usize = ids.len();
        while i > 0
            invariant
                i <= ids.len(),
                self.findings == old(self).findings,
                self.agenda@ == old(self).agenda@ + Seq::new(
                    (ids.len() - i) as nat,
                    |k: int| ids@[ids.len() - 1 - k],
                ),
            decreases i,
        {
            i = i - 1;
            self.agenda.push(ids[i]);
            assert(self.agenda@ =~= old(self).agenda@ + Seq::new(
                (ids.len() - i) as nat,
                |k: int| ids@[ids.len() - 1 - k],
            ));
        }
        assert(self.pending() =~= ids@ + old(self).pending());
    }

    /// Takes the first pending identifier off.
    fn take(&mut self) -> (id: ActionId)
        requires
            old(self).pending().len() > 0,
        ensures
            id == old(self).pending()[0],
            final(self).pending() == old(self).pending().drop_first(),
            final(self).known() == old(self).known(),
    {
        let id = self.agenda.pop().unwrap();
        assert(self.pending() =~= old(self).pending().drop_first());
        id
    }

    /// Executes what is pending up to the next thing that only the driver
    /// can do, and says what that is. Identifiers are resolved and branching
    /// actions decided in the order in which they are reached; the actions
    /// that a branch chooses are executed before what was pending behind the
    /// branching action. After `Perform` the findings are forgotten, since
    /// the action may change the variables and the filesystem.
    pub fn advance(&mut self, registry: &Registry, context: &Context, rules: &RulesContext) -> (step:
        Step)
        requires
            acyclic(registry@),
        ensures
            (step, final(self).pending()) == course(
                registry@,
                old(self).pending(),
                context@,
                rules@,
                old(self).known(),
            ),
            final(self).known().destination == old(self).known().destination,
            !(step is Perform) ==> final(self).known() == old(self).known(),
            step is Perform ==> final(self).known().renders == Map::<
                Seq<char>,
                Result<String, Failure>,
            >::empty(),
            step is Perform ==> final(self).known().probes == Map::<
                Seq<char>,
                Result<PathState, Failure>,
            >::empty(),
    {
        loop
            invariant
                acyclic(registry@),
                self.known() == old(self).known(),
                course(registry@, self.pending(), context@, rules@, self.known()) == course(
                    registry@,
                    old(self).pending(),
                    context@,
                    rules@,
                    old(self).known(),
                ),
            decreases load(registry@, self.pending()),
        {
            let ghost before = self.pending();
            let count = self.agenda.len();
            if count == 0 {
                return Step::Finished;
            }
            let id = self.agenda[count - 1];
            assert(id == before[0]);
            match registry.resolve(id) {
                Err(failure) => {
                    self.agenda.clear();
                    assert(self.pending() =~= Seq::<ActionId>::empty());
                    return Step::Failed(failure);
                },
                Ok(Action::External(_)) => {
                    let _ = self.take();
                    self.findings.clear();
                    return Step::Perform(id);
                },
                Ok(Action::Actions(ids)) => {
                    proof {
                        lemma_load_unfolds(registry@, before);
                    }
                    let _ = self.take();
                    self.schedule(ids);
                },
                Ok(Action::If(branching)) => {
                    match branching.execute(context, rules, &self.findings) {
                        Choice::Then => {
                            proof {
                                lemma_load_branches(registry@, before, Choice::Then);
                            }
                            let _ = self.take();
                            self.schedule(branching.then_actions());
                        },
                        Choice::Else => {
                            proof {
                                lemma_load_branches(registry@, before, Choice::Else);
                            }
                            let _ = self.take();
                            match branching.else_actions() {
                                Some(ids) => {
                                    self.schedule(ids);
                                },
                                None => {
                                    assert(self.pending() =~= Seq::<ActionId>::empty()
                                        + before.drop_first());
                                },
                            }
                        },
                        Choice::Failed(failure) => {
                            self.agenda.clear();
                            assert(self.pending() =~= Seq::<ActionId>::empty());
                            return Step::Failed(failure);
                        },
                        Choice::Needs(query) => {
                            return Step::Ask(query);
                        },
                    }
                },
            }
        }
    }
}

/// A branching action that has chosen gives way to the actions of the chosen
/// branch, which are executed before what is pending behind it.
pub proof fn lemma_branch_runs_first(
    actions: Seq<Action>,
    pending: Seq<ActionId>,
    variables: Map<Seq<char>, Json>,
    switches: Set<Seq<char>>,
    known: Known,
)
    requires
        acyclic(actions),
        pending.len() > 0,
        pending[0].0 < actions.len(),
        actions[pending[0].0 as int] is If,
        actions[pending[0].0 as int]->If_0.choice(variables, switches, known) is Then
            || actions[pending[0].0 as int]->If_0.choice(variables, switches, known) is Else,
    ensures
        course(actions, pending, variables, switches, known) == course(
            actions,
            actions[pending[0].0 as int]->If_0.chosen(
                actions[pending[0].0 as int]->If_0.choice(variables, switches, known),
            ) + pending.drop_first(),
            variables,
            switches,
            known,
        ),
{
}

/// A branching action whose conditions are not met and which has no `else`
/// actions does nothing: the run goes on as if it were not there. Where
/// nothing else is pending, the run has succeeded and nothing was performed.
pub proof fn lemma_unmet_without_else_is_skipped(
    actions: Seq<Action>,
    pending: Seq<ActionId>,
    variables: Map<Seq<char>, Json>,
    switches: Set<Seq<char>>,
    known: Known,
)
    requires
        acyclic(actions),
        pending.len() > 0,
        pending[0].0 < actions.len(),
        actions[pending[0].0 as int] is If,
        actions[pending[0].0 as int]->If_0.choice(variables, switches, known) is Else,
        actions[pending[0].0 as int]->If_0.spec_else_actions() is None,
    ensures
        course(actions, pending, variables, switches, known) == course(
            actions,
            pending.drop_first(),
            variables,
            switches,
            known,
        ),
        pending.len() == 1 ==> course(actions, pending, variables, switches, known) == (
            Step::Finished,
            Seq::<ActionId>::empty(),
        ),
{
    let rest = pending.drop_first();
    assert(Seq::<ActionId>::empty() + rest =~= rest);
    if pending.len() == 1 {
        assert(rest =~= Seq::<ActionId>::empty());
    }
}

/// A list of actions is executed in its order, before what is pending
/// behind it.
pub proof fn lemma_list_runs_in_order(
    actions: Seq<Action>,
    pending: Seq<ActionId>,
    variables: Map<Seq<char>, Json>,
    switches: Set<Seq<char>>,
    known: Known,
)
    requires
        acyclic(actions),
        pending.len() > 0,
        pending[0].0 < actions.len(),
        actions[pending[0].0 as int] is Actions,
    ensures
        course(actions, pending, variables, switches, known) == course(
            actions,
            actions[pending[0].0 as int]->Actions_0@ + pending.drop_first(),
            variables,
            switches,
            known,
        ),
{
}

/// A failure gives up all that is pending: an identifier that names no
/// action, and a branching action one of whose conditions fails.
pub proof fn lemma_failure_gives_up(
    actions: Seq<Action>,
    pending: Seq<ActionId>,
    variables: Map<Seq<char>, Json>,
    switches: Set<Seq<char>>,
    known: Known,
)
    requires
        acyclic(actions),
        pending.len() > 0,
    ensures
        pending[0].0 >= actions.len() ==> course(actions, pending, variables, switches, known) == (
            Step::Failed(Failure::Resolution(pending[0])),
            Seq::<ActionId>::empty(),
        ),
        pending[0].0 < actions.len() && actions[pending[0].0 as int] is If
            && actions[pending[0].0 as int]->If_0.choice(variables, switches, known) is Failed
            ==> course(actions, pending, variables, switches, known) == (
            Step::Failed(
                actions[pending[0].0 as int]->If_0.choice(variables, switches, known)->Failed_0,
            ),
            Seq::<ActionId>::empty(),
        ),
{
}

} // verus!
