//! Conditions, and the action that branches on them.

use crate::actions::ActionId;
use crate::context::{Context, Json};
use crate::errors::Failure;
use crate::findings::{Findings, Known, PathState, Query};
use crate::rules::RulesContext;
use crate::text::{blank, is_blank, is_white_space};
use vstd::prelude::*;

verus! {

/// A predicate over the variables, the switches and the filesystem of a run.
#[derive(Debug, PartialEq, Eq)]
pub enum Condition {
    /// Both templates render to the same text.
    Equals(String, String),
    /// The variable of this name is bound to a text that is blank.
    IsBlank(String),
    /// Something stands at the path that the template renders to.
    PathExists(String),
    /// A regular file stands at the path that the template renders to.
    IsFile(String),
    /// A directory stands at the path that the template renders to.
    IsDirectory(String),
    /// The switch of this name is enabled.
    SwitchEnabled(String),
    /// The condition inside does not hold.
    Not(Box<Condition>),
    /// One of the conditions holds; they are tried in their order.
    AnyOf(Vec<Condition>),
}

/// What the evaluation of a condition comes to.
#[derive(Debug, PartialEq, Eq)]
pub enum Verdict {
    /// The condition holds, or does not.
    Decided(bool),
    /// The evaluation met a failure and stopped there.
    Failed(Failure),
    /// The evaluation reached something that is not known yet and stopped
    /// there: once the query is answered the condition can be evaluated anew.
    Needs(Query),
}

/// The rendering of `template` as far as it is known, or else the verdict
/// that the missing or failed rendering forces.
pub open spec fn rendered(known: Known, template: String) -> Result<String, Verdict> {
    if !known.renders.contains_key(template@) {
        Err(Verdict::Needs(Query::Render(template)))
    } else {
        match known.renders[template@] {
            Ok(text) => Ok(text),
            Err(failure) => Err(Verdict::Failed(failure)),
        }
    }
}

/// What stands at the path that `template` renders to, as far as it is
/// known, or else the verdict that what is missing or failed forces.
pub open spec fn probed(known: Known, template: String) -> Result<PathState, Verdict> {
    match rendered(known, template) {
        Err(verdict) => Err(verdict),
        Ok(path) => if !known.probes.contains_key(path@) {
            Err(Verdict::Needs(Query::Probe { destination: known.destination, path }))
        } else {
            match known.probes[path@] {
                Ok(state) => Ok(state),
                Err(failure) => Err(Verdict::Failed(failure)),
            }
        },
    }
}

/// The variable `name` is bound to a text, and the text is blank. The name
/// is taken as it is written: it is no template.
pub open spec fn blank_variable(variables: Map<Seq<char>, Json>, name: Seq<char>) -> bool {
    variables.contains_key(name) && match variables[name] {
        Json::Text(text) => is_blank(text@),
        _ => false,
    }
}

/// The verdict on a disjunction, from the condition at `from` on: that of
/// the first condition that is not decided as false, and false where there
/// is none. No condition after that one is looked at.
pub open spec fn any_verdict(
    conditions: Vec<Condition>,
    from: int,
    variables: Map<Seq<char>, Json>,
    switches: Set<Seq<char>>,
    known: Known,
) -> Verdict
    decreases conditions, conditions.len() - from,
{
    if 0 <= from < conditions.len() {
        match conditions[from].verdict(variables, switches, known) {
            Verdict::Decided(false) => any_verdict(conditions, from + 1, variables, switches, known),
            other => other,
        }
    } else {
        Verdict::Decided(false)
    }
}

/// The verdict on a conjunction, from the condition at `from` on: that of
/// the first condition that is not decided as true, and true where there is
/// none. No condition after that one is looked at.
pub open spec fn all_verdict(
    conditions: Seq<Condition>,
    from: int,
    variables: Map<Seq<char>, Json>,
    switches: Set<Seq<char>>,
    known: Known,
) -> Verdict
    decreases conditions.len() - from,
{
    if 0 <= from < conditions.len() {
        match conditions[from].verdict(variables, switches, known) {
            Verdict::Decided(true) => all_verdict(conditions, from + 1, variables, switches, known),
            other => other,
        }
    } else {
        Verdict::Decided(true)
    }
}

/// Looks a rendering up, as `rendered` says.
fn lookup_rendering<'a>(findings: &'a Findings, template: &String) -> (found: Result<
    &'a String,
    Verdict,
>)
    ensures
        match found {
            Ok(text) => rendered(findings@, *template) == Ok::<String, Verdict>(*text),
            Err(verdict) => rendered(findings@, *template) == Err::<String, Verdict>(verdict),
        },
{
    match findings.rendering(template.as_str()) {
        None => Err(Verdict::Needs(Query::Render(template.clone()))),
        Some(Ok(text)) => Ok(text),
        Some(Err(failure)) => Err(Verdict::Failed(failure.duplicate())),
    }
}

/// Looks up what stands at a rendered path, as `probed` says.
fn lookup_path(findings: &Findings, template: &String) -> (found: Result<PathState, Verdict>)
    ensures
        found == probed(findings@, *template),
{
    match lookup_rendering(findings, template) {
        Err(verdict) => Err(verdict),
        Ok(path) => match findings.probe(path.as_str()) {
            None => Err(
                Verdict::Needs(
                    Query::Probe { destination: findings.destination().clone(), path: path.clone() },
                ),
            ),
            Some(Ok(state)) => Ok(*state),
            Some(Err(failure)) => Err(Verdict::Failed(failure.duplicate())),
        },
    }
}

impl Condition {
    /// What the condition comes to, given the variables, the enabled
    /// switches and what is known of renderings and paths.
    pub open spec fn verdict(
        &self,
        variables: Map<Seq<char>, Json>,
        switches: Set<Seq<char>>,
        known: Known,
    ) -> Verdict
        decreases self, 0nat,
    {
        match self {
            Condition::Equals(left, right) => match rendered(known, *left) {
                Err(verdict) => verdict,
                Ok(l) => match rendered(known, *right) {
                    Err(verdict) => verdict,
                    Ok(r) => Verdict::Decided(l@ == r@),
                },
            },
            Condition::IsBlank(name) => Verdict::Decided(blank_variable(variables, name@)),
            Condition::PathExists(path) => match probed(known, *path) {
                Err(verdict) => verdict,
                Ok(state) => Verdict::Decided(state.is_present()),
            },
            Condition::IsFile(path) => match probed(known, *path) {
                Err(verdict) => verdict,
                Ok(state) => Verdict::Decided(state is File),
            },
            Condition::IsDirectory(path) => match probed(known, *path) {
                Err(verdict) => verdict,
                Ok(state) => Verdict::Decided(state is Directory),
            },
            Condition::SwitchEnabled(name) => Verdict::Decided(switches.contains(name@)),
            Condition::Not(inner) => match inner.verdict(variables, switches, known) {
                Verdict::Decided(holds) => Verdict::Decided(!holds),
                other => other,
            },
            Condition::AnyOf(conditions) => any_verdict(
                *conditions,
                0,
                variables,
                switches,
                known,
            ),
        }
    }

    /// Evaluates the condition against the variables, the switches and what
    /// is known so far. Nothing is rendered and nothing is probed here: where
    /// the evaluation reaches a template or a path of which nothing is known,
    /// it stops and names the query. A disjunction stops at its first
    /// condition that holds, fails or needs an answer.
    pub fn evaluate(&self, context: &Context, rules: &RulesContext, findings: &Findings) -> (verdict:
        Verdict)
        ensures
            verdict == self.verdict(context@, rules@, findings@),
        decreases self,
    {
        match self {
            Condition::Equals(left, right) => {
                match lookup_rendering(findings, left) {
                    Err(verdict) => verdict,
                    Ok(l) => match lookup_rendering(findings, right) {
                        Err(verdict) => verdict,
                        Ok(r) => Verdict::Decided(*l == *r),
                    },
                }
            },
            Condition::IsBlank(name) => {
                match context.get(name.as_str()) {
                    Some(value) => match value.as_str() {
                        Some(text) => Verdict::Decided(blank(text)),
                        None => Verdict::Decided(false),
                    },
                    None => Verdict::Decided(false),
                }
            },
            Condition::PathExists(path) => {
                match lookup_path(findings, path) {
                    Err(verdict) => verdict,
                    Ok(state) => Verdict::Decided(
                        match state {
                            PathState::Missing => false,
                            _ => true,
                        },
                    ),
                }
            },
            Condition::IsFile(path) => {
                match lookup_path(findings, path) {
                    Err(verdict) => verdict,
                    Ok(state) => Verdict::Decided(
                        match state {
                            PathState::File => true,
                            _ => false,
                        },
                    ),
                }
            },
            Condition::IsDirectory(path) => {
                match lookup_path(findings, path) {
                    Err(verdict) => verdict,
                    Ok(state) => Verdict::Decided(
                        match state {
                            PathState::Directory => true,
                            _ => false,
                        },
                    ),
                }
            },
            Condition::SwitchEnabled(name) => Verdict::Decided(rules.contains(name.as_str())),
            Condition::Not(inner) => {
                match inner.evaluate(context, rules, findings) {
                    Verdict::Decided(holds) => Verdict::Decided(!holds),
                    other => other,
                }
            },
            Condition::AnyOf(conditions) => {
                let mut i: usize = 0;
                while i < conditions.len()
                    invariant
                        i <= conditions.len(),
                        self == Condition::AnyOf(*conditions),
                        any_verdict(*conditions, 0, context@, rules@, findings@) == any_verdict(
                            *conditions,
                            i as int,
                            context@,
                            rules@,
                            findings@,
                        ),
                    decreases conditions.len() - i,
                {
                    match conditions[i].evaluate(context, rules, findings) {
                        Verdict::Decided(false) => {},
                        other => {
                            return other;
                        },
                    }
                    i = i + 1;
                }
                Verdict::Decided(false)
            },
        }
    }
}

/// An action that runs one of two lists of actions, as a conjunction of
/// conditions decides.
#[derive(Debug, PartialEq, Eq)]
pub struct IfAction {
    conditions: Vec<Condition>,
    then_actions: Vec<ActionId>,
    else_actions: Option<Vec<ActionId>>,
}

/// Which way an `IfAction` goes.
#[derive(Debug, PartialEq, Eq)]
pub enum Choice {
    /// Every condition holds: the `then` actions run.
    Then,
    /// A condition does not hold: the `else` actions run, where there are
    /// any.
    Else,
    /// A condition failed: nothing runs.
    Failed(Failure),
    /// A condition needs an answer first: nothing runs yet.
    Needs(Query),
}

impl IfAction {
    /// The conditions, all of which must hold, in the order in which they
    /// are tried.
    pub closed spec fn spec_conditions(&self) -> Vec<Condition> {
        self.conditions
    }

    /// The actions to run where every condition holds.
    pub closed spec fn spec_then_actions(&self) -> Vec<ActionId> {
        self.then_actions
    }

    /// The actions to run where a condition does not hold.
    pub closed spec fn spec_else_actions(&self) -> Option<Vec<ActionId>> {
        self.else_actions
    }

    /// Which way the action goes: the conditions are tried in their order,
    /// and the first that does not hold, fails or needs an answer decides.
    /// Without conditions it goes the `then` way.
    pub open spec fn choice(
        &self,
        variables: Map<Seq<char>, Json>,
        switches: Set<Seq<char>>,
        known: Known,
    ) -> Choice {
        match all_verdict(self.spec_conditions()@, 0, variables, switches, known) {
            Verdict::Decided(true) => Choice::Then,
            Verdict::Decided(false) => Choice::Else,
            Verdict::Failed(failure) => Choice::Failed(failure),
            Verdict::Needs(query) => Choice::Needs(query),
        }
    }

    /// The actions that a choice sets running, in their order.
    pub open spec fn chosen(&self, choice: Choice) -> Seq<ActionId> {
        match choice {
            Choice::Then => self.spec_then_actions()@,
            Choice::Else => match self.spec_else_actions() {
                Some(actions) => actions@,
                None => Seq::empty(),
            },
            _ => Seq::empty(),
        }
    }

    /// An action that runs `then_actions` where all of `conditions` hold, and
    /// `else_actions` otherwise.
    pub fn new(
        conditions: Vec<Condition>,
        then_actions: Vec<ActionId>,
        else_actions: Option<Vec<ActionId>>,
    ) -> (action: Self)
        ensures
            action.spec_conditions() == conditions,
            action.spec_then_actions() == then_actions,
            action.spec_else_actions() == else_actions,
    {
        IfAction { conditions, then_actions, else_actions }
    }

    /// The conditions.
    pub fn conditions(&self) -> (conditions: &Vec<Condition>)
        ensures
            *conditions == self.spec_conditions(),
    {
        &self.conditions
    }

    /// The actions to run where every condition holds.
    pub fn then_actions(&self) -> (actions: &Vec<ActionId>)
        ensures
            *actions == self.spec_then_actions(),
    {
        &self.then_actions
    }

    /// The actions to run where a condition does not hold, if any are given.
    pub fn else_actions(&self) -> (actions: Option<&Vec<ActionId>>)
        ensures
            match actions {
                Some(list) => self.spec_else_actions() == Some(*list),
                None => self.spec_else_actions() is None,
            },
    {
        self.else_actions.as_ref()
    }

    /// Decides which way the action goes. Every condition is evaluated
    /// against the same variables, switches and findings, and none of the
    /// chosen actions has run when the decision is made. The evaluation stops
    /// at the first condition that does not hold, fails or needs an answer.
    pub fn execute(&self, context: &Context, rules: &RulesContext, findings: &Findings) -> (choice:
        Choice)
        ensures
            choice == self.choice(context@, rules@, findings@),
            self.spec_conditions()@.len() == 0 ==> choice == Choice::Then,
    {
        let mut i: usize = 0;
        while i < self.conditions.len()
            invariant
                i <= self.conditions.len(),
                all_verdict(self.conditions@, 0, context@, rules@, findings@) == all_verdict(
                    self.conditions@,
                    i as int,
                    context@,
                    rules@,
                    findings@,
                ),
            decreases self.conditions.len() - i,
        {
            match self.conditions[i].evaluate(context, rules, findings) {
                Verdict::Decided(true) => {},
                Verdict::Decided(false) => {
                    return Choice::Else;
                },
                Verdict::Failed(failure) => {
                    return Choice::Failed(failure);
                },
                Verdict::Needs(query) => {
                    return Choice::Needs(query);
                },
            }
            i = i + 1;
        }
        Choice::Then
    }
}

/// A disjunction without conditions does not hold.
pub proof fn lemma_any_of_nothing(
    conditions: Vec<Condition>,
    variables: Map<Seq<char>, Json>,
    switches: Set<Seq<char>>,
    known: Known,
)
    requires
        conditions@.len() == 0,
    ensures
        Condition::AnyOf(conditions).verdict(variables, switches, known) == Verdict::Decided(false),
{
    assert(any_verdict(conditions, 0, variables, switches, known) == Verdict::Decided(false));
}

/// In a disjunction, the first condition that is not decided as false
/// decides: whatever stands behind it is not looked at. So a condition that
/// holds makes the disjunction hold even where a later one would fail.
pub proof fn lemma_any_of_stops_early(
    conditions: Vec<Condition>,
    at: int,
    from: int,
    variables: Map<Seq<char>, Json>,
    switches: Set<Seq<char>>,
    known: Known,
)
    requires
        0 <= from <= at < conditions@.len(),
        forall|j: int|
            from <= j < at ==> (#[trigger] conditions@[j]).verdict(variables, switches, known)
                == Verdict::Decided(false),
        conditions@[at].verdict(variables, switches, known) != Verdict::Decided(false),
    ensures
        any_verdict(conditions, from, variables, switches, known) == conditions@[at].verdict(
            variables,
            switches,
            known,
        ),
        from == 0 ==> Condition::AnyOf(conditions).verdict(variables, switches, known)
            == conditions@[at].verdict(variables, switches, known),
    decreases at - from,
{
    if from < at {
        assert(conditions@[from].verdict(variables, switches, known) == Verdict::Decided(false));
        lemma_any_of_stops_early(conditions, at, from + 1, variables, switches, known);
    }
}

/// A disjunction all of whose conditions are decided as false is decided as
/// false.
pub proof fn lemma_any_of_all_false(
    conditions: Vec<Condition>,
    from: int,
    variables: Map<Seq<char>, Json>,
    switches: Set<Seq<char>>,
    known: Known,
)
    requires
        0 <= from <= conditions@.len(),
        forall|j: int|
            from <= j < conditions@.len() ==> (#[trigger] conditions@[j]).verdict(
                variables,
                switches,
                known,
            ) == Verdict::Decided(false),
    ensures
        any_verdict(conditions, from, variables, switches, known) == Verdict::Decided(false),
    decreases conditions@.len() - from,
{
    if from < conditions@.len() {
        assert(conditions@[from].verdict(variables, switches, known) == Verdict::Decided(false));
        lemma_any_of_all_false(conditions, from + 1, variables, switches, known);
    }
}

/// In a conjunction, the first condition that is not decided as true
/// decides: whatever stands behind it is not looked at. So a condition that
/// does not hold settles the conjunction even where a later one would fail.
pub proof fn lemma_conjunction_stops_early(
    conditions: Seq<Condition>,
    at: int,
    from: int,
    variables: Map<Seq<char>, Json>,
    switches: Set<Seq<char>>,
    known: Known,
)
    requires
        0 <= from <= at < conditions.len(),
        forall|j: int|
            from <= j < at ==> (#[trigger] conditions[j]).verdict(variables, switches, known)
                == Verdict::Decided(true),
        conditions[at].verdict(variables, switches, known) != Verdict::Decided(true),
    ensures
        all_verdict(conditions, from, variables, switches, known) == conditions[at].verdict(
            variables,
            switches,
            known,
        ),
    decreases at - from,
{
    if from < at {
        assert(conditions[from].verdict(variables, switches, known) == Verdict::Decided(true));
        lemma_conjunction_stops_early(conditions, at, from + 1, variables, switches, known);
    }
}

/// A conjunction all of whose conditions are decided as true is decided as
/// true.
pub proof fn lemma_conjunction_all_true(
    conditions: Seq<Condition>,
    from: int,
    variables: Map<Seq<char>, Json>,
    switches: Set<Seq<char>>,
    known: Known,
)
    requires
        0 <= from <= conditions.len(),
        forall|j: int|
            from <= j < conditions.len() ==> (#[trigger] conditions[j]).verdict(
                variables,
                switches,
                known,
            ) == Verdict::Decided(true),
    ensures
        all_verdict(conditions, from, variables, switches, known) == Verdict::Decided(true),
    decreases conditions.len() - from,
{
    if from < conditions.len() {
        assert(conditions[from].verdict(variables, switches, known) == Verdict::Decided(true));
        lemma_conjunction_all_true(conditions, from + 1, variables, switches, known);
    }
}

/// An `IfAction` without conditions goes the `then` way, whatever the
/// variables, the switches and the findings are.
pub proof fn lemma_no_conditions_choose_then(
    action: IfAction,
    variables: Map<Seq<char>, Json>,
    switches: Set<Seq<char>>,
    known: Known,
)
    requires
        action.spec_conditions()@.len() == 0,
    ensures
        action.choice(variables, switches, known) == Choice::Then,
{
}

/// An `IfAction` whose first condition that is not decided as true is
/// decided as false goes the `else` way, whatever stands behind that
/// condition.
pub proof fn lemma_unmet_condition_chooses_else(
    action: IfAction,
    at: int,
    variables: Map<Seq<char>, Json>,
    switches: Set<Seq<char>>,
    known: Known,
)
    requires
        0 <= at < action.spec_conditions()@.len(),
        forall|j: int|
            0 <= j < at ==> (#[trigger] action.spec_conditions()@[j]).verdict(
                variables,
                switches,
                known,
            ) == Verdict::Decided(true),
        action.spec_conditions()@[at].verdict(variables, switches, known) == Verdict::Decided(
            false,
        ),
    ensures
        action.choice(variables, switches, known) == Choice::Else,
{
    lemma_conjunction_stops_early(action.spec_conditions()@, at, 0, variables, switches, known);
}

/// `IsBlank` does not hold of a variable that is not bound, nor of one that
/// is bound to something other than a text. Of a variable that is bound to a
/// text it holds exactly where the text is blank, as a text of white space
/// only is.
pub proof fn lemma_is_blank(
    name: String,
    variables: Map<Seq<char>, Json>,
    switches: Set<Seq<char>>,
    known: Known,
)
    ensures
        !variables.contains_key(name@) ==> Condition::IsBlank(name).verdict(
            variables,
            switches,
            known,
        ) == Verdict::Decided(false),
        variables.contains_key(name@) && !(variables[name@] is Text) ==> Condition::IsBlank(
            name,
        ).verdict(variables, switches, known) == Verdict::Decided(false),
        variables.contains_key(name@) && variables[name@] is Text ==> Condition::IsBlank(
            name,
        ).verdict(variables, switches, known) == Verdict::Decided(
            is_blank(variables[name@]->Text_0@),
        ),
        variables.contains_key(name@) && variables[name@] is Text && (forall|i: int|
            0 <= i < variables[name@]->Text_0@.len() ==> is_white_space(
                #[trigger] variables[name@]->Text_0@[i],
            )) ==> Condition::IsBlank(name).verdict(variables, switches, known)
            == Verdict::Decided(true),
{
}

/// `Equals` compares what its two templates render to, not the templates:
/// where both renderings are known, it holds exactly where they are the same
/// text.
pub proof fn lemma_equals_compares_renderings(
    left: String,
    right: String,
    variables: Map<Seq<char>, Json>,
    switches: Set<Seq<char>>,
    known: Known,
)
    requires
        known.renders.contains_key(left@),
        known.renders.contains_key(right@),
        known.renders[left@] is Ok,
        known.renders[right@] is Ok,
    ensures
        Condition::Equals(left, right).verdict(variables, switches, known) == Verdict::Decided(
            known.renders[left@]->Ok_0@ == known.renders[right@]->Ok_0@,
        ),
{
}

/// `Equals` fails with the failure of the first of its templates that does
/// not render.
pub proof fn lemma_equals_hands_failures_on(
    left: String,
    right: String,
    variables: Map<Seq<char>, Json>,
    switches: Set<Seq<char>>,
    known: Known,
)
    requires
        known.renders.contains_key(left@),
    ensures
        known.renders[left@] is Err ==> Condition::Equals(left, right).verdict(
            variables,
            switches,
            known,
        ) == Verdict::Failed(known.renders[left@]->Err_0),
        known.renders[left@] is Ok && known.renders.contains_key(right@) && known.renders[right@] is Err
            ==> Condition::Equals(left, right).verdict(variables, switches, known)
            == Verdict::Failed(known.renders[right@]->Err_0),
{
}

/// `SwitchEnabled` follows the set of switches as it is when the condition
/// is evaluated: with the switch enabled it holds, with the switch disabled
/// it does not, all else being the same.
pub proof fn lemma_switch_follows_membership(
    name: String,
    variables: Map<Seq<char>, Json>,
    switches: Set<Seq<char>>,
    known: Known,
)
    ensures
        Condition::SwitchEnabled(name).verdict(variables, switches.insert(name@), known)
            == Verdict::Decided(true),
        Condition::SwitchEnabled(name).verdict(variables, switches.remove(name@), known)
            == Verdict::Decided(false),
        Condition::SwitchEnabled(name).verdict(variables, switches, known) == Verdict::Decided(
            switches.contains(name@),
        ),
{
}

/// `Not` turns a decision round and hands on anything else as it is.
pub proof fn lemma_not_negates(
    inner: Condition,
    variables: Map<Seq<char>, Json>,
    switches: Set<Seq<char>>,
    known: Known,
)
    ensures
        match inner.verdict(variables, switches, known) {
            Verdict::Decided(holds) => Condition::Not(Box::new(inner)).verdict(
                variables,
                switches,
                known,
            ) == Verdict::Decided(!holds),
            other => Condition::Not(Box::new(inner)).verdict(variables, switches, known) == other,
        },
{
}

} // verus!
