use archetect_lib::actions::conditionals::{Condition, IfAction};
use archetect_lib::actions::dispatch::{Dispatcher, Step};
use archetect_lib::actions::registry::{Action, Registry};
use archetect_lib::actions::ActionId;
use archetect_lib::context::{Context, Json};
use archetect_lib::errors::Failure;
use archetect_lib::findings::{PathState, Query};
use archetect_lib::rules::RulesContext;

fn name(s: &str) -> String {
    s.to_string()
}

fn external(registry: &mut Registry, label: &str) -> ActionId {
    registry.add(Action::External(name(label))).unwrap()
}

fn branching(
    registry: &mut Registry,
    conditions: Vec<Condition>,
    then_actions: Vec<ActionId>,
    else_actions: Option<Vec<ActionId>>,
) -> ActionId {
    registry.add(Action::If(IfAction::new(conditions, then_actions, else_actions))).unwrap()
}

/// What a run did, as its driver saw it.
struct Run {
    performed: Vec<ActionId>,
    asked: Vec<Query>,
    result: Result<(), Failure>,
}

/// Drives a run to its end. Templates render to themselves, except those
/// listed in `failing`; only the paths in `files` exist; performing the
/// external action `binds` binds the variable `done` to a text.
fn drive(
    registry: &Registry,
    root: ActionId,
    context: &mut Context,
    rules: &RulesContext,
    files: &[(&str, PathState)],
    failing: &[&str],
    binds: Option<ActionId>,
) -> Run {
    let mut dispatcher = Dispatcher::new(root, name("/out"));
    let mut run = Run { performed: Vec::new(), asked: Vec::new(), result: Ok(()) };
    for _ in 0..1000 {
        match dispatcher.advance(registry, context, rules) {
            Step::Finished => {
                assert!(dispatcher.is_finished());
                return run;
            }
            Step::Failed(failure) => {
                assert!(dispatcher.is_finished());
                run.result = Err(failure);
                return run;
            }
            Step::Perform(id) => {
                if binds == Some(id) {
                    context.insert(name("done"), Json::Text(name("yes")));
                }
                run.performed.push(id);
            }
            Step::Ask(query) => {
                match &query {
                    Query::Render(template) => {
                        let outcome = if failing.contains(&template.as_str()) {
                            Err(Failure::Render(format!("cannot render `{}`", template)))
                        } else if template == "{{ done }}" {
                            match context.get("done").and_then(|value| value.as_str()) {
                                Some(value) => Ok(value.to_string()),
                                None => Err(Failure::Render(name("variable `done` is not defined"))),
                            }
                        } else {
                            Ok(template.clone())
                        };
                        dispatcher.record_render(template.clone(), outcome);
                    }
                    Query::Probe { destination, path } => {
                        assert_eq!(destination, "/out");
                        let state = files
                            .iter()
                            .find(|(file, _)| file == path)
                            .map(|(_, state)| *state)
                            .unwrap_or(PathState::Missing);
                        dispatcher.record_probe(path.clone(), Ok(state));
                    }
                }
                run.asked.push(query);
            }
        }
    }
    panic!("the run did not end");
}

#[test]
fn if_action_with_existing_file_executes_then_branch() {
    let mut registry = Registry::new();
    let render_dir = external(&mut registry, "render-directory");
    let root = branching(
        &mut registry,
        vec![Condition::IsFile(name("example.txt"))],
        vec![render_dir],
        None,
    );
    let run = drive(
        &registry,
        root,
        &mut Context::new(),
        &RulesContext::new(),
        &[("example.txt", PathState::File)],
        &[],
        None,
    );
    assert_eq!(run.result, Ok(()));
    assert_eq!(run.performed, vec![render_dir]);
}

#[test]
fn if_action_without_else_and_unmet_conditions_does_nothing() {
    let mut registry = Registry::new();
    let render_dir = external(&mut registry, "render-directory");
    let root = branching(
        &mut registry,
        vec![Condition::PathExists(name("missing"))],
        vec![render_dir],
        None,
    );
    let mut context = Context::new();
    let run = drive(&registry, root, &mut context, &RulesContext::new(), &[], &[], None);
    assert_eq!(run.result, Ok(()));
    assert!(run.performed.is_empty());
    assert_eq!(context.len(), 0);
}

#[test]
fn nested_if_action_in_else_branch_without_else_does_nothing() {
    let mut registry = Registry::new();
    let first = external(&mut registry, "first");
    let second = external(&mut registry, "second");
    let inner = branching(
        &mut registry,
        vec![Condition::SwitchEnabled(name("feature-x"))],
        vec![second],
        None,
    );
    let root = branching(
        &mut registry,
        vec![Condition::IsDirectory(name("src/main/java"))],
        vec![first],
        Some(vec![inner]),
    );
    let run = drive(&registry, root, &mut Context::new(), &RulesContext::new(), &[], &[], None);
    assert_eq!(run.result, Ok(()));
    assert!(run.performed.is_empty());
}

#[test]
fn else_branch_runs_where_a_condition_does_not_hold() {
    let mut registry = Registry::new();
    let first = external(&mut registry, "first");
    let second = external(&mut registry, "second");
    let third = external(&mut registry, "third");
    let root = branching(
        &mut registry,
        vec![Condition::Equals(name("1"), name("1")), Condition::Equals(name("1"), name("2"))],
        vec![first],
        Some(vec![second, third]),
    );
    let run = drive(&registry, root, &mut Context::new(), &RulesContext::new(), &[], &[], None);
    assert_eq!(run.result, Ok(()));
    assert_eq!(run.performed, vec![second, third]);
}

#[test]
fn sequence_runs_in_order_and_shared_actions_run_each_time() {
    let mut registry = Registry::new();
    let shared = external(&mut registry, "shared");
    let other = external(&mut registry, "other");
    let inner = registry.add(Action::Actions(vec![shared, other])).unwrap();
    let choice = branching(&mut registry, vec![], vec![inner, shared], Some(vec![other]));
    let root = registry.add(Action::Actions(vec![shared, choice, other])).unwrap();
    assert_eq!(registry.len(), 5);
    let run = drive(&registry, root, &mut Context::new(), &RulesContext::new(), &[], &[], None);
    assert_eq!(run.result, Ok(()));
    assert_eq!(run.performed, vec![shared, shared, other, shared, other]);
}

#[test]
fn failing_condition_gives_up_what_is_pending() {
    let mut registry = Registry::new();
    let first = external(&mut registry, "first");
    let last = external(&mut registry, "last");
    let failing = branching(
        &mut registry,
        vec![Condition::Equals(name("{{ broken"), name("x"))],
        vec![first],
        Some(vec![first]),
    );
    let root = registry.add(Action::Actions(vec![first, failing, last])).unwrap();
    let run = drive(
        &registry,
        root,
        &mut Context::new(),
        &RulesContext::new(),
        &[],
        &["{{ broken"],
        None,
    );
    assert_eq!(run.result, Err(Failure::Render(name("cannot render `{{ broken`"))));
    assert_eq!(run.performed, vec![first]);
}

#[test]
fn conditions_see_what_earlier_actions_bound() {
    let mut registry = Registry::new();
    let binder = external(&mut registry, "set");
    let after = external(&mut registry, "after");
    let check = branching(
        &mut registry,
        vec![Condition::Equals(name("{{ done }}"), name("yes"))],
        vec![after],
        None,
    );
    let root = registry.add(Action::Actions(vec![binder, check])).unwrap();
    let mut context = Context::new();
    let run = drive(&registry, root, &mut context, &RulesContext::new(), &[], &[], Some(binder));
    assert_eq!(run.result, Ok(()));
    assert_eq!(run.performed, vec![binder, after]);
    assert_eq!(context.get("done"), Some(&Json::Text(name("yes"))));
}

#[test]
fn findings_are_forgotten_after_an_action_was_performed() {
    let mut registry = Registry::new();
    let work = external(&mut registry, "work");
    let check = branching(
        &mut registry,
        vec![Condition::PathExists(name("a"))],
        vec![work],
        None,
    );
    let root = registry.add(Action::Actions(vec![check, check])).unwrap();
    let run = drive(
        &registry,
        root,
        &mut Context::new(),
        &RulesContext::new(),
        &[("a", PathState::Directory)],
        &[],
        None,
    );
    assert_eq!(run.performed, vec![work, work]);
    let probe = Query::Probe { destination: name("/out"), path: name("a") };
    assert_eq!(
        run.asked,
        vec![Query::Render(name("a")), probe.clone(), Query::Render(name("a")), probe]
    );
}

#[test]
fn unknown_root_is_a_failure_of_resolution() {
    let registry = Registry::new();
    let run = drive(
        &registry,
        ActionId(3),
        &mut Context::new(),
        &RulesContext::new(),
        &[],
        &[],
        None,
    );
    assert_eq!(run.result, Err(Failure::Resolution(ActionId(3))));
    assert!(run.performed.is_empty());
}

#[test]
fn registry_refuses_references_to_what_is_not_registered() {
    let mut registry = Registry::new();
    let known = external(&mut registry, "known");
    let own_place = ActionId(1);
    let refused = registry.add(Action::Actions(vec![known, own_place, ActionId(9)]));
    assert_eq!(refused, Err(Failure::Resolution(own_place)));
    let refused = registry.add(Action::If(IfAction::new(vec![], vec![known], Some(vec![ActionId(7)]))));
    assert_eq!(refused, Err(Failure::Resolution(ActionId(7))));
    assert_eq!(registry.len(), 1);
    assert_eq!(registry.resolve(known), Ok(&Action::External(name("known"))));
    assert_eq!(registry.resolve(own_place), Err(Failure::Resolution(own_place)));
}

#[test]
fn abort_gives_up_what_is_pending() {
    let mut registry = Registry::new();
    let first = external(&mut registry, "first");
    let second = external(&mut registry, "second");
    let root = registry.add(Action::Actions(vec![first, second])).unwrap();
    let mut dispatcher = Dispatcher::new(root, name("/out"));
    let context = Context::new();
    let rules = RulesContext::new();
    assert_eq!(dispatcher.advance(&registry, &context, &rules), Step::Perform(first));
    assert!(!dispatcher.is_finished());
    dispatcher.abort();
    assert!(dispatcher.is_finished());
    assert_eq!(dispatcher.advance(&registry, &context, &rules), Step::Finished);
}
