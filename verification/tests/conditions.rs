use archetect_lib::actions::conditionals::{Choice, Condition, IfAction, Verdict};
use archetect_lib::actions::ActionId;
use archetect_lib::context::{Context, Number, Json};
use archetect_lib::errors::Failure;
use archetect_lib::findings::{Findings, PathState, Query};
use archetect_lib::rules::RulesContext;

fn text(s: &str) -> String {
    s.to_string()
}

fn findings() -> Findings {
    Findings::new(text("/out"))
}

/// Renders the templates that the tests use: `{{ name }}` is replaced by the
/// text that `name` is bound to, and fails where it is bound to none.
fn render(template: &str, context: &Context) -> Result<String, Failure> {
    let mut out = String::new();
    let mut rest = template;
    while let Some(start) = rest.find("{{") {
        out.push_str(&rest[..start]);
        let after = &rest[start + 2..];
        let end = match after.find("}}") {
            Some(end) => end,
            None => return Err(Failure::Render(format!("unclosed expression in `{}`", template))),
        };
        let name = after[..end].trim();
        match context.get(name).and_then(|value| value.as_str()) {
            Some(value) => out.push_str(value),
            None => return Err(Failure::Render(format!("variable `{}` is not defined", name))),
        }
        rest = &after[end + 2..];
    }
    out.push_str(rest);
    Ok(out)
}

/// Evaluates a condition as a driver does: every query is answered and the
/// condition evaluated anew, until it is decided or fails. Returns the
/// verdict and the queries that were asked, in their order.
fn settle(
    condition: &Condition,
    context: &Context,
    rules: &RulesContext,
    files: &[(&str, PathState)],
) -> (Verdict, Vec<Query>) {
    let mut known = findings();
    let mut asked = Vec::new();
    loop {
        match condition.evaluate(context, rules, &known) {
            Verdict::Needs(query) => {
                match &query {
                    Query::Render(template) => {
                        known.record_render(template.clone(), render(template, context));
                    }
                    Query::Probe { destination, path } => {
                        assert_eq!(destination, "/out");
                        let state = files
                            .iter()
                            .find(|(name, _)| name == path)
                            .map(|(_, state)| *state)
                            .unwrap_or(PathState::Missing);
                        known.record_probe(path.clone(), Ok(state));
                    }
                }
                asked.push(query);
                assert!(asked.len() < 100);
            }
            verdict => return (verdict, asked),
        }
    }
}

fn context_of(bindings: &[(&str, Json)]) -> Context {
    let mut context = Context::new();
    for (name, value) in bindings {
        let value = match value {
            Json::Null => Json::Null,
            Json::Bool(b) => Json::Bool(*b),
            Json::Number(n) => Json::Number(n.clone()),
            Json::Text(s) => Json::Text(s.clone()),
            Json::List(_) => Json::List(Vec::new()),
            Json::Object(_) => Json::Object(Vec::new()),
        };
        context.insert(text(name), value);
    }
    context
}

#[test]
fn any_of_without_conditions_is_false() {
    let condition = Condition::AnyOf(vec![]);
    let verdict = condition.evaluate(&Context::new(), &RulesContext::new(), &findings());
    assert_eq!(verdict, Verdict::Decided(false));
}

#[test]
fn if_without_conditions_chooses_then() {
    let action = IfAction::new(vec![], vec![ActionId(0)], Some(vec![ActionId(1)]));
    let choice = action.execute(&Context::new(), &RulesContext::new(), &findings());
    assert_eq!(choice, Choice::Then);
    assert_eq!(action.then_actions(), &vec![ActionId(0)]);
    assert_eq!(action.else_actions(), Some(&vec![ActionId(1)]));
    assert_eq!(action.conditions().len(), 0);
}

#[test]
fn is_blank_of_an_unbound_variable_is_false() {
    let condition = Condition::IsBlank(text("missing"));
    let (verdict, asked) = settle(&condition, &Context::new(), &RulesContext::new(), &[]);
    assert_eq!(verdict, Verdict::Decided(false));
    assert!(asked.is_empty());
}

#[test]
fn is_blank_of_a_value_that_is_no_text_is_false() {
    let context = context_of(&[
        ("number", Json::Number(Number::PosInt(7))),
        ("list", Json::List(vec![])),
        ("flag", Json::Bool(false)),
        ("nothing", Json::Null),
    ]);
    for name in ["number", "list", "flag", "nothing"] {
        let condition = Condition::IsBlank(text(name));
        let verdict = condition.evaluate(&context, &RulesContext::new(), &findings());
        assert_eq!(verdict, Verdict::Decided(false));
    }
}

#[test]
fn is_blank_of_white_space_is_true() {
    let context = context_of(&[
        ("spaces", Json::Text(text("  \t\n "))),
        ("empty", Json::Text(text(""))),
        ("wide", Json::Text(text("\u{3000}\u{2003}\u{a0}"))),
        ("word", Json::Text(text("  x "))),
    ]);
    let rules = RulesContext::new();
    let holds = |name: &str| Condition::IsBlank(text(name)).evaluate(&context, &rules, &findings());
    assert_eq!(holds("spaces"), Verdict::Decided(true));
    assert_eq!(holds("empty"), Verdict::Decided(true));
    assert_eq!(holds("wide"), Verdict::Decided(true));
    assert_eq!(holds("word"), Verdict::Decided(false));
}

#[test]
fn is_blank_does_not_render_its_name() {
    let context = context_of(&[("a", Json::Text(text("b"))), ("b", Json::Text(text(" ")))]);
    let condition = Condition::IsBlank(text("{{ a }}"));
    let (verdict, asked) = settle(&condition, &context, &RulesContext::new(), &[]);
    assert_eq!(verdict, Verdict::Decided(false));
    assert!(asked.is_empty());
}

#[test]
fn equals_compares_the_renderings() {
    let condition = Condition::Equals(text("{{a}}"), text("{{b}}"));
    let same = context_of(&[("a", Json::Text(text("x"))), ("b", Json::Text(text("x")))]);
    let (verdict, asked) = settle(&condition, &same, &RulesContext::new(), &[]);
    assert_eq!(verdict, Verdict::Decided(true));
    assert_eq!(asked, vec![Query::Render(text("{{a}}")), Query::Render(text("{{b}}"))]);

    let other = context_of(&[("a", Json::Text(text("x"))), ("b", Json::Text(text("y")))]);
    let (verdict, _) = settle(&condition, &other, &RulesContext::new(), &[]);
    assert_eq!(verdict, Verdict::Decided(false));
}

#[test]
fn equals_fails_with_the_first_rendering_that_fails() {
    let condition = Condition::Equals(text("{{a}}"), text("{{b}}"));
    let context = context_of(&[("b", Json::Text(text("x")))]);
    let (verdict, asked) = settle(&condition, &context, &RulesContext::new(), &[]);
    assert_eq!(verdict, Verdict::Failed(Failure::Render(text("variable `a` is not defined"))));
    assert_eq!(asked, vec![Query::Render(text("{{a}}"))]);

    let context = context_of(&[("a", Json::Text(text("x")))]);
    let (verdict, asked) = settle(&condition, &context, &RulesContext::new(), &[]);
    assert_eq!(verdict, Verdict::Failed(Failure::Render(text("variable `b` is not defined"))));
    assert_eq!(asked.len(), 2);
}

#[test]
fn conjunction_stops_at_the_first_condition_that_does_not_hold() {
    let failing = Condition::Equals(text("{{ undefined }}"), text("x"));
    let action = IfAction::new(
        vec![Condition::Equals(text("1"), text("2")), failing],
        vec![ActionId(0)],
        None,
    );
    let context = Context::new();
    let rules = RulesContext::new();
    let mut known = findings();
    let mut asked = Vec::new();
    let choice = loop {
        match action.execute(&context, &rules, &known) {
            Choice::Needs(Query::Render(template)) => {
                known.record_render(template.clone(), render(&template, &context));
                asked.push(template);
            }
            choice => break choice,
        }
    };
    assert_eq!(choice, Choice::Else);
    assert_eq!(asked, vec![text("1"), text("2")]);
}

#[test]
fn conjunction_fails_where_the_failing_condition_is_reached() {
    let failing = Condition::Equals(text("{{ undefined }}"), text("x"));
    let action = IfAction::new(
        vec![Condition::Equals(text("1"), text("1")), failing],
        vec![ActionId(0)],
        None,
    );
    let context = Context::new();
    let mut known = findings();
    known.record_render(text("1"), Ok(text("1")));
    known.record_render(text("{{ undefined }}"), render("{{ undefined }}", &context));
    let choice = action.execute(&context, &RulesContext::new(), &known);
    assert_eq!(
        choice,
        Choice::Failed(Failure::Render(text("variable `undefined` is not defined")))
    );
}

#[test]
fn any_of_stops_at_the_first_condition_that_holds() {
    let failing = Condition::PathExists(text("{{ undefined }}"));
    let condition = Condition::AnyOf(vec![
        Condition::Equals(text("1"), text("2")),
        Condition::Equals(text("3"), text("3")),
        failing,
    ]);
    let (verdict, asked) = settle(&condition, &Context::new(), &RulesContext::new(), &[]);
    assert_eq!(verdict, Verdict::Decided(true));
    assert_eq!(
        asked,
        vec![Query::Render(text("1")), Query::Render(text("2")), Query::Render(text("3"))]
    );
}

#[test]
fn any_of_fails_where_a_failing_condition_is_reached() {
    let condition = Condition::AnyOf(vec![
        Condition::Equals(text("1"), text("2")),
        Condition::PathExists(text("{{ undefined }}")),
        Condition::Equals(text("3"), text("3")),
    ]);
    let (verdict, asked) = settle(&condition, &Context::new(), &RulesContext::new(), &[]);
    assert_eq!(verdict, Verdict::Failed(Failure::Render(text("variable `undefined` is not defined"))));
    assert_eq!(asked.len(), 3);
}

#[test]
fn any_of_all_false_is_false() {
    let condition = Condition::AnyOf(vec![
        Condition::Equals(text("1"), text("2")),
        Condition::IsBlank(text("missing")),
    ]);
    let (verdict, _) = settle(&condition, &Context::new(), &RulesContext::new(), &[]);
    assert_eq!(verdict, Verdict::Decided(false));
}

#[test]
fn switch_enabled_follows_the_switches() {
    let condition = Condition::SwitchEnabled(text("feature-x"));
    let context = Context::new();
    let mut rules = RulesContext::new();
    assert_eq!(condition.evaluate(&context, &rules, &findings()), Verdict::Decided(false));
    rules.enable(text("feature-x"));
    assert!(rules.contains("feature-x"));
    assert_eq!(condition.evaluate(&context, &rules, &findings()), Verdict::Decided(true));
    rules.enable(text("feature-y"));
    rules.disable("feature-x");
    assert!(!rules.contains("feature-x"));
    assert!(rules.contains("feature-y"));
    assert_eq!(condition.evaluate(&context, &rules, &findings()), Verdict::Decided(false));
}

#[test]
fn switch_enabled_takes_the_name_as_written() {
    let context = context_of(&[("s", Json::Text(text("feature-x")))]);
    let mut rules = RulesContext::new();
    rules.enable(text("feature-x"));
    let (verdict, asked) = settle(&Condition::SwitchEnabled(text("{{ s }}")), &context, &rules, &[]);
    assert_eq!(verdict, Verdict::Decided(false));
    assert!(asked.is_empty());
    let (verdict, _) = settle(&Condition::SwitchEnabled(text("Feature-X")), &context, &rules, &[]);
    assert_eq!(verdict, Verdict::Decided(false));
}

#[test]
fn not_negates_and_hands_failures_on() {
    let context = Context::new();
    let rules = RulesContext::new();
    let holds = Condition::Not(Box::new(Condition::AnyOf(vec![])));
    assert_eq!(holds.evaluate(&context, &rules, &findings()), Verdict::Decided(true));
    let twice = Condition::Not(Box::new(holds));
    assert_eq!(twice.evaluate(&context, &rules, &findings()), Verdict::Decided(false));
    let failing = Condition::Not(Box::new(Condition::IsFile(text("{{ undefined }}"))));
    let (verdict, _) = settle(&failing, &context, &rules, &[]);
    assert_eq!(verdict, Verdict::Failed(Failure::Render(text("variable `undefined` is not defined"))));
}

#[test]
fn path_conditions_tell_files_from_directories() {
    let files = [
        ("example.txt", PathState::File),
        ("src/main/java", PathState::Directory),
        ("socket", PathState::Other),
    ];
    let context = context_of(&[("service", Json::Text(text("example.txt")))]);
    let rules = RulesContext::new();
    let decide = |condition: Condition| settle(&condition, &context, &rules, &files).0;
    assert_eq!(decide(Condition::PathExists(text("example.txt"))), Verdict::Decided(true));
    assert_eq!(decide(Condition::IsFile(text("example.txt"))), Verdict::Decided(true));
    assert_eq!(decide(Condition::IsDirectory(text("example.txt"))), Verdict::Decided(false));
    assert_eq!(decide(Condition::PathExists(text("src/main/java"))), Verdict::Decided(true));
    assert_eq!(decide(Condition::IsFile(text("src/main/java"))), Verdict::Decided(false));
    assert_eq!(decide(Condition::IsDirectory(text("src/main/java"))), Verdict::Decided(true));
    assert_eq!(decide(Condition::PathExists(text("socket"))), Verdict::Decided(true));
    assert_eq!(decide(Condition::IsFile(text("socket"))), Verdict::Decided(false));
    assert_eq!(decide(Condition::IsDirectory(text("socket"))), Verdict::Decided(false));
    assert_eq!(decide(Condition::PathExists(text("missing"))), Verdict::Decided(false));
    assert_eq!(decide(Condition::IsFile(text("missing"))), Verdict::Decided(false));
    assert_eq!(decide(Condition::IsDirectory(text("missing"))), Verdict::Decided(false));
    assert_eq!(decide(Condition::IsFile(text("{{ service }}"))), Verdict::Decided(true));
}

#[test]
fn path_conditions_render_then_probe() {
    let context = context_of(&[("service", Json::Text(text("orders")))]);
    let condition = Condition::PathExists(text("{{ service }}/src"));
    let (verdict, asked) = settle(&condition, &context, &RulesContext::new(), &[]);
    assert_eq!(verdict, Verdict::Decided(false));
    assert_eq!(
        asked,
        vec![
            Query::Render(text("{{ service }}/src")),
            Query::Probe { destination: text("/out"), path: text("orders/src") },
        ]
    );
}

#[test]
fn path_conditions_hand_filesystem_failures_on() {
    let mut known = findings();
    known.record_render(text("locked"), Ok(text("locked")));
    known.record_probe(text("locked"), Err(Failure::Filesystem(text("permission denied"))));
    let verdict = Condition::IsFile(text("locked")).evaluate(
        &Context::new(),
        &RulesContext::new(),
        &known,
    );
    assert_eq!(verdict, Verdict::Failed(Failure::Filesystem(text("permission denied"))));
}
