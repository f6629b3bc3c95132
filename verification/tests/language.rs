use atopile_analyzer::analyzer::AtopileAnalyzer;
use atopile_analyzer::ast::Symbol;
use atopile_analyzer::diagnostics::AnalyzerDiagnosticKind;
use atopile_analyzer::error::EvaluatorErrorKind;
use atopile_analyzer::evaluator::Evaluator;
use atopile_analyzer::instance::{
    AttributeValue, Connection, Instance, InstanceKind, InstanceRef, ModuleRef,
};
use atopile_analyzer::resolver::FileSystem;
use atopile_analyzer::source::AtopileSource;

const FILE: &str = "/project/main.ato";

fn evaluate(text: &str) -> Evaluator {
    let mut evaluator = Evaluator::new();
    evaluator.set_source(FILE.to_string(), AtopileSource::new(text.to_string(), FILE.to_string()));
    evaluator
}

fn at_in(file: &str, name: &str, path: &[&str]) -> InstanceRef {
    InstanceRef {
        module: ModuleRef { source_path: file.to_string(), module_name: Symbol(name.to_string()) },
        instance_path: path.iter().map(|p| Symbol(p.to_string())).collect(),
    }
}

fn at(name: &str, path: &[&str]) -> InstanceRef {
    at_in(FILE, name, path)
}

fn get<'a>(evaluator: &'a Evaluator, name: &str, path: &[&str]) -> &'a Instance {
    evaluator
        .state().resolve_instance(&at(name, path))
        .unwrap_or_else(|| panic!("no instance {}.{:?}", name, path))
}

fn kinds(evaluator: &Evaluator, file: &str) -> Vec<EvaluatorErrorKind> {
    evaluator
        .reporter()
        .diagnostics_for(&file.to_string())
        .iter()
        .map(|d| match &d.kind {
            AnalyzerDiagnosticKind::Evaluator(e) => e.kind,
            other => panic!("unexpected diagnostic {:?}", other),
        })
        .collect()
}

fn names(instance: &Instance) -> Vec<String> {
    instance.children.iter().map(|c| c.0 .0.clone()).collect()
}

fn wire(name: &str, left: &[&str], right: &[&str]) -> Connection {
    Connection { left: at(name, left), right: at(name, right) }
}

fn connections(evaluator: &Evaluator) -> usize {
    (0..evaluator.state().len()).map(|i| evaluator.state().entry(i).1.connections.len()).sum()
}

#[test]
fn a_parent_is_evaluated_before_the_block_that_inherits_from_it() {
    let evaluator = evaluate("module B from A: pass\nmodule A: signal x");
    assert!(kinds(&evaluator, FILE).is_empty());
    assert_eq!(names(get(&evaluator, "B", &[])), vec!["x"]);
    assert_eq!(get(&evaluator, "B", &["x"]).kind, InstanceKind::Port);
}

#[test]
fn cyclic_inheritance_is_reported_once() {
    let evaluator = evaluate("module A from B: pass\nmodule B from A: pass");
    let found = kinds(&evaluator, FILE);
    assert_eq!(
        found.iter().filter(|k| **k == EvaluatorErrorKind::CyclicInheritance).count(),
        1
    );
}

#[test]
fn a_module_does_not_connect_to_a_port() {
    let evaluator = evaluate(
        "module Inner:\n    pass\n\nmodule Top:\n    m = new Inner\n    signal p\n    m ~ p",
    );
    assert_eq!(kinds(&evaluator, FILE), vec![EvaluatorErrorKind::InvalidAssignment]);
    assert_eq!(connections(&evaluator), 0);
}

#[test]
fn two_interfaces_connect_signal_by_signal() {
    let evaluator = evaluate(
        "interface IF:\n    signal a\n    signal b\n\nmodule Top:\n    x = new IF\n    y = new IF\n    x ~ y",
    );
    assert!(kinds(&evaluator, FILE).is_empty());
    assert_eq!(
        get(&evaluator, "Top", &[]).connections,
        vec![wire("Top", &["x", "a"], &["y", "a"]), wire("Top", &["x", "b"], &["y", "b"])]
    );
    assert_eq!(connections(&evaluator), 2);
}

#[test]
fn siblings_are_connected_at_their_parent() {
    let evaluator = evaluate(
        "module Inner:\n    signal a\n    signal b\n\nmodule Top:\n    x = new Inner\n    x.a ~ x.b",
    );
    assert!(kinds(&evaluator, FILE).is_empty());
    assert_eq!(get(&evaluator, "Top", &["x"]).connections, vec![wire("Top", &["x", "a"], &["x", "b"])]);
    assert!(get(&evaluator, "Top", &[]).connections.is_empty());
}

#[test]
fn an_import_cycle_is_reported_once_and_the_rest_is_built() {
    let one = "/project/one.ato";
    let two = "/project/two.ato";
    let mut evaluator = Evaluator::new();
    evaluator.set_source(
        one.to_string(),
        AtopileSource::new(
            format!("from \"{}\" import Two\nmodule One: pass", two),
            one.to_string(),
        ),
    );
    evaluator.set_source(
        two.to_string(),
        AtopileSource::new(
            format!("from \"{}\" import One\nmodule Two: pass", one),
            two.to_string(),
        ),
    );
    let mut all = kinds(&evaluator, one);
    all.extend(kinds(&evaluator, two));
    assert_eq!(all.iter().filter(|k| **k == EvaluatorErrorKind::ImportCycle).count(), 1);
    assert!(evaluator.state().contains(&at_in(one, "One", &[])));
    assert!(evaluator.state().contains(&at_in(two, "Two", &[])));
}

#[test]
fn the_whole_way_from_text_to_warnings() {
    let text = "interface IF:\n    pass\n\nmodule MOD:\n    if = new IF\n\nmodule P:\n    a = new MOD\n\nmodule M from P:\n    b = new MOD";
    let mut analyzer = AtopileAnalyzer::new();
    analyzer.set_source(FILE.to_string(), AtopileSource::new(text.to_string(), FILE.to_string()));
    let evaluator = analyzer.evaluator();
    assert!(kinds(evaluator, FILE).is_empty());
    assert_eq!(get(evaluator, "IF", &[]).kind, InstanceKind::Interface);
    assert_eq!(names(get(evaluator, "MOD", &[])), vec!["if"]);
    assert_eq!(names(get(evaluator, "P", &[])), vec!["a"]);
    assert_eq!(get(evaluator, "P", &["a"]).type_ref, get(evaluator, "MOD", &[]).type_ref);
    assert_eq!(names(get(evaluator, "M", &[])), vec!["a", "b"]);
    assert_eq!(names(get(evaluator, "M", &["a"])), vec!["if"]);
    assert_eq!(names(get(evaluator, "M", &["b"])), vec!["if"]);
    let warnings = analyzer.analyze_unused_interfaces(&FILE.to_string()).expect("a source");
    let flagged: Vec<(String, String, usize)> = warnings
        .iter()
        .map(|d| match &d.kind {
            AnalyzerDiagnosticKind::UnconnectedInterface(u) => (
                u.instance_name.clone(),
                u.interface_name.clone(),
                u.instantiation_location.range.start.line,
            ),
            other => panic!("unexpected diagnostic {:?}", other),
        })
        .collect();
    assert_eq!(
        flagged,
        vec![
            ("a".to_string(), "if".to_string(), 7),
            ("a".to_string(), "if".to_string(), 7),
            ("b".to_string(), "if".to_string(), 10),
        ]
    );
}

#[test]
fn attributes_are_read_from_the_text() {
    let evaluator = evaluate(
        "component R:\n    value = 10kohm +/- 5%\n    mpn = \"RC0402\"\n    fitted = True\n    pin 1\n    r = new R\n    r.value = 2",
    );
    let r = get(&evaluator, "R", &[]);
    assert_eq!(r.kind, InstanceKind::Component);
    assert_eq!(
        r.attributes,
        vec![
            (Symbol("value".to_string()), AttributeValue::Physical("10kohm ± 5%".to_string())),
            (Symbol("mpn".to_string()), AttributeValue::String("RC0402".to_string())),
            (Symbol("fitted".to_string()), AttributeValue::Boolean(true)),
        ]
    );
    assert_eq!(names(r), vec!["1"]);
    assert_eq!(
        kinds(&evaluator, FILE),
        vec![EvaluatorErrorKind::Internal, EvaluatorErrorKind::InvalidAssignment]
    );
}

#[test]
fn a_text_that_ends_after_an_import_line_reports_a_parse_error() {
    let mut evaluator = Evaluator::new();
    evaluator.set_file_system(FileSystem::new());
    evaluator.set_source(
        FILE.to_string(),
        AtopileSource::new("# only a comment\n".to_string(), FILE.to_string()),
    );
    assert_eq!(kinds(&evaluator, FILE), vec![EvaluatorErrorKind::ParseError]);
    assert_eq!(evaluator.state().len(), 0);
}

#[test]
fn evaluating_the_same_text_twice_gives_the_same_graph() {
    let text = "interface IF:\n    signal a\n\nmodule Top:\n    x = new IF\n    y = new IF\n    x ~ y\n    z = new Missing";
    let first = evaluate(text);
    let second = evaluate(text);
    assert_eq!(first.state(), second.state());
    assert_eq!(first.reporter(), second.reporter());
}
