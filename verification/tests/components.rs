use atopile_analyzer::analyzer::AtopileAnalyzer;
use atopile_analyzer::ast::{Expr, Symbol};
use atopile_analyzer::diagnostics::{AnalyzerDiagnosticKind, AnalyzerReporter};
use atopile_analyzer::error::{EvaluatorError, EvaluatorErrorKind};
use atopile_analyzer::instance::{
    path_starts_with, AttributeValue, Connection, Instance, InstanceKind, InstanceRef, ModuleRef,
};
use atopile_analyzer::location::{Location, Range};
use atopile_analyzer::order::{collect_block_declarations, sort_blocks};
use atopile_analyzer::resolver::FileSystem;
use atopile_analyzer::scope::FileScope;
use atopile_analyzer::source::AtopileSource;
use atopile_analyzer::span::{Position, Span, Spanned};
use atopile_analyzer::store::EvaluatorState;

fn sym(name: &str) -> Symbol {
    Symbol(name.to_string())
}

fn here(file: &str) -> Location {
    Location {
        file: file.to_string(),
        range: Range {
            start: Position { line: 0, column: 0 },
            end: Position { line: 0, column: 1 },
        },
    }
}

fn module(name: &str) -> ModuleRef {
    ModuleRef { source_path: "f.ato".to_string(), module_name: sym(name) }
}

fn at(name: &str, path: &[&str]) -> InstanceRef {
    InstanceRef { module: module(name), instance_path: path.iter().map(|p| sym(p)).collect() }
}

fn source(text: &str) -> AtopileSource {
    AtopileSource::new(text.to_string(), "f.ato".to_string())
}

#[test]
fn clearing_a_file_keeps_the_other_files() {
    let mut reporter = AnalyzerReporter::new();
    reporter.report_error(EvaluatorError::new(EvaluatorErrorKind::TypeNotFound, &here("a.ato")));
    reporter.report_error(EvaluatorError::new(EvaluatorErrorKind::ImportCycle, &here("b.ato")));
    reporter.clear(&"a.ato".to_string());
    reporter.clear(&"c.ato".to_string());
    let files: Vec<(String, usize)> =
        reporter.diagnostics().iter().map(|f| (f.0.clone(), f.1.len())).collect();
    assert_eq!(
        files,
        vec![("a.ato".to_string(), 0), ("b.ato".to_string(), 1), ("c.ato".to_string(), 0)]
    );
    reporter.reset();
    assert!(reporter.diagnostics().is_empty());
    assert_eq!(AnalyzerReporter::default(), AnalyzerReporter::new());
}

#[test]
fn a_scope_binds_the_last_definition_of_a_name() {
    let mut scope = FileScope::new();
    assert_eq!(scope.resolve(&sym("A")), None);
    scope.define(&sym("A"), &module("First"));
    scope.define(&sym("B"), &module("Other"));
    scope.define(&sym("A"), &module("Second"));
    assert_eq!(scope.resolve(&sym("A")), Some(&module("Second")));
    assert_eq!(scope.resolve(&sym("B")), Some(&module("Other")));
    assert_eq!(scope.resolve(&sym("C")), None);
}

#[test]
fn declarations_are_collected_without_duplicates_and_ordered_parents_first() {
    let text = "module C from B: pass\nmodule B from A: pass\nmodule C: pass\nmodule A: pass\nmodule D from Z: pass";
    let source = source(text);
    let mut reporter = AnalyzerReporter::new();
    let declarations = collect_block_declarations(&source, &mut reporter);
    let collected: Vec<(String, Option<String>, usize)> = declarations
        .iter()
        .map(|d| (d.name.0.clone(), d.parent.as_ref().map(|p| p.0.clone()), d.index))
        .collect();
    assert_eq!(
        collected,
        vec![
            ("C".to_string(), Some("B".to_string()), 0),
            ("B".to_string(), Some("A".to_string()), 1),
            ("A".to_string(), None, 3),
            ("D".to_string(), Some("Z".to_string()), 4),
        ]
    );
    let reported = reporter.diagnostics_for(&"f.ato".to_string());
    assert_eq!(reported.len(), 1);
    match &reported[0].kind {
        AnalyzerDiagnosticKind::Evaluator(e) => {
            assert_eq!(e.kind, EvaluatorErrorKind::DuplicateDeclaration);
            assert_eq!(e.location.range.start, Position { line: 2, column: 10 });
            assert_eq!(
                e.message,
                Some("Block 'C' is already declared at f.ato:0:17".to_string())
            );
        }
        other => panic!("unexpected diagnostic {:?}", other),
    }
    let order = sort_blocks(&declarations, &mut reporter);
    assert_eq!(order, vec![2, 1, 0, 3]);
    assert_eq!(reporter.diagnostics_for(&"f.ato".to_string()).len(), 1);
}

#[test]
fn a_cycle_is_reported_at_the_declaration_that_closes_it() {
    let source = source("module A from B: pass\nmodule B from C: pass\nmodule C from A: pass\nmodule S from S: pass");
    let mut reporter = AnalyzerReporter::new();
    let declarations = collect_block_declarations(&source, &mut reporter);
    let order = sort_blocks(&declarations, &mut reporter);
    assert_eq!(order, vec![2, 1, 0, 3]);
    let messages: Vec<String> = reporter
        .diagnostics_for(&"f.ato".to_string())
        .iter()
        .map(|d| match &d.kind {
            AnalyzerDiagnosticKind::Evaluator(e) => e.to_string(),
            other => panic!("unexpected diagnostic {:?}", other),
        })
        .collect();
    assert_eq!(
        messages,
        vec![
            "cyclic inheritance detected: Cyclic inheritance detected involving 'A'",
            "cyclic inheritance detected: Cyclic inheritance detected involving 'S'",
        ]
    );
}

#[test]
fn a_store_binds_each_identity_once() {
    let mut state = EvaluatorState::new();
    let first = Instance::new(&module("T"), InstanceKind::Module, &here("f.ato"));
    let second = Instance::new(&module("T"), InstanceKind::Component, &here("f.ato"));
    state.add_instance(&at("T", &[]), first);
    state.add_instance(&at("T", &["a"]), Instance::port(&here("f.ato")));
    state.add_instance(&at("T", &[]), second);
    assert_eq!(state.len(), 2);
    assert_eq!(state.position(&at("T", &["a"])), 1);
    assert_eq!(state.position(&at("T", &["b"])), 2);
    assert_eq!(state.resolve_instance(&at("T", &[])).map(|i| i.kind), Some(InstanceKind::Component));

    let wire = Connection::new(at("T", &["a"]), at("T", &["b"]));
    assert!(state.add_connection(&at("T", &[]), wire.clone()));
    assert!(state.add_connection(&at("T", &[]), wire.clone()));
    assert!(!state.add_connection(&at("T", &["gone"]), wire.clone()));
    assert_eq!(state.resolve_instance(&at("T", &[])).unwrap().connections, vec![wire.clone(), wire]);

    assert!(state.add_attribute(&at("T", &["a"]), &sym("v"), AttributeValue::Boolean(true)));
    assert!(state.add_attribute(&at("T", &["a"]), &sym("v"), AttributeValue::Boolean(false)));
    assert!(!state.add_attribute(&at("T", &["gone"]), &sym("v"), AttributeValue::Boolean(true)));
    assert_eq!(
        state.resolve_instance(&at("T", &["a"])).unwrap().attributes,
        vec![(sym("v"), AttributeValue::Boolean(false))]
    );

    state.set_reference_designator(0, "U1".to_string());
    assert_eq!(state.entry(0).1.reference_designator, Some("U1".to_string()));
    assert_eq!(state.clone(), state);

    let removed = state.remove_instance(&at("T", &[])).expect("the root");
    assert_eq!(removed.kind, InstanceKind::Component);
    assert_eq!(state.remove_instance(&at("T", &[])), None);
    assert!(!state.contains(&at("T", &[])));
    assert!(state.contains(&at("T", &["a"])));
    assert_eq!(EvaluatorState::default().len(), 0);
}

#[test]
fn an_instance_names_each_attribute_and_child_once() {
    let mut instance = Instance::pin(&here("f.ato"));
    assert_eq!(instance.kind, InstanceKind::Pin);
    assert_eq!(instance.type_ref, ModuleRef::pin());
    instance.add_attribute(&sym("a"), AttributeValue::Number("1".to_string()));
    instance.add_attribute(&sym("b"), AttributeValue::Number("2".to_string()));
    instance.add_attribute(&sym("a"), AttributeValue::Number("3".to_string()));
    assert_eq!(
        instance.attributes,
        vec![
            (sym("a"), AttributeValue::Number("3".to_string())),
            (sym("b"), AttributeValue::Number("2".to_string())),
        ]
    );
    instance.add_child(&sym("x"), &at("T", &["x"]));
    instance.add_child(&sym("x"), &at("T", &["y"]));
    assert_eq!(instance.children, vec![(sym("x"), at("T", &["y"]))]);
    instance.add_connection(Connection::new(at("T", &["x"]), at("T", &["y"])));
    assert_eq!(instance.connections.len(), 1);
    let copy = instance.clone();
    assert_eq!(copy, instance);
    let nested = AttributeValue::Array(vec![
        AttributeValue::Boolean(true),
        AttributeValue::Array(vec![AttributeValue::String("s".to_string())]),
    ]);
    assert_eq!(nested.clone(), nested);
}

#[test]
fn a_path_starts_with_its_leading_parts() {
    let path = |parts: &[&str]| parts.iter().map(|p| sym(p)).collect::<Vec<_>>();
    assert!(path_starts_with(&path(&["a", "b", "c"]), &path(&["a", "b"])));
    assert!(path_starts_with(&path(&["a"]), &path(&[])));
    assert!(path_starts_with(&path(&["a"]), &path(&["a"])));
    assert!(!path_starts_with(&path(&["a"]), &path(&["a", "b"])));
    assert!(!path_starts_with(&path(&["a", "b"]), &path(&["b"])));
}

#[test]
fn expressions_without_a_value_become_the_empty_text() {
    let new = Expr::New(Spanned(sym("T"), Span { start: 0, end: 1 }));
    assert_eq!(AttributeValue::from_expr(&new), AttributeValue::String(String::new()));
    let number = Expr::Number(Spanned("1e3".to_string(), Span { start: 0, end: 3 }));
    assert_eq!(AttributeValue::from_expr(&number), AttributeValue::Number("1e3".to_string()));
}

#[test]
fn the_netlist_is_the_graph_with_designators() {
    let file = "/project/src/main.ato";
    let mut analyzer = AtopileAnalyzer::new();
    analyzer.set_file_system(FileSystem {
        canonical: vec![],
        existing: vec!["/project/ato.yaml".to_string(), "/project/build/default.net".to_string()],
    });
    analyzer.set_source(
        file.to_string(),
        AtopileSource::new(
            "component R:\n    pin 1\n\nmodule Top:\n    r1 = new R".to_string(),
            file.to_string(),
        ),
    );
    let netlists = vec![(
        "/project/build/default.net".to_string(),
        "(comp (ref \"R5\")\n (sheetpath (names \"/project/src/main.ato:Top::r1\")))".to_string(),
    )];
    let graph = analyzer.get_netlist(&netlists);
    let stamped: Vec<(String, Option<String>)> = (0..graph.len())
        .map(|i| (graph.entry(i).0.to_string(), graph.entry(i).1.reference_designator.clone()))
        .collect();
    assert_eq!(
        stamped,
        vec![
            ("/project/src/main.ato:R.1".to_string(), None),
            ("/project/src/main.ato:R".to_string(), None),
            ("/project/src/main.ato:Top.r1.1".to_string(), None),
            ("/project/src/main.ato:Top.r1".to_string(), Some("R5".to_string())),
            ("/project/src/main.ato:Top".to_string(), None),
        ]
    );
    assert_eq!(AtopileAnalyzer::default().get_open_files().len(), 0);
}

#[test]
fn a_copy_may_go_one_level_deeper_than_the_store_is_deep() {
    let mut state = EvaluatorState::new();
    assert_eq!(state.depth_limit(), 1);
    state.add_instance(&at("T", &[]), Instance::new(&module("T"), InstanceKind::Module, &here("f.ato")));
    assert_eq!(state.depth_limit(), 1);
    state.add_instance(&at("T", &["a", "b"]), Instance::port(&here("f.ato")));
    state.add_instance(&at("T", &["a"]), Instance::port(&here("f.ato")));
    assert_eq!(state.depth_limit(), 3);
}

#[test]
fn instances_nested_many_levels_deep_are_copied_whole() {
    let mut text = String::from("module L0:\n    signal s\n");
    for level in 1..12 {
        text.push_str(&format!("module L{}:\n    x = new L{}\n", level, level - 1));
    }
    let file = "deep.ato";
    let mut evaluator = atopile_analyzer::evaluator::Evaluator::new();
    evaluator.set_source(file.to_string(), AtopileSource::new(text, file.to_string()));
    assert!(evaluator.reporter().diagnostics_for(&file.to_string()).is_empty());
    let deepest = InstanceRef {
        module: ModuleRef { source_path: file.to_string(), module_name: sym("L11") },
        instance_path: std::iter::repeat("x").take(11).chain(["s"]).map(sym).collect(),
    };
    assert_eq!(
        evaluator.state().resolve_instance(&deepest).map(|i| i.kind),
        Some(InstanceKind::Port)
    );
    assert_eq!(evaluator.state().len(), 2 + 3 + 4 + 5 + 6 + 7 + 8 + 9 + 10 + 11 + 12 + 13);
}
