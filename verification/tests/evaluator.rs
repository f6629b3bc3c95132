use atopile_analyzer::analyzer::AtopileAnalyzer;
use atopile_analyzer::ast::{
    AssignStmt, BlockKind, BlockStmt, CommentStmt, ConnectStmt, Connectable, DepImportStmt, Expr,
    ImportStmt, PhysicalValue, PinStmt, PortRef, SignalStmt, Stmt, Symbol, Tolerance,
};
use atopile_analyzer::diagnostics::{
    AnalyzerDiagnostic, AnalyzerDiagnosticKind, AnalyzerDiagnosticSeverity,
};
use atopile_analyzer::error::EvaluatorErrorKind;
use atopile_analyzer::evaluator::Evaluator;
use atopile_analyzer::instance::{
    AttributeValue, Connection, Instance, InstanceKind, InstanceRef, ModuleRef,
};
use atopile_analyzer::resolver::FileSystem;
use atopile_analyzer::source::AtopileSource;
use atopile_analyzer::span::{Span, Spanned};
use atopile_analyzer::store::EvaluatorState;

const FILE: &str = "/project/main.ato";

fn sp<T>(item: T, at: usize) -> Spanned<T> {
    Spanned(item, Span { start: at, end: at + 1 })
}

fn sym(name: &str) -> Symbol {
    Symbol(name.to_string())
}

fn port_ref(path: &str, at: usize) -> Spanned<PortRef> {
    sp(
        PortRef { parts: path.split('.').map(|p| sp(p.to_string(), at)).collect() },
        at,
    )
}

fn block(
    kind: BlockKind,
    name: &str,
    parent: Option<&str>,
    body: Vec<Spanned<Stmt>>,
    at: usize,
) -> Spanned<Stmt> {
    sp(
        Stmt::Block(BlockStmt {
            kind: sp(kind, at),
            name: sp(sym(name), at),
            parent: parent.map(|p| sp(sym(p), at)),
            body,
        }),
        at,
    )
}

fn module(name: &str, body: Vec<Spanned<Stmt>>, at: usize) -> Spanned<Stmt> {
    block(BlockKind::Module, name, None, body, at)
}

fn interface(name: &str, body: Vec<Spanned<Stmt>>, at: usize) -> Spanned<Stmt> {
    block(BlockKind::Interface, name, None, body, at)
}

fn new_instance(name: &str, of: &str, at: usize) -> Spanned<Stmt> {
    sp(
        Stmt::Assign(AssignStmt {
            target: port_ref(name, at),
            type_info: None,
            value: sp(Expr::New(sp(sym(of), at)), at),
        }),
        at,
    )
}

fn assign(target: &str, value: Expr, at: usize) -> Spanned<Stmt> {
    sp(
        Stmt::Assign(AssignStmt { target: port_ref(target, at), type_info: None, value: sp(value, at) }),
        at,
    )
}

fn signal(name: &str, at: usize) -> Spanned<Stmt> {
    sp(Stmt::Signal(SignalStmt { name: sp(sym(name), at) }), at)
}

fn pin(name: &str, at: usize) -> Spanned<Stmt> {
    sp(Stmt::Pin(PinStmt { name: sp(sym(name), at) }), at)
}

fn connect(left: Connectable, right: Connectable, at: usize) -> Spanned<Stmt> {
    sp(Stmt::Connect(ConnectStmt { left: sp(left, at), right: sp(right, at) }), at)
}

fn path(text: &str, at: usize) -> Connectable {
    Connectable::Port(port_ref(text, at))
}

fn import(from: &str, symbols: &[&str], at: usize) -> Spanned<Stmt> {
    sp(
        Stmt::Import(ImportStmt {
            from_path: sp(from.to_string(), at),
            imports: symbols.iter().map(|s| sp(sym(s), at)).collect(),
        }),
        at,
    )
}

fn pass(at: usize) -> Spanned<Stmt> {
    sp(Stmt::Pass, at)
}

fn source_at(file: &str, ast: Vec<Spanned<Stmt>>) -> AtopileSource {
    AtopileSource::from_parts(String::new(), file.to_string(), ast, vec![])
}

fn evaluate(ast: Vec<Spanned<Stmt>>) -> Evaluator {
    let mut evaluator = Evaluator::new();
    evaluator.set_source(FILE.to_string(), source_at(FILE, ast));
    evaluator
}

fn type_in(file: &str, name: &str) -> ModuleRef {
    ModuleRef { source_path: file.to_string(), module_name: sym(name) }
}

fn at_in(file: &str, name: &str, instance_path: &[&str]) -> InstanceRef {
    InstanceRef {
        module: type_in(file, name),
        instance_path: instance_path.iter().map(|p| sym(p)).collect(),
    }
}

fn at(name: &str, instance_path: &[&str]) -> InstanceRef {
    at_in(FILE, name, instance_path)
}

fn get<'a>(evaluator: &'a Evaluator, name: &str, instance_path: &[&str]) -> &'a Instance {
    evaluator
        .state().resolve_instance(&at(name, instance_path))
        .unwrap_or_else(|| panic!("no instance {}.{:?}", name, instance_path))
}

fn kinds(evaluator: &Evaluator, file: &str) -> Vec<EvaluatorErrorKind> {
    evaluator
        .reporter()
        .diagnostics_for(&file.to_string())
        .iter()
        .map(|d| match &d.kind {
            AnalyzerDiagnosticKind::Evaluator(e) => e.kind,
            other => panic!("unexpected diagnostic {:?}", other),
        })
        .collect()
}

fn messages(evaluator: &Evaluator, file: &str) -> Vec<String> {
    evaluator
        .reporter()
        .diagnostics_for(&file.to_string())
        .iter()
        .map(|d| match &d.kind {
            AnalyzerDiagnosticKind::Evaluator(e) => e.to_string(),
            other => panic!("unexpected diagnostic {:?}", other),
        })
        .collect()
}

fn child_names(instance: &Instance) -> Vec<String> {
    instance.children.iter().map(|c| c.0 .0.clone()).collect()
}

fn wire(name: &str, left: &[&str], right: &[&str]) -> Connection {
    Connection { left: at(name, left), right: at(name, right) }
}

fn keys(state: &EvaluatorState) -> Vec<String> {
    let mut out: Vec<String> = (0..state.len()).map(|i| state.entry(i).0.to_string()).collect();
    out.sort();
    out
}

#[test]
fn simple_module() {
    let evaluator = evaluate(vec![module("M", vec![pass(1)], 0)]);
    let m = get(&evaluator, "M", &[]);
    assert_eq!(m.kind, InstanceKind::Module);
    assert_eq!(m.type_ref, type_in(FILE, "M"));
    assert!(m.children.is_empty());
    assert!(m.attributes.is_empty());
    assert!(m.connections.is_empty());
    assert_eq!(m.reference_designator, None);
    assert_eq!(evaluator.state().len(), 1);
    assert!(kinds(&evaluator, FILE).is_empty());
}

#[test]
fn simple_component() {
    let evaluator = evaluate(vec![block(
        BlockKind::Component,
        "C",
        None,
        vec![
            pin("1", 1),
            signal("a", 2),
            assign("value", Expr::String(sp("10k".to_string(), 3)), 3),
            assign("count", Expr::Number(sp("3".to_string(), 4)), 4),
            assign("fitted", Expr::Bool(sp(true, 5)), 5),
        ],
        0,
    )]);
    let c = get(&evaluator, "C", &[]);
    assert_eq!(c.kind, InstanceKind::Component);
    assert_eq!(child_names(c), vec!["1", "a"]);
    assert_eq!(get(&evaluator, "C", &["1"]).kind, InstanceKind::Pin);
    assert_eq!(get(&evaluator, "C", &["a"]).kind, InstanceKind::Port);
    assert_eq!(
        c.attributes,
        vec![
            (sym("value"), AttributeValue::String("10k".to_string())),
            (sym("count"), AttributeValue::Number("3".to_string())),
            (sym("fitted"), AttributeValue::Boolean(true)),
        ]
    );
    assert!(kinds(&evaluator, FILE).is_empty());
}

#[test]
fn simple_connection() {
    let evaluator = evaluate(vec![module(
        "M",
        vec![signal("a", 1), signal("b", 2), connect(path("a", 3), path("b", 3), 3)],
        0,
    )]);
    let m = get(&evaluator, "M", &[]);
    assert_eq!(m.connections, vec![wire("M", &["a"], &["b"])]);
    assert!(kinds(&evaluator, FILE).is_empty());
}

#[test]
fn pin_connections() {
    let evaluator = evaluate(vec![block(
        BlockKind::Component,
        "C",
        None,
        vec![connect(
            Connectable::Signal(sp("vcc".to_string(), 1)),
            Connectable::Pin(sp("1".to_string(), 1)),
            1,
        )],
        0,
    )]);
    let c = get(&evaluator, "C", &[]);
    assert_eq!(child_names(c), vec!["vcc", "1"]);
    assert_eq!(get(&evaluator, "C", &["vcc"]).kind, InstanceKind::Port);
    assert_eq!(get(&evaluator, "C", &["1"]).kind, InstanceKind::Pin);
    assert_eq!(c.connections, vec![wire("C", &["vcc"], &["1"])]);
    assert!(kinds(&evaluator, FILE).is_empty());
}

#[test]
fn forward_reference() {
    let evaluator = evaluate(vec![
        module("Top", vec![new_instance("r", "Later", 1)], 0),
        module("Later", vec![signal("p", 3)], 2),
    ]);
    assert_eq!(kinds(&evaluator, FILE), vec![EvaluatorErrorKind::Internal]);
    let messages = messages(&evaluator, FILE);
    assert_eq!(
        messages[0],
        "internal error: Failed to clone instance `/project/main.ato:Later`: Tried to clone \
         instance `/project/main.ato:Later` but it doesn't exist"
    );
    assert!(get(&evaluator, "Top", &[]).children.is_empty());
    assert_eq!(child_names(get(&evaluator, "Later", &[])), vec!["p"]);
}

#[test]
fn dependency_ordering() {
    let evaluator = evaluate(vec![
        block(BlockKind::Module, "B", Some("A"), vec![pass(1)], 0),
        module("A", vec![signal("x", 3)], 2),
    ]);
    assert!(kinds(&evaluator, FILE).is_empty());
    let b = get(&evaluator, "B", &[]);
    assert_eq!(child_names(b), vec!["x"]);
    assert_eq!(b.children[0].1, at("B", &["x"]));
    assert_eq!(b.type_ref, type_in(FILE, "B"));
    assert_eq!(get(&evaluator, "B", &["x"]).kind, InstanceKind::Port);
    assert_eq!(
        keys(evaluator.state()),
        vec![
            "/project/main.ato:A",
            "/project/main.ato:A.x",
            "/project/main.ato:B",
            "/project/main.ato:B.x",
        ]
    );
}

#[test]
fn cyclic_inheritance() {
    let evaluator = evaluate(vec![
        block(BlockKind::Module, "A", Some("B"), vec![pass(1)], 0),
        block(BlockKind::Module, "B", Some("A"), vec![pass(3)], 2),
    ]);
    let found = kinds(&evaluator, FILE);
    let cycles = found.iter().filter(|k| **k == EvaluatorErrorKind::CyclicInheritance).count();
    assert_eq!(cycles, 1);
    assert_eq!(
        messages(&evaluator, FILE)[0],
        "cyclic inheritance detected: Cyclic inheritance detected involving 'A'"
    );
}

#[test]
fn duplicate_declaration() {
    let evaluator = evaluate(vec![
        module("M", vec![signal("first", 1)], 0),
        module("M", vec![signal("second", 3)], 2),
    ]);
    assert_eq!(kinds(&evaluator, FILE), vec![EvaluatorErrorKind::DuplicateDeclaration]);
    assert_eq!(
        messages(&evaluator, FILE)[0],
        "duplicate declaration: Block 'M' is already declared at /project/main.ato:0:0"
    );
    assert_eq!(child_names(get(&evaluator, "M", &[])), vec!["first"]);
}

#[test]
fn connecting_a_module_to_a_port_is_an_invalid_assignment() {
    let evaluator = evaluate(vec![
        module("Inner", vec![pass(1)], 0),
        module(
            "Top",
            vec![new_instance("m", "Inner", 3), signal("p", 4), connect(path("m", 5), path("p", 5), 5)],
            2,
        ),
    ]);
    assert_eq!(kinds(&evaluator, FILE), vec![EvaluatorErrorKind::InvalidAssignment]);
    assert_eq!(
        messages(&evaluator, FILE)[0],
        "invalid assignment: Cannot connect instances of different kind: `Module` and `Port`"
    );
    for i in 0..evaluator.state().len() {
        assert!(evaluator.state().entry(i).1.connections.is_empty());
    }
}

#[test]
fn interfaces_connect_child_by_child() {
    let evaluator = evaluate(vec![
        interface("IF", vec![signal("b", 1), signal("a", 2)], 0),
        module(
            "Top",
            vec![
                new_instance("x", "IF", 4),
                new_instance("y", "IF", 5),
                connect(path("x", 6), path("y", 6), 6),
            ],
            3,
        ),
    ]);
    assert!(kinds(&evaluator, FILE).is_empty());
    let top = get(&evaluator, "Top", &[]);
    assert_eq!(
        top.connections,
        vec![wire("Top", &["x", "a"], &["y", "a"]), wire("Top", &["x", "b"], &["y", "b"])]
    );
    let total: usize =
        (0..evaluator.state().len()).map(|i| evaluator.state().entry(i).1.connections.len()).sum();
    assert_eq!(total, 2);
}

#[test]
fn interfaces_of_different_types_do_not_connect() {
    let evaluator = evaluate(vec![
        interface("IF", vec![signal("a", 1)], 0),
        interface("Other", vec![signal("a", 3)], 2),
        module(
            "Top",
            vec![
                new_instance("x", "IF", 5),
                new_instance("y", "Other", 6),
                connect(path("x", 7), path("y", 7), 7),
            ],
            4,
        ),
    ]);
    assert_eq!(kinds(&evaluator, FILE), vec![EvaluatorErrorKind::InvalidAssignment]);
    assert_eq!(
        messages(&evaluator, FILE)[0],
        "invalid assignment: cannot connect interfaces of different type: \
         `/project/main.ato:IF` and `/project/main.ato:Other`"
    );
    assert!(get(&evaluator, "Top", &[]).connections.is_empty());
}

#[test]
fn a_wire_between_siblings_is_filed_at_their_parent() {
    let evaluator = evaluate(vec![
        module("Inner", vec![signal("a", 1), signal("b", 2)], 0),
        module(
            "Top",
            vec![new_instance("x", "Inner", 4), connect(path("x.a", 5), path("x.b", 5), 5)],
            3,
        ),
    ]);
    assert!(kinds(&evaluator, FILE).is_empty());
    assert!(get(&evaluator, "Top", &[]).connections.is_empty());
    assert_eq!(
        get(&evaluator, "Top", &["x"]).connections,
        vec![wire("Top", &["x", "a"], &["x", "b"])]
    );
}

#[test]
fn a_wire_between_cousins_is_filed_at_the_block() {
    let evaluator = evaluate(vec![
        module("Inner", vec![signal("a", 1)], 0),
        module(
            "Top",
            vec![
                new_instance("x", "Inner", 4),
                new_instance("y", "Inner", 5),
                connect(path("x.a", 6), path("y.a", 6), 6),
                connect(path("x.a", 7), path("y.a", 7), 7),
            ],
            3,
        ),
    ]);
    assert!(kinds(&evaluator, FILE).is_empty());
    let expected = wire("Top", &["x", "a"], &["y", "a"]);
    assert_eq!(get(&evaluator, "Top", &[]).connections, vec![expected.clone(), expected]);
}

#[test]
fn connecting_what_does_not_exist_is_an_invalid_connection() {
    let evaluator = evaluate(vec![module(
        "Top",
        vec![signal("a", 1), connect(path("a", 2), path("nowhere", 2), 2)],
        0,
    )]);
    assert_eq!(kinds(&evaluator, FILE), vec![EvaluatorErrorKind::InvalidConnection]);
    assert_eq!(
        messages(&evaluator, FILE)[0],
        "invalid connection: `/project/main.ato:Top.nowhere` does not exist"
    );
}

#[test]
fn clone_copies_the_whole_subtree() {
    let evaluator = evaluate(vec![
        module(
            "Leaf",
            vec![
                signal("a", 1),
                signal("b", 2),
                connect(path("a", 3), path("b", 3), 3),
                assign("value", Expr::String(sp("v".to_string(), 4)), 4),
            ],
            0,
        ),
        module(
            "Mid",
            vec![
                new_instance("l", "Leaf", 6),
                signal("s", 7),
                connect(path("l.a", 8), path("s", 8), 8),
            ],
            5,
        ),
        module("Top", vec![new_instance("m", "Mid", 10)], 9),
    ]);
    assert!(kinds(&evaluator, FILE).is_empty());
    assert_eq!(
        keys(evaluator.state()),
        vec![
            "/project/main.ato:Leaf",
            "/project/main.ato:Leaf.a",
            "/project/main.ato:Leaf.b",
            "/project/main.ato:Mid",
            "/project/main.ato:Mid.l",
            "/project/main.ato:Mid.l.a",
            "/project/main.ato:Mid.l.b",
            "/project/main.ato:Mid.s",
            "/project/main.ato:Top",
            "/project/main.ato:Top.m",
            "/project/main.ato:Top.m.l",
            "/project/main.ato:Top.m.l.a",
            "/project/main.ato:Top.m.l.b",
            "/project/main.ato:Top.m.s",
        ]
    );
    let copy = get(&evaluator, "Top", &["m"]);
    assert_eq!(copy.kind, InstanceKind::Module);
    assert_eq!(copy.type_ref, type_in(FILE, "Mid"));
    assert_eq!(
        copy.children,
        vec![(sym("l"), at("Top", &["m", "l"])), (sym("s"), at("Top", &["m", "s"]))]
    );
    assert_eq!(copy.connections, vec![wire("Top", &["m", "l", "a"], &["m", "s"])]);
    let leaf = get(&evaluator, "Top", &["m", "l"]);
    assert_eq!(leaf.type_ref, type_in(FILE, "Leaf"));
    assert_eq!(leaf.attributes, vec![(sym("value"), AttributeValue::String("v".to_string()))]);
    assert_eq!(leaf.connections, vec![wire("Top", &["m", "l", "a"], &["m", "l", "b"])]);
    assert_eq!(get(&evaluator, "Mid", &["l"]).connections, vec![wire("Mid", &["l", "a"], &["l", "b"])]);
    assert_eq!(get(&evaluator, "Leaf", &[]).connections, vec![wire("Leaf", &["a"], &["b"])]);
}

#[test]
fn a_clone_does_not_share_with_its_source() {
    let evaluator = evaluate(vec![
        module("Inner", vec![signal("a", 1)], 0),
        module(
            "Top",
            vec![
                new_instance("x", "Inner", 3),
                assign("x.note", Expr::String(sp("mine".to_string(), 4)), 4),
            ],
            2,
        ),
    ]);
    assert!(kinds(&evaluator, FILE).is_empty());
    assert_eq!(
        get(&evaluator, "Top", &["x"]).attributes,
        vec![(sym("note"), AttributeValue::String("mine".to_string()))]
    );
    assert!(get(&evaluator, "Inner", &[]).attributes.is_empty());
}

#[test]
fn clone_instance_reports_what_is_missing() {
    let mut state = EvaluatorState::new();
    let here = atopile_analyzer::location::Location {
        file: FILE.to_string(),
        range: atopile_analyzer::location::Range {
            start: atopile_analyzer::span::Position { line: 0, column: 0 },
            end: atopile_analyzer::span::Position { line: 0, column: 1 },
        },
    };
    let mut root = Instance::new(&type_in(FILE, "T"), InstanceKind::Module, &here);
    root.add_child(&sym("gone"), &at("T", &["gone"]));
    state.add_instance(&at("T", &[]), root);
    let failed = state.clone_instance(&at("T", &[]), &at("U", &["t"]), None, 5);
    assert_eq!(
        failed.map_err(|e| e.to_string()),
        Err("Tried to clone instance `/project/main.ato:T.gone` but it doesn't exist".to_string())
    );
    assert_eq!(state.len(), 1);
    let too_deep = state.clone_instance(&at("T", &[]), &at("U", &["t"]), None, 0);
    assert_eq!(
        too_deep.map_err(|e| e.to_string()),
        Err("Tried to clone instance `/project/main.ato:T` but it is nested too deeply".to_string())
    );
}

#[test]
fn evaluation_is_deterministic() {
    let ast = || {
        vec![
            interface("IF", vec![signal("a", 1), signal("b", 2)], 0),
            module(
                "Top",
                vec![
                    new_instance("x", "IF", 4),
                    new_instance("y", "IF", 5),
                    connect(path("x", 6), path("y", 6), 6),
                    new_instance("z", "Missing", 7),
                ],
                3,
            ),
        ]
    };
    let mut first = evaluate(ast());
    let second = evaluate(ast());
    assert_eq!(first.state(), second.state());
    assert_eq!(first.reporter(), second.reporter());
    let before = first.state().clone();
    let again = first.evaluate();
    assert_eq!(again, before);
    assert_eq!(first.reporter(), second.reporter());
}

#[test]
fn a_failing_statement_does_not_stop_the_block() {
    let evaluator = evaluate(vec![module(
        "Top",
        vec![
            new_instance("x", "Missing", 1),
            new_instance("a.b", "Top", 2),
            assign("x.y.value", Expr::Bool(sp(false, 3)), 3),
            signal("s", 4),
            signal("s", 5),
            new_instance("s", "Top", 6),
        ],
        0,
    )]);
    assert_eq!(
        kinds(&evaluator, FILE),
        vec![
            EvaluatorErrorKind::TypeNotFound,
            EvaluatorErrorKind::InvalidAssignment,
            EvaluatorErrorKind::InvalidAssignment,
            EvaluatorErrorKind::InvalidAssignment,
        ]
    );
    let messages = messages(&evaluator, FILE);
    assert_eq!(messages[0], "type not found");
    assert_eq!(messages[1], "invalid assignment: Cannot create new module in sub-module");
    assert_eq!(messages[2], "invalid assignment");
    assert_eq!(messages[3], "invalid assignment: `s` already exists");
    assert_eq!(child_names(get(&evaluator, "Top", &[])), vec!["s"]);
}

#[test]
fn attributes_hold_what_the_expression_displays() {
    let physical = PhysicalValue {
        value: sp("10".to_string(), 1),
        unit: Some(sp("kohm".to_string(), 1)),
        tolerance: Some(sp(
            Tolerance::Bilateral { value: sp("5".to_string(), 1), unit: None },
            1,
        )),
    };
    let bound = PhysicalValue {
        value: sp("3".to_string(), 2),
        unit: None,
        tolerance: Some(sp(
            Tolerance::Bound { min: sp("0".to_string(), 2), max: sp("5".to_string(), 2) },
            2,
        )),
    };
    let evaluator = evaluate(vec![module(
        "Top",
        vec![
            assign("r", Expr::Physical(sp(physical, 1)), 1),
            assign("b", Expr::Physical(sp(bound, 2)), 2),
            assign("p", Expr::Port(port_ref("a.b.c", 3)), 3),
            assign("r", Expr::Number(sp("1.5".to_string(), 4)), 4),
        ],
        0,
    )]);
    assert!(kinds(&evaluator, FILE).is_empty());
    assert_eq!(
        get(&evaluator, "Top", &[]).attributes,
        vec![
            (sym("r"), AttributeValue::Number("1.5".to_string())),
            (sym("b"), AttributeValue::Physical("3 (0 to 5)".to_string())),
            (sym("p"), AttributeValue::Port("a.b.c".to_string())),
        ]
    );
    let first = evaluate(vec![module(
        "Top",
        vec![assign(
            "r",
            Expr::Physical(sp(
                PhysicalValue {
                    value: sp("10".to_string(), 1),
                    unit: Some(sp("kohm".to_string(), 1)),
                    tolerance: Some(sp(
                        Tolerance::Bilateral { value: sp("5".to_string(), 1), unit: None },
                        1,
                    )),
                },
                1,
            )),
            1,
        )],
        0,
    )]);
    assert_eq!(
        get(&first, "Top", &[]).attributes,
        vec![(sym("r"), AttributeValue::Physical("10kohm ± 5%".to_string()))]
    );
}

#[test]
fn top_level_statements_other_than_imports_and_comments_are_unexpected() {
    let evaluator = evaluate(vec![
        sp(Stmt::Comment(CommentStmt { comment: sp("note".to_string(), 0) }), 0),
        signal("stray", 1),
        sp(Stmt::ParseError("syntax error".to_string()), 2),
        pass(3),
    ]);
    assert_eq!(
        kinds(&evaluator, FILE),
        vec![
            EvaluatorErrorKind::UnexpectedStmt,
            EvaluatorErrorKind::ParseError,
            EvaluatorErrorKind::UnexpectedStmt,
        ]
    );
    assert_eq!(messages(&evaluator, FILE)[1], "parse error: syntax error");
    assert_eq!(evaluator.state().len(), 0);
}

#[test]
fn inheriting_from_an_unknown_type_is_reported() {
    let evaluator = evaluate(vec![block(BlockKind::Module, "B", Some("Nowhere"), vec![pass(1)], 0)]);
    assert_eq!(kinds(&evaluator, FILE), vec![EvaluatorErrorKind::TypeNotFound]);
    assert!(evaluator.state().resolve_instance(&at("B", &[])).is_none());
}

const ONE: &str = "/project/one.ato";
const TWO: &str = "/project/two.ato";

fn two_files(evaluator: &mut Evaluator, one: Vec<Spanned<Stmt>>, two: Vec<Spanned<Stmt>>) {
    evaluator.set_source(ONE.to_string(), source_at(ONE, one));
    evaluator.set_source(TWO.to_string(), source_at(TWO, two));
}

#[test]
fn an_import_binds_the_type_of_another_file() {
    let mut evaluator = Evaluator::new();
    two_files(
        &mut evaluator,
        vec![import(TWO, &["Part"], 0), module("Top", vec![new_instance("p", "Part", 2)], 1)],
        vec![module("Part", vec![signal("a", 1)], 0)],
    );
    assert!(kinds(&evaluator, ONE).is_empty());
    assert!(kinds(&evaluator, TWO).is_empty());
    let copy = evaluator.state().resolve_instance(&at_in(ONE, "Top", &["p"])).expect("the copy");
    assert_eq!(copy.type_ref, type_in(TWO, "Part"));
    assert!(evaluator.state().contains(&at_in(ONE, "Top", &["p", "a"])));
    assert!(evaluator.state().contains(&at_in(TWO, "Part", &["a"])));
}

#[test]
fn a_dependency_import_binds_one_symbol() {
    let mut evaluator = Evaluator::new();
    two_files(
        &mut evaluator,
        vec![
            sp(
                Stmt::DepImport(DepImportStmt {
                    name: sp(sym("Part"), 0),
                    from_path: sp(TWO.to_string(), 0),
                }),
                0,
            ),
            block(BlockKind::Module, "Top", Some("Part"), vec![pass(2)], 1),
        ],
        vec![module("Part", vec![signal("a", 1)], 0)],
    );
    assert!(kinds(&evaluator, ONE).is_empty());
    assert_eq!(child_names(evaluator.state().resolve_instance(&at_in(ONE, "Top", &[])).unwrap()), vec!["a"]);
}

#[test]
fn an_import_cycle_is_reported_once() {
    let mut evaluator = Evaluator::new();
    two_files(
        &mut evaluator,
        vec![import(TWO, &["Two"], 0), module("One", vec![pass(2)], 1)],
        vec![import(ONE, &["One"], 0), module("Two", vec![pass(2)], 1)],
    );
    let mut all = kinds(&evaluator, ONE);
    all.extend(kinds(&evaluator, TWO));
    let cycles = all.iter().filter(|k| **k == EvaluatorErrorKind::ImportCycle).count();
    assert_eq!(cycles, 1);
    assert!(evaluator.state().contains(&at_in(ONE, "One", &[])));
    assert!(evaluator.state().contains(&at_in(TWO, "Two", &[])));
}

#[test]
fn imports_that_fail_are_reported_by_kind() {
    let mut evaluator = Evaluator::new();
    two_files(
        &mut evaluator,
        vec![
            import("missing.ato", &["X"], 0),
            import("/project/unloaded.ato", &["Y"], 1),
            import(TWO, &["Part", "Absent"], 2),
        ],
        vec![module("Part", vec![pass(1)], 0)],
    );
    assert_eq!(
        kinds(&evaluator, ONE),
        vec![
            EvaluatorErrorKind::ImportPathNotFound,
            EvaluatorErrorKind::ImportLoadFailed,
            EvaluatorErrorKind::ImportNotFound,
        ]
    );
    assert_eq!(
        messages(&evaluator, ONE)[1],
        "failed to load import: `/project/unloaded.ato` is not loaded"
    );
}

#[test]
fn a_relative_import_resolves_beside_the_importing_file() {
    let mut evaluator = Evaluator::new();
    evaluator.set_file_system(FileSystem {
        canonical: vec![("/project/two.ato".to_string(), TWO.to_string())],
        existing: vec![],
    });
    two_files(
        &mut evaluator,
        vec![import("two.ato", &["Part"], 0), module("Top", vec![new_instance("p", "Part", 2)], 1)],
        vec![module("Part", vec![pass(1)], 0)],
    );
    assert!(kinds(&evaluator, ONE).is_empty());
    assert!(evaluator.state().contains(&at_in(ONE, "Top", &["p"])));
}

#[test]
fn removing_a_source_evaluates_again() {
    let mut evaluator = Evaluator::new();
    two_files(
        &mut evaluator,
        vec![import(TWO, &["Part"], 0), module("Top", vec![new_instance("p", "Part", 2)], 1)],
        vec![module("Part", vec![pass(1)], 0)],
    );
    assert_eq!(evaluator.files().len(), 2);
    evaluator.remove_source(&TWO.to_string());
    assert_eq!(evaluator.files().len(), 1);
    assert_eq!(
        kinds(&evaluator, ONE),
        vec![EvaluatorErrorKind::ImportLoadFailed, EvaluatorErrorKind::TypeNotFound]
    );
    assert!(!evaluator.state().contains(&at_in(TWO, "Part", &[])));
    evaluator.reset();
    assert_eq!(evaluator.state().len(), 0);
    assert!(evaluator.reporter().diagnostics().is_empty());
}

#[test]
fn replacing_a_source_replaces_its_diagnostics() {
    let mut evaluator = evaluate(vec![module("Top", vec![new_instance("x", "Missing", 1)], 0)]);
    assert_eq!(kinds(&evaluator, FILE), vec![EvaluatorErrorKind::TypeNotFound]);
    evaluator.set_source(FILE.to_string(), source_at(FILE, vec![module("Top", vec![pass(1)], 0)]));
    assert!(kinds(&evaluator, FILE).is_empty());
    assert_eq!(evaluator.files().len(), 1);
}

fn unconnected(diagnostics: &[AnalyzerDiagnostic]) -> Vec<(String, String)> {
    diagnostics
        .iter()
        .map(|d| {
            assert_eq!(d.severity, AnalyzerDiagnosticSeverity::Warning);
            match &d.kind {
                AnalyzerDiagnosticKind::UnconnectedInterface(u) => {
                    (u.instance_name.clone(), u.interface_name.clone())
                }
                other => panic!("unexpected diagnostic {:?}", other),
            }
        })
        .collect()
}

#[test]
fn end_to_end_scenario() {
    let mut analyzer = AtopileAnalyzer::new();
    analyzer.set_source(
        FILE.to_string(),
        source_at(
            FILE,
            vec![
                interface("IF", vec![pass(1)], 0),
                module("MOD", vec![new_instance("if", "IF", 3)], 2),
                module("P", vec![new_instance("a", "MOD", 5)], 4),
                block(BlockKind::Module, "M", Some("P"), vec![new_instance("b", "MOD", 7)], 6),
            ],
        ),
    );
    let evaluator = analyzer.evaluator();
    assert!(kinds(evaluator, FILE).is_empty());
    assert_eq!(get(evaluator, "IF", &[]).kind, InstanceKind::Interface);
    assert_eq!(get(evaluator, "MOD", &[]).children, vec![(sym("if"), at("MOD", &["if"]))]);
    assert_eq!(get(evaluator, "P", &[]).children, vec![(sym("a"), at("P", &["a"]))]);
    assert_eq!(get(evaluator, "P", &["a"]).type_ref, type_in(FILE, "MOD"));
    assert_eq!(get(evaluator, "P", &["a", "if"]).kind, InstanceKind::Interface);
    assert_eq!(
        get(evaluator, "M", &[]).children,
        vec![(sym("a"), at("M", &["a"])), (sym("b"), at("M", &["b"]))]
    );
    assert_eq!(get(evaluator, "M", &[]).type_ref, type_in(FILE, "M"));
    assert_eq!(get(evaluator, "M", &["a", "if"]).type_ref, type_in(FILE, "IF"));
    assert_eq!(get(evaluator, "M", &["b", "if"]).type_ref, type_in(FILE, "IF"));
    assert_eq!(evaluator.state().len(), 11);

    let warnings = analyzer.analyze_unused_interfaces(&FILE.to_string()).expect("a source");
    let flagged = unconnected(&warnings);
    let pair = |a: &str, b: &str| (a.to_string(), b.to_string());
    assert_eq!(flagged, vec![pair("a", "if"), pair("a", "if"), pair("b", "if")]);
    assert_eq!(analyzer.analyze_unused_interfaces(&"other.ato".to_string()), None);
}

#[test]
fn test_analyze_unused_interfaces() {
    let text = r#"
interface IF:
    pass

module MOD:
    if1 = new IF
    if2 = new IF

module P:
    a = new MOD

module M from P:
    b = new MOD

    b.if1 ~ a.if1
    "#;
    let mut analyzer = AtopileAnalyzer::new();
    analyzer.set_source(FILE.to_string(), AtopileSource::new(text.to_string(), FILE.to_string()));
    let diagnostics = analyzer.analyze_unused_interfaces(&FILE.to_string()).unwrap();

    let located = |line: usize, from: usize, to: usize| atopile_analyzer::location::Location {
        file: FILE.to_string(),
        range: atopile_analyzer::location::Range {
            start: atopile_analyzer::span::Position { line, column: from },
            end: atopile_analyzer::span::Position { line, column: to },
        },
    };
    let warning = |instance: &str, interface: &str, at: usize, declared: usize| AnalyzerDiagnostic {
        severity: AnalyzerDiagnosticSeverity::Warning,
        kind: AnalyzerDiagnosticKind::UnconnectedInterface(
            atopile_analyzer::diagnostics::UnconnectedInterfaceDiagnostic {
                instance_name: instance.to_string(),
                interface_name: interface.to_string(),
                instantiation_location: located(at, 4, 15),
                interface_location: located(declared, 4, 16),
            },
        ),
        file: FILE.to_string(),
    };

    // Sort for a deterministic comparison.
    let mut sorted_diagnostics = diagnostics;
    sorted_diagnostics.sort_by_key(|d| format!("{:?}", d));

    assert_eq!(
        sorted_diagnostics,
        vec![
            warning("a", "if1", 9, 5),
            warning("a", "if2", 9, 6),
            warning("a", "if2", 9, 6),
            warning("b", "if2", 12, 6),
        ]
    );
}

#[test]
fn analyzer_tracks_open_files_and_collects_diagnostics() {
    let mut analyzer = AtopileAnalyzer::new();
    analyzer.mark_file_open(&ONE.to_string());
    analyzer.mark_file_open(&TWO.to_string());
    analyzer.mark_file_open(&ONE.to_string());
    assert_eq!(analyzer.get_open_files(), &vec![ONE.to_string(), TWO.to_string()]);
    analyzer.mark_file_closed(&ONE.to_string());
    assert_eq!(analyzer.get_open_files(), &vec![TWO.to_string()]);
    analyzer.set_source(
        ONE.to_string(),
        source_at(ONE, vec![module("Top", vec![new_instance("x", "Missing", 1)], 0)]),
    );
    analyzer.set_source(TWO.to_string(), source_at(TWO, vec![signal("stray", 0)]));
    let all = analyzer.diagnostics();
    assert_eq!(all.len(), 2);
    assert_eq!(all[0].file, ONE);
    assert_eq!(all[1].file, TWO);
    analyzer.remove_source(&TWO.to_string());
    assert!(analyzer.get_open_files().is_empty());
    assert_eq!(analyzer.diagnostics().len(), 1);
    let alone = AtopileAnalyzer::evaluate_source_for_test(ONE.to_string(), source_at(ONE, vec![module("Top", vec![pass(1)], 0)]));
    assert_eq!(alone.len(), 1);
}
