use atopile_analyzer::ast::{BlockKind, BlockStmt, Stmt, Symbol};
use atopile_analyzer::designators::{
    designator_for, find_designator, netlist_probes, project_root, sheet_path,
};
use atopile_analyzer::evaluator::Evaluator;
use atopile_analyzer::instance::{InstanceRef, ModuleRef};
use atopile_analyzer::resolver::FileSystem;
use atopile_analyzer::source::AtopileSource;
use atopile_analyzer::span::{Span, Spanned};

const NETLIST: &str = r#"(export (version "E")
  (components
    (comp (ref "R1")
      (value "10k")
      (sheetpath (names "/project/src/main.ato:Top::r1") (tstamps "/"))
      (tstamps "1"))
    (comp (ref "C7")
      (value "100n")
      (sheetpath (names "/project/src/main.ato:Top::filter.c") (tstamps "/"))
      (tstamps "2"))
    (comp (ref "R9")
      (value "1k")
      (sheetpath (names "/project/src/main.ato:Top::r1") (tstamps "/"))
      (tstamps "3"))))
"#;

fn sp<T>(item: T, at: usize) -> Spanned<T> {
    Spanned(item, Span { start: at, end: at + 1 })
}

fn instance_ref(file: &str, module: &str, path: &[&str]) -> InstanceRef {
    InstanceRef {
        module: ModuleRef { source_path: file.to_string(), module_name: Symbol(module.to_string()) },
        instance_path: path.iter().map(|p| Symbol(p.to_string())).collect(),
    }
}

fn project() -> FileSystem {
    FileSystem {
        canonical: vec![],
        existing: vec!["/project/ato.yaml".to_string(), "/project/build/default.net".to_string()],
    }
}

fn netlists() -> Vec<(String, String)> {
    vec![("/project/build/default.net".to_string(), NETLIST.to_string())]
}

#[test]
fn the_sheet_path_names_file_module_and_instance() {
    assert_eq!(
        sheet_path(&instance_ref("/project/src/main.ato", "Top", &["filter", "c"])),
        "/project/src/main.ato:Top::filter.c"
    );
    assert_eq!(sheet_path(&instance_ref("main.ato", "Top", &[])), "main.ato:Top::");
}

#[test]
fn the_last_pair_with_the_sheet_path_gives_the_designator() {
    let pairs = vec![
        ("R1".to_string(), "a".to_string()),
        ("R2".to_string(), "b".to_string()),
        ("R3".to_string(), "a".to_string()),
    ];
    assert_eq!(designator_for(&pairs, &"a".to_string()), Some("R3".to_string()));
    assert_eq!(designator_for(&pairs, &"b".to_string()), Some("R2".to_string()));
    assert_eq!(designator_for(&pairs, &"c".to_string()), None);
}

#[test]
fn the_project_root_is_the_nearest_directory_with_the_marker() {
    let nested = FileSystem {
        canonical: vec![],
        existing: vec!["/outer/ato.yaml".to_string(), "/outer/inner/ato.yaml".to_string()],
    };
    assert_eq!(project_root(&nested, "/outer/inner/src/main.ato"), Some("/outer/inner".to_string()));
    assert_eq!(project_root(&nested, "/outer/main.ato"), Some("/outer".to_string()));
    assert_eq!(project_root(&nested, "/elsewhere/main.ato"), None);
}

#[test]
fn a_designator_is_found_in_the_netlist_of_the_project() {
    let fs = project();
    let lists = netlists();
    let r1 = instance_ref("/project/src/main.ato", "Top", &["r1"]);
    assert_eq!(find_designator(&fs, &lists, &r1), Some("R9".to_string()));
    let c = instance_ref("/project/src/main.ato", "Top", &["filter", "c"]);
    assert_eq!(find_designator(&fs, &lists, &c), Some("C7".to_string()));
    let unlisted = instance_ref("/project/src/main.ato", "Top", &["r2"]);
    assert_eq!(find_designator(&fs, &lists, &unlisted), None);
}

#[test]
fn without_project_or_netlist_there_is_no_designator() {
    let r1 = instance_ref("/project/src/main.ato", "Top", &["r1"]);
    assert_eq!(find_designator(&FileSystem::new(), &netlists(), &r1), None);
    let no_netlist = FileSystem { canonical: vec![], existing: vec!["/project/ato.yaml".to_string()] };
    assert_eq!(find_designator(&no_netlist, &netlists(), &r1), None);
    assert_eq!(find_designator(&project(), &vec![], &r1), None);
    let elsewhere = instance_ref("/other/main.ato", "Top", &["r1"]);
    assert_eq!(find_designator(&project(), &netlists(), &elsewhere), None);
}

#[test]
fn the_netlist_probes_cover_every_directory_above_the_file() {
    assert_eq!(
        netlist_probes("/project/src/main.ato"),
        vec![
            "/build/default.net",
            "/ato.yaml",
            "/project/build/default.net",
            "/project/ato.yaml",
            "/project/src/build/default.net",
            "/project/src/ato.yaml",
        ]
    );
}

#[test]
fn components_are_stamped_and_nothing_else() {
    let file = "/project/src/main.ato";
    let component = sp(
        Stmt::Block(BlockStmt {
            kind: sp(BlockKind::Component, 0),
            name: sp(Symbol("Resistor".to_string()), 0),
            parent: None,
            body: vec![sp(Stmt::Pass, 1)],
        }),
        0,
    );
    let new_r1 = sp(
        Stmt::Assign(atopile_analyzer::ast::AssignStmt {
            target: sp(atopile_analyzer::ast::PortRef { parts: vec![sp("r1".to_string(), 3)] }, 3),
            type_info: None,
            value: sp(atopile_analyzer::ast::Expr::New(sp(Symbol("Resistor".to_string()), 3)), 3),
        }),
        3,
    );
    let top = sp(
        Stmt::Block(BlockStmt {
            kind: sp(BlockKind::Module, 2),
            name: sp(Symbol("Top".to_string()), 2),
            parent: None,
            body: vec![new_r1],
        }),
        2,
    );
    let mut evaluator = Evaluator::new();
    evaluator.set_file_system(project());
    evaluator.set_source(
        file.to_string(),
        AtopileSource::from_parts(String::new(), file.to_string(), vec![component, top], vec![]),
    );
    evaluator.resolve_reference_designators(&netlists());
    let state = evaluator.state();
    assert_eq!(
        state.resolve_instance(&instance_ref(file, "Top", &["r1"])).unwrap().reference_designator,
        Some("R9".to_string())
    );
    assert_eq!(state.resolve_instance(&instance_ref(file, "Top", &[])).unwrap().reference_designator, None);
    assert_eq!(
        state.resolve_instance(&instance_ref(file, "Resistor", &[])).unwrap().reference_designator,
        None
    );
}
