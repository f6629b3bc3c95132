use atopile_analyzer::ast::{PortRef, Symbol};
use atopile_analyzer::diagnostics::{AnalyzerDiagnostic, AnalyzerDiagnosticKind};
use atopile_analyzer::error::{EvaluatorError, EvaluatorErrorKind};
use atopile_analyzer::instance::{AttributeValue, InstanceKind, InstanceRef, ModuleRef};
use atopile_analyzer::source::AtopileSource;
use atopile_analyzer::location::{position_to_string, Located, Location, Range};
use atopile_analyzer::span::{Position, Span, Spanned};
use atopile_analyzer::text::{comes_before, decimal_text};

fn here() -> Location {
    Location {
        file: "dir/file.ato".to_string(),
        range: Range {
            start: Position { line: 12, column: 0 },
            end: Position { line: 13, column: 405 },
        },
    }
}

#[test]
fn numbers_are_written_in_decimal() {
    assert_eq!(decimal_text(0), "0");
    assert_eq!(decimal_text(7), "7");
    assert_eq!(decimal_text(10), "10");
    assert_eq!(decimal_text(1234567890), "1234567890");
    assert_eq!(decimal_text(usize::MAX), usize::MAX.to_string());
}

#[test]
fn texts_are_ordered_by_their_bytes() {
    assert!(comes_before("a", "b"));
    assert!(!comes_before("b", "a"));
    assert!(!comes_before("a", "a"));
    assert!(comes_before("a", "ab"));
    assert!(!comes_before("ab", "a"));
    assert!(comes_before("", "a"));
    assert!(comes_before("Z", "a"));
    assert!(comes_before("z", "é"));
    for (a, b) in [("x1", "x10"), ("abc", "abd"), ("é", "z"), ("", "")] {
        assert_eq!(comes_before(a, b), a < b);
    }
}

#[test]
fn positions_and_locations_are_displayed() {
    assert_eq!(position_to_string(Position { line: 3, column: 14 }), "3:14");
    assert_eq!(here().to_string(), "dir/file.ato:12:0");
}

#[test]
fn identities_are_displayed_with_dots() {
    let module = ModuleRef { source_path: "f.ato".to_string(), module_name: Symbol("M".to_string()) };
    assert_eq!(module.to_string(), "f.ato:M");
    let root = InstanceRef::root(&module);
    assert_eq!(root.to_string(), "f.ato:M");
    assert_eq!(root.len(), 0);
    let deep = root.child(&Symbol("a".to_string())).child(&Symbol("b".to_string()));
    assert_eq!(deep.to_string(), "f.ato:M.a.b");
    assert_eq!(deep.len(), 2);
    let mut popped = deep.clone();
    assert_eq!(popped.pop(), Some(Symbol("b".to_string())));
    assert_eq!(popped, root.child(&Symbol("a".to_string())));
    assert!(deep.equals(&deep.clone()));
    assert!(!deep.equals(&popped));
    assert_eq!(ModuleRef::port(), ModuleRef::pin());
    assert_eq!(InstanceKind::Interface.to_string(), "Interface");
}

#[test]
fn port_refs_are_displayed_with_dots() {
    let sp = |s: &str| Spanned(s.to_string(), Span { start: 0, end: 1 });
    assert_eq!(PortRef { parts: vec![sp("a"), sp("b"), sp("c")] }.to_string(), "a.b.c");
    assert_eq!(PortRef { parts: vec![sp("a")] }.to_string(), "a");
    assert_eq!(PortRef { parts: vec![] }.to_string(), "");
}

#[test]
fn errors_are_displayed_with_their_message() {
    let plain = EvaluatorError::new(EvaluatorErrorKind::ImportCycle, &here());
    assert_eq!(plain.to_string(), "cyclic import detected");
    assert_eq!(plain.message, None);
    assert_eq!(plain.location, here());
    let internal = EvaluatorError::internal(&here(), "broken".to_string());
    assert_eq!(internal.kind, EvaluatorErrorKind::Internal);
    assert_eq!(internal.to_string(), "internal error: broken");
    let connection = EvaluatorError::invalid_connection(&here(), "no".to_string());
    assert_eq!(connection.to_string(), "invalid connection: no");
    assert_eq!(plain.with_message("again".to_string()).message, Some("again".to_string()));
    let kinds = [
        (EvaluatorErrorKind::ImportPathNotFound, "import path not found"),
        (EvaluatorErrorKind::ImportLoadFailed, "failed to load import"),
        (EvaluatorErrorKind::ImportNotFound, "symbol not found"),
        (EvaluatorErrorKind::UnexpectedStmt, "unexpected statement"),
        (EvaluatorErrorKind::TypeNotFound, "type not found"),
        (EvaluatorErrorKind::InvalidAssignment, "invalid assignment"),
        (EvaluatorErrorKind::ParseError, "parse error"),
        (EvaluatorErrorKind::DuplicateDeclaration, "duplicate declaration"),
        (EvaluatorErrorKind::CyclicInheritance, "cyclic inheritance detected"),
    ];
    for (kind, text) in kinds {
        assert_eq!(kind.to_string(), text);
    }
}

#[test]
fn conversions_wrap_their_argument() {
    assert_eq!(Symbol::from("abc".to_string()), Symbol("abc".to_string()));
    assert_eq!(String::from(Symbol("abc".to_string())), "abc");
    assert_eq!(AttributeValue::from("x".to_string()), AttributeValue::String("x".to_string()));
    assert_eq!(AttributeValue::from(true), AttributeValue::Boolean(true));
    assert_eq!(Located::from((1u8, here())), Located::new(1u8, here()));
    assert_eq!(Spanned::from((1u8, Span { start: 2, end: 3 })), Spanned(1u8, Span { start: 2, end: 3 }));
    let error = EvaluatorError::new(EvaluatorErrorKind::TypeNotFound, &here());
    let diagnostic = AnalyzerDiagnostic::from(error.clone());
    assert_eq!(diagnostic, AnalyzerDiagnostic::from_error(error.clone()));
    assert_eq!(diagnostic.file, "dir/file.ato");
    assert_eq!(diagnostic.kind, AnalyzerDiagnosticKind::Evaluator(error));
}

#[test]
fn spanned_values_are_located_in_their_source() {
    let source = AtopileSource::from_parts("ab\ncd\nef".to_string(), "f.ato".to_string(), vec![], vec![]);
    let located = Spanned(7u8, Span { start: 4, end: 7 }).into_located(&source);
    assert_eq!(located.0, 7);
    assert_eq!(
        located.1,
        Location {
            file: "f.ato".to_string(),
            range: Range {
                start: Position { line: 1, column: 1 },
                end: Position { line: 2, column: 1 },
            },
        }
    );
    let elsewhere = Located::from_spanned(Spanned(7u8, Span { start: 0, end: 2 }), &source, "g.ato");
    assert_eq!(elsewhere.1.file, "g.ato");
    assert_eq!(elsewhere.1.range.end, Position { line: 0, column: 2 });
}

#[test]
fn located_values_keep_their_location() {
    let located = Located::new(5u32, here());
    assert_eq!(*located.location(), here());
    assert_eq!(*located.deref(), 5);
    let text = "abc".to_string();
    let owned = Located::new(&text, here()).to_owned();
    assert_eq!(owned.0, "abc");
    assert_eq!(owned.1, here());
}
