use atopile_analyzer::diagnostics::{AnalyzerDiagnostic, AnalyzerDiagnosticSeverity, AnalyzerReporter};
use atopile_analyzer::error::{EvaluatorError, EvaluatorErrorKind};
use atopile_analyzer::location::{Location, Range};
use atopile_analyzer::span::Position;

fn at(file: &str, line: usize) -> Location {
    Location {
        file: file.to_string(),
        range: Range {
            start: Position { line, column: 0 },
            end: Position { line, column: 4 },
        },
    }
}

#[test]
fn report_files_diagnostics_under_their_file() {
    let mut reporter = AnalyzerReporter::new();
    reporter.report(AnalyzerDiagnostic::from_error(EvaluatorError::new(
        EvaluatorErrorKind::TypeNotFound,
        &at("a.ato", 1),
    )));
    reporter.report(AnalyzerDiagnostic::from_error(EvaluatorError::new(
        EvaluatorErrorKind::ImportCycle,
        &at("b.ato", 2),
    )));
    reporter.report(AnalyzerDiagnostic::from_error(EvaluatorError::new(
        EvaluatorErrorKind::ParseError,
        &at("a.ato", 3),
    )));
    let a = reporter.diagnostics_for(&"a.ato".to_string());
    assert_eq!(a.len(), 2);
    assert_eq!(a[0].severity, AnalyzerDiagnosticSeverity::Error);
    assert_eq!(reporter.diagnostics_for(&"b.ato".to_string()).len(), 1);
    assert_eq!(reporter.diagnostics_for(&"c.ato".to_string()).len(), 0);
}
