//! Diagnostics and the reporter that collects them per source file.

use vstd::prelude::*;
use crate::assoc;
use crate::error::{ErrorView, EvaluatorError};
use crate::location::{Location, LocationView};
use crate::text::{copy_text, same_text};

verus! {

/// How serious a diagnostic is.
#[derive(Debug, Clone, Copy, PartialEq, Eq, Structural)]
pub enum AnalyzerDiagnosticSeverity {
    Error,
    Warning,
}

/// An instance defines an interface that nothing in the enclosing block
/// connects to.
#[derive(Debug, PartialEq)]
pub struct UnconnectedInterfaceDiagnostic {
    pub instance_name: String,
    pub interface_name: String,
    pub instantiation_location: Location,
    pub interface_location: Location,
}

/// What an [`UnconnectedInterfaceDiagnostic`] stands for.
pub struct UnconnectedInterfaceView {
    pub instance_name: Seq<char>,
    pub interface_name: Seq<char>,
    pub instantiation_location: LocationView,
    pub interface_location: LocationView,
}

impl View for UnconnectedInterfaceDiagnostic {
    type V = UnconnectedInterfaceView;

    open spec fn view(&self) -> UnconnectedInterfaceView {
        UnconnectedInterfaceView {
            instance_name: self.instance_name@,
            interface_name: self.interface_name@,
            instantiation_location: self.instantiation_location@,
            interface_location: self.interface_location@,
        }
    }
}

impl Clone for UnconnectedInterfaceDiagnostic {
    fn clone(&self) -> (r: Self)
        ensures
            r@ == self@,
    {
        UnconnectedInterfaceDiagnostic {
            instance_name: copy_text(&self.instance_name),
            interface_name: copy_text(&self.interface_name),
            instantiation_location: self.instantiation_location.clone(),
            interface_location: self.interface_location.clone(),
        }
    }
}

/// What a diagnostic is about.
#[derive(Debug, PartialEq)]
pub enum AnalyzerDiagnosticKind {
    UnconnectedInterface(UnconnectedInterfaceDiagnostic),
    Evaluator(EvaluatorError),
}

/// What an [`AnalyzerDiagnosticKind`] stands for.
pub enum DiagnosticKindView {
    UnconnectedInterface(UnconnectedInterfaceView),
    Evaluator(ErrorView),
}

impl View for AnalyzerDiagnosticKind {
    type V = DiagnosticKindView;

    open spec fn view(&self) -> DiagnosticKindView {
        match self {
            AnalyzerDiagnosticKind::UnconnectedInterface(d) => {
                DiagnosticKindView::UnconnectedInterface(d@)
            },
            AnalyzerDiagnosticKind::Evaluator(e) => DiagnosticKindView::Evaluator(e@),
        }
    }
}

/// A diagnostic from the analyzer, filed under a source file.
#[derive(Debug, PartialEq)]
pub struct AnalyzerDiagnostic {
    pub severity: AnalyzerDiagnosticSeverity,
    pub kind: AnalyzerDiagnosticKind,
    pub file: String,
}

/// What an [`AnalyzerDiagnostic`] stands for.
pub struct DiagnosticView {
    pub severity: AnalyzerDiagnosticSeverity,
    pub kind: DiagnosticKindView,
    pub file: Seq<char>,
}

impl View for AnalyzerDiagnostic {
    type V = DiagnosticView;

    open spec fn view(&self) -> DiagnosticView {
        DiagnosticView { severity: self.severity, kind: self.kind@, file: self.file@ }
    }
}

impl Clone for AnalyzerDiagnostic {
    fn clone(&self) -> (r: Self)
        ensures
            r@ == self@,
    {
        AnalyzerDiagnostic {
            severity: self.severity,
            kind: match &self.kind {
                AnalyzerDiagnosticKind::UnconnectedInterface(d) => {
                    AnalyzerDiagnosticKind::UnconnectedInterface(d.clone())
                },
                AnalyzerDiagnosticKind::Evaluator(e) => AnalyzerDiagnosticKind::Evaluator(
                    e.clone(),
                ),
            },
            file: copy_text(&self.file),
        }
    }
}

/// The diagnostic that reports `error`: an error, filed under the file of
/// the error's location.
pub open spec fn error_diagnostic(error: ErrorView) -> DiagnosticView {
    DiagnosticView {
        severity: AnalyzerDiagnosticSeverity::Error,
        kind: DiagnosticKindView::Evaluator(error),
        file: error.location.file,
    }
}

impl From<EvaluatorError> for AnalyzerDiagnostic {
    fn from(error: EvaluatorError) -> (r: Self) {
        let file = error.location.file.clone();
        AnalyzerDiagnostic {
            severity: AnalyzerDiagnosticSeverity::Error,
            kind: AnalyzerDiagnosticKind::Evaluator(error),
            file,
        }
    }
}

impl vstd::std_specs::convert::FromSpecImpl<EvaluatorError> for AnalyzerDiagnostic {
    open spec fn obeys_from_spec() -> bool {
        true
    }

    open spec fn from_spec(error: EvaluatorError) -> Self {
        AnalyzerDiagnostic {
            severity: AnalyzerDiagnosticSeverity::Error,
            kind: AnalyzerDiagnosticKind::Evaluator(error),
            file: error.location.file,
        }
    }
}

impl AnalyzerDiagnostic {
    /// The diagnostic that reports `error`.
    pub fn from_error(error: EvaluatorError) -> (r: Self)
        ensures
            r@ == error_diagnostic(error@),
    {
        let file = copy_text(&error.location.file);
        AnalyzerDiagnostic {
            severity: AnalyzerDiagnosticSeverity::Error,
            kind: AnalyzerDiagnosticKind::Evaluator(error),
            file,
        }
    }
}

/// What each diagnostic of a list stands for.
pub open spec fn diagnostic_views(diagnostics: Seq<AnalyzerDiagnostic>) -> Seq<DiagnosticView> {
    diagnostics.map_values(|d: AnalyzerDiagnostic| d@)
}

/// What a reporter stands for: an association list from files to their
/// diagnostics, in the order in which the files were first named.
pub type ReportView = Seq<(Seq<char>, Seq<DiagnosticView>)>;

/// What each entry of a list stands for.
pub open spec fn report_views(entries: Seq<(String, Vec<AnalyzerDiagnostic>)>) -> ReportView {
    entries.map_values(|e: (String, Vec<AnalyzerDiagnostic>)| (e.0@, diagnostic_views(e.1@)))
}

/// The report with the diagnostics of `file` cleared. A file that was not
/// named before is named now, with no diagnostics.
pub open spec fn cleared(report: ReportView, file: Seq<char>) -> ReportView {
    assoc::put(report, file, Seq::empty())
}

/// The report with `diagnostic` appended to the diagnostics of its file.
pub open spec fn reported(report: ReportView, diagnostic: DiagnosticView) -> ReportView {
    match assoc::get(report, diagnostic.file) {
        Some(list) => assoc::put(report, diagnostic.file, list.push(diagnostic)),
        None => assoc::put(report, diagnostic.file, seq![diagnostic]),
    }
}

/// The diagnostics filed under `file`; none where the file was never named.
pub open spec fn filed(report: ReportView, file: Seq<char>) -> Seq<DiagnosticView> {
    match assoc::get(report, file) {
        Some(list) => list,
        None => Seq::empty(),
    }
}

/// Collects diagnostics per source file.
#[derive(Debug, PartialEq)]
pub struct AnalyzerReporter {
    pub(crate) diagnostics: Vec<(String, Vec<AnalyzerDiagnostic>)>,
}

impl View for AnalyzerReporter {
    type V = ReportView;

    closed spec fn view(&self) -> ReportView {
        report_views(self.diagnostics@)
    }
}

impl Default for AnalyzerReporter {
    fn default() -> (r: Self)
        ensures
            r@ == ReportView::empty(),
    {
        AnalyzerReporter::new()
    }
}

impl AnalyzerReporter {
    /// A reporter without diagnostics.
    pub fn new() -> (r: Self)
        ensures
            r@ == ReportView::empty(),
    {
        let r = AnalyzerReporter { diagnostics: Vec::new() };
        assert(r@ =~= ReportView::empty());
        r
    }

    /// Forgets every file and its diagnostics.
    pub fn reset(&mut self)
        ensures
            final(self)@ == ReportView::empty(),
    {
        self.diagnostics = Vec::new();
        assert(self@ =~= ReportView::empty());
    }

    /// The position of `file`, or the number of files if it is not named.
    fn position(&self, file: &String) -> (r: usize)
        ensures
            r == assoc::find(self@, file@),
    {
        let mut i: usize = 0;
        while i < self.diagnostics.len()
            invariant
                i <= self.diagnostics.len(),
                forall|j: int| 0 <= j < i ==> (#[trigger] self@[j]).0 != file@,
            decreases self.diagnostics.len() - i,
        {
            if same_text(&self.diagnostics[i].0, file) {
                proof {
                    assoc::lemma_find_is(self@, file@, i as int);
                }
                return i;
            }
            i += 1;
        }
        proof {
            assoc::lemma_find_is(self@, file@, i as int);
        }
        i
    }

    /// Clears the diagnostics of the file `path`.
    pub fn clear(&mut self, path: &String)
        ensures
            final(self)@ == cleared(old(self)@, path@),
    {
        let i = self.position(path);
        let list: Vec<AnalyzerDiagnostic> = Vec::new();
        assert(diagnostic_views(list@) =~= Seq::empty());
        if i < self.diagnostics.len() {
            self.diagnostics[i] = (copy_text(path), list);
        } else {
            self.diagnostics.push((copy_text(path), list));
        }
        assert(self@ =~= cleared(old(self)@, path@));
    }

    /// Files `diagnostic` under its file, after those already there.
    pub fn report(&mut self, diagnostic: AnalyzerDiagnostic)
        ensures
            final(self)@ == reported(old(self)@, diagnostic@),
    {
        let i = self.position(&diagnostic.file);
        if i < self.diagnostics.len() {
            self.diagnostics[i].1.push(diagnostic);
            assert(diagnostic_views(self.diagnostics[i as int].1@) =~= diagnostic_views(
                old(self).diagnostics[i as int].1@,
            ).push(diagnostic@));
            proof {
                assoc::lemma_find(old(self)@, diagnostic@.file);
            }
            assert(self@ =~= reported(old(self)@, diagnostic@));
        } else {
            let file = copy_text(&diagnostic.file);
            let mut list: Vec<AnalyzerDiagnostic> = Vec::new();
            list.push(diagnostic);
            assert(diagnostic_views(list@) =~= seq![diagnostic@]);
            self.diagnostics.push((file, list));
            assert(self@ =~= reported(old(self)@, diagnostic@));
        }
    }

    /// Files the diagnostic that reports `error`.
    pub fn report_error(&mut self, error: EvaluatorError)
        ensures
            final(self)@ == reported(old(self)@, error_diagnostic(error@)),
    {
        self.report(AnalyzerDiagnostic::from_error(error));
    }

    /// Every file named so far with its diagnostics.
    pub fn diagnostics(&self) -> (r: &Vec<(String, Vec<AnalyzerDiagnostic>)>)
        ensures
            report_views(r@) == self@,
    {
        &self.diagnostics
    }

    /// The diagnostics filed under `path`.
    pub fn diagnostics_for(&self, path: &String) -> (r: Vec<AnalyzerDiagnostic>)
        ensures
            diagnostic_views(r@) == filed(self@, path@),
    {
        let i = self.position(path);
        let mut out: Vec<AnalyzerDiagnostic> = Vec::new();
        if i < self.diagnostics.len() {
            let list = &self.diagnostics[i].1;
            let mut j: usize = 0;
            while j < list.len()
                invariant
                    j <= list.len(),
                    out.len() == j,
                    forall|n: int| 0 <= n < j ==> out[n]@ == list[n]@,
                decreases list.len() - j,
            {
                out.push(list[j].clone());
                j += 1;
            }
            assert(diagnostic_views(out@) =~= diagnostic_views(list@));
        } else {
            assert(diagnostic_views(out@) =~= Seq::empty());
        }
        out
    }
}

} // verus!
