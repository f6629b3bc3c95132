//! The analyzer: the evaluator together with the set of files that are open
//! in the editor, and the analyses that read the evaluated graph.

use vstd::prelude::*;
use crate::designators::{pair_views, stamped};
use crate::diagnostics::{diagnostic_views, AnalyzerDiagnostic, DiagnosticView, ReportView};
use crate::evaluator::{file_from, with_source, without_source, Evaluator};
use crate::text::texts;
use crate::source::AtopileSource;
use crate::store::EvaluatorState;
use crate::text::{copy_text, same_text};
use crate::unused::{unused_interfaces, unused_of_stmts};

verus! {

/// Every diagnostic of the files `report[at..]`, file after file.
pub open spec fn all_filed(report: ReportView, at: int) -> Seq<DiagnosticView>
    decreases report.len() - at,
{
    if at < 0 || at >= report.len() {
        Seq::empty()
    } else {
        report[at].1 + all_filed(report, at + 1)
    }
}

/// The open files with `path` among them.
pub open spec fn opened(open: Seq<Seq<char>>, path: Seq<char>) -> Seq<Seq<char>> {
    if open.contains(path) {
        open
    } else {
        open.push(path)
    }
}

/// The open files without `path`.
pub open spec fn closed(open: Seq<Seq<char>>, path: Seq<char>) -> Seq<Seq<char>>
    decreases open.len(),
{
    if open.len() == 0 {
        Seq::empty()
    } else if open.last() == path {
        closed(open.drop_last(), path)
    } else {
        closed(open.drop_last(), path).push(open.last())
    }
}

/// The evaluator and the files that are open in the editor.
pub struct AtopileAnalyzer {
    pub(crate) evaluator: Evaluator,
    pub(crate) open_files: Vec<String>,
}

impl Default for AtopileAnalyzer {
    fn default() -> (r: Self)
        ensures
            r.open() == Seq::<Seq<char>>::empty(),
            r.engine().sources() == Seq::<(String, AtopileSource)>::empty(),
            r.engine().file_system() == crate::resolver::nothing_found(),
            r.engine().graph() == crate::store::StoreView::empty(),
            r.engine().report() == ReportView::empty(),
            r.engine().is_evaluated(),
    {
        AtopileAnalyzer::new()
    }
}

impl AtopileAnalyzer {
    /// The evaluator.
    pub closed spec fn engine(&self) -> Evaluator {
        self.evaluator
    }

    /// The paths of the open files, in the order in which they were opened.
    pub closed spec fn open(&self) -> Seq<Seq<char>> {
        texts(self.open_files@)
    }

    /// An analyzer without sources or open files, on a file system of which
    /// nothing is known, with an empty graph and no diagnostics.
    pub fn new() -> (r: Self)
        ensures
            r.open() == Seq::<Seq<char>>::empty(),
            r.engine().sources() == Seq::<(String, AtopileSource)>::empty(),
            r.engine().file_system() == crate::resolver::nothing_found(),
            r.engine().graph() == crate::store::StoreView::empty(),
            r.engine().report() == ReportView::empty(),
            r.engine().is_evaluated(),
    {
        let r = AtopileAnalyzer { evaluator: Evaluator::new(), open_files: Vec::new() };
        assert(r.open() =~= Seq::empty());
        r
    }

    /// The evaluator.
    pub fn evaluator(&self) -> (r: &Evaluator)
        ensures
            *r == self.engine(),
    {
        &self.evaluator
    }

    /// The graph of `source` evaluated on its own, registered under `path`,
    /// on a file system of which nothing is known.
    pub fn evaluate_source_for_test(path: String, source: AtopileSource) -> (r: EvaluatorState)
        ensures
            r@ == crate::evaluator::evaluated(
                seq![(path, source)],
                crate::resolver::nothing_found(),
            ).store,
    {
        let mut evaluator = Evaluator::new();
        evaluator.set_source(path, source);
        assert(evaluator.sources() =~= seq![(path, source)]);
        evaluator.evaluate()
    }

    /// Registers `source` under `path` and evaluates.
    pub fn set_source(&mut self, path: String, source: AtopileSource)
        ensures
            final(self).engine().sources() == with_source(
                old(self).engine().sources(),
                path,
                source,
            ),
            final(self).engine().file_system() == old(self).engine().file_system(),
            final(self).engine().is_evaluated(),
            final(self).open() == old(self).open(),
    {
        self.evaluator.set_source(path, source);
    }

    /// Removes the source registered under `path`, closes the file, and
    /// evaluates.
    pub fn remove_source(&mut self, path: &String)
        ensures
            final(self).engine().sources() == without_source(
                old(self).engine().sources(),
                path@,
            ),
            final(self).engine().file_system() == old(self).engine().file_system(),
            final(self).engine().is_evaluated(),
            final(self).open() == closed(old(self).open(), path@),
    {
        self.mark_file_closed(path);
        self.evaluator.remove_source(path);
    }

    /// Replaces what is known of the file system, and evaluates.
    pub fn set_file_system(&mut self, fs: crate::resolver::FileSystem)
        ensures
            final(self).engine().sources() == old(self).engine().sources(),
            final(self).engine().file_system() == fs@,
            final(self).engine().is_evaluated(),
            final(self).open() == old(self).open(),
    {
        self.evaluator.set_file_system(fs);
    }

    /// Marks the file `path` as open in the editor.
    pub fn mark_file_open(&mut self, path: &String)
        ensures
            final(self).open() == opened(old(self).open(), path@),
            final(self).engine() == old(self).engine(),
    {
        let mut i: usize = 0;
        while i < self.open_files.len()
            invariant
                i <= self.open_files.len(),
                self.open_files@ == old(self).open_files@,
                self.evaluator == old(self).evaluator,
                forall|j: int| 0 <= j < i ==> texts(self.open_files@)[j] != path@,
            decreases self.open_files.len() - i,
        {
            if same_text(&self.open_files[i], path) {
                assert(texts(self.open_files@)[i as int] == path@);
                return ;
            }
            i += 1;
        }
        self.open_files.push(copy_text(path));
        assert(self.open() =~= old(self).open().push(path@));
    }

    /// Marks the file `path` as closed in the editor.
    pub fn mark_file_closed(&mut self, path: &String)
        ensures
            final(self).open() == closed(old(self).open(), path@),
            final(self).engine() == old(self).engine(),
    {
        let mut kept: Vec<String> = Vec::new();
        let mut i: usize = 0;
        let ghost all = texts(self.open_files@);
        assert(all.take(0) =~= Seq::<Seq<char>>::empty());
        assert(texts(kept@) =~= Seq::<Seq<char>>::empty());
        while i < self.open_files.len()
            invariant
                i <= self.open_files.len(),
                self.open_files@ == old(self).open_files@,
                self.evaluator == old(self).evaluator,
                all == texts(self.open_files@),
                texts(kept@) == closed(all.take(i as int), path@),
            decreases self.open_files.len() - i,
        {
            let ghost before = texts(kept@);
            proof {
                let next = all.take(i + 1);
                assert(next.drop_last() =~= all.take(i as int));
                assert(next.last() == self.open_files[i as int]@);
            }
            if !same_text(&self.open_files[i], path) {
                kept.push(copy_text(&self.open_files[i]));
                assert(texts(kept@) =~= before.push(self.open_files[i as int]@));
            }
            i += 1;
        }
        assert(all.take(self.open_files.len() as int) =~= all);
        self.open_files = kept;
    }

    /// The paths of the open files.
    pub fn get_open_files(&self) -> (r: &Vec<String>)
        ensures
            texts(r@) == self.open(),
    {
        &self.open_files
    }

    /// Every diagnostic of the last evaluation, file after file.
    pub fn diagnostics(&self) -> (r: Vec<AnalyzerDiagnostic>)
        ensures
            diagnostic_views(r@) == all_filed(self.engine().report(), 0),
    {
        let lists = self.evaluator.reporter().diagnostics();
        let ghost report = self.engine().report();
        let mut out: Vec<AnalyzerDiagnostic> = Vec::new();
        let mut i: usize = lists.len();
        assert(diagnostic_views(out@) =~= all_filed(report, i as int));
        while i > 0
            invariant
                i <= lists.len(),
                crate::diagnostics::report_views(lists@) == report,
                diagnostic_views(out@) == all_filed(report, i as int),
            decreases i,
        {
            i -= 1;
            let list = &lists[i].1;
            let ghost rest = diagnostic_views(out@);
            assert(report[i as int].1 == diagnostic_views(list@));
            let mut j: usize = list.len();
            while j > 0
                invariant
                    j <= list.len(),
                    diagnostic_views(out@) == diagnostic_views(list@).skip(j as int) + rest,
                decreases j,
            {
                j -= 1;
                let ghost before = diagnostic_views(out@);
                out.insert(0, list[j].clone());
                assert(diagnostic_views(out@) =~= seq![list[j as int]@] + before);
                assert(diagnostic_views(list@).skip(j as int) =~= seq![list[j as int]@]
                    + diagnostic_views(list@).skip(j + 1));
                assert(diagnostic_views(out@) =~= diagnostic_views(list@).skip(j as int) + rest);
            }
            assert(diagnostic_views(list@).skip(0) =~= diagnostic_views(list@));
        }
        out
    }

    /// The graph with the reference designators stamped on; `netlists`
    /// pairs the path of each netlist that was read with its contents.
    pub fn get_netlist(&mut self, netlists: &Vec<(String, String)>) -> (r: &EvaluatorState)
        ensures
            r@ == stamped(
                old(self).engine().graph(),
                old(self).engine().file_system(),
                pair_views(netlists@),
            ),
            final(self).engine().graph() == r@,
            final(self).open() == old(self).open(),
    {
        self.evaluator.resolve_reference_designators(netlists);
        self.evaluator.state()
    }

    /// The warnings for the unconnected interfaces in the source registered
    /// under `path`; `None` where no source is registered under it.
    pub fn analyze_unused_interfaces(&self, path: &String) -> (r: Option<Vec<AnalyzerDiagnostic>>)
        ensures
            match r {
                Some(list) => {
                    let at = file_from(self.engine().sources(), path@, 0);
                    at < self.engine().sources().len() && diagnostic_views(list@)
                        == unused_of_stmts(
                        self.engine().graph(),
                        self.engine().sources()[at].1.path_view(),
                        self.engine().sources()[at].1.stmts(),
                        0,
                    )
                },
                None => file_from(self.engine().sources(), path@, 0)
                    >= self.engine().sources().len(),
            },
    {
        let at = self.evaluator.source_position(path);
        let files = self.evaluator.files();
        if at < files.len() {
            Some(unused_interfaces(self.evaluator.state(), &files[at].1))
        } else {
            None
        }
    }
}

} // verus!
