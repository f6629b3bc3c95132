//! The type declarations of one file, and the order in which to evaluate
//! them so that a parent comes before the types that inherit from it.

use vstd::prelude::*;
use crate::ast::{Stmt, Symbol};
use crate::diagnostics::{error_diagnostic, reported, AnalyzerReporter, ReportView};
use crate::error::{error_with, ErrorView, EvaluatorError, EvaluatorErrorKind};
use crate::location::{location_text, Location, LocationView};
use crate::source::{location_of, AtopileSource};
use crate::text::{concat_text, owned_text};

verus! {

/// A top-level type declaration: its name, the parent it names, where it is,
/// and its position among the statements of its file.
#[derive(Debug)]
pub struct BlockDeclaration {
    pub name: Symbol,
    pub parent: Option<Symbol>,
    pub location: Location,
    pub index: usize,
}

/// What a [`BlockDeclaration`] stands for.
pub struct DeclarationView {
    pub name: Seq<char>,
    pub parent: Option<Seq<char>>,
    pub location: LocationView,
    pub index: usize,
}

impl View for BlockDeclaration {
    type V = DeclarationView;

    open spec fn view(&self) -> DeclarationView {
        DeclarationView {
            name: self.name@,
            parent: match self.parent {
                Some(p) => Some(p@),
                None => None,
            },
            location: self.location@,
            index: self.index,
        }
    }
}

/// What each declaration of a list stands for.
pub open spec fn declaration_views(declarations: Seq<BlockDeclaration>) -> Seq<DeclarationView> {
    declarations.map_values(|d: BlockDeclaration| d@)
}

/// The first position from `from` on at which `names` holds `name`, or the
/// length of `names` if there is none.
pub open spec fn first_index(names: Seq<Seq<char>>, name: Seq<char>, from: int) -> int
    decreases names.len() - from,
{
    if from < 0 || from >= names.len() {
        names.len() as int
    } else if names[from] == name {
        from
    } else {
        first_index(names, name, from + 1)
    }
}

/// Whether `names` holds `name`.
pub open spec fn mentions(names: Seq<Seq<char>>, name: Seq<char>) -> bool {
    first_index(names, name, 0) < names.len()
}

/// The names of a list of declarations.
pub open spec fn declared_names(declarations: Seq<DeclarationView>) -> Seq<Seq<char>> {
    declarations.map_values(|d: DeclarationView| d.name)
}

/// The names of the declarations at the positions `picked`.
pub open spec fn picked_names(declarations: Seq<DeclarationView>, picked: Seq<usize>) -> Seq<
    Seq<char>,
> {
    picked.map_values(|i: usize| declarations[i as int].name)
}

/// What `first_index` returns is in range and the first match.
pub proof fn lemma_first_index(names: Seq<Seq<char>>, name: Seq<char>, from: int)
    requires
        0 <= from <= names.len(),
    ensures
        from <= first_index(names, name, from) <= names.len(),
        first_index(names, name, from) < names.len() ==> names[first_index(names, name, from)]
            == name,
        forall|i: int| from <= i < first_index(names, name, from) ==> names[i] != name,
    decreases names.len() - from,
{
    if from < names.len() && names[from] != name {
        lemma_first_index(names, name, from + 1);
    }
}

/// The error for a second declaration of `name` at `location`, when the
/// first is at `first`.
pub open spec fn duplicate_error(
    name: Seq<char>,
    location: LocationView,
    first: LocationView,
) -> ErrorView {
    error_with(
        EvaluatorErrorKind::DuplicateDeclaration,
        location,
        "Block '"@ + name + "' is already declared at "@ + location_text(first),
    )
}

/// The error for a declaration that inherits from itself through its
/// parents.
pub open spec fn cycle_error(declaration: DeclarationView) -> ErrorView {
    error_with(
        EvaluatorErrorKind::CyclicInheritance,
        declaration.location,
        "Cyclic inheritance detected involving '"@ + declaration.name + "'"@,
    )
}

/// The declarations among the first `upto` statements of `source`, and the
/// report after them. A block whose name an earlier block has is reported as
/// a duplicate and left out.
pub open spec fn collected(source: &AtopileSource, report: ReportView, upto: int) -> (
    Seq<DeclarationView>,
    ReportView,
)
    decreases upto,
{
    if upto <= 0 {
        (Seq::empty(), report)
    } else {
        let (declarations, report1) = collected(source, report, upto - 1);
        let stmt = source.stmts()[upto - 1];
        match stmt.0 {
            Stmt::Block(block) => {
                let location = location_of(source.path_view(), source.starts(), stmt.1);
                let name = block.name.0@;
                let first = first_index(declared_names(declarations), name, 0);
                if first < declarations.len() {
                    (
                        declarations,
                        reported(
                            report1,
                            error_diagnostic(
                                duplicate_error(name, location, declarations[first].location),
                            ),
                        ),
                    )
                } else {
                    (
                        declarations.push(
                            DeclarationView {
                                name,
                                parent: match block.parent {
                                    Some(p) => Some(p.0@),
                                    None => None,
                                },
                                location,
                                index: (upto - 1) as usize,
                            },
                        ),
                        report1,
                    )
                }
            },
            _ => (declarations, report1),
        }
    }
}

/// The chain of declarations to evaluate before and with `current`, last
/// first, continuing `chain`: `current`, its parent, the parent's parent and
/// so on, up to a declaration that is already `sorted`, that has no declared
/// parent, or that is in the chain already. In the last case the inheritance
/// is cyclic, and the second component is that declaration.
pub open spec fn climb(
    declarations: Seq<DeclarationView>,
    sorted: Seq<usize>,
    chain: Seq<usize>,
    current: usize,
) -> (Seq<usize>, Option<usize>)
    decreases declarations.len() - chain.len(),
{
    let name = declarations[current as int].name;
    if mentions(picked_names(declarations, sorted), name) {
        (chain, None)
    } else if mentions(picked_names(declarations, chain), name) {
        (chain, Some(current))
    } else if chain.len() >= declarations.len() {
        (chain, None)
    } else {
        let longer = chain.push(current);
        match declarations[current as int].parent {
            Some(parent) => {
                let at = first_index(declared_names(declarations), parent, 0);
                if at < declarations.len() {
                    climb(declarations, sorted, longer, at as usize)
                } else {
                    (longer, None)
                }
            },
            None => (longer, None),
        }
    }
}

/// The order in which to evaluate the first `upto` declarations and what
/// they inherit from, and the declarations at which a cyclic chain was found.
/// Each declaration that is not yet in the order is preceded by its chain of
/// parents.
pub open spec fn ordered(declarations: Seq<DeclarationView>, upto: int) -> (
    Seq<usize>,
    Seq<usize>,
)
    decreases upto,
{
    if upto <= 0 {
        (Seq::empty(), Seq::empty())
    } else {
        let (sorted, cycles) = ordered(declarations, upto - 1);
        let (chain, cycle) = climb(declarations, sorted, Seq::empty(), (upto - 1) as usize);
        (
            sorted + chain.reverse(),
            match cycle {
                Some(c) => cycles.push(c),
                None => cycles,
            },
        )
    }
}

/// The report after one cyclic-inheritance error for each of `cycles`.
pub open spec fn with_cycles(
    report: ReportView,
    declarations: Seq<DeclarationView>,
    cycles: Seq<usize>,
) -> ReportView
    decreases cycles.len(),
{
    if cycles.len() == 0 {
        report
    } else {
        reported(
            with_cycles(report, declarations, cycles.drop_last()),
            error_diagnostic(cycle_error(declarations[cycles.last() as int])),
        )
    }
}

/// The first position at which a declaration has the name `name`, or the
/// number of declarations.
fn declared_position(declarations: &Vec<BlockDeclaration>, name: &Symbol) -> (r: usize)
    ensures
        r == first_index(declared_names(declaration_views(declarations@)), name@, 0),
{
    let ghost names = declared_names(declaration_views(declarations@));
    let mut i: usize = 0;
    while i < declarations.len()
        invariant
            i <= declarations.len(),
            names == declared_names(declaration_views(declarations@)),
            first_index(names, name@, 0) == first_index(names, name@, i as int),
        decreases declarations.len() - i,
    {
        if declarations[i].name.equals(name) {
            return i;
        }
        i += 1;
    }
    i
}

/// Whether one of the declarations at the positions `picked` has the name
/// `name`.
fn picked_mentions(declarations: &Vec<BlockDeclaration>, picked: &Vec<usize>, name: &Symbol) -> (r:
    bool)
    requires
        forall|k: int| 0 <= k < picked.len() ==> picked[k] < declarations.len(),
    ensures
        r == mentions(picked_names(declaration_views(declarations@), picked@), name@),
{
    let ghost names = picked_names(declaration_views(declarations@), picked@);
    let mut i: usize = 0;
    while i < picked.len()
        invariant
            i <= picked.len(),
            forall|k: int| 0 <= k < picked.len() ==> picked[k] < declarations.len(),
            names == picked_names(declaration_views(declarations@), picked@),
            first_index(names, name@, 0) == first_index(names, name@, i as int),
        decreases picked.len() - i,
    {
        if declarations[picked[i]].name.equals(name) {
            return true;
        }
        i += 1;
    }
    false
}

/// The top-level type declarations of `source`, in source order. A block
/// whose name an earlier block has is reported as a duplicate and left out.
pub fn collect_block_declarations(source: &AtopileSource, reporter: &mut AnalyzerReporter) -> (r:
    Vec<BlockDeclaration>)
    ensures
        declaration_views(r@) == collected(source, old(reporter)@, source.stmts().len() as int).0,
        final(reporter)@ == collected(source, old(reporter)@, source.stmts().len() as int).1,
        forall|k: int| 0 <= k < r.len() ==> (#[trigger] r[k]).index < source.stmts().len(),
{
    let mut declarations: Vec<BlockDeclaration> = Vec::new();
    let ast = source.ast();
    let mut i: usize = 0;
    assert(declaration_views(declarations@) =~= Seq::empty());
    while i < ast.len()
        invariant
            i <= ast.len(),
            ast@ == source.stmts(),
            forall|k: int| 0 <= k < declarations.len() ==> (#[trigger] declarations[k]).index < i,
            declaration_views(declarations@) == collected(source, old(reporter)@, i as int).0,
            reporter@ == collected(source, old(reporter)@, i as int).1,
        decreases ast.len() - i,
    {
        match &ast[i].0 {
            Stmt::Block(block) => {
                let location = source.span_location(&ast[i].1);
                let first = declared_position(&declarations, &block.name.0);
                if first < declarations.len() {
                    let place = declarations[first].location.to_string();
                    let message = concat_text(
                        concat_text(
                            concat_text(owned_text("Block '"), block.name.0.as_str()),
                            "' is already declared at ",
                        ),
                        place.as_str(),
                    );
                    reporter.report_error(
                        EvaluatorError::new(
                            EvaluatorErrorKind::DuplicateDeclaration,
                            &location,
                        ).with_message(message),
                    );
                } else {
                    let ghost before = declaration_views(declarations@);
                    declarations.push(
                        BlockDeclaration {
                            name: block.name.0.clone(),
                            parent: match &block.parent {
                                Some(p) => Some(p.0.clone()),
                                None => None,
                            },
                            location,
                            index: i,
                        },
                    );
                    assert(declaration_views(declarations@) =~= before.push(
                        declarations[declarations.len() - 1]@,
                    ));
                }
            },
            _ => {},
        }
        i += 1;
    }
    declarations
}

/// The order in which to evaluate `declarations`, as positions in the list:
/// each declaration after the chain of parents it inherits from. A cyclic
/// chain is reported once and still evaluated.
pub fn sort_blocks(declarations: &Vec<BlockDeclaration>, reporter: &mut AnalyzerReporter) -> (r:
    Vec<usize>)
    ensures
        r@ == ordered(declaration_views(declarations@), declarations.len() as int).0,
        final(reporter)@ == with_cycles(
            old(reporter)@,
            declaration_views(declarations@),
            ordered(declaration_views(declarations@), declarations.len() as int).1,
        ),
        forall|k: int| 0 <= k < r.len() ==> r[k] < declarations.len(),
{
    let ghost views = declaration_views(declarations@);
    let mut sorted: Vec<usize> = Vec::new();
    let mut i: usize = 0;
    while i < declarations.len()
        invariant
            i <= declarations.len(),
            views == declaration_views(declarations@),
            forall|k: int| 0 <= k < sorted.len() ==> sorted[k] < declarations.len(),
            sorted@ == ordered(views, i as int).0,
            reporter@ == with_cycles(old(reporter)@, views, ordered(views, i as int).1),
        decreases declarations.len() - i,
    {
        let mut chain: Vec<usize> = Vec::new();
        let mut current: usize = i;
        let mut cycle: Option<usize> = None;
        let mut done = false;
        while !done
            invariant
                views == declaration_views(declarations@),
                current < declarations.len(),
                i < declarations.len(),
                chain.len() <= declarations.len(),
                forall|k: int| 0 <= k < sorted.len() ==> sorted[k] < declarations.len(),
                forall|k: int| 0 <= k < chain.len() ==> chain[k] < declarations.len(),
                !done ==> climb(views, sorted@, Seq::empty(), i) == climb(
                    views,
                    sorted@,
                    chain@,
                    current,
                ),
                done ==> climb(views, sorted@, Seq::empty(), i) == (chain@, cycle),
                cycle is Some ==> cycle->0 < declarations.len(),
                !done ==> cycle is None,
            decreases
                    declarations.len() - chain.len() + if done {
                        0int
                    } else {
                        1int
                    },
        {
            let name = &declarations[current].name;
            if picked_mentions(declarations, &sorted, name) {
                done = true;
            } else if picked_mentions(declarations, &chain, name) {
                cycle = Some(current);
                done = true;
            } else if chain.len() >= declarations.len() {
                done = true;
            } else {
                chain.push(current);
                match &declarations[current].parent {
                    Some(parent) => {
                        let at = declared_position(declarations, parent);
                        if at < declarations.len() {
                            current = at;
                        } else {
                            done = true;
                        }
                    },
                    None => {
                        done = true;
                    },
                }
            }
        }
        proof {
            let found = ordered(views, i + 1).1;
            if cycle is Some {
                assert(found.drop_last() =~= ordered(views, i as int).1);
            }
        }
        match cycle {
            Some(c) => {
                let message = concat_text(
                    concat_text(
                        owned_text("Cyclic inheritance detected involving '"),
                        declarations[c].name.as_str(),
                    ),
                    "'",
                );
                reporter.report_error(
                    EvaluatorError::new(
                        EvaluatorErrorKind::CyclicInheritance,
                        &declarations[c].location,
                    ).with_message(message),
                );
            },
            None => {},
        }
        let ghost before = sorted@;
        let mut k: usize = chain.len();
        while k > 0
            invariant
                k <= chain.len(),
                forall|n: int| 0 <= n < chain.len() ==> chain[n] < declarations.len(),
                forall|n: int| 0 <= n < sorted.len() ==> sorted[n] < declarations.len(),
                sorted@ == before + chain@.reverse().take(chain.len() - k),
            decreases k,
        {
            k -= 1;
            sorted.push(chain[k]);
            assert(sorted@ =~= before + chain@.reverse().take(chain.len() - k));
        }
        assert(chain@.reverse().take(chain.len() as int) =~= chain@.reverse());
        i += 1;
    }
    sorted
}

} // verus!
