//! The symbols that a source file can name.

use vstd::prelude::*;
use crate::assoc;
use crate::ast::Symbol;
use crate::instance::{ModuleRef, ModuleRefView};

verus! {

/// What a scope stands for: an association list from names to types.
pub type ScopeView = Seq<(Seq<char>, ModuleRefView)>;

/// What each entry of a list stands for.
pub open spec fn scope_views(entries: Seq<(Symbol, ModuleRef)>) -> ScopeView {
    entries.map_values(|e: (Symbol, ModuleRef)| (e.0@, e.1@))
}

/// The types that the names of one source file refer to.
#[derive(Debug)]
pub struct FileScope {
    pub(crate) symbols: Vec<(Symbol, ModuleRef)>,
}

impl View for FileScope {
    type V = ScopeView;

    closed spec fn view(&self) -> ScopeView {
        scope_views(self.symbols@)
    }
}

impl FileScope {
    /// The scope that names nothing.
    pub fn new() -> (r: Self)
        ensures
            r@ == ScopeView::empty(),
    {
        let r = FileScope { symbols: Vec::new() };
        assert(r@ =~= ScopeView::empty());
        r
    }

    /// The position of `symbol`, or the number of names if it is not bound.
    fn position(&self, symbol: &Symbol) -> (r: usize)
        ensures
            r == assoc::find(self@, symbol@),
    {
        let mut i: usize = 0;
        while i < self.symbols.len()
            invariant
                i <= self.symbols.len(),
                forall|j: int| 0 <= j < i ==> (#[trigger] self@[j]).0 != symbol@,
            decreases self.symbols.len() - i,
        {
            if self.symbols[i].0.equals(symbol) {
                proof {
                    assoc::lemma_find_is(self@, symbol@, i as int);
                }
                return i;
            }
            i += 1;
        }
        proof {
            assoc::lemma_find_is(self@, symbol@, i as int);
        }
        i
    }

    /// Binds `symbol` to `module_ref`, replacing what it was bound to.
    pub fn define(&mut self, symbol: &Symbol, module_ref: &ModuleRef)
        ensures
            final(self)@ == assoc::put(old(self)@, symbol@, module_ref@),
    {
        let i = self.position(symbol);
        if i < self.symbols.len() {
            self.symbols[i] = (symbol.clone(), module_ref.clone());
        } else {
            self.symbols.push((symbol.clone(), module_ref.clone()));
        }
        assert(self@ =~= assoc::put(old(self)@, symbol@, module_ref@));
    }

    /// The type that `symbol` is bound to.
    pub fn resolve(&self, symbol: &Symbol) -> (r: Option<&ModuleRef>)
        ensures
            match r {
                Some(m) => assoc::get(self@, symbol@) == Some(m@),
                None => assoc::get(self@, symbol@) is None,
            },
    {
        let i = self.position(symbol);
        if i < self.symbols.len() {
            Some(&self.symbols[i].1)
        } else {
            None
        }
    }
}

} // verus!
