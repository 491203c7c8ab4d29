//! The interface through which a resolved symbol is presented.

use vstd::prelude::*;
use crate::symbol::bytes_view;

verus! {

/// What a consumer of resolution results can ask of one symbol.
pub trait Symbol {
    /// The bytes of this symbol's name.
    spec fn spec_name(&self) -> Option<Seq<u8>>;

    /// The symbol's name as raw bytes, if any.
    fn name(&self) -> (r: Option<&[u8]>)
        ensures
            bytes_view(r) == self.spec_name(),
    ;

    /// The address looked up, if known.
    fn addr(&self) -> Option<usize>;
}

impl Symbol for crate::symbol::Symbol {
    open spec fn spec_name(&self) -> Option<Seq<u8>> {
        self.name_view()
    }

    fn name(&self) -> (r: Option<&[u8]>) {
        crate::symbol::Symbol::name(self)
    }

    fn addr(&self) -> Option<usize> {
        crate::symbol::Symbol::addr(self)
    }
}

} // verus!
