//! The symbols handed out for a resolved address.

use vstd::prelude::*;

verus! {

/// A source location reported by the debug-info interpreter.
pub struct Location {
    /// Source file path, if known.
    pub file: Option<String>,
    /// Line number, if known.
    pub line: Option<u32>,
}

/// One (possibly inlined) frame reported by the debug-info interpreter.
pub struct Frame {
    /// Where the frame's code comes from, if known.
    pub location: Option<Location>,
    /// The frame's function name as raw bytes, if known.
    pub name: Option<Vec<u8>>,
}

/// What one resolved address yields.
#[allow(inconsistent_fields)]
pub enum Symbol {
    /// Frame information located in the debug info.
    Frame { addr: usize, location: Option<Location>, name: Option<Vec<u8>> },
    /// No debug information, but the symbol table names the address.
    Symtab { addr: usize, name: Vec<u8> },
}

/// The bytes of an optional byte slice.
pub open spec fn bytes_view(o: Option<&[u8]>) -> Option<Seq<u8>> {
    match o {
        Some(b) => Some(b@),
        None => None,
    }
}

impl Symbol {
    /// The function name this symbol carries, if any.
    pub open spec fn name_view(&self) -> Option<Seq<u8>> {
        match self {
            Symbol::Frame { name, .. } => match name {
                Some(n) => Some(n@),
                None => None,
            },
            Symbol::Symtab { name, .. } => Some(name@),
        }
    }

    /// The source file this symbol carries, if any.
    pub open spec fn file_view(&self) -> Option<Seq<char>> {
        match self {
            Symbol::Frame { location: Some(Location { file: Some(f), .. }), .. } => Some(f@),
            _ => None,
        }
    }

    /// The line this symbol carries, if any.
    pub open spec fn line_view(&self) -> Option<u32> {
        match self {
            Symbol::Frame { location: Some(l), .. } => l.line,
            _ => None,
        }
    }

    /// The function name, from the debug info or from the symbol table.
    pub fn name(&self) -> (r: Option<&[u8]>)
        ensures
            bytes_view(r) == self.name_view(),
    {
        match self {
            Symbol::Frame { name, .. } => match name {
                Some(n) => Some(n.as_slice()),
                None => None,
            },
            Symbol::Symtab { name, .. } => Some(name.as_slice()),
        }
    }

    /// The address looked up, for symbols found in the debug info.
    pub fn addr(&self) -> (r: Option<usize>)
        ensures
            r == match self {
                Symbol::Frame { addr, .. } => Some(*addr),
                Symbol::Symtab { .. } => None::<usize>,
            },
    {
        match self {
            Symbol::Frame { addr, .. } => Some(*addr),
            Symbol::Symtab { .. } => None,
        }
    }

    /// The source file path as raw bytes.
    pub fn filename_raw(&self) -> (r: Option<&[u8]>)
        ensures
            bytes_view(r) == match self.file_view() {
                Some(f) => Some(vstd::utf8::encode_utf8(f)),
                None => None,
            },
    {
        match self {
            Symbol::Frame { location: Some(Location { file: Some(f), .. }), .. } => Some(f.as_str().as_bytes()),
            _ => None,
        }
    }

    /// The source file path.
    pub fn filename(&self) -> (r: Option<&str>)
        ensures
            match r {
                Some(s) => self.file_view() == Some(s@),
                None => self.file_view() is None,
            },
    {
        match self {
            Symbol::Frame { location: Some(Location { file: Some(f), .. }), .. } => Some(f.as_str()),
            _ => None,
        }
    }

    /// The source line number.
    pub fn lineno(&self) -> (r: Option<u32>)
        ensures
            r == self.line_view(),
    {
        match self {
            Symbol::Frame { location: Some(l), .. } => l.line,
            _ => None,
        }
    }
}

} // verus!
