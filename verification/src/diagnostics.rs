//! Positioned, severity-tagged messages about document content.

use vstd::prelude::*;

verus! {

/// A zero-based line / character position inside a document.
#[derive(Clone, Copy, Debug, PartialEq, Eq, Structural)]
pub struct Position {
    pub line: u32,
    pub character: u32,
}

/// A half-open region of a document, from `start` up to `end`.
#[derive(Clone, Copy, Debug, PartialEq, Eq, Structural)]
pub struct Range {
    pub start: Position,
    pub end: Position,
}

/// How serious a diagnostic is, from hard error down to hint.
#[derive(Clone, Copy, Debug, PartialEq, Eq, Structural)]
pub enum Severity {
    Error,
    Warning,
    Information,
    Hint,
}

/// A message about a region of a document, shown by the editor.
#[derive(Debug)]
pub struct Diagnostic {
    pub range: Range,
    pub message: String,
    pub severity: Severity,
}

/// The mathematical content of a diagnostic: its four position numbers,
/// its message text and its severity.  Two diagnostics with equal models
/// are indistinguishable to the editor.
pub open spec fn diag_model(d: Diagnostic) -> (u32, u32, u32, u32, Seq<char>, Severity) {
    (
        d.range.start.line,
        d.range.start.character,
        d.range.end.line,
        d.range.end.character,
        d.message@,
        d.severity,
    )
}

/// The single-character range at column `character` of line `line`.
pub open spec fn char_range(line: u32, character: u32) -> Range {
    Range {
        start: Position { line, character },
        end: Position { line, character: (character + 1) as u32 },
    }
}

/// Builds the single-character range at column `character` of line `line`.
pub fn make_char_range(line: u32, character: u32) -> (r: Range)
    requires
        character < u32::MAX,
    ensures
        r == char_range(line, character),
{
    Range {
        start: Position { line, character },
        end: Position { line, character: character + 1 },
    }
}

} // verus!
