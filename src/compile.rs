//! The whole compiler: script text to slides.
use vstd::prelude::*;
use crate::assemble::{assemble_script, assemble_spec, line_views};
use crate::classify::ParseError;
use crate::script::{LineView, StatementView, statements};
use crate::traverse::{traverse_game, traverse_spec, page_views, Page, PageView, TraverseError};

verus! {

/// Why a script gives no slides.
#[derive(Clone, Copy, Debug, PartialEq, Eq, Structural)]
pub enum CompileError {
    Parse(ParseError),
    Traverse(TraverseError),
}

/// The statements of a sequence of logical lines, by their views.
pub open spec fn line_statements(lines: Seq<LineView>) -> Seq<StatementView> {
    lines.map_values(|l: LineView| l.statement)
}

/// The slides a script text gives.
pub open spec fn compile_spec(text: Seq<char>) -> Result<Seq<PageView>, CompileError> {
    match assemble_spec(text) {
        Err(e) => Err(CompileError::Parse(e)),
        Ok(lines) => match traverse_spec(line_statements(lines)) {
            Err(e) => Err(CompileError::Traverse(e)),
            Ok(pages) => Ok(pages),
        },
    }
}

/// Classifies and assembles the lines of a script, then walks them into slides.
pub fn compile_script(text: &str) -> (r: Result<Vec<Page>, CompileError>)
    ensures
        r matches Ok(p) ==> compile_spec(text@) == Ok::<Seq<PageView>, CompileError>(
            page_views(p@),
        ),
        r matches Err(e) ==> compile_spec(text@) == Err::<Seq<PageView>, CompileError>(e),
{
    let lines = match assemble_script(text) {
        Err(e) => return Err(CompileError::Parse(e)),
        Ok(lines) => lines,
    };
    assert(statements(lines@) =~= line_statements(line_views(lines@)));
    match traverse_game(&lines) {
        Err(e) => Err(CompileError::Traverse(e)),
        Ok(pages) => Ok(pages),
    }
}

} // verus!
