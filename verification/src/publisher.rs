//! Assembly of the diagnostic set that is published for a document.
//!
//! The publisher takes the analyzer's diagnostics for a text, appends the
//! fixed informational banner, and tags the whole set with the document
//! version of the event that triggered the analysis.  Each published set
//! fully replaces whatever the editor showed for that document before;
//! no incremental deltas are ever issued.

use vstd::prelude::*;

use crate::analyzer::Analysis;
use crate::analyzer::analysis_matches;
use crate::analyzer::analyze;
use crate::analyzer::is_marker_line;
use crate::analyzer::is_title_error;
use crate::analyzer::lemma_marker_indices_in_range;
use crate::analyzer::marker_indices;
use crate::analyzer::spec_lines;
use crate::diagnostics::Diagnostic;
use crate::diagnostics::Position;
use crate::diagnostics::Range;
use crate::diagnostics::Severity;
use crate::diagnostics::diag_model;

verus! {

/// The message of the fixed banner diagnostic.
pub open spec fn banner_message() -> Seq<char> {
    "Zenika rulez!"@
}

/// `d` is the standing banner: an informational diagnostic at the fixed
/// range of line 0, characters 0 through 10, independent of the document
/// content.
pub open spec fn is_banner(d: Diagnostic) -> bool {
    &&& d.range.start.line == 0
    &&& d.range.start.character == 0
    &&& d.range.end.line == 0
    &&& d.range.end.character == 10
    &&& d.message@ == banner_message()
    &&& d.severity is Information
}

/// Builds the banner diagnostic.
pub fn banner() -> (d: Diagnostic)
    ensures
        is_banner(d),
{
    Diagnostic {
        range: Range {
            start: Position { line: 0, character: 0 },
            end: Position { line: 0, character: 10 },
        },
        message: "Zenika rulez!".to_owned(),
        severity: Severity::Information,
    }
}

/// One outbound publish call: the full diagnostic set for `uri`, tagged
/// with the version of the document it was computed from.
#[derive(Debug)]
pub struct Publication {
    pub uri: String,
    pub version: i32,
    pub diagnostics: Vec<Diagnostic>,
}

/// `ds` is the diagnostic set published for text `t`: one "title already
/// defined" error per marker line after the first, in document order,
/// followed by the banner, and nothing else.
pub open spec fn published_diagnostics_match(ds: Seq<Diagnostic>, t: Seq<char>) -> bool {
    let ms = marker_indices(spec_lines(t));
    let errs = if ms.len() == 0 {
        0int
    } else {
        ms.len() - 1
    };
    &&& ds.len() == errs + 1
    &&& forall|k: int| 0 <= k < errs ==> is_title_error(#[trigger] ds[k], ms[k + 1])
    &&& is_banner(ds[errs])
}

/// `p` is the publication triggered by an event carrying `uri`, `version`
/// and the text `t`.
pub open spec fn publication_matches(
    p: Publication,
    uri: Seq<char>,
    version: int,
    t: Seq<char>,
) -> bool {
    &&& p.uri@ == uri
    &&& p.version == version
    &&& published_diagnostics_match(p.diagnostics@, t)
}

/// Appends the banner to the diagnostics of an analysis of `t`.
pub fn assemble_diagnostics(a: Analysis, Ghost(t): Ghost<Seq<char>>) -> (ds: Vec<Diagnostic>)
    requires
        analysis_matches(a, t),
    ensures
        published_diagnostics_match(ds@, t),
{
    let mut ds = a.diagnostics;
    ds.push(banner());
    ds
}

/// Reacts to a new text for a document: analyzes the text and assembles
/// the publication for it, tagged with the version of the triggering
/// event.
pub fn on_change(uri: String, version: i32, text: &str) -> (p: Publication)
    requires
        text@.len() < u32::MAX,
    ensures
        publication_matches(p, uri@, version as int, text@),
{
    let a = analyze(text);
    let diagnostics = assemble_diagnostics(a, Ghost(text@));
    Publication { uri, version, diagnostics }
}

/// A text without a marker line publishes exactly the banner.
pub proof fn lemma_publish_no_marker(ds: Seq<Diagnostic>, t: Seq<char>)
    requires
        published_diagnostics_match(ds, t),
        marker_indices(spec_lines(t)).len() == 0,
    ensures
        ds.len() == 1,
        is_banner(ds[0]),
{
}

/// A text with exactly one marker line publishes the banner alone; no
/// error is emitted for the sole title.
pub proof fn lemma_publish_single_marker(ds: Seq<Diagnostic>, t: Seq<char>)
    requires
        published_diagnostics_match(ds, t),
        marker_indices(spec_lines(t)).len() == 1,
    ensures
        ds.len() == 1,
        is_banner(ds[0]),
{
}

/// A text with `N >= 2` marker lines publishes `N - 1` "title already
/// defined" errors, one per marker line after the first, each at that
/// line's marker character, followed by the banner.
pub proof fn lemma_publish_duplicate_markers(ds: Seq<Diagnostic>, t: Seq<char>)
    requires
        published_diagnostics_match(ds, t),
        marker_indices(spec_lines(t)).len() >= 2,
    ensures
        ds.len() == marker_indices(spec_lines(t)).len(),
        forall|k: int|
            0 <= k < ds.len() - 1 ==> {
                let m = marker_indices(spec_lines(t))[k + 1];
                &&& is_title_error(#[trigger] ds[k], m)
                &&& 0 <= m < spec_lines(t).len()
                &&& is_marker_line(spec_lines(t)[m])
            },
        is_banner(ds[ds.len() - 1]),
{
    lemma_marker_indices_in_range(spec_lines(t));
}

/// Publishing is deterministic: two diagnostic sets published for the
/// same text are the same diagnostics, element for element.  Re-running
/// the analysis for an unchanged text therefore republishes an identical
/// set.
pub proof fn lemma_publish_deterministic(ds1: Seq<Diagnostic>, ds2: Seq<Diagnostic>, t: Seq<char>)
    requires
        published_diagnostics_match(ds1, t),
        published_diagnostics_match(ds2, t),
    ensures
        ds1.len() == ds2.len(),
        forall|k: int| 0 <= k < ds1.len() ==> diag_model(#[trigger] ds1[k]) == diag_model(ds2[k]),
{
}

} // verus!

