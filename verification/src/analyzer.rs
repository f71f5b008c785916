//! Structural analysis of markup text: line splitting and title detection.
//!
//! A document is split into lines on the newline character.  A line whose
//! first character is the heading marker `#` declares the document title;
//! every further marker line is an error.  Leading whitespace is not
//! skipped before the marker check, and the number of consecutive marker
//! characters is not distinguished; both are deliberate simplifications of
//! this markup language.  Title values are sliced by character index, so
//! non-ASCII text is never cut inside a character.

use vstd::prelude::*;
use vstd::string::StrSliceExecFns;

use crate::diagnostics::Diagnostic;
use crate::diagnostics::Range;
use crate::diagnostics::Severity;
use crate::diagnostics::make_char_range;

verus! {

/// The lines of `t`, split on the newline character.  Splitting an empty
/// text yields one empty line, and every newline ends the current line and
/// opens a new one, so the result always holds at least one line.
pub open spec fn spec_lines(t: Seq<char>) -> Seq<Seq<char>>
    decreases t.len(),
{
    if t.len() == 0 {
        seq![Seq::<char>::empty()]
    } else {
        let prev = spec_lines(t.drop_last());
        if t.last() == '\n' {
            prev.push(Seq::<char>::empty())
        } else {
            prev.update(prev.len() - 1, prev.last().push(t.last()))
        }
    }
}

/// Splitting always yields at least one line.
pub proof fn lemma_spec_lines_nonempty(t: Seq<char>)
    ensures
        spec_lines(t).len() >= 1,
    decreases t.len(),
{
    if t.len() > 0 {
        lemma_spec_lines_nonempty(t.drop_last());
    }
}

/// A line that begins with the heading marker.
pub open spec fn is_marker_line(line: Seq<char>) -> bool {
    line.len() > 0 && line[0] == '#'
}

/// The indices of the marker lines of `lines`, in increasing order.
pub open spec fn marker_indices(lines: Seq<Seq<char>>) -> Seq<int>
    decreases lines.len(),
{
    if lines.len() == 0 {
        Seq::<int>::empty()
    } else {
        let prev = marker_indices(lines.drop_last());
        if is_marker_line(lines.last()) {
            prev.push(lines.len() - 1)
        } else {
            prev
        }
    }
}

/// `marker_indices` enumerates exactly the marker lines of `lines`:
/// every listed index is a marker line, the indices strictly increase,
/// and every marker line is listed.
pub proof fn lemma_marker_indices_in_range(lines: Seq<Seq<char>>)
    ensures
        forall|k: int|
            0 <= k < marker_indices(lines).len() ==> {
                let m = #[trigger] marker_indices(lines)[k];
                0 <= m < lines.len() && is_marker_line(lines[m])
            },
        forall|k1: int, k2: int|
            0 <= k1 < k2 < marker_indices(lines).len() ==> #[trigger] marker_indices(lines)[k1]
                < #[trigger] marker_indices(lines)[k2],
        forall|m: int|
            0 <= m < lines.len() && is_marker_line(#[trigger] lines[m]) ==> marker_indices(
                lines,
            ).contains(m),
    decreases lines.len(),
{
    if lines.len() > 0 {
        lemma_marker_indices_in_range(lines.drop_last());
        let prev = marker_indices(lines.drop_last());
        let ms = marker_indices(lines);
        assert forall|k: int| 0 <= k < ms.len() implies {
            let m = #[trigger] ms[k];
            0 <= m < lines.len() && is_marker_line(lines[m])
        } by {
            if k < prev.len() {
                assert(ms[k] == prev[k]);
                assert(lines.drop_last()[prev[k]] == lines[prev[k]]);
            }
        }
        assert forall|k1: int, k2: int| 0 <= k1 < k2 < ms.len() implies ms[k1] < ms[k2] by {
            if k2 < prev.len() {
                assert(ms[k1] == prev[k1] && ms[k2] == prev[k2]);
            } else {
                assert(ms[k1] == prev[k1]);
                assert(prev[k1] < lines.drop_last().len());
            }
        }
        assert forall|m: int|
            0 <= m < lines.len() && is_marker_line(#[trigger] lines[m]) implies ms.contains(m) by {
            if m < lines.len() - 1 {
                assert(lines.drop_last()[m] == lines[m]);
                assert(prev.contains(m));
                let k = choose|k: int| 0 <= k < prev.len() && prev[k] == m;
                assert(ms[k] == m);
            } else {
                assert(ms[ms.len() - 1] == m);
            }
        }
    }
}

/// A text of `n` characters has at most `n + 1` lines.
pub proof fn lemma_spec_lines_count(t: Seq<char>)
    ensures
        spec_lines(t).len() <= t.len() + 1,
    decreases t.len(),
{
    if t.len() > 0 {
        lemma_spec_lines_count(t.drop_last());
        lemma_spec_lines_nonempty(t.drop_last());
    }
}

/// Splits `text` into its lines, on the newline character.
pub fn split_lines(text: &str) -> (lines: Vec<String>)
    ensures
        lines.deep_view() == spec_lines(text@),
{
    let n: usize = text.unicode_len();
    let mut lines: Vec<String> = Vec::new();
    let mut line_start: usize = 0;
    let mut i: usize = 0;
    proof {
        assert(text@.subrange(0, 0) =~= Seq::<char>::empty());
        assert(spec_lines(text@.subrange(0, 0)) =~= lines.deep_view().push(
            text@.subrange(0, 0),
        ));
    }
    while i < n
        invariant
            line_start <= i <= n,
            n == text@.len(),
            spec_lines(text@.subrange(0, i as int)) == lines.deep_view().push(
                text@.subrange(line_start as int, i as int),
            ),
        decreases n - i,
    {
        let ghost t = text@;
        let ghost old_lines = lines.deep_view();
        let ghost old_start = line_start as int;
        let c = text.get_char(i);
        if c == '\n' {
            let line = text.substring_char(line_start, i);
            lines.push(line.to_owned());
            line_start = i + 1;
            proof {
                assert(lines.deep_view() =~= old_lines.push(t.subrange(old_start, i as int)));
            }
        }
        proof {
            let t1 = t.subrange(0, i + 1);
            assert(t1.drop_last() =~= t.subrange(0, i as int));
            assert(t1.last() == t[i as int]);
            if c == '\n' {
                assert(t.subrange(i + 1, i + 1) =~= Seq::<char>::empty());
                assert(spec_lines(t1) =~= lines.deep_view().push(t.subrange(i + 1, i + 1)));
            } else {
                assert(t.subrange(old_start, i as int).push(t[i as int]) =~= t.subrange(
                    old_start,
                    i + 1,
                ));
                assert(spec_lines(t1) =~= lines.deep_view().push(t.subrange(old_start, i + 1)));
            }
        }
        i = i + 1;
    }
    let last = text.substring_char(line_start, n);
    let ghost old_lines = lines.deep_view();
    lines.push(last.to_owned());
    proof {
        assert(text@.subrange(0, n as int) =~= text@);
        assert(lines.deep_view() =~= old_lines.push(text@.subrange(line_start as int, n as int)));
    }
    lines
}

/// The document title found by an analysis pass: the single-character
/// range of its heading marker and the text after the marker.  At most one
/// title is current during a pass; it is recomputed from scratch every
/// time and never kept between passes.
#[derive(Debug)]
pub struct Title {
    pub range: Range,
    pub value: String,
}

/// The outcome of one analysis pass over a document.
#[derive(Debug)]
pub struct Analysis {
    pub title: Option<Title>,
    pub diagnostics: Vec<Diagnostic>,
}

/// The message of the diagnostic reported for a second title heading.
pub open spec fn title_error_message() -> Seq<char> {
    "title already defined"@
}

/// `d` is the error reported for a superfluous heading marker on line
/// `line`: a single-character error range at the marker itself.
pub open spec fn is_title_error(d: Diagnostic, line: int) -> bool {
    &&& d.range.start.line == line
    &&& d.range.start.character == 0
    &&& d.range.end.line == line
    &&& d.range.end.character == 1
    &&& d.message@ == title_error_message()
    &&& d.severity is Error
}

/// `t` is the title read from line `m` of `lines`: its range is the
/// marker character, its value everything after the marker.
pub open spec fn title_at(t: Title, lines: Seq<Seq<char>>, m: int) -> bool {
    &&& t.range.start.line == m
    &&& t.range.start.character == 0
    &&& t.range.end.line == m
    &&& t.range.end.character == 1
    &&& t.value@ == lines[m].subrange(1, lines[m].len() as int)
}

/// `a` is the correct analysis of the line sequence `lines`: the title
/// comes from the first marker line if there is one, and one error is
/// reported for each later marker line, in document order.
pub open spec fn analysis_of_lines(a: Analysis, lines: Seq<Seq<char>>) -> bool {
    let ms = marker_indices(lines);
    &&& match a.title {
        Option::Some(ti) => ms.len() > 0 && title_at(ti, lines, ms[0]),
        Option::None => ms.len() == 0,
    }
    &&& a.diagnostics@.len() == if ms.len() == 0 {
        0int
    } else {
        ms.len() - 1
    }
    &&& forall|k: int|
        0 <= k < a.diagnostics@.len() ==> is_title_error(#[trigger] a.diagnostics@[k], ms[k + 1])
}

/// `a` is the correct analysis of the text `t`.
pub open spec fn analysis_matches(a: Analysis, t: Seq<char>) -> bool {
    analysis_of_lines(a, spec_lines(t))
}

/// Analyzes a sequence of lines: records the first marker line as the
/// title and reports an error for every further marker line.
pub fn analyze_lines(lines: &Vec<String>) -> (a: Analysis)
    requires
        lines@.len() <= u32::MAX,
    ensures
        analysis_of_lines(a, lines.deep_view()),
{
    let ghost ldv = lines.deep_view();
    let mut title: Option<Title> = Option::None;
    let mut diagnostics: Vec<Diagnostic> = Vec::new();
    let mut i: usize = 0;
    proof {
        assert(ldv.subrange(0, 0) =~= Seq::<Seq<char>>::empty());
    }
    while i < lines.len()
        invariant
            i <= lines.len(),
            lines@.len() <= u32::MAX,
            ldv == lines.deep_view(),
            match title {
                Option::Some(ti) => marker_indices(ldv.subrange(0, i as int)).len() > 0
                    && title_at(ti, ldv, marker_indices(ldv.subrange(0, i as int))[0]),
                Option::None => marker_indices(ldv.subrange(0, i as int)).len() == 0,
            },
            diagnostics@.len() == if marker_indices(ldv.subrange(0, i as int)).len() == 0 {
                0int
            } else {
                marker_indices(ldv.subrange(0, i as int)).len() - 1
            },
            forall|k: int|
                0 <= k < diagnostics@.len() ==> is_title_error(
                    #[trigger] diagnostics@[k],
                    marker_indices(ldv.subrange(0, i as int))[k + 1],
                ),
        decreases lines.len() - i,
    {
        let ghost prefix = ldv.subrange(0, i as int);
        let ghost ms = marker_indices(prefix);
        let line = &lines[i];
        let len_i = line.as_str().unicode_len();
        let is_marker = len_i > 0 && line.as_str().get_char(0) == '#';
        proof {
            let p1 = ldv.subrange(0, i + 1);
            assert(p1.drop_last() =~= prefix);
            assert(p1.last() == ldv[i as int]);
            assert(ldv[i as int] == line@);
            assert(is_marker == is_marker_line(ldv[i as int]));
        }
        if is_marker {
            match title {
                Option::Some(_) => {
                    diagnostics.push(
                        Diagnostic {
                            range: make_char_range(i as u32, 0),
                            message: "title already defined".to_owned(),
                            severity: Severity::Error,
                        },
                    );
                },
                Option::None => {
                    let value = line.as_str().substring_char(1, len_i).to_owned();
                    title = Option::Some(Title { range: make_char_range(i as u32, 0), value });
                },
            }
            proof {
                assert(marker_indices(ldv.subrange(0, i + 1)) =~= ms.push(i as int));
            }
        } else {
            proof {
                assert(marker_indices(ldv.subrange(0, i + 1)) =~= ms);
            }
        }
        i = i + 1;
    }
    proof {
        assert(ldv.subrange(0, lines@.len() as int) =~= ldv);
    }
    Analysis { title, diagnostics }
}

/// Analyzes a document text: splits it into lines, records the first
/// marker line as the title, and reports one error for each further
/// marker line.  Total over any text, and free of side effects.
pub fn analyze(text: &str) -> (a: Analysis)
    requires
        text@.len() < u32::MAX,
    ensures
        analysis_matches(a, text@),
{
    let lines = split_lines(text);
    proof {
        lemma_spec_lines_count(text@);
        assert(lines@.len() == lines.deep_view().len());
    }
    analyze_lines(&lines)
}

} // verus!
