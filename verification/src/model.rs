//! The mathematical model of a document and of the edit processor.
//!
//! A document is modelled as a sequence of lines, each a sequence of
//! characters, together with a cursor, an optional selection anchor, a
//! modified flag, a file name and the listener registry. Every edit command
//! is given a meaning as a pure function on that model; the executable
//! code in [`crate::textdocument`] is proved to follow it step by step.

use crate::doc::Direction;
use crate::doc::DocumentEdit;
use crate::doc::DocumentEvent;
use crate::doc::Loc;
use crate::doc::SelectionMode;
use std::sync::mpsc::Sender;
use vstd::prelude::*;

verus! {

/// The abstract state of a document.
pub ghost struct DocView {
    /// The text, in visual order: line index = position in the sequence.
    /// Lines are implicitly newline-delimited; no line stores a terminator
    /// that was inserted through a splitting edit.
    pub content: Seq<Seq<char>>,
    /// The current cursor.
    pub cursor: Loc,
    /// The selection anchor, if a selection is active.
    pub selection_start: Option<Loc>,
    /// Whether content has diverged from the last-saved state.
    pub modified: bool,
    /// The associated path; empty means untitled.
    pub file_name: Seq<char>,
    /// Notification targets, most recently registered first.
    pub listeners: Seq<Sender<DocumentEvent>>,
}

/// The text a sequence of line strings stands for: each line viewed as its
/// character sequence.
pub open spec fn lines_view(s: Seq<String>) -> Seq<Seq<char>> {
    Seq::new(s.len(), |i: int| s[i]@)
}

/// A line terminator: insertion splits the current line on either of these.
pub open spec fn is_terminator(c: char) -> bool {
    c == '\n' || c == '\r'
}

/// Whether `s` holds no line terminator.
pub open spec fn plain_text(s: Seq<char>) -> bool {
    forall|i: int| 0 <= i < s.len() ==> !is_terminator(s[i])
}

/// Whether `loc` addresses a character slot of `content`: its line exists
/// and its column is at most that line's length (one past the end is a
/// valid insertion point).
pub open spec fn loc_in_bounds(content: Seq<Seq<char>>, loc: Loc) -> bool {
    loc.line < content.len() && loc.col <= content[loc.line as int].len()
}

/// Lexicographic order on locations: by line, then by column.
pub open spec fn loc_le(a: Loc, b: Loc) -> bool {
    a.line < b.line || (a.line == b.line && a.col <= b.col)
}

/// One character inserted at `loc`: that line grows by one, every other
/// line and the line count are unchanged.
pub open spec fn spec_insert_char(content: Seq<Seq<char>>, loc: Loc, ch: char) -> Seq<Seq<char>> {
    content.update(loc.line as int, content[loc.line as int].insert(loc.col as int, ch))
}

/// The line at `line` split at `col`: the head stays in place and the
/// remainder becomes a new line immediately below.
pub open spec fn spec_split_line(content: Seq<Seq<char>>, line: int, col: int) -> Seq<Seq<char>> {
    content.update(line, content[line].take(col)).insert(line + 1, content[line].skip(col))
}

/// Character-by-character insertion of `s` starting at (`line`, `col`).
/// An ordinary character is inserted at the current column, which advances;
/// a terminator splits the current line at the current column, is not
/// itself retained, and insertion resumes at column 0 of the new line.
pub open spec fn spec_insert_str(
    content: Seq<Seq<char>>,
    line: int,
    col: int,
    s: Seq<char>,
) -> Seq<Seq<char>>
    decreases s.len(),
{
    if s.len() == 0 {
        content
    } else if is_terminator(s.first()) {
        spec_insert_str(spec_split_line(content, line, col), line + 1, 0, s.drop_first())
    } else {
        spec_insert_str(
            content.update(line, content[line].insert(col, s.first())),
            line,
            col + 1,
            s.drop_first(),
        )
    }
}

/// The range from `lo` to `hi` removed, for `lo <= hi` with both in bounds:
/// within one line the span of characters disappears; across lines the head
/// of `lo`'s line and the tail of `hi`'s line merge into one line and the
/// lines between them disappear.
pub open spec fn spec_delete(content: Seq<Seq<char>>, lo: Loc, hi: Loc) -> Seq<Seq<char>> {
    if lo.line == hi.line {
        content.update(
            lo.line as int,
            content[lo.line as int].take(lo.col as int) + content[lo.line as int].skip(
                hi.col as int,
            ),
        )
    } else {
        content.take(lo.line as int) + seq![
            content[lo.line as int].take(lo.col as int) + content[hi.line as int].skip(
                hi.col as int,
            ),
        ] + content.skip(hi.line as int + 1)
    }
}

/// `loc` pulled back into the current bounds: the line is capped at the
/// last line, the column at that line's length. An empty document admits
/// only the origin.
pub open spec fn spec_clamp(content: Seq<Seq<char>>, loc: Loc) -> Loc {
    if content.len() == 0 {
        Loc { line: 0, col: 0 }
    } else {
        let line = if loc.line < content.len() {
            loc.line
        } else {
            (content.len() - 1) as usize
        };
        let col = if loc.col <= content[line as int].len() {
            loc.col
        } else {
            content[line as int].len() as usize
        };
        Loc { line, col }
    }
}

/// One unit of cursor travel from an in-bounds location `cur`: left and
/// right wrap across line boundaries, up and down keep the column where the
/// target line allows it, and every move is clamped to the document.
pub open spec fn spec_move(content: Seq<Seq<char>>, cur: Loc, dir: Direction) -> Loc {
    if content.len() == 0 {
        cur
    } else {
        match dir {
            Direction::Left => {
                if cur.col > 0 {
                    Loc { line: cur.line, col: (cur.col - 1) as usize }
                } else if cur.line > 0 {
                    Loc {
                        line: (cur.line - 1) as usize,
                        col: content[cur.line - 1].len() as usize,
                    }
                } else {
                    cur
                }
            },
            Direction::Right => {
                if cur.col < content[cur.line as int].len() {
                    Loc { line: cur.line, col: (cur.col + 1) as usize }
                } else if cur.line + 1 < content.len() {
                    Loc { line: (cur.line + 1) as usize, col: 0 }
                } else {
                    cur
                }
            },
            Direction::Up => {
                if cur.line > 0 {
                    Loc {
                        line: (cur.line - 1) as usize,
                        col: spec_col_min(cur.col, content[cur.line - 1].len()),
                    }
                } else {
                    cur
                }
            },
            Direction::Down => {
                if cur.line + 1 < content.len() {
                    Loc {
                        line: (cur.line + 1) as usize,
                        col: spec_col_min(cur.col, content[cur.line + 1].len()),
                    }
                } else {
                    cur
                }
            },
        }
    }
}

/// The smaller of a column and a line length, as a column.
pub open spec fn spec_col_min(col: usize, len: nat) -> usize {
    if col <= len {
        col
    } else {
        len as usize
    }
}

/// The selection-anchor transition for `SetSelectionMode`: clearing drops
/// the anchor, beginning a selection sets it to the cursor when none is
/// active yet, and finalizing keeps it in place.
pub open spec fn spec_selection_transition(
    anchor: Option<Loc>,
    cursor: Loc,
    m: SelectionMode,
) -> Option<Loc> {
    match m {
        SelectionMode::NoSelection => None,
        SelectionMode::Selecting => if anchor is None {
            Some(cursor)
        } else {
            anchor
        },
        SelectionMode::Selected => anchor,
    }
}

/// Replacing one line commutes with taking the view.
pub proof fn lemma_lines_view_update(s: Seq<String>, i: int, x: String)
    requires
        0 <= i < s.len(),
    ensures
        lines_view(s.update(i, x)) == lines_view(s).update(i, x@),
{
    assert(lines_view(s.update(i, x)) =~= lines_view(s).update(i, x@));
}

/// Inserting a line commutes with taking the view.
pub proof fn lemma_lines_view_insert(s: Seq<String>, i: int, x: String)
    requires
        0 <= i <= s.len(),
    ensures
        lines_view(s.insert(i, x)) == lines_view(s).insert(i, x@),
{
    assert(lines_view(s.insert(i, x)) =~= lines_view(s).insert(i, x@));
}

/// The meaning of one command: the state after applying it, and whether the
/// processor keeps running. `Close` is the only command that stops it, and
/// the only one it applies without mutating. A mutating command whose
/// location is out of bounds is rejected whole: the state is unchanged and
/// processing continues.
pub open spec fn edit_step(v: DocView, e: DocumentEdit) -> (DocView, bool) {
    match e {
        DocumentEdit::Close => (v, false),
        DocumentEdit::AddListener(s) => (
            DocView { listeners: v.listeners.insert(0, s), ..v },
            true,
        ),
        DocumentEdit::Save => (DocView { modified: false, ..v }, true),
        DocumentEdit::SaveAs(path) => (
            DocView { file_name: path@, modified: false, ..v },
            true,
        ),
        DocumentEdit::InsertChar(loc, ch) => (
            if loc_in_bounds(v.content, loc) {
                DocView { content: spec_insert_char(v.content, loc, ch), modified: true, ..v }
            } else {
                v
            },
            true,
        ),
        DocumentEdit::InsertStr(loc, s) => (
            if loc_in_bounds(v.content, loc) {
                DocView {
                    content: spec_insert_str(v.content, loc.line as int, loc.col as int, s@),
                    modified: if s@.len() > 0 {
                        true
                    } else {
                        v.modified
                    },
                    ..v
                }
            } else {
                v
            },
            true,
        ),
        DocumentEdit::Delete(sel) => (
            if loc_in_bounds(v.content, sel.start) && loc_in_bounds(v.content, sel.end) {
                let lo = if loc_le(sel.start, sel.end) {
                    sel.start
                } else {
                    sel.end
                };
                let hi = if loc_le(sel.start, sel.end) {
                    sel.end
                } else {
                    sel.start
                };
                DocView {
                    content: spec_delete(v.content, lo, hi),
                    cursor: lo,
                    modified: if lo != hi {
                        true
                    } else {
                        v.modified
                    },
                    ..v
                }
            } else {
                v
            },
            true,
        ),
        DocumentEdit::MoveCursor(d) => (
            DocView { cursor: spec_move(v.content, spec_clamp(v.content, v.cursor), d), ..v },
            true,
        ),
        DocumentEdit::MoveCursorTo(loc) => (
            DocView { cursor: spec_clamp(v.content, loc), ..v },
            true,
        ),
        DocumentEdit::SetSelectionMode(m) => (
            DocView {
                selection_start: spec_selection_transition(v.selection_start, v.cursor, m),
                ..v
            },
            true,
        ),
    }
}

/// The processor run over a queue of commands: commands are applied in
/// order until one of them stops the loop, and what follows is never
/// observed.
pub open spec fn run_edits(v: DocView, es: Seq<DocumentEdit>) -> DocView
    decreases es.len(),
{
    if es.len() == 0 {
        v
    } else {
        let (v2, cont) = edit_step(v, es.first());
        if cont {
            run_edits(v2, es.drop_first())
        } else {
            v2
        }
    }
}

/// `line` with the characters of `s` spliced in at `col`.
pub open spec fn spec_splice(line: Seq<char>, col: int, s: Seq<char>) -> Seq<char> {
    line.take(col) + s + line.skip(col)
}

/// Terminator-free text never splits: the whole of `s` lands in the
/// current line at the insertion column, and insertion continues directly
/// after it.
pub proof fn lemma_insert_plain_prefix(
    content: Seq<Seq<char>>,
    line: int,
    col: int,
    s: Seq<char>,
    rest: Seq<char>,
)
    requires
        0 <= line < content.len(),
        0 <= col <= content[line].len(),
        plain_text(s),
    ensures
        spec_insert_str(content, line, col, s + rest) == spec_insert_str(
            content.update(line, spec_splice(content[line], col, s)),
            line,
            col + s.len(),
            rest,
        ),
    decreases s.len(),
{
    if s.len() == 0 {
        assert(s + rest =~= rest);
        assert(spec_splice(content[line], col, s) =~= content[line]);
        assert(content.update(line, content[line]) =~= content);
    } else {
        let c = s.first();
        assert(!is_terminator(c)) by {
            assert(s[0] == c);
        }
        assert((s + rest).len() > 0);
        assert((s + rest).first() == c);
        assert((s + rest).drop_first() =~= s.drop_first() + rest);
        let content1 = content.update(line, content[line].insert(col, c));
        assert(spec_insert_str(content, line, col, s + rest) == spec_insert_str(
            content1,
            line,
            col + 1,
            s.drop_first() + rest,
        ));
        assert(plain_text(s.drop_first())) by {
            assert(forall|i: int|
                0 <= i < s.drop_first().len() ==> !is_terminator(#[trigger] s.drop_first()[i]))
                by {
                assert(forall|i: int|
                    0 <= i < s.drop_first().len() ==> s.drop_first()[i] == s[i + 1]);
            }
        }
        lemma_insert_plain_prefix(content1, line, col + 1, s.drop_first(), rest);
        assert(spec_splice(content1[line], col + 1, s.drop_first()) =~= spec_splice(
            content[line],
            col,
            s,
        ));
        assert(content1.update(line, spec_splice(content[line], col, s)) =~= content.update(
            line,
            spec_splice(content[line], col, s),
        ));
    }
}

/// Inserting terminator-free text `s` with a single terminator appended
/// splits the target line at the insertion column: the head keeps the
/// line's prefix with `s` appended, the remainder moves to a new line
/// directly below, every other line survives in order, and joining the
/// two halves back together gives the original line with `s` spliced in.
pub proof fn lemma_insert_str_splits_line(content: Seq<Seq<char>>, loc: Loc, s: Seq<char>, t: char)
    requires
        loc_in_bounds(content, loc),
        plain_text(s),
        is_terminator(t),
    ensures
        ({
            let r = spec_insert_str(content, loc.line as int, loc.col as int, s.push(t));
            &&& r.len() == content.len() + 1
            &&& r[loc.line as int] == content[loc.line as int].take(loc.col as int) + s
            &&& r[loc.line as int + 1] == content[loc.line as int].skip(loc.col as int)
            &&& r[loc.line as int] + r[loc.line as int + 1] == spec_splice(
                content[loc.line as int],
                loc.col as int,
                s,
            )
            &&& forall|j: int| 0 <= j < loc.line ==> r[j] == content[j]
            &&& forall|j: int| loc.line + 1 < j < r.len() ==> r[j] == content[j - 1]
        }),
{
    let line = loc.line as int;
    let col = loc.col as int;
    assert(s.push(t) =~= s + seq![t]);
    lemma_insert_plain_prefix(content, line, col, s, seq![t]);
    let spliced = spec_splice(content[line], col, s);
    let content1 = content.update(line, spliced);
    let end = col + s.len();
    assert(seq![t].first() == t);
    assert(seq![t].drop_first() =~= Seq::<char>::empty());
    assert(spec_insert_str(content1, line, end, seq![t]) == spec_split_line(content1, line, end))
        by {
        reveal_with_fuel(spec_insert_str, 2);
    }
    let r = spec_split_line(content1, line, end);
    assert(spliced.take(end) =~= content[line].take(col) + s);
    assert(spliced.skip(end) =~= content[line].skip(col));
    assert(r[line] == content[line].take(col) + s);
    assert(r[line + 1] == content[line].skip(col));
    assert(r[line] + r[line + 1] =~= spec_splice(content[line], col, s));
}

/// Removing any line but the last, then reinserting its text at the start
/// of its old position with one terminator appended, restores the
/// document exactly: the round trip of taking a line out and typing it
/// back in.
pub proof fn lemma_remove_line_round_trip(content: Seq<Seq<char>>, i: usize)
    requires
        i + 1 < content.len(),
        plain_text(content[i as int]),
    ensures
        spec_insert_str(content.remove(i as int), i as int, 0, content[i as int].push('\n'))
            == content,
{
    let removed = content.remove(i as int);
    let loc = Loc { line: i, col: 0 };
    lemma_insert_str_splits_line(removed, loc, content[i as int], '\n');
    let r = spec_insert_str(removed, i as int, 0, content[i as int].push('\n'));
    assert(removed[i as int].take(0) =~= Seq::<char>::empty());
    assert(removed[i as int].skip(0) =~= removed[i as int]);
    assert(r[i as int] =~= content[i as int]);
    assert(r =~= content);
}

/// A step is a stop exactly on `Close`.
pub proof fn lemma_step_continues(v: DocView, e: DocumentEdit)
    ensures
        edit_step(v, e).1 <==> !(e is Close),
        e is Close ==> edit_step(v, e).0 == v,
{
}

/// Extending a run that has not stopped by one command applies exactly
/// that command's step.
pub proof fn lemma_run_snoc(v: DocView, es: Seq<DocumentEdit>, e: DocumentEdit)
    requires
        forall|j: int| 0 <= j < es.len() ==> !((#[trigger] es[j]) is Close),
    ensures
        run_edits(v, es.push(e)) == edit_step(run_edits(v, es), e).0,
    decreases es.len(),
{
    if es.len() == 0 {
        assert(es.push(e).first() == e);
        assert(es.push(e).drop_first() =~= Seq::<DocumentEdit>::empty());
        lemma_step_continues(v, e);
        assert(run_edits(v, es.push(e)) == edit_step(v, e).0) by {
            reveal_with_fuel(run_edits, 2);
        }
        assert(run_edits(v, es) == v);
    } else {
        let e0 = es.first();
        assert(!(e0 is Close));
        assert(es.push(e).first() == e0);
        assert(es.push(e).drop_first() =~= es.drop_first().push(e));
        let v1 = edit_step(v, e0).0;
        lemma_step_continues(v, e0);
        assert(edit_step(v, e0).1);
        assert(run_edits(v, es.push(e)) == run_edits(v1, es.drop_first().push(e)));
        assert(run_edits(v, es) == run_edits(v1, es.drop_first()));
        assert(forall|j: int|
            0 <= j < es.drop_first().len() ==> !((#[trigger] es.drop_first()[j]) is Close));
        lemma_run_snoc(v1, es.drop_first(), e);
    }
}

/// `Close` halts processing: however long the backlog behind a `Close`,
/// the run stops at the `Close`, applies nothing after it, and ends in the
/// same state as the run of the commands before it alone.
pub proof fn lemma_close_halts(v: DocView, pre: Seq<DocumentEdit>, post: Seq<DocumentEdit>)
    requires
        forall|j: int| 0 <= j < pre.len() ==> !((#[trigger] pre[j]) is Close),
    ensures
        run_edits(v, pre.push(DocumentEdit::Close) + post) == run_edits(v, pre),
        run_edits(v, pre.push(DocumentEdit::Close)) == run_edits(v, pre),
    decreases pre.len(),
{
    if pre.len() == 0 {
        assert((pre.push(DocumentEdit::Close) + post).first() is Close);
        assert(pre.push(DocumentEdit::Close).first() is Close);
    } else {
        let e0 = pre.first();
        assert(!(e0 is Close));
        let v1 = edit_step(v, e0).0;
        assert(forall|j: int|
            0 <= j < pre.drop_first().len() ==> !((#[trigger] pre.drop_first()[j]) is Close));
        lemma_close_halts(v1, pre.drop_first(), post);
        assert((pre.push(DocumentEdit::Close) + post).first() == e0);
        assert((pre.push(DocumentEdit::Close) + post).drop_first()
            =~= pre.drop_first().push(DocumentEdit::Close) + post);
        assert(pre.push(DocumentEdit::Close).first() == e0);
        assert(pre.push(DocumentEdit::Close).drop_first()
            =~= pre.drop_first().push(DocumentEdit::Close));
    }
}

} // verus!
