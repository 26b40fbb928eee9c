//! The concrete document: an owned line buffer mutated only through queued
//! edit commands, with every command proved to follow the model in
//! [`crate::model`].

use crate::channel::new_edit_channel;
use crate::channel::recv_edit;
use crate::channel::send_event;
use crate::channel::try_recv_edit;
use crate::doc::BoundsError;
use crate::doc::ChannelClosed;
use crate::doc::Document;
use crate::doc::DocumentEdit;
use crate::doc::DocumentEvent;
use crate::doc::Loc;
use crate::doc::PersistenceError;
use crate::doc::Selection;
use crate::doc::SelectionMode;
use crate::doc::Direction;
use crate::model::lemma_lines_view_insert;
use crate::model::lemma_lines_view_update;
use crate::model::edit_step;
use crate::model::lemma_run_snoc;
use crate::model::lemma_step_continues;
use crate::model::lines_view;
use crate::model::run_edits;
use crate::model::loc_in_bounds;
use crate::model::loc_le;
use crate::model::spec_clamp;
use crate::model::spec_delete;
use crate::model::spec_move;
use crate::model::spec_selection_transition;
use crate::model::spec_insert_char;
use crate::model::spec_insert_str;
use crate::model::spec_split_line;
use crate::model::DocView;
use std::sync::mpsc::Receiver;
use std::sync::mpsc::Sender;
use vstd::prelude::*;
use vstd::string::StrSliceExecFns;
use vstd::string::StringExecFns;

verus! {

/// A line-oriented text document.
///
/// `content` is the authoritative text: one string per line, in visual
/// order, with no stored terminators. Reads may come from any thread
/// holding a shared reference; mutation happens only through the inbound
/// edit queue, drained one command at a time by [`Self::thread_method`].
pub struct PlainTextDocument {
    content: Vec<String>,
    cursor: Loc,
    selection_start: Option<Loc>,
    modified: bool,
    file_name: String,
    inbound_edits: Sender<DocumentEdit>,
    edits_receiver: Receiver<DocumentEdit>,
    listeners: Vec<Sender<DocumentEvent>>,
    /// The commands applied so far, oldest first: the trace that ties the
    /// processing loop to the model's `run_edits`.
    processed: Ghost<Seq<DocumentEdit>>,
}

impl View for PlainTextDocument {
    type V = DocView;

    closed spec fn view(&self) -> DocView {
        DocView {
            content: lines_view(self.content@),
            cursor: self.cursor,
            selection_start: self.selection_start,
            modified: self.modified,
            file_name: self.file_name@,
            listeners: self.listeners@,
        }
    }
}

impl PlainTextDocument {
    /// The commands this document has applied, oldest first.
    pub closed spec fn trace(&self) -> Seq<DocumentEdit> {
        self.processed@
    }

    /// A new, untitled, empty document with a fresh inbound edit queue.
    pub fn new() -> (doc: PlainTextDocument)
        ensures
            doc@.content.len() == 0,
            doc@.cursor == (Loc { line: 0, col: 0 }),
            doc@.selection_start is None,
            !doc@.modified,
            doc@.file_name.len() == 0,
            doc@.listeners.len() == 0,
            doc.trace().len() == 0,
    {
        let (s, r) = new_edit_channel();
        PlainTextDocument {
            content: Vec::new(),
            cursor: Loc { line: 0, col: 0 },
            selection_start: None,
            modified: false,
            file_name: String::new(),
            inbound_edits: s,
            edits_receiver: r,
            listeners: Vec::new(),
            processed: Ghost(Seq::empty()),
        }
    }

    /// The current cursor location.
    pub fn cursor_loc(&self) -> (loc: Loc)
        ensures
            loc == self@.cursor,
    {
        self.cursor
    }

    /// A point-in-time snapshot copy of all lines, in order.
    pub fn lines(&self) -> (r: Vec<String>)
        ensures
            lines_view(r@) == self@.content,
    {
        let mut out: Vec<String> = Vec::new();
        let mut i: usize = 0;
        while i < self.content.len()
            invariant
                i <= self.content.len(),
                out@.len() == i,
                forall|j: int| 0 <= j < i ==> out@[j]@ == self.content@[j]@,
            decreases self.content.len() - i,
        {
            out.push(self.content[i].clone());
            i += 1;
        }
        proof {
            assert(lines_view(out@) =~= lines_view(self.content@));
        }
        out
    }

    /// The active selection, if an anchor is set: the anchor, the live
    /// cursor, and an empty `text` (populating it from the range is a known
    /// gap, not a hidden requirement).
    pub fn selection(&self) -> (r: Option<Selection>)
        ensures
            match r {
                Some(sel) => {
                    &&& self@.selection_start == Some(sel.start)
                    &&& sel.end == self@.cursor
                    &&& sel.text@.len() == 0
                },
                None => self@.selection_start is None,
            },
    {
        match self.selection_start {
            Some(loc) => Some(Selection { start: loc, end: self.cursor, text: String::new() }),
            None => None,
        }
    }

    /// Whether content has diverged from the last-saved state.
    pub fn is_modified(&self) -> (m: bool)
        ensures
            m == self@.modified,
    {
        self.modified
    }

    /// A cloneable producer handle for this document's inbound edit queue.
    pub fn edits_channel(&self) -> Sender<DocumentEdit> {
        self.inbound_edits.clone()
    }

    /// Replaces the whole text, leaving everything else in place.
    pub fn set_content(&mut self, lines: Vec<String>)
        ensures
            final(self)@ == (DocView { content: lines_view(lines@), ..old(self)@ }),
            final(self).trace() == old(self).trace(),
    {
        self.content = lines;
    }

    /// Places the cursor without bounds checking, for callers that manage
    /// their own addressing.
    pub fn set_cursor(&mut self, cursor: Loc)
        ensures
            final(self)@ == (DocView { cursor: cursor, ..old(self)@ }),
            final(self).trace() == old(self).trace(),
    {
        self.cursor = cursor;
    }

    /// Sets or clears the modified flag directly.
    pub fn set_modified(&mut self, modified: bool)
        ensures
            final(self)@ == (DocView { modified: modified, ..old(self)@ }),
            final(self).trace() == old(self).trace(),
    {
        self.modified = modified;
    }

    /// Takes one queued edit command without blocking, if one is waiting.
    /// The consumer side of the queue belongs to this document alone.
    pub fn try_recv_queued_edit(&self) -> Option<DocumentEdit> {
        try_recv_edit(&self.edits_receiver)
    }

    /// Inserts `ch` at `cursor`, shifting the rest of that line right by
    /// one. The target line grows by one character; every other line and
    /// the line count are unchanged. A location out of bounds rejects the
    /// command whole and leaves the document untouched.
    pub fn insert_char(&mut self, cursor: Loc, ch: char) -> (r: Result<(), BoundsError>)
        ensures
            r is Ok <==> loc_in_bounds(old(self)@.content, cursor),
            r is Ok ==> final(self)@ == (DocView {
                content: spec_insert_char(old(self)@.content, cursor, ch),
                modified: true,
                ..old(self)@
            }),
            r is Ok ==> final(self)@.content.len() == old(self)@.content.len(),
            r is Ok ==> final(self)@.content[cursor.line as int]
                == old(self)@.content[cursor.line as int].insert(cursor.col as int, ch),
            r is Ok ==> forall|j: int|
                0 <= j < old(self)@.content.len() && j != cursor.line
                    ==> final(self)@.content[j] == old(self)@.content[j],
            r is Err ==> *final(self) == *old(self),
            final(self).trace() == old(self).trace(),
    {
        if cursor.line < self.content.len() {
            let line_len = self.content[cursor.line].as_str().unicode_len();
            if cursor.col <= line_len {
                let new_line = line_insert_char(&self.content[cursor.line], cursor.col, ch);
                self.content[cursor.line] = new_line;
                self.modified = true;
                proof {
                    assert(final(self)@.content =~= spec_insert_char(
                        old(self)@.content,
                        cursor,
                        ch,
                    ));
                }
                return Ok(());
            }
        }
        Err(BoundsError)
    }
}

impl PlainTextDocument {
    /// Inserts `insertion` character by character starting at `cursor`.
    /// An ordinary character lands at the current column; a terminator
    /// (`\n` or `\r`) splits the current line at the current column, is not
    /// itself retained, and insertion resumes at column 0 of the new line
    /// below. A location out of bounds rejects the command whole and leaves
    /// the document untouched.
    pub fn insert_string(&mut self, cursor: Loc, insertion: String) -> (r: Result<
        (),
        BoundsError,
    >)
        ensures
            r is Ok <==> loc_in_bounds(old(self)@.content, cursor),
            r is Ok ==> final(self)@ == (DocView {
                content: spec_insert_str(
                    old(self)@.content,
                    cursor.line as int,
                    cursor.col as int,
                    insertion@,
                ),
                modified: if insertion@.len() > 0 {
                    true
                } else {
                    old(self)@.modified
                },
                ..old(self)@
            }),
            r is Err ==> *final(self) == *old(self),
            final(self).trace() == old(self).trace(),
    {
        if !(cursor.line < self.content.len()) {
            return Err(BoundsError);
        }
        let line_len = self.content[cursor.line].as_str().unicode_len();
        if !(cursor.col <= line_len) {
            return Err(BoundsError);
        }
        let n = insertion.as_str().unicode_len();
        let mut line: usize = cursor.line;
        let mut col: usize = cursor.col;
        let mut i: usize = 0;
        proof {
            assert(insertion@.skip(0) =~= insertion@);
        }
        while i < n
            invariant
                n == insertion@.len(),
                i <= n,
                (line as int) < lines_view(self.content@).len(),
                col <= lines_view(self.content@)[line as int].len(),
                spec_insert_str(
                    old(self)@.content,
                    cursor.line as int,
                    cursor.col as int,
                    insertion@,
                ) == spec_insert_str(
                    lines_view(self.content@),
                    line as int,
                    col as int,
                    insertion@.skip(i as int),
                ),
                self.cursor == old(self).cursor,
                self.selection_start == old(self).selection_start,
                self.modified == old(self).modified,
                self.file_name == old(self).file_name,
                self.listeners == old(self).listeners,
                self.processed == old(self).processed,
                self.inbound_edits == old(self).inbound_edits,
                self.edits_receiver == old(self).edits_receiver,
            decreases n - i,
        {
            let ghost c0 = lines_view(self.content@);
            let ghost rest = insertion@.skip(i as int);
            proof {
                assert(rest.len() > 0);
                assert(rest.first() == insertion@[i as int]);
                assert(rest.drop_first() =~= insertion@.skip(i as int + 1));
            }
            let ch = insertion.as_str().get_char(i);
            if ch == '\n' || ch == '\r' {
                let ghost v0 = self.content@;
                let (left, right) = split_line_at(&self.content[line], col);
                let ghost left_chars = left@;
                let ghost right_chars = right@;
                self.content[line] = left;
                let ghost v1 = self.content@;
                let nlines = self.content.len();
                proof {
                    assert(line < nlines);
                }
                self.content.insert(line + 1, right);
                let ghost v2 = self.content@;
                proof {
                    lemma_lines_view_update(v0, line as int, v1[line as int]);
                    lemma_lines_view_insert(v1, line as int + 1, v2[line as int + 1]);
                    assert(lines_view(v2) == c0.update(line as int, left_chars).insert(
                        line as int + 1,
                        right_chars,
                    ));
                    assert(lines_view(v2) == spec_split_line(c0, line as int, col as int));
                    assert(spec_insert_str(c0, line as int, col as int, rest)
                        == spec_insert_str(
                        spec_split_line(c0, line as int, col as int),
                        line as int + 1,
                        0,
                        rest.drop_first(),
                    ));
                }
                line = line + 1;
                col = 0;
            } else {
                let ghost v0 = self.content@;
                let new_line = line_insert_char(&self.content[line], col, ch);
                let ghost new_chars = new_line@;
                self.content[line] = new_line;
                let ghost v1 = self.content@;
                proof {
                    lemma_lines_view_update(v0, line as int, v1[line as int]);
                    assert(lines_view(v1) == c0.update(
                        line as int,
                        c0[line as int].insert(col as int, ch),
                    ));
                    assert(spec_insert_str(c0, line as int, col as int, rest)
                        == spec_insert_str(
                        c0.update(line as int, c0[line as int].insert(col as int, rest.first())),
                        line as int,
                        col as int + 1,
                        rest.drop_first(),
                    ));
                }
                col = col + 1;
            }
            i += 1;
        }
        if n > 0 {
            self.modified = true;
        }
        Ok(())
    }
}

impl PlainTextDocument {
    /// Removes the text spanned by `sel`, after normalizing its endpoints
    /// so the smaller comes first: within one line the span of characters
    /// disappears; across lines the head of the first line and the tail of
    /// the last merge into one line and the lines between them disappear.
    /// The cursor lands at the start of the removed range. Either endpoint
    /// out of bounds rejects the command whole and leaves the document
    /// untouched.
    pub fn delete(&mut self, sel: Selection) -> (r: Result<(), BoundsError>)
        ensures
            r is Ok <==> loc_in_bounds(old(self)@.content, sel.start) && loc_in_bounds(
                old(self)@.content,
                sel.end,
            ),
            r is Ok ==> ({
                let lo = if loc_le(sel.start, sel.end) {
                    sel.start
                } else {
                    sel.end
                };
                let hi = if loc_le(sel.start, sel.end) {
                    sel.end
                } else {
                    sel.start
                };
                final(self)@ == (DocView {
                    content: spec_delete(old(self)@.content, lo, hi),
                    cursor: lo,
                    modified: if lo != hi {
                        true
                    } else {
                        old(self)@.modified
                    },
                    ..old(self)@
                })
            }),
            r is Err ==> *final(self) == *old(self),
            final(self).trace() == old(self).trace(),
    {
        if !(sel.start.line < self.content.len()) {
            return Err(BoundsError);
        }
        let start_len = self.content[sel.start.line].as_str().unicode_len();
        if !(sel.start.col <= start_len) {
            return Err(BoundsError);
        }
        if !(sel.end.line < self.content.len()) {
            return Err(BoundsError);
        }
        let end_len = self.content[sel.end.line].as_str().unicode_len();
        if !(sel.end.col <= end_len) {
            return Err(BoundsError);
        }
        let start_first = sel.start.line < sel.end.line || (sel.start.line == sel.end.line
            && sel.start.col <= sel.end.col);
        let lo = if start_first {
            sel.start
        } else {
            sel.end
        };
        let hi = if start_first {
            sel.end
        } else {
            sel.start
        };
        let ghost c0 = lines_view(self.content@);
        if lo.line == hi.line {
            if lo.col == hi.col {
                self.cursor = lo;
                proof {
                    assert(c0[lo.line as int].take(lo.col as int) + c0[lo.line as int].skip(
                        hi.col as int,
                    ) =~= c0[lo.line as int]);
                    assert(spec_delete(c0, lo, hi) =~= c0);
                }
                return Ok(());
            }
            let ghost v0 = self.content@;
            let new_line = line_merge(&self.content[lo.line], lo.col, &self.content[lo.line], hi.col);
            self.content[lo.line] = new_line;
            let ghost v1 = self.content@;
            proof {
                lemma_lines_view_update(v0, lo.line as int, v1[lo.line as int]);
                assert(lines_view(v1) == spec_delete(c0, lo, hi));
            }
            self.cursor = lo;
            self.modified = true;
            Ok(())
        } else {
            let ghost v0 = self.content@;
            let new_line = line_merge(&self.content[lo.line], lo.col, &self.content[hi.line], hi.col);
            self.content[lo.line] = new_line;
            let ghost v1 = self.content@;
            proof {
                lemma_lines_view_update(v0, lo.line as int, v1[lo.line as int]);
                assert(v1.take(lo.line as int + 1) + v1.skip(lo.line as int + 1) =~= v1);
            }
            let removals = hi.line - lo.line;
            let mut k: usize = 0;
            while k < removals
                invariant
                    lo.line < hi.line < v1.len(),
                    removals == hi.line - lo.line,
                    k <= removals,
                    self.content@ == v1.take(lo.line as int + 1) + v1.skip(
                        lo.line as int + 1 + k as int,
                    ),
                    self.cursor == old(self).cursor,
                    self.selection_start == old(self).selection_start,
                    self.modified == old(self).modified,
                    self.file_name == old(self).file_name,
                    self.listeners == old(self).listeners,
                    self.processed == old(self).processed,
                    self.inbound_edits == old(self).inbound_edits,
                    self.edits_receiver == old(self).edits_receiver,
                decreases removals - k,
            {
                let ghost vk = self.content@;
                self.content.remove(lo.line + 1);
                proof {
                    assert(self.content@ =~= v1.take(lo.line as int + 1) + v1.skip(
                        lo.line as int + 1 + k as int + 1,
                    ));
                }
                k += 1;
            }
            proof {
                assert(lines_view(self.content@) =~= spec_delete(c0, lo, hi));
            }
            self.cursor = lo;
            self.modified = true;
            Ok(())
        }
    }
}

impl PlainTextDocument {
    /// `loc` pulled back into the current bounds.
    fn clamp(&self, loc: Loc) -> (r: Loc)
        ensures
            r == spec_clamp(self@.content, loc),
    {
        if self.content.len() == 0 {
            return Loc { line: 0, col: 0 };
        }
        let line = if loc.line < self.content.len() {
            loc.line
        } else {
            self.content.len() - 1
        };
        let len = self.content[line].as_str().unicode_len();
        let col = if loc.col <= len {
            loc.col
        } else {
            len
        };
        Loc { line, col }
    }

    /// Moves the cursor one unit in `dir`, clamped to the document: left
    /// and right wrap across line boundaries, up and down keep the column
    /// where the target line allows it.
    pub fn move_cursor(&mut self, dir: Direction)
        ensures
            final(self)@ == (DocView {
                cursor: spec_move(
                    old(self)@.content,
                    spec_clamp(old(self)@.content, old(self)@.cursor),
                    dir,
                ),
                ..old(self)@
            }),
            final(self).trace() == old(self).trace(),
    {
        let cur = self.clamp(self.cursor);
        let new_loc = if self.content.len() == 0 {
            cur
        } else {
            match dir {
                Direction::Left => {
                    if cur.col > 0 {
                        Loc { line: cur.line, col: cur.col - 1 }
                    } else if cur.line > 0 {
                        let up_line = cur.line - 1;
                        let up_len = self.content[up_line].as_str().unicode_len();
                        Loc { line: up_line, col: up_len }
                    } else {
                        cur
                    }
                },
                Direction::Right => {
                    let len = self.content[cur.line].as_str().unicode_len();
                    if cur.col < len {
                        Loc { line: cur.line, col: cur.col + 1 }
                    } else if cur.line + 1 < self.content.len() {
                        Loc { line: cur.line + 1, col: 0 }
                    } else {
                        cur
                    }
                },
                Direction::Up => {
                    if cur.line > 0 {
                        let up_line = cur.line - 1;
                        let up_len = self.content[up_line].as_str().unicode_len();
                        Loc {
                            line: up_line,
                            col: if cur.col <= up_len {
                                cur.col
                            } else {
                                up_len
                            },
                        }
                    } else {
                        cur
                    }
                },
                Direction::Down => {
                    if cur.line + 1 < self.content.len() {
                        let down_line = cur.line + 1;
                        let down_len = self.content[down_line].as_str().unicode_len();
                        Loc {
                            line: down_line,
                            col: if cur.col <= down_len {
                                cur.col
                            } else {
                                down_len
                            },
                        }
                    } else {
                        cur
                    }
                },
            }
        };
        self.cursor = new_loc;
    }

    /// Places the cursor at `loc`, clamped to the current bounds rather
    /// than trusting the caller's addressing.
    pub fn move_cursor_to(&mut self, loc: Loc)
        ensures
            final(self)@ == (DocView {
                cursor: spec_clamp(old(self)@.content, loc),
                ..old(self)@
            }),
            final(self).trace() == old(self).trace(),
    {
        let clamped = self.clamp(loc);
        self.cursor = clamped;
    }

    /// Drives the selection state machine: clearing drops the anchor,
    /// beginning a selection anchors it at the cursor when none is active,
    /// and finalizing keeps the anchor in place.
    pub fn set_selection_mode(&mut self, mode: SelectionMode)
        ensures
            final(self)@ == (DocView {
                selection_start: spec_selection_transition(
                    old(self)@.selection_start,
                    old(self)@.cursor,
                    mode,
                ),
                ..old(self)@
            }),
            final(self).trace() == old(self).trace(),
    {
        match mode {
            SelectionMode::NoSelection => {
                self.selection_start = None;
            },
            SelectionMode::Selecting => {
                if self.selection_start.is_none() {
                    self.selection_start = Some(self.cursor);
                }
            },
            SelectionMode::Selected => {},
        }
    }

    /// Acknowledges a save. Persistence itself belongs to the shell around
    /// the core, which reads `lines()` and writes them out; the core's part
    /// of a successful save is clearing the modified flag and changing
    /// nothing else.
    pub fn save(&mut self) -> (r: Result<(), PersistenceError>)
        ensures
            r is Ok,
            final(self)@ == (DocView { modified: false, ..old(self)@ }),
            final(self).trace() == old(self).trace(),
    {
        self.modified = false;
        Ok(())
    }

    /// Records `path` as the document's file name and acknowledges the
    /// save, as [`Self::save`] does.
    pub fn save_as(&mut self, path: String) -> (r: Result<(), PersistenceError>)
        ensures
            r is Ok,
            final(self)@ == (DocView { file_name: path@, modified: false, ..old(self)@ }),
            final(self).trace() == old(self).trace(),
    {
        self.file_name = path;
        self.modified = false;
        Ok(())
    }

    /// The associated path; empty means untitled.
    pub fn file_name(&self) -> (r: String)
        ensures
            r@ == self@.file_name,
    {
        self.file_name.clone()
    }
}

impl PlainTextDocument {
    /// Delivers `ev` to every registered listener, oldest registration
    /// first. Delivery is fire-and-forget: a full or gone listener must not
    /// block or crash the processor, so a failed send is dropped silently.
    fn notify(&self, ev: &DocumentEvent) {
        let mut i: usize = self.listeners.len();
        while i > 0
            invariant
                i <= self.listeners@.len(),
            decreases i,
        {
            i -= 1;
            send_event(&self.listeners[i], ev.clone());
        }
    }

    /// Applies one queued command and says whether the processing loop
    /// keeps running: `Close` stops it without mutating, every other
    /// command leaves it running. The state change is exactly one step of
    /// the model, the command joins the trace, and listeners hear a
    /// `LineChanged` for a command that changed a line's text and a
    /// `CursorMoved` for one that moved the cursor, before the next
    /// command is accepted.
    pub fn handle_event(&mut self, event: DocumentEdit) -> (continue_running: bool)
        ensures
            final(self)@ == edit_step(old(self)@, event).0,
            continue_running == edit_step(old(self)@, event).1,
            final(self).trace() == old(self).trace().push(event),
    {
        self.processed = Ghost(self.processed@.push(event));
        match event {
            DocumentEdit::Close => false,
            DocumentEdit::AddListener(s) => {
                self.listeners.insert(0, s);
                true
            },
            DocumentEdit::Save => {
                let _acked = self.save();
                true
            },
            DocumentEdit::SaveAs(path) => {
                let _acked = self.save_as(path);
                true
            },
            DocumentEdit::InsertChar(loc, ch) => {
                let before = if loc.line < self.content.len() {
                    Some(self.content[loc.line].clone())
                } else {
                    None
                };
                match self.insert_char(loc, ch) {
                    Ok(()) => {
                        if let Some(old_text) = before {
                            if loc.line < self.content.len() {
                                let new_text = self.content[loc.line].clone();
                                self.notify(&DocumentEvent::LineChanged(old_text, new_text));
                            }
                        }
                    },
                    Err(_) => {},
                }
                true
            },
            DocumentEdit::InsertStr(loc, s) => {
                let nonempty = s.as_str().unicode_len() > 0;
                let before = if loc.line < self.content.len() {
                    Some(self.content[loc.line].clone())
                } else {
                    None
                };
                match self.insert_string(loc, s) {
                    Ok(()) => {
                        if nonempty {
                            if let Some(old_text) = before {
                                if loc.line < self.content.len() {
                                    let new_text = self.content[loc.line].clone();
                                    self.notify(
                                        &DocumentEvent::LineChanged(old_text, new_text),
                                    );
                                }
                            }
                        }
                    },
                    Err(_) => {},
                }
                true
            },
            DocumentEdit::Delete(sel) => {
                let start_first = sel.start.line < sel.end.line || (sel.start.line
                    == sel.end.line && sel.start.col <= sel.end.col);
                let lo = if start_first {
                    sel.start
                } else {
                    sel.end
                };
                let hi = if start_first {
                    sel.end
                } else {
                    sel.start
                };
                let before_cursor = self.cursor;
                let before = if lo.line < self.content.len() {
                    Some(self.content[lo.line].clone())
                } else {
                    None
                };
                match self.delete(sel) {
                    Ok(()) => {
                        if lo != hi {
                            if let Some(old_text) = before {
                                if lo.line < self.content.len() {
                                    let new_text = self.content[lo.line].clone();
                                    self.notify(
                                        &DocumentEvent::LineChanged(old_text, new_text),
                                    );
                                }
                            }
                        }
                        if self.cursor != before_cursor {
                            self.notify(
                                &DocumentEvent::CursorMoved(before_cursor, self.cursor, None),
                            );
                        }
                    },
                    Err(_) => {},
                }
                true
            },
            DocumentEdit::MoveCursor(dir) => {
                let before_cursor = self.cursor;
                self.move_cursor(dir);
                if self.cursor != before_cursor {
                    self.notify(
                        &DocumentEvent::CursorMoved(before_cursor, self.cursor, Some(dir)),
                    );
                }
                true
            },
            DocumentEdit::MoveCursorTo(loc) => {
                let before_cursor = self.cursor;
                self.move_cursor_to(loc);
                if self.cursor != before_cursor {
                    self.notify(&DocumentEvent::CursorMoved(before_cursor, self.cursor, None));
                }
                true
            },
            DocumentEdit::SetSelectionMode(mode) => {
                self.set_selection_mode(mode);
                true
            },
        }
    }

    /// Runs the processing loop: blocks for one command at a time and
    /// applies it, until an explicit `Close` arrives (`Ok`) or every
    /// producer handle is dropped and the queue drains
    /// (`Err(ChannelClosed)`), so a caller can tell "asked to stop" from
    /// "abandoned". Commands are applied strictly in arrival order, and
    /// nothing enqueued after a processed `Close` is ever observed. The
    /// loop carries an explicit budget of `u64::MAX` commands, far beyond
    /// any real workload; in the unreachable case that the budget runs out
    /// without a `Close`, the queue is reported abandoned.
    pub fn thread_method(&mut self) -> (r: Result<(), ChannelClosed>)
        ensures
            old(self).trace().len() <= final(self).trace().len(),
            final(self).trace().take(old(self).trace().len() as int) == old(self).trace(),
            ({
                let tail = final(self).trace().skip(old(self).trace().len() as int);
                &&& final(self)@ == run_edits(old(self)@, tail)
                &&& (r is Ok ==> tail.len() > 0 && tail.last() is Close && forall|j: int|
                    0 <= j < tail.len() - 1 ==> !((#[trigger] tail[j]) is Close))
                &&& (r is Err ==> forall|j: int|
                    0 <= j < tail.len() ==> !((#[trigger] tail[j]) is Close))
            }),
    {
        let ghost base = self.trace().len() as int;
        proof {
            assert(self.trace().take(base) =~= old(self).trace());
            assert(self.trace().skip(base) =~= Seq::<DocumentEdit>::empty());
        }
        let mut steps: u64 = 0;
        while steps < u64::MAX
            invariant
                base == old(self).trace().len(),
                base <= self.trace().len(),
                self.trace().take(base) == old(self).trace(),
                self@ == run_edits(old(self)@, self.trace().skip(base)),
                forall|j: int|
                    base <= j < self.trace().len() ==> !((#[trigger] self.trace()[j]) is Close),
            decreases u64::MAX - steps,
        {
            match recv_edit(&self.edits_receiver) {
                None => {
                    return Err(ChannelClosed);
                },
                Some(ev) => {
                    let ghost pre = *self;
                    let cont = self.handle_event(ev);
                    proof {
                        let tail0 = pre.trace().skip(base);
                        assert(self.trace().skip(base) =~= tail0.push(ev));
                        assert(self.trace().take(base) =~= pre.trace().take(base));
                        assert(forall|j: int|
                            0 <= j < tail0.len() ==> !((#[trigger] tail0[j]) is Close));
                        lemma_run_snoc(old(self)@, tail0, ev);
                        lemma_step_continues(pre@, ev);
                    }
                    if !cont {
                        return Ok(());
                    }
                },
            }
            steps += 1;
        }
        Err(ChannelClosed)
    }
}

impl Document for PlainTextDocument {
    fn cursor_loc(&self) -> (loc: Loc)
        ensures
            loc == self@.cursor,
    {
        PlainTextDocument::cursor_loc(self)
    }

    fn lines(&self) -> (r: Vec<String>)
        ensures
            lines_view(r@) == self@.content,
    {
        PlainTextDocument::lines(self)
    }

    fn selection(&self) -> (r: Option<Selection>)
        ensures
            match r {
                Some(sel) => {
                    &&& self@.selection_start == Some(sel.start)
                    &&& sel.end == self@.cursor
                    &&& sel.text@.len() == 0
                },
                None => self@.selection_start is None,
            },
    {
        PlainTextDocument::selection(self)
    }

    fn is_modified(&self) -> (m: bool)
        ensures
            m == self@.modified,
    {
        PlainTextDocument::is_modified(self)
    }

    fn edits_channel(&self) -> Sender<DocumentEdit> {
        PlainTextDocument::edits_channel(self)
    }
}

impl PartialEq for PlainTextDocument {
    /// Documents compare by their observable state: text, cursor,
    /// selection anchor, modified flag and file name. Queue handles and
    /// listener registrations take no part.
    fn eq(&self, other: &Self) -> (r: bool) {
        if self.content.len() != other.content.len() {
            return false;
        }
        let mut i: usize = 0;
        while i < self.content.len()
            invariant
                i <= self.content@.len(),
                self.content@.len() == other.content@.len(),
                forall|j: int| 0 <= j < i ==> self.content@[j]@ == other.content@[j]@,
            decreases self.content.len() - i,
        {
            if !(self.content[i] == other.content[i]) {
                proof {
                    assert(lines_view(self.content@)[i as int] != lines_view(other.content@)[
                        i as int
                    ]);
                }
                return false;
            }
            i += 1;
        }
        proof {
            assert(lines_view(self.content@) =~= lines_view(other.content@));
        }
        let sel_eq = match (self.selection_start, other.selection_start) {
            (Some(a), Some(b)) => a == b,
            (None, None) => true,
            _ => false,
        };
        self.cursor == other.cursor && sel_eq && self.modified == other.modified
            && self.file_name == other.file_name
    }
}

impl vstd::std_specs::cmp::PartialEqSpecImpl for PlainTextDocument {
    open spec fn obeys_eq_spec() -> bool {
        true
    }

    open spec fn eq_spec(&self, other: &Self) -> bool {
        &&& self@.content == other@.content
        &&& self@.cursor == other@.cursor
        &&& self@.selection_start == other@.selection_start
        &&& self@.modified == other@.modified
        &&& self@.file_name == other@.file_name
    }
}

/// `head` up to character position `a`, joined with `tail` from character
/// position `b` on.
fn line_merge(head: &String, a: usize, tail: &String, b: usize) -> (r: String)
    requires
        a <= head@.len(),
        b <= tail@.len(),
    ensures
        r@ == head@.take(a as int) + tail@.skip(b as int),
{
    let tail_len = tail.as_str().unicode_len();
    let mut out = head.as_str().substring_char(0, a).to_owned();
    out.append(tail.as_str().substring_char(b, tail_len));
    out
}

/// Relies on String::push: appends the given character to the end of the
/// string.
#[verifier::external_body]
fn push_char(s: &mut String, c: char)
    ensures
        final(s)@ == old(s)@.push(c),
{
    s.push(c);
}

/// `line` with `ch` inserted at character position `col`. The grown line
/// exists in memory, so its length still fits a machine word.
fn line_insert_char(line: &String, col: usize, ch: char) -> (r: String)
    requires
        col <= line@.len(),
    ensures
        r@ == line@.insert(col as int, ch),
        r@.len() == line@.len() + 1 <= usize::MAX,
{
    let n = line.as_str().unicode_len();
    let mut left = line.as_str().substring_char(0, col).to_owned();
    push_char(&mut left, ch);
    let right = line.as_str().substring_char(col, n);
    left.append(right);
    proof {
        assert(left@ =~= line@.insert(col as int, ch));
    }
    let grown_len = left.as_str().unicode_len();
    proof {
        assert(grown_len == line@.len() + 1);
    }
    left
}

/// `line` split at character position `col`: the head and the remainder.
fn split_line_at(line: &String, col: usize) -> (r: (String, String))
    requires
        col <= line@.len(),
    ensures
        r.0@ == line@.take(col as int),
        r.1@ == line@.skip(col as int),
{
    let n = line.as_str().unicode_len();
    let left = line.as_str().substring_char(0, col).to_owned();
    let right = line.as_str().substring_char(col, n).to_owned();
    (left, right)
}

} // verus!
