//! The document vocabulary: addresses, selections, edit commands,
//! change notifications, and the read-side capability trait.

use std::sync::mpsc::Sender;
use vstd::prelude::*;

verus! {

/// A (line, column) address into document text.
///
/// `line` indexes into the document's line sequence; `col` is a character
/// offset into that line's text. A `Loc` is valid only with respect to a
/// specific document snapshot: later edits may reorder or resize lines.
#[derive(Copy, Clone, Debug, Eq, PartialEq, Structural)]
pub struct Loc {
    pub line: usize,
    pub col: usize,
}

/// An anchored text range. `start` is the anchor set when selection begins;
/// `end` tracks the live cursor. No invariant enforces `start <= end`:
/// consumers normalize the ordering when they need it.
#[derive(Clone, Debug, Eq, PartialEq)]
pub struct Selection {
    pub start: Loc,
    pub end: Loc,
    pub text: String,
}

/// The selection state machine: `NoSelection` (no active selection),
/// `Selecting` (anchor set, still extending), `Selected` (finalized, static
/// range).
#[derive(Copy, Clone, Debug, Eq, PartialEq, Structural)]
pub enum SelectionMode {
    NoSelection,
    Selecting,
    Selected,
}

/// A notification about one observed document change.
#[derive(Clone, Debug)]
pub enum DocumentEvent {
    /// A line's text changed: carries the text before and after.
    LineChanged(String, String),
    /// The cursor moved: old location, new location, and the direction of
    /// travel when the move came from a directional command.
    CursorMoved(Loc, Loc, Option<Direction>),
}

/// One unit of cursor travel.
#[derive(Copy, Clone, Debug, Eq, PartialEq, Structural)]
pub enum Direction {
    Up,
    Down,
    Left,
    Right,
}

/// One mutation request. Commands are the entire mutation surface of a
/// document: they are enqueued by producers and applied one at a time by the
/// document's processing loop.
#[derive(Clone, Debug)]
pub enum DocumentEdit {
    Close,
    InsertChar(Loc, char),
    InsertStr(Loc, String),
    Delete(Selection),
    MoveCursor(Direction),
    MoveCursorTo(Loc),
    SetSelectionMode(SelectionMode),
    AddListener(Sender<DocumentEvent>),
    Save,
    SaveAs(String),
}

/// A `Loc` referenced by an edit command fell outside the document's current
/// dimensions. The command is rejected whole: the document is left unchanged.
#[derive(Copy, Clone, Debug, Eq, PartialEq, Structural)]
pub struct BoundsError;

/// The inbound edit queue has no remaining producers. The processing loop
/// exits and the document becomes inert; reads of the last committed state
/// remain valid.
#[derive(Copy, Clone, Debug, Eq, PartialEq, Structural)]
pub struct ChannelClosed;

/// A save failed: `modified` remains set and the state is unchanged.
/// Retrying is the caller's responsibility.
#[derive(Copy, Clone, Debug, Eq, PartialEq, Structural)]
pub struct PersistenceError;

/// The read-side capability of a document, plus the handle for enqueueing
/// edits. All reads are non-blocking and reflect the last fully applied
/// command.
pub trait Document {
    /// The current cursor location.
    fn cursor_loc(&self) -> Loc;

    /// A point-in-time snapshot copy of all lines, in order.
    fn lines(&self) -> Vec<String>;

    /// The active selection, if an anchor is set: anchor, live cursor, and an
    /// empty `text` (populating it from the range is a known gap).
    fn selection(&self) -> Option<Selection>;

    /// Whether content has diverged from the last-saved state.
    fn is_modified(&self) -> bool;

    /// A cloneable producer handle bound to this document's inbound queue;
    /// safe to hand to arbitrarily many callers and threads.
    fn edits_channel(&self) -> Sender<DocumentEdit>;
}

} // verus!
