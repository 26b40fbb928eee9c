//! A line-oriented text document model for an editor.
//!
//! The heart of the crate is [`textdocument::PlainTextDocument`]: an ordered
//! sequence of line strings with a cursor, an optional selection anchor, a
//! modified flag, and an inbound queue of [`doc::DocumentEdit`] commands.
//! All mutation flows through that queue: producers enqueue commands from any
//! thread, and a single processing loop applies them one at a time, notifying
//! registered listeners of the changes it makes.

pub mod channel;
pub mod commands;
pub mod doc;
pub mod docmanager;
pub mod model;
pub mod textdocument;
pub mod uimanager;

pub use commands::Command;
pub use commands::KeyModifier;
pub use commands::Keystroke;
pub use doc::BoundsError;
pub use doc::ChannelClosed;
pub use doc::Direction;
pub use doc::Document;
pub use doc::DocumentEdit;
pub use doc::DocumentEvent;
pub use doc::Loc;
pub use doc::PersistenceError;
pub use doc::Selection;
pub use doc::SelectionMode;
pub use docmanager::DocumentManager;
pub use textdocument::PlainTextDocument;
pub use uimanager::UiManager;
