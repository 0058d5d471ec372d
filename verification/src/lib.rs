//! Session protocol core of a desktop screen-cast broker.
//!
//! The broker mediates between untrusted client applications, a human
//! source picker, and the desktop compositor.  This crate holds the parts
//! that decide: the monitor and window identity caches, the persisted
//! restore-selection codec, the compositor-session stream bookkeeping, the
//! picker selection model, and the session registry state machine.  All
//! bus traffic, channels and UI plumbing live outside, in the surrounding
//! binary, which feeds this crate plain values and obeys its contracts.

pub mod adapter;
pub mod codec;
pub mod display;
pub mod picker;
pub mod session;
pub mod window;

pub use adapter::{GnomeSession, GnomeStream, StartedStream};
pub use picker::State;
pub use session::{
    CursorMode, PersistMode, ScreencastSession, SelectSourcesOptions, SessionError,
    SessionRegistry, SourceTypes,
};

pub use codec::{GnomeStreamRestoreData, RestoreBlob, RestoreEntry, RestoreValue, ScreencastStream, SourceKind};
pub use display::{DisplayStateTracker, Monitor};
pub use window::{Window, WindowStateTracker};
