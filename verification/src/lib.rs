//! The core of a terminal journal: the entry model, the filtered and sorted
//! view that the user navigates, and the command engine that guards every
//! action that could lose an edit in progress.
//!
//! The library does no input or output. A host owns the terminal, the files
//! and the storage; it hands the user's commands to the functions in
//! [`commands`], carries out the work that they ask for, and hands the
//! results back.
//!
//! - [`entry`], [`filter`], [`sorter`], [`tags`] and [`text`] hold the
//!   entries and what orders and selects them;
//! - [`active`] derives the active view from the entries in memory;
//! - [`app`] and [`ui`] hold the state of a session, [`popup`] the dialogs;
//! - [`engine`] says what each step of a session does, and [`commands`]
//!   does it;
//! - [`provider`] states what storage has to keep to, and [`store`] is a
//!   provider in memory;
//! - [`settings`] and [`state`] hold what is configured and what is kept
//!   between sessions.

pub mod active;
pub mod app;
pub mod commands;
pub mod engine;
pub mod entry;
pub mod filter;
pub mod popup;
pub mod provider;
pub mod settings;
pub mod sorter;
pub mod state;
pub mod store;
pub mod tags;
pub mod text;
pub mod ui;
