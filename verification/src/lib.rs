//! Named lists of short text tasks, stored one task per line, where each
//! task can be tagged with filesystem paths to come back to later.
//!
//! - [`item`]: a task and the line that stores it.
//! - [`list`]: the tasks of one list, numbered from 1, and what can be done
//!   to them.
//! - [`tag_use`]: picking a tag of a task and deciding what to do with its
//!   path.
//! - [`command`]: the words of an invocation and the command they give.
//! - [`prompt`]: the answer to the question which list a task goes to.
//! - [`store`]: where the lists are kept.
//! - [`text`], [`number`], [`chars`]: the text handling that the others
//!   build on.
//!
//! The library opens no list file and prints nothing: it is handed the lines
//! that were read and says what is to be written or shown.

pub mod chars;
pub mod command;
pub mod item;
pub mod list;
pub mod number;
pub mod prompt;
pub mod store;
pub mod tag_use;
pub mod text;
