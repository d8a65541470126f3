//! Data model and derivation logic for a story and its nested discussion
//! thread: typed entities built from loosely shaped records, assembly of a
//! comment tree from answers that arrive one at a time, display strings, and
//! the selection state of the detail view.

pub mod display;
pub mod entity;
pub mod instant;
pub mod navigation;
pub mod record;
pub mod text;
pub mod thread;
