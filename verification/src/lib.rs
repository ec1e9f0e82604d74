//! Core of a desktop document reader: a single-writer state store driven by a
//! FIFO command mailbox, a durable reading-progress table, and the settings and
//! window-geometry stores, together with the binary file format they persist.

pub mod codec;
pub mod error;
pub mod mailbox;
pub mod progress;
pub mod settings;
pub mod store;
pub mod text;
pub mod window;
