//! State engine for a browser-resident organizer of named lists and groups.
//!
//! The library owns the durable domain model (lists of items, groups of
//! list-name references), the selection cache that lets a user pin a random
//! pick per list, and the message-dispatch reducer that mutates both. Every
//! mutation is specified against a mathematical view: maps from names (as
//! character sequences) to sequences of item values.

pub mod cache;
pub mod engine;
pub mod item;
pub mod laws;
pub mod state;
pub mod strmap;
