//! Word lookup with a persistent cache: shaping a dictionary service's answer
//! into a record, a cache store with its on-disk form, the text shown for a
//! record, and the decisions of one lookup.
pub mod dictionary;
pub mod entry;
pub mod error;
pub mod json;
pub mod lookup;
pub mod present;
pub mod record;
pub mod store;
mod text;
