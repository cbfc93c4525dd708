//! A package catalog kept as a local cache, with a sorted name index and
//! prefix queries over it.

pub mod text;
pub mod json;
pub mod record;
pub mod catalog;
pub mod codec;
pub mod index;
pub mod cache;
