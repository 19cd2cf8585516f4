//! Utility-class CSS rule generation driven by a design-token configuration.
//!
//! The crate turns utility class-name tokens (`text-lg`, `bg-red-500`,
//! `-mt-4`, `basis-1/2`, ...) into CSS rule text. A [`config::Config`] holds
//! the design tokens (spacing scale, color palette, font sizes, plugin
//! utility families); resolvers look a token up in the store and emit the
//! matching rule, or nothing when the token is unknown.

pub mod area;
pub mod buffer;
pub mod config;
pub mod css;
pub mod document;
pub mod generate;
pub mod json;
pub mod laws;
pub mod parser;
pub mod scan;
pub mod store;
pub mod strutil;
pub mod utils;
