//! Compile-time XML UI layer: schema, XML preprocessing, AST
//! construction and Rust code generation for the `xml!` macro.
mod strings;
pub mod normalise;
pub mod normalise_laws;
pub mod parser;
pub mod text;
pub mod diagnostics;
pub mod events;
pub mod ast;
pub mod error;
pub mod schema;
pub mod rustlex;
pub mod emit;
pub mod values;
pub mod handlers;
pub mod style;
pub mod gen_spec;
pub mod gen;
pub mod leaf;
pub mod xmldoc;
pub mod location;
pub mod templates;
pub mod compile;
pub mod includes;
pub mod class;
pub mod schemagen;
pub mod outline;
pub mod overrides;
pub mod render;
pub mod pipeline;
pub mod runtime;
