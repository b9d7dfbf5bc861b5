//! Reading and writing the dictionary text format of polyMesh case files.
//!
//! - `text`: the lexical layer (whitespace and comments, words, integers, decimal numbers).
//! - `writer`: the list layouts that the writer puts down.
//! - `field`: uniform and non-uniform physical fields.
//! - `value`: the value tree, its ordered structures and the value grammar.
//! - `mesh`, `zones`, `result`: the bodies of the files of a case.
//! - `header`, `content`: the `FoamFile` header and whole files.
//! - `laws`, `value_laws`: what writing and reading back guarantee.
pub mod text;
pub mod writer;
pub mod field;
pub mod value;
pub mod mesh;
pub mod zones;
pub mod result;
pub mod header;
pub mod content;
pub mod laws;
pub mod value_laws;
