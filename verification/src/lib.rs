//! A source-to-source transform over a small syntax tree.
//!
//! Every markup element named `OpenGraph` becomes the image element
//! `<img src={img.src} />`, and its first child that is an element is
//! captured. The first element captured in a module is handed to a generated
//! statement,
//! `const img = server$(() => { return createOpenGraphImage$(child); });`,
//! which is put in front of the module, and the two functions that the
//! statement calls are imported in front of that.
//!
//! [`tree`] holds the syntax tree and its model, [`rewrite`] says over models
//! what a pass does, [`visitor`] does it, and [`laws`] proves what holds of
//! every pass. [`symbols`] is the table of required imports, [`text`] the
//! order in which it is listed.

pub mod copying;
pub mod laws;
pub mod names;
pub mod rewrite;
pub mod symbols;
pub mod text;
pub mod tree;
pub mod visitor;

pub use visitor::{transform, TransformVisitor};
