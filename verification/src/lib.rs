//! The SystemJS module transform: a verified library that rewrites an
//! ECMAScript module into a `System.register` call.
//!
//! - [`ast`]: the syntax tree the transform works on, and its constructors.
//! - [`symbol`]: identifier checks, local names of modules, export keys.
//! - [`export_map`]: the names under which each binding is exported.
//! - [`fold`]: the rewriting of expressions, function declarations and properties.
//! - [`hoist`]: the hoisting of top-level variable declarations.
//! - [`exports`]: dependencies, their setters and the `_export` calls.
//! - [`items`]: what each top-level item of a module contributes.
//! - [`system_js`]: the transform of a whole module and its state.
//! - [`laws`]: what holds of the transform on all inputs.
//! - [`laws_tree`]: the transform keeps syntax trees well-formed.
pub mod ast;
pub mod symbol;
pub mod export_map;
pub mod fold;
pub mod hoist;
pub mod exports;
pub mod items;
pub mod system_js;
pub mod laws;
pub mod laws_tree;
pub mod laws_items;
