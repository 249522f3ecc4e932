//! Lowering of ECMAScript-module export syntax into CommonJS runtime
//! statements.
//!
//! The pass walks a parsed top-level item sequence once, in order.  Every
//! export construct is replaced by the concrete statements that implement it
//! under a CommonJS host: an ES-module flag at index 0, a single growing
//! "void chain" pre-declaring every named export at index 1, a hoisted
//! re-export-all helper, retained declarations and `exports.name = ...`
//! assignments.  Non-export items pass through unchanged.
//!
//! The module body is modelled by [`ast::ModuleItem`]: the pass reads only
//! identifiers, declaration kinds and a few statement shapes, so everything
//! else is carried through as an opaque payload handle.  The whole pass is
//! specified by the functional semantics in [`lowering`] and the executable
//! visitor in [`visitor`] is proved to compute exactly that.

pub mod ast;
pub mod lowering;
pub mod synth;
pub mod visitor;
pub mod laws;

pub use visitor::{create_module_exports_visitor, module_exports_transform, ModuleExportsVisitor};
