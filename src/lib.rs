//! Compiler from Markdown with embedded components into component-tree module code.
pub mod assemble;
pub mod bundle;
pub mod codegen;
pub mod compile;
pub mod error;
pub mod esm;
pub mod frontmatter;
pub mod plugins;
pub mod text;
pub mod tree;
