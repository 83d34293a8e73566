//! Renders a parsed Norg document tree to HTML, extracts its table of
//! contents and front-matter block, and splits the output around inline
//! framework components.

pub mod ast;
pub mod blocks;
pub mod diagnostics;
pub mod error;
pub mod metadata;
pub mod segments;
pub mod text;
pub mod toc;
pub mod transform;
