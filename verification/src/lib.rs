//! md2paper: Markdown to beautifully typeset PDF, through Typst.
//!
//! A document's front matter is split off and read, its body parsed into a
//! document tree, the tree turned into Typst markup behind a preamble built
//! from the theme, and the markup compiled to PDF.
use vstd::prelude::*;

pub mod text;
pub mod escape;
pub mod theme;
pub mod inject;
pub mod config;
pub mod frontmatter;
pub mod ast;
pub mod math;
pub mod transform;
pub mod xml;
pub mod markdown;
pub mod yaml;
pub mod date;
pub mod render;
pub mod pipeline;
pub mod preview;
pub mod cli;
pub mod dump;

pub use cli::determine_output;
pub use config::{apply_front_matter, Config, ConfigBuilder, FrontMatter};
pub use dump::ast_as_debug_string;
pub use inject::generate_preamble;
pub use markdown::{make_options, parse_markdown};
pub use pipeline::{convert, convert_with_config, extract_front_matter, to_typst, ConvertError};
pub use preview::preview_html;
pub use transform::ast_to_typst;
pub use render::{is_http_url, render_to_pdf, render_to_pdf_with_base, RenderError};
pub use theme::{load, load_builtin, Theme, ThemeError};

verus! {
} // verus!
