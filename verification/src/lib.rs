//! Renderer for MarkPlus documents: turns a JSON document tree into HTML,
//! Typst source or Markdown, with verified contracts.

pub mod blocks;
pub mod context;
pub mod engine;
pub mod error;
pub mod filters;
pub mod json;
pub mod json_text;
pub mod pdf;
pub mod plugin;
pub mod plugins;
pub mod postprocess;
pub mod render;
pub mod template;
pub mod text;

pub use engine::{RenderEngine, RenderEngineBuilder};
pub use error::RenderError;
pub use postprocess::{ImagePathRewriter, PostProcessPipeline, PostProcessor};
