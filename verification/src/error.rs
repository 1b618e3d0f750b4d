//! Errors of rendering and PDF compilation.

use vstd::prelude::*;
use crate::text::push_str;

verus! {

/// All errors that can occur during rendering or PDF compilation.
#[derive(Debug)]
pub enum RenderError {
    /// Template rendering failed (template not found, bad syntax, …).
    TeraRender(String),
    /// Typst compilation failed.
    TypstCompile(String),
    /// File I/O failed, or the output kind is not supported.
    Io(String),
    /// The context produced from the asset was invalid.
    InvalidContext(String),
}

/// The message of an error, as it is displayed.
pub open spec fn error_message(e: RenderError) -> Seq<char> {
    match e {
        RenderError::TeraRender(m) => "template render error: "@ + m@,
        RenderError::TypstCompile(m) => "typst compile error: "@ + m@,
        RenderError::Io(m) => "io error: "@ + m@,
        RenderError::InvalidContext(m) => "invalid context: "@ + m@,
    }
}

impl RenderError {
    /// The error's display text.
    pub fn to_string(&self) -> (r: String)
        ensures
            r@ == error_message(*self),
    {
        let mut r = String::new();
        match self {
            RenderError::TeraRender(m) => {
                push_str(&mut r, "template render error: ");
                push_str(&mut r, m.as_str());
            },
            RenderError::TypstCompile(m) => {
                push_str(&mut r, "typst compile error: ");
                push_str(&mut r, m.as_str());
            },
            RenderError::Io(m) => {
                push_str(&mut r, "io error: ");
                push_str(&mut r, m.as_str());
            },
            RenderError::InvalidContext(m) => {
                push_str(&mut r, "invalid context: ");
                push_str(&mut r, m.as_str());
            },
        }
        r
    }
}

} // verus!
