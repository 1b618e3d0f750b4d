//! Rendering a document through the engine's templates, and the decisions
//! around file output and PDF compilation.

use vstd::prelude::*;
use crate::blocks::{html_blocks, render_html_blocks};
use crate::context::{SiteAsset, context_tree, build_context};
use crate::engine::RenderEngine;
use crate::error::RenderError;
use crate::json::JsonValue;
use crate::template::{rendered, render_json};
use crate::pdf::{pdf_outcome, typst_compile_outcome, warning_texts, compile_failure};
use crate::json_text::{json_text, to_json_text};
use crate::text::push_str;

verus! {

/// The output kinds that `render_to_file` writes.
#[derive(Debug, Clone, Copy, PartialEq, Eq, Structural)]
pub enum OutputFormat {
    Html,
    Typst,
    Pdf,
}

/// How `{:?}` writes a string: quoted, with special characters escaped.
pub uninterp spec fn debug_quoted(s: Seq<char>) -> Seq<char>;

/// `format!("{:?}", s)` for a string slice; the result is named as a
/// function of the string. For printable ASCII text without `"` or `\\` it
/// is the text between double quotes; other escaping is not described.
#[verifier::external_body]
fn debug_string(s: &str) -> (r: String)
    ensures
        r@ == debug_quoted(s@),
        (forall|i: int| 0 <= i < s@.len() ==> 32 <= (#[trigger] s@[i] as u32) < 127 && s@[i] != '"' && s@[i] != '\\')
            ==> r@ == seq!['"'] + s@ + seq!['"'],
{
    format!("{:?}", s)
}

/// The message for an output extension that is not supported.
pub open spec fn unsupported_extension_message(ext: Seq<char>) -> Seq<char> {
    "unsupported output extension: "@ + debug_quoted(ext) + " (use .html, .typ, or .pdf)"@
}

/// The output kind of a file extension: `html`, `typ` or `pdf`; any other
/// extension is an `Io` error naming it.
pub fn output_format(ext: &str) -> (r: Result<OutputFormat, RenderError>)
    ensures
        ext@ == "html"@ ==> r == Ok::<OutputFormat, RenderError>(OutputFormat::Html),
        ext@ == "typ"@ ==> r == Ok::<OutputFormat, RenderError>(OutputFormat::Typst),
        ext@ == "pdf"@ ==> r == Ok::<OutputFormat, RenderError>(OutputFormat::Pdf),
        ext@ != "html"@ && ext@ != "typ"@ && ext@ != "pdf"@ ==> (r matches Err(RenderError::Io(m)) && m@
            == unsupported_extension_message(ext@)),
        ext@ != "html"@ && ext@ != "typ"@ && ext@ != "pdf"@ && (forall|i: int|
            0 <= i < ext@.len() ==> 32 <= (#[trigger] ext@[i] as u32) < 127 && ext@[i] != '"' && ext@[i] != '\\')
            ==> (r matches Err(RenderError::Io(m)) && m@ == "unsupported output extension: "@ + seq!['"'] + ext@
            + seq!['"'] + " (use .html, .typ, or .pdf)"@),
{
    proof {
        reveal_strlit("html");
        reveal_strlit("typ");
        reveal_strlit("pdf");
        assert("typ"@.len() != "html"@.len());
        assert("pdf"@.len() != "html"@.len());
        assert("pdf"@[0] != "typ"@[0]);
    }
    if crate::text::str_eq(ext, "html") {
        Ok(OutputFormat::Html)
    } else if crate::text::str_eq(ext, "typ") {
        Ok(OutputFormat::Typst)
    } else if crate::text::str_eq(ext, "pdf") {
        Ok(OutputFormat::Pdf)
    } else {
        let mut m = String::new();
        push_str(&mut m, "unsupported output extension: ");
        push_str(&mut m, debug_string(ext).as_str());
        push_str(&mut m, " (use .html, .typ, or .pdf)");
        Err(RenderError::Io(m))
    }
}

/// A compiled document must have at least one page.
pub fn require_pages(page_count: usize) -> (r: Result<(), RenderError>)
    ensures
        r is Ok <==> page_count > 0,
        r matches Err(e) ==> (e matches RenderError::TypstCompile(m) && m@ == "document has no pages"@),
{
    if page_count == 0 {
        let mut m = String::new();
        push_str(&mut m, "document has no pages");
        Err(RenderError::TypstCompile(m))
    } else {
        Ok(())
    }
}

/// Renders the HTML of a sequence of block nodes (the document body).
pub fn render_html_document(ast: &[JsonValue], plugins: &crate::plugin::PluginRegistry) -> (r: String)
    ensures
        r@ == html_blocks(ast@, plugins@),
{
    let mut out = String::new();
    render_html_blocks(ast, plugins, &mut out);
    out
}

/// Whether output file contents `r` are what compiling to PDF gives for the
/// compile and export outcomes `compiled` and `exported` (see
/// `pdf_outcome`): the PDF bytes as a binary file, or the compile error.
pub open spec fn pdf_file_outcome(
    compiled: Result<nat, Seq<char>>,
    exported: Result<Seq<u8>, Seq<char>>,
    r: Result<RenderedFile, RenderError>,
) -> bool {
    match r {
        Ok(RenderedFile::Binary(b)) => pdf_outcome(compiled, exported, Ok::<Vec<u8>, RenderError>(b)),
        Ok(RenderedFile::Text(_)) => false,
        Err(e) => pdf_outcome(compiled, exported, Err::<Vec<u8>, RenderError>(e)),
    }
}

/// The contents of an output file.
pub enum RenderedFile {
    /// HTML or Typst source.
    Text(String),
    /// PDF bytes.
    Binary(Vec<u8>),
}

impl RenderEngine {
    /// What rendering `asset` through template `name` gives: the output, or
    /// the engine's error message when the template is missing or fails.
    /// Every output kind hands templates the same context (see
    /// `context_tree`), so HTML and Typst rendering through one template
    /// agree, errors included; only the template differs.
    pub open spec fn rendering(&self, asset: SiteAsset, name: Seq<char>) -> Result<Seq<char>, Seq<char>> {
        rendered(self.templates(), name, json_text(context_tree(asset.meta, asset.ast@)))
    }

    /// Renders template `template_name` with `ctx`, handed over as JSON text.
    fn render_template(&self, ctx: &JsonValue, template_name: &str) -> (r: Result<String, RenderError>)
        ensures
            !self.templates().contains_key(template_name@) ==> r is Err,
            match r {
                Ok(s) => rendered(self.templates(), template_name@, json_text(ctx@)) == Ok::<Seq<char>, Seq<char>>(s@),
                Err(e) => e matches RenderError::TeraRender(m) && rendered(self.templates(), template_name@, json_text(ctx@))
                    == Err::<Seq<char>, Seq<char>>(m@),
            },
    {
        proof {
            self.lemma_views();
            use_type_invariant(self);
        }
        let text = to_json_text(ctx);
        render_outcome(render_json(&self.env, template_name, text.as_str()))
    }

    /// Renders `asset` as HTML through template `template_name`, with the
    /// context of `build_context` (front matter, slug, table of contents and
    /// the document's nodes as `body`). A template that is not registered, or
    /// that fails, gives `TeraRender`.
    pub fn render_html(&self, asset: &SiteAsset, template_name: &str) -> (r: Result<String, RenderError>)
        ensures
            !self.templates().contains_key(template_name@) ==> r is Err,
            match r {
                Ok(s) => self.rendering(*asset, template_name@) == Ok::<Seq<char>, Seq<char>>(s@),
                Err(e) => e matches RenderError::TeraRender(m) && self.rendering(*asset, template_name@)
                    == Err::<Seq<char>, Seq<char>>(m@),
            },
    {
        let ctx = build_context(asset);
        self.render_template(&ctx, template_name)
    }

    /// Renders `asset` as Typst source through template `template_name`,
    /// with the same context as `render_html`. A template that is not
    /// registered, or that fails, gives `TeraRender`.
    pub fn render_typst_string(&self, asset: &SiteAsset, template_name: &str) -> (r: Result<String, RenderError>)
        ensures
            !self.templates().contains_key(template_name@) ==> r is Err,
            match r {
                Ok(s) => self.rendering(*asset, template_name@) == Ok::<Seq<char>, Seq<char>>(s@),
                Err(e) => e matches RenderError::TeraRender(m) && self.rendering(*asset, template_name@)
                    == Err::<Seq<char>, Seq<char>>(m@),
            },
    {
        let ctx = build_context(asset);
        self.render_template(&ctx, template_name)
    }
}

impl RenderEngine {
    /// The contents of an output file with extension `ext`: the HTML or the
    /// Typst rendering of `asset` through `template_name`, or the PDF of its
    /// Typst rendering (with the compiler's warnings); any other extension
    /// is an `Io` error that names it.
    pub fn render_file_contents(&self, asset: &SiteAsset, template_name: &str, ext: &str) -> (r: (
        Vec<String>,
        Result<RenderedFile, RenderError>,
    ))
        ensures
            ext@ != "html"@ && ext@ != "typ"@ && ext@ != "pdf"@ ==> (r.1 matches Err(RenderError::Io(m)) && m@
                == unsupported_extension_message(ext@)),
            ext@ == "html"@ ==> r.0.len() == 0 && match r.1 {
                Ok(RenderedFile::Text(s)) => self.rendering(*asset, template_name@) == Ok::<Seq<char>, Seq<char>>(s@),
                Err(e) => e matches RenderError::TeraRender(m) && self.rendering(*asset, template_name@)
                    == Err::<Seq<char>, Seq<char>>(m@),
                _ => false,
            },
            ext@ == "typ"@ ==> r.0.len() == 0 && match r.1 {
                Ok(RenderedFile::Text(s)) => self.rendering(*asset, template_name@) == Ok::<Seq<char>, Seq<char>>(s@),
                Err(e) => e matches RenderError::TeraRender(m) && self.rendering(*asset, template_name@)
                    == Err::<Seq<char>, Seq<char>>(m@),
                _ => false,
            },
            ext@ == "pdf"@ ==> match self.rendering(*asset, template_name@) {
                Err(m) => r.0.len() == 0 && (r.1 matches Err(RenderError::TeraRender(x)) && x@ == m),
                Ok(s) => exists|compiled: Result<nat, Seq<char>>, exported: Result<Seq<u8>, Seq<char>>| #[trigger]
                    pdf_file_outcome(compiled, exported, r.1) && typst_compile_outcome(
                        s,
                        warning_texts(r.0@),
                        compile_failure(compiled),
                    ),
            },
    {
        match output_format(ext) {
            Err(e) => (Vec::new(), Err(e)),
            Ok(OutputFormat::Html) => match self.render_html(asset, template_name) {
                Ok(s) => (Vec::new(), Ok(RenderedFile::Text(s))),
                Err(e) => (Vec::new(), Err(e)),
            },
            Ok(OutputFormat::Typst) => match self.render_typst_string(asset, template_name) {
                Ok(s) => (Vec::new(), Ok(RenderedFile::Text(s))),
                Err(e) => (Vec::new(), Err(e)),
            },
            Ok(OutputFormat::Pdf) => match self.render_typst_string(asset, template_name) {
                Ok(s) => {
                    let (warnings, pdf) = self.compile_pdf(s.as_str());
                    let ghost (compiled, exported) = choose|
                        compiled: Result<nat, Seq<char>>,
                        exported: Result<Seq<u8>, Seq<char>>,
                    |
                        #[trigger] pdf_outcome(compiled, exported, pdf) && typst_compile_outcome(
                            s@,
                            warning_texts(warnings@),
                            compile_failure(compiled),
                        );
                    let file = match pdf {
                        Ok(b) => Ok(RenderedFile::Binary(b)),
                        Err(e) => Err(e),
                    };
                    proof {
                        assert(pdf_file_outcome(compiled, exported, file));
                    }
                    (warnings, file)
                },
                Err(e) => (Vec::new(), Err(e)),
            },
        }
    }
}

/// What a render call of the template engine becomes: its output, or a
/// `TeraRender` error that carries the engine's message.
pub fn render_outcome(out: Result<String, String>) -> (r: Result<String, RenderError>)
    ensures
        match out {
            Ok(s) => r matches Ok(o) && o@ == s@,
            Err(m) => r matches Err(RenderError::TeraRender(x)) && x@ == m@,
        },
{
    match out {
        Ok(s) => Ok(s),
        Err(m) => Err(RenderError::TeraRender(m)),
    }
}

} // verus!
