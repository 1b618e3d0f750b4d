//! PDF compilation of Typst source.

use vstd::prelude::*;
use crate::engine::RenderEngine;
use crate::error::RenderError;
use crate::render::require_pages;

verus! {

#[verifier::external_type_specification]
#[verifier::external_body]
pub struct ExPagedDocument(typst_layout::PagedDocument);

/// Whether compiling Typst source `src` can end with the warnings
/// `warnings` and, when no document comes out, the error text `failed`
/// (`None` when a document does). A relation between a source and the
/// outcomes of its compile: it picks out no single outcome, which depends on
/// the fonts and packages at hand.
pub uninterp spec fn typst_compile_outcome(src: Seq<char>, warnings: Seq<Seq<char>>, failed: Option<Seq<char>>) -> bool;

/// The texts of a list of messages.
pub open spec fn warning_texts(ws: Seq<String>) -> Seq<Seq<char>> {
    ws.map_values(|w: String| w@)
}

/// The error text of a compile outcome (`None` for a document).
pub open spec fn compile_failure(compiled: Result<nat, Seq<char>>) -> Option<Seq<char>> {
    match compiled {
        Ok(_) => None,
        Err(m) => Some(m),
    }
}

/// Compiles `typst_src` as `main.typ` with `typst_as_lib::TypstEngine` (the
/// source held in memory, `@preview` packages downloaded and cached on disk,
/// the fonts found on this machine). Gives the warnings' messages, and the
/// document or the compile error's debug text. The contract ties that
/// outcome to `typst_src` (`typst_compile_outcome`); which outcome comes out
/// depends on the fonts and packages at hand and is not claimed.
#[verifier::external_body]
fn typst_compile(typst_src: &str) -> (r: (Vec<String>, Result<typst_layout::PagedDocument, String>))
    ensures
        typst_compile_outcome(
            typst_src@,
            warning_texts(r.0@),
            match r.1 {
                Ok(_) => None::<Seq<char>>,
                Err(m) => Some(m@),
            },
        ),
{
    let engine = typst_as_lib::TypstEngine::builder()
        .with_static_source_file_resolver([("main.typ", typst_src.to_string())])
        .with_package_file_resolver()
        .search_fonts_with(typst_as_lib::typst_kit_options::TypstKitFontOptions::default())
        .build();
    let warned = engine.compile::<_, typst_layout::PagedDocument>("main.typ");
    let warnings = warned.warnings.iter().map(|w| w.message.to_string()).collect();
    (warnings, warned.output.map_err(|e| format!("{:?}", e)))
}

/// `PagedDocument::pages`, counted. The document is opaque here, so the
/// count is not described.
#[verifier::external_body]
fn page_count(doc: &typst_layout::PagedDocument) -> (r: usize) {
    doc.pages().len()
}

/// `typst_pdf::pdf` with default options; the error as debug text. The
/// bytes depend on the document, which is opaque here, so nothing is
/// claimed of them.
#[verifier::external_body]
fn export_pdf(doc: &typst_layout::PagedDocument) -> (r: Result<Vec<u8>, String>) {
    typst_pdf::pdf(doc, &typst_pdf::PdfOptions::default()).map_err(|e| format!("{:?}", e))
}

/// What the PDF export becomes: its bytes, or a `TypstCompile` error with
/// its message.
pub fn pdf_result(exported: Result<Vec<u8>, String>) -> (r: Result<Vec<u8>, RenderError>)
    ensures
        match exported {
            Err(m) => r matches Err(RenderError::TypstCompile(x)) && x@ == m@,
            Ok(b) => r matches Ok(o) && o@ == b@,
        },
{
    match exported {
        Err(m) => Err(RenderError::TypstCompile(m)),
        Ok(b) => Ok(b),
    }
}

/// Whether `r` is what compiling to PDF gives when the compile had outcome
/// `compiled` (the page count, or the error's text) and the export, made
/// only for a document with pages, had outcome `exported`: a compile error
/// passes its text on, a document without pages is refused, and otherwise
/// the export decides (see `pdf_result`). All errors are `TypstCompile`.
pub open spec fn pdf_outcome(
    compiled: Result<nat, Seq<char>>,
    exported: Result<Seq<u8>, Seq<char>>,
    r: Result<Vec<u8>, RenderError>,
) -> bool {
    match compiled {
        Err(m) => r matches Err(RenderError::TypstCompile(x)) && x@ == m,
        Ok(pages) => if pages == 0 {
            r matches Err(RenderError::TypstCompile(x)) && x@ == "document has no pages"@
        } else {
            match exported {
                Err(m) => r matches Err(RenderError::TypstCompile(x)) && x@ == m,
                Ok(b) => r matches Ok(o) && o@ == b,
            }
        },
    }
}

impl RenderEngine {
    /// Compiles Typst source to PDF bytes, and hands back the compiler's
    /// warnings for the caller to report. A compile error, a document
    /// without pages (checked before the export, see `require_pages`) and an
    /// export error are all `TypstCompile` errors. The outcomes of the
    /// compile and the export depend on the fonts and packages at hand; the
    /// result is `pdf_outcome` of whatever they were, the compile being one
    /// of `typst_src` that gave these warnings.
    pub fn compile_pdf(&self, typst_src: &str) -> (r: (Vec<String>, Result<Vec<u8>, RenderError>))
        ensures
            exists|compiled: Result<nat, Seq<char>>, exported: Result<Seq<u8>, Seq<char>>| #[trigger]
                pdf_outcome(compiled, exported, r.1) && typst_compile_outcome(
                    typst_src@,
                    warning_texts(r.0@),
                    compile_failure(compiled),
                ),
    {
        let (warnings, compiled) = typst_compile(typst_src);
        let ghost mut wc: Result<nat, Seq<char>> = Ok(0);
        let ghost mut we: Result<Seq<u8>, Seq<char>> = Ok(Seq::empty());
        let result = match compiled {
            Err(m) => {
                let ghost text = m@;
                let res = Err(RenderError::TypstCompile(m));
                proof {
                    wc = Err(text);
                }
                res
            },
            Ok(doc) => {
                let pages = page_count(&doc);
                match require_pages(pages) {
                    Err(e) => {
                        let res = Err(e);
                        res
                    },
                    Ok(()) => {
                        let exported = export_pdf(&doc);
                        let ghost ex = match &exported {
                            Ok(b) => Ok::<Seq<u8>, Seq<char>>(b@),
                            Err(m) => Err::<Seq<u8>, Seq<char>>(m@),
                        };
                        let res = pdf_result(exported);
                        proof {
                            wc = Ok(pages as nat);
                            we = ex;
                        }
                        res
                    },
                }
            },
        };
        let out = (warnings, result);
        assert(pdf_outcome(wc, we, out.1) && typst_compile_outcome(
            typst_src@,
            warning_texts(out.0@),
            compile_failure(wc),
        ));
        out
    }
}

} // verus!
