//! Mermaid diagrams in fenced blocks named `mermaid`.

use vstd::prelude::*;
use crate::json::{JsonValue, get, as_str, str_or, str_field, opt_str_field};
use crate::plugin::{Plugin, PluginType};
use crate::plugins::MarkplusPlugin;
use crate::text::push_str;

verus! {

/// Renders `mermaid` fenced blocks: a pre-rendered SVG where the node has
/// one, else the diagram source for client-side rendering.
pub struct MermaidPlugin;

pub open spec fn mermaid_html(node: JsonValue) -> Seq<char> {
    match as_str(get(node, "svg_html"@)) {
        Some(svg) => "<div class=\"mermaid-diagram\" style=\"text-align: center; margin: 1.5em 0;\">\n"@
            + svg + "\n</div>\n"@,
        None => "<pre class=\"mermaid\">"@ + str_or(node, "raw"@, ""@) + "</pre>\n"@,
    }
}

pub open spec fn mermaid_md(node: JsonValue) -> Seq<char> {
    "```mermaid\n"@ + str_or(node, "raw"@, ""@) + "\n```\n\n"@
}

pub open spec fn mermaid_typst(node: JsonValue) -> Seq<char> {
    match as_str(get(node, "svg_typst"@)) {
        Some(svg) => "#align(center)[#image.decode(\""@ + svg + "\")]\n\n"@,
        None => mermaid_md(node),
    }
}

pub fn render_mermaid_html(node: &JsonValue, out: &mut String)
    ensures
        final(out)@ == old(out)@ + mermaid_html(*node),
{
    let raw = str_field(node, "raw", "");
    match opt_str_field(node, "svg_html") {
        Some(svg) => {
            push_str(out, "<div class=\"mermaid-diagram\" style=\"text-align: center; margin: 1.5em 0;\">\n");
            push_str(out, svg);
            push_str(out, "\n</div>\n");
        },
        None => {
            push_str(out, "<pre class=\"mermaid\">");
            push_str(out, raw);
            push_str(out, "</pre>\n");
        },
    }
}

pub fn render_mermaid_typst(node: &JsonValue, out: &mut String)
    ensures
        final(out)@ == old(out)@ + mermaid_typst(*node),
{
    let raw = str_field(node, "raw", "");
    match opt_str_field(node, "svg_typst") {
        Some(svg) => {
            push_str(out, "#align(center)[#image.decode(\"");
            push_str(out, svg);
            push_str(out, "\")]\n\n");
        },
        None => {
            push_str(out, "```mermaid\n");
            push_str(out, raw);
            push_str(out, "\n```\n\n");
        },
    }
}

pub fn render_mermaid_md(node: &JsonValue, out: &mut String)
    ensures
        final(out)@ == old(out)@ + mermaid_md(*node),
{
    let raw = str_field(node, "raw", "");
    push_str(out, "```mermaid\n");
    push_str(out, raw);
    push_str(out, "\n```\n\n");
}

impl MarkplusPlugin for MermaidPlugin {
    open spec fn spec_name(&self) -> Seq<char> {
        Plugin::Mermaid.spec_name()
    }

    open spec fn spec_type(&self) -> PluginType {
        Plugin::Mermaid.spec_type()
    }

    open spec fn spec_html(&self, node: JsonValue) -> Seq<char> {
        mermaid_html(node)
    }

    open spec fn spec_typst(&self, node: JsonValue) -> Seq<char> {
        mermaid_typst(node)
    }

    open spec fn spec_md(&self, node: JsonValue) -> Seq<char> {
        mermaid_md(node)
    }

    fn name(&self) -> (r: &'static str) {
        "mermaid"
    }

    fn plugin_type(&self) -> (r: PluginType) {
        PluginType::Fenced
    }

    fn render_html(&self, node: &JsonValue, out: &mut String) {
        render_mermaid_html(node, out)
    }

    fn render_typst(&self, node: &JsonValue, out: &mut String) {
        render_mermaid_typst(node, out)
    }

    fn render_markdown(&self, node: &JsonValue, out: &mut String) {
        render_mermaid_md(node, out)
    }
}

} // verus!
