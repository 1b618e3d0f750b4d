//! Paragraphs.

use vstd::prelude::*;
use crate::blocks::RenderBlock;
use crate::blocks::inline::{html_inline, render_html_inline, typst_inline_kids, md_inline_kids, render_typst_inline, render_markdown_inline};
use crate::json::{JsonValue, arr_or_empty, lemma_arr_decreases, arr_field, arr_field_or_empty};
use crate::plugin::{PluginEntry, PluginRegistry, PluginType};
use crate::text::push_str;

verus! {

/// Renders paragraph nodes.
pub struct ParagraphRenderer;

pub open spec fn paragraph_html(node: JsonValue) -> Seq<char> {
    "<p>"@ + html_inline(arr_or_empty(node, "children"@)) + "</p>\n"@
}

pub open spec fn paragraph_typst(node: JsonValue, plugins: Map<(PluginType, Seq<char>), PluginEntry>) -> Seq<char>
    decreases node, 2nat,
{
    typst_inline_kids(node, plugins) + "\n\n"@
}

pub open spec fn paragraph_md(node: JsonValue, plugins: Map<(PluginType, Seq<char>), PluginEntry>) -> Seq<char>
    decreases node, 2nat,
{
    md_inline_kids(node, plugins) + "\n\n"@
}

pub fn render_paragraph_html(node: &JsonValue, out: &mut String)
    ensures
        final(out)@ == old(out)@ + paragraph_html(*node),
{
    let children = arr_field_or_empty(node, "children");
    push_str(out, "<p>");
    render_html_inline(children, out);
    push_str(out, "</p>\n");
}

pub fn render_paragraph_typst(node: &JsonValue, plugins: &PluginRegistry, out: &mut String)
    ensures
        final(out)@ == old(out)@ + paragraph_typst(*node, plugins@),
    decreases *node, 2nat,
{
    match arr_field(node, "children") {
        Some(ch) => {
            proof {
                lemma_arr_decreases(*node, "children"@);
            }
            render_typst_inline(ch, plugins, out);
        },
        None => {},
    }
    push_str(out, "\n\n");
}

pub fn render_paragraph_md(node: &JsonValue, plugins: &PluginRegistry, out: &mut String)
    ensures
        final(out)@ == old(out)@ + paragraph_md(*node, plugins@),
    decreases *node, 2nat,
{
    match arr_field(node, "children") {
        Some(ch) => {
            proof {
                lemma_arr_decreases(*node, "children"@);
            }
            render_markdown_inline(ch, plugins, out);
        },
        None => {},
    }
    push_str(out, "\n\n");
}

impl RenderBlock for ParagraphRenderer {
    fn render_html(node: &JsonValue, plugins: &PluginRegistry, out: &mut String)
        ensures
            final(out)@ == old(out)@ + paragraph_html(*node),
    {
        render_paragraph_html(node, out)
    }

    fn render_typst(node: &JsonValue, plugins: &PluginRegistry, out: &mut String)
        ensures
            final(out)@ == old(out)@ + paragraph_typst(*node, plugins@),
    {
        render_paragraph_typst(node, plugins, out)
    }

    fn render_markdown(node: &JsonValue, plugins: &PluginRegistry, out: &mut String)
        ensures
            final(out)@ == old(out)@ + paragraph_md(*node, plugins@),
    {
        render_paragraph_md(node, plugins, out)
    }
}

} // verus!
