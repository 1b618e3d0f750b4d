//! Blockquotes, with the GFM alert kind as a class.

use vstd::prelude::*;
use crate::blocks::{RenderBlock, html_blocks_kids, typst_blocks_kids, md_blocks_kids, render_html_blocks_kids, render_typst_blocks_kids, render_md_blocks_kids};
use crate::json::{JsonValue, str_or, str_field};
use crate::plugin::{PluginEntry, PluginRegistry, PluginType};
use crate::text::{escape_text, encode_text, push_str, lines, quote_lines, split_lines, push_quoted_lines};

verus! {

/// Renders blockquote nodes.
pub struct BlockquoteRenderer;

/// `<blockquote class="kind">` for an alert kind, plain `<blockquote>`
/// otherwise, around the child blocks.
pub open spec fn blockquote_html(node: JsonValue, plugins: Map<(PluginType, Seq<char>), PluginEntry>) -> Seq<char>
    decreases node, 2nat,
{
    let kind = str_or(node, "kind"@, ""@);
    (if kind.len() > 0 {
        "<blockquote class=\""@ + escape_text(kind) + "\">\n"@
    } else {
        "<blockquote>\n"@
    }) + html_blocks_kids(node, plugins) + "</blockquote>\n"@
}

pub open spec fn blockquote_typst(node: JsonValue, plugins: Map<(PluginType, Seq<char>), PluginEntry>) -> Seq<char>
    decreases node, 2nat,
{
    "#quote(block: true)[\n"@ + typst_blocks_kids(node, plugins) + "]\n\n"@
}

/// Every line of the child blocks' Markdown prefixed with `> `, then a
/// blank line.
pub open spec fn blockquote_md(node: JsonValue, plugins: Map<(PluginType, Seq<char>), PluginEntry>) -> Seq<char>
    decreases node, 2nat,
{
    quote_lines(lines(md_blocks_kids(node, plugins))) + "\n"@
}

pub fn render_blockquote_html(node: &JsonValue, plugins: &PluginRegistry, out: &mut String)
    ensures
        final(out)@ == old(out)@ + blockquote_html(*node, plugins@),
    decreases *node, 2nat,
{
    let kind = str_field(node, "kind", "");
    if !kind.is_empty() {
        push_str(out, "<blockquote class=\"");
        push_str(out, encode_text(kind).as_str());
        push_str(out, "\">\n");
    } else {
        push_str(out, "<blockquote>\n");
    }
    render_html_blocks_kids(node, plugins, out);
    push_str(out, "</blockquote>\n");
}

pub fn render_blockquote_typst(node: &JsonValue, plugins: &PluginRegistry, out: &mut String)
    ensures
        final(out)@ == old(out)@ + blockquote_typst(*node, plugins@),
    decreases *node, 2nat,
{
    push_str(out, "#quote(block: true)[\n");
    render_typst_blocks_kids(node, plugins, out);
    push_str(out, "]\n\n");
}

pub fn render_blockquote_md(node: &JsonValue, plugins: &PluginRegistry, out: &mut String)
    ensures
        final(out)@ == old(out)@ + blockquote_md(*node, plugins@),
    decreases *node, 2nat,
{
    let mut inner = String::new();
    render_md_blocks_kids(node, plugins, &mut inner);
    let ls = split_lines(inner.as_str());
    push_quoted_lines(out, &ls);
    push_str(out, "\n");
}

impl RenderBlock for BlockquoteRenderer {
    fn render_html(node: &JsonValue, plugins: &PluginRegistry, out: &mut String)
        ensures
            final(out)@ == old(out)@ + blockquote_html(*node, plugins@),
    {
        render_blockquote_html(node, plugins, out)
    }

    fn render_typst(node: &JsonValue, plugins: &PluginRegistry, out: &mut String)
        ensures
            final(out)@ == old(out)@ + blockquote_typst(*node, plugins@),
    {
        render_blockquote_typst(node, plugins, out)
    }

    fn render_markdown(node: &JsonValue, plugins: &PluginRegistry, out: &mut String)
        ensures
            final(out)@ == old(out)@ + blockquote_md(*node, plugins@),
    {
        render_blockquote_md(node, plugins, out)
    }
}

} // verus!
