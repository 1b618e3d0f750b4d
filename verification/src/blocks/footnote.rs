//! Footnote definitions.

use vstd::prelude::*;
use crate::blocks::{RenderBlock, html_blocks_kids, typst_blocks_kids, md_blocks_kids, render_html_blocks_kids, render_typst_blocks_kids, render_md_blocks_kids};
use crate::json::{JsonValue, str_or, str_field};
use crate::plugin::{PluginEntry, PluginRegistry, PluginType};
use crate::text::{push_str, lines, trim_end, hanging_lines, split_lines, trim_end_string, push_hanging_lines};

verus! {

/// Renders footnote definitions.
pub struct FootnoteDefRenderer;

pub open spec fn footnote_html(node: JsonValue, plugins: Map<(PluginType, Seq<char>), PluginEntry>) -> Seq<char>
    decreases node, 2nat,
{
    let label = str_or(node, "label"@, ""@);
    "<div class=\"footnote-def\" id=\"fn-"@ + label + "\">\n"@ + "  <sup>"@ + label + "</sup>\n"@
        + html_blocks_kids(node, plugins) + "</div>\n"@
}

pub open spec fn footnote_typst(node: JsonValue, plugins: Map<(PluginType, Seq<char>), PluginEntry>) -> Seq<char>
    decreases node, 2nat,
{
    "#footnote[<fn-"@ + str_or(node, "label"@, ""@) + "> "@ + typst_blocks_kids(node, plugins) + "]\n\n"@
}

/// `[^label]: ` and the body's lines (trailing whitespace trimmed), the
/// continuation lines indented by four spaces, then a blank line.
pub open spec fn footnote_md(node: JsonValue, plugins: Map<(PluginType, Seq<char>), PluginEntry>) -> Seq<char>
    decreases node, 2nat,
{
    "[^"@ + str_or(node, "label"@, ""@) + "]: "@ + hanging_lines(
        lines(trim_end(md_blocks_kids(node, plugins))),
        "    "@,
    ) + "\n"@
}

pub fn render_footnote_html(node: &JsonValue, plugins: &PluginRegistry, out: &mut String)
    ensures
        final(out)@ == old(out)@ + footnote_html(*node, plugins@),
    decreases *node, 2nat,
{
    let label = str_field(node, "label", "");
    push_str(out, "<div class=\"footnote-def\" id=\"fn-");
    push_str(out, label);
    push_str(out, "\">\n");
    push_str(out, "  <sup>");
    push_str(out, label);
    push_str(out, "</sup>\n");
    render_html_blocks_kids(node, plugins, out);
    push_str(out, "</div>\n");
}

pub fn render_footnote_typst(node: &JsonValue, plugins: &PluginRegistry, out: &mut String)
    ensures
        final(out)@ == old(out)@ + footnote_typst(*node, plugins@),
    decreases *node, 2nat,
{
    push_str(out, "#footnote[<fn-");
    push_str(out, str_field(node, "label", ""));
    push_str(out, "> ");
    render_typst_blocks_kids(node, plugins, out);
    push_str(out, "]\n\n");
}

pub fn render_footnote_md(node: &JsonValue, plugins: &PluginRegistry, out: &mut String)
    ensures
        final(out)@ == old(out)@ + footnote_md(*node, plugins@),
    decreases *node, 2nat,
{
    push_str(out, "[^");
    push_str(out, str_field(node, "label", ""));
    push_str(out, "]: ");
    let mut inner = String::new();
    render_md_blocks_kids(node, plugins, &mut inner);
    let trimmed = trim_end_string(inner.as_str());
    let ls = split_lines(trimmed.as_str());
    push_hanging_lines(out, &ls, "    ");
    push_str(out, "\n");
}

impl RenderBlock for FootnoteDefRenderer {
    fn render_html(node: &JsonValue, plugins: &PluginRegistry, out: &mut String)
        ensures
            final(out)@ == old(out)@ + footnote_html(*node, plugins@),
    {
        render_footnote_html(node, plugins, out)
    }

    fn render_typst(node: &JsonValue, plugins: &PluginRegistry, out: &mut String)
        ensures
            final(out)@ == old(out)@ + footnote_typst(*node, plugins@),
    {
        render_footnote_typst(node, plugins, out)
    }

    fn render_markdown(node: &JsonValue, plugins: &PluginRegistry, out: &mut String)
        ensures
            final(out)@ == old(out)@ + footnote_md(*node, plugins@),
    {
        render_footnote_md(node, plugins, out)
    }
}

} // verus!
