//! Headings: `<hN id="slug">`, `= ` prefixes in Typst, `#` prefixes in
//! Markdown.

use vstd::prelude::*;
use crate::blocks::RenderBlock;
use crate::blocks::inline::{slugify_text, html_inline, render_html_inline, typst_inline_kids, md_inline_kids, render_typst_inline, render_markdown_inline};
use crate::context::{collect_text, ctx_text, is_heading, toc_nodes};
use crate::json::{JsonValue, u64_or, arr_or_empty, lemma_arr_decreases, u64_field, arr_field, arr_field_or_empty};
use crate::plugin::{PluginEntry, PluginRegistry, PluginType};
use crate::text::{decimal, slugify, push_str, push_decimal, push_repeat};

verus! {

/// Renders heading nodes.
pub struct HeadingRenderer;

/// `<hN id="slug">…</hN>`, the level defaulting to 1 and the id being the
/// slug of the heading's plain text as the table of contents reads it (math
/// sources included), so that a contents link reaches the heading.
pub open spec fn heading_html(node: JsonValue) -> Seq<char> {
    let level = decimal(u64_or(node, "level"@, 1) as nat);
    let children = arr_or_empty(node, "children"@);
    "<h"@ + level + " id=\""@ + slugify(ctx_text(children)) + "\">"@ + html_inline(children) + "</h"@
        + level + ">\n"@
}

/// `level` times `=`, a space, the inline content and a blank line.
pub open spec fn heading_typst(node: JsonValue, plugins: Map<(PluginType, Seq<char>), PluginEntry>) -> Seq<char>
    decreases node, 2nat,
{
    Seq::new(u64_or(node, "level"@, 1) as nat, |i: int| '=') + " "@ + typst_inline_kids(node, plugins) + "\n\n"@
}

/// `level` times `#`, a space, the inline content and a blank line.
pub open spec fn heading_md(node: JsonValue, plugins: Map<(PluginType, Seq<char>), PluginEntry>) -> Seq<char>
    decreases node, 2nat,
{
    Seq::new(u64_or(node, "level"@, 1) as nat, |i: int| '#') + " "@ + md_inline_kids(node, plugins) + "\n\n"@
}

pub fn render_heading_html(node: &JsonValue, out: &mut String)
    ensures
        final(out)@ == old(out)@ + heading_html(*node),
{
    let level = u64_field(node, "level", 1);
    let children = arr_field_or_empty(node, "children");
    let text = collect_text(children);
    let slug = slugify_text(text.as_str());
    push_str(out, "<h");
    push_decimal(out, level);
    push_str(out, " id=\"");
    push_str(out, slug.as_str());
    push_str(out, "\">");
    render_html_inline(children, out);
    push_str(out, "</h");
    push_decimal(out, level);
    push_str(out, ">\n");
}

pub fn render_heading_typst(node: &JsonValue, plugins: &PluginRegistry, out: &mut String)
    ensures
        final(out)@ == old(out)@ + heading_typst(*node, plugins@),
    decreases *node, 2nat,
{
    let level = u64_field(node, "level", 1);
    push_repeat(out, '=', level);
    push_str(out, " ");
    match arr_field(node, "children") {
        Some(ch) => {
            proof {
                lemma_arr_decreases(*node, "children"@);
            }
            render_typst_inline(ch, plugins, out);
        },
        None => {},
    }
    push_str(out, "\n\n");
}

pub fn render_heading_md(node: &JsonValue, plugins: &PluginRegistry, out: &mut String)
    ensures
        final(out)@ == old(out)@ + heading_md(*node, plugins@),
    decreases *node, 2nat,
{
    let level = u64_field(node, "level", 1);
    push_repeat(out, '#', level);
    push_str(out, " ");
    match arr_field(node, "children") {
        Some(ch) => {
            proof {
                lemma_arr_decreases(*node, "children"@);
            }
            render_markdown_inline(ch, plugins, out);
        },
        None => {},
    }
    push_str(out, "\n\n");
}

/// A heading's `id` is the slug of the first table-of-contents entry that the
/// heading gives, so that the contents link `#slug` reaches it.
pub proof fn lemma_heading_id_is_toc_slug(node: JsonValue)
    requires
        is_heading(node),
    ensures
        toc_nodes(seq![node]).len() >= 1,
        heading_html(node) == "<h"@ + decimal(u64_or(node, "level"@, 1) as nat) + " id=\""@ + slugify(
            toc_nodes(seq![node])[0].1,
        ) + "\">"@ + html_inline(arr_or_empty(node, "children"@)) + "</h"@ + decimal(u64_or(node, "level"@, 1) as nat)
            + ">\n"@,
{
    let s = seq![node];
    assert(s.drop_last() =~= Seq::<JsonValue>::empty());
    assert(s.last() == node);
    assert(toc_nodes(s) == toc_nodes(s.drop_last()) + crate::context::toc_node(node));
}

impl RenderBlock for HeadingRenderer {
    fn render_html(node: &JsonValue, plugins: &PluginRegistry, out: &mut String)
        ensures
            final(out)@ == old(out)@ + heading_html(*node),
    {
        render_heading_html(node, out)
    }

    fn render_typst(node: &JsonValue, plugins: &PluginRegistry, out: &mut String)
        ensures
            final(out)@ == old(out)@ + heading_typst(*node, plugins@),
    {
        render_heading_typst(node, plugins, out)
    }

    fn render_markdown(node: &JsonValue, plugins: &PluginRegistry, out: &mut String)
        ensures
            final(out)@ == old(out)@ + heading_md(*node, plugins@),
    {
        render_heading_md(node, plugins, out)
    }
}

} // verus!
