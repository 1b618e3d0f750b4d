//! Block renderers and the dispatch from a node's `t` field to them.

pub mod blockquote;
pub mod directive;
pub mod fenced;
pub mod footnote;
pub mod heading;
pub mod hr;
pub mod inline;
pub mod list;
pub mod math;
pub mod paragraph;
pub mod table;

use vstd::prelude::*;
use crate::json::{JsonValue, get, as_array, str_or, lemma_arr_decreases, arr_field, str_field};
use crate::plugin::{PluginEntry, PluginRegistry, PluginType};
use crate::text::{push_str, str_eq};
use self::blockquote::{blockquote_html, blockquote_typst, blockquote_md, render_blockquote_html, render_blockquote_typst, render_blockquote_md};
use self::directive::{directive_html, directive_typst, directive_md, render_directive_html, render_directive_typst, render_directive_md};
use self::fenced::{fenced_html, fenced_typst, fenced_md, render_fenced_html, render_fenced_typst, render_fenced_md};
use self::footnote::{footnote_html, footnote_typst, footnote_md, render_footnote_html, render_footnote_typst, render_footnote_md};
use self::heading::{heading_html, heading_typst, heading_md, render_heading_html, render_heading_typst, render_heading_md};
use self::hr::{hr_html, hr_typst, hr_md};
use self::list::{list_html, list_typst, list_md, render_list_html, render_list_typst, render_list_md};
use self::math::{math_html, math_typst, math_md, render_math_html, render_math_typst, render_math_md};
use self::paragraph::{paragraph_html, paragraph_typst, paragraph_md, render_paragraph_html, render_paragraph_typst, render_paragraph_md};
use self::table::{table_html, table_typst, table_md, render_table_html, render_table_typst, render_table_md};

verus! {

/// A renderer for one kind of block node.
pub trait RenderBlock {
    fn render_html(node: &JsonValue, plugins: &PluginRegistry, out: &mut String);

    fn render_typst(node: &JsonValue, plugins: &PluginRegistry, out: &mut String);

    fn render_markdown(node: &JsonValue, plugins: &PluginRegistry, out: &mut String);
}

/// The `t` values of block nodes.
pub open spec fn is_block_type(t: Seq<char>) -> bool {
    t == "heading"@ || t == "paragraph"@ || t == "fenced"@ || t == "math_block"@ || t == "blockquote"@
        || t == "list"@ || t == "table"@ || t == "hr"@ || t == "footnote_def"@ || t == "directive"@
}

pub fn is_block(t: &str) -> (r: bool)
    ensures
        r == is_block_type(t@),
{
    str_eq(t, "heading") || str_eq(t, "paragraph") || str_eq(t, "fenced") || str_eq(t, "math_block")
        || str_eq(t, "blockquote") || str_eq(t, "list") || str_eq(t, "table") || str_eq(t, "hr")
        || str_eq(t, "footnote_def") || str_eq(t, "directive")
}

// ---------------------------------------------------------------------------
// HTML
// ---------------------------------------------------------------------------

/// The HTML of a block node, chosen by its `t` field; unknown nodes give
/// nothing.
pub open spec fn html_node(node: JsonValue, plugins: Map<(PluginType, Seq<char>), PluginEntry>) -> Seq<char>
    decreases node, 6nat,
{
    let t = str_or(node, "t"@, ""@);
    if t == "heading"@ {
        heading_html(node)
    } else if t == "paragraph"@ {
        paragraph_html(node)
    } else if t == "fenced"@ {
        fenced_html(node, plugins)
    } else if t == "math_block"@ {
        math_html(node)
    } else if t == "blockquote"@ {
        blockquote_html(node, plugins)
    } else if t == "list"@ {
        list_html(node, plugins)
    } else if t == "table"@ {
        table_html(node)
    } else if t == "hr"@ {
        hr_html()
    } else if t == "footnote_def"@ {
        footnote_html(node, plugins)
    } else if t == "directive"@ {
        directive_html(node, plugins)
    } else {
        Seq::empty()
    }
}

/// The HTML of a sequence of block nodes.
pub open spec fn html_blocks(nodes: Seq<JsonValue>, plugins: Map<(PluginType, Seq<char>), PluginEntry>) -> Seq<char>
    decreases nodes, 0nat,
{
    if nodes.len() == 0 {
        Seq::empty()
    } else {
        html_blocks(nodes.drop_last(), plugins) + html_node(nodes.last(), plugins)
    }
}

/// The HTML of a node's `children` blocks (nothing when absent).
pub open spec fn html_blocks_kids(node: JsonValue, plugins: Map<(PluginType, Seq<char>), PluginEntry>) -> Seq<char>
    decreases node, 1nat,
{
    proof {
        lemma_arr_decreases(node, "children"@);
    }
    match as_array(get(node, "children"@)) {
        Some(ch) => html_blocks(ch, plugins),
        None => Seq::empty(),
    }
}

/// Renders a block node as HTML.
pub fn render_html_node(node: &JsonValue, plugins: &PluginRegistry, out: &mut String)
    ensures
        final(out)@ == old(out)@ + html_node(*node, plugins@),
    decreases *node, 6nat,
{
    let t = str_field(node, "t", "");
    if str_eq(t, "heading") {
        render_heading_html(node, out);
    } else if str_eq(t, "paragraph") {
        render_paragraph_html(node, out);
    } else if str_eq(t, "fenced") {
        render_fenced_html(node, plugins, out);
    } else if str_eq(t, "math_block") {
        render_math_html(node, out);
    } else if str_eq(t, "blockquote") {
        render_blockquote_html(node, plugins, out);
    } else if str_eq(t, "list") {
        render_list_html(node, plugins, out);
    } else if str_eq(t, "table") {
        render_table_html(node, out);
    } else if str_eq(t, "hr") {
        push_str(out, "<hr>\n");
    } else if str_eq(t, "footnote_def") {
        render_footnote_html(node, plugins, out);
    } else if str_eq(t, "directive") {
        render_directive_html(node, plugins, out);
    }
}

/// Renders a sequence of block nodes as HTML.
pub fn render_html_blocks(nodes: &[JsonValue], plugins: &PluginRegistry, out: &mut String)
    ensures
        final(out)@ == old(out)@ + html_blocks(nodes@, plugins@),
    decreases nodes@, 0nat,
{
    let n = nodes.len();
    let mut i: usize = 0;
    while i < n
        invariant
            n == nodes@.len(),
            i <= n,
            out@ == old(out)@ + html_blocks(nodes@.take(i as int), plugins@),
        decreases n - i,
    {
        proof {
            assert(nodes@.take(i + 1).drop_last() == nodes@.take(i as int));
            assert(nodes@.take(i + 1).last() == nodes@[i as int]);
        }
        render_html_node(&nodes[i], plugins, out);
        i += 1;
    }
    proof {
        assert(nodes@.take(n as int) == nodes@);
    }
}

/// Renders a node's `children` blocks as HTML.
pub fn render_html_blocks_kids(node: &JsonValue, plugins: &PluginRegistry, out: &mut String)
    ensures
        final(out)@ == old(out)@ + html_blocks_kids(*node, plugins@),
    decreases *node, 1nat,
{
    match arr_field(node, "children") {
        Some(ch) => {
            proof {
                lemma_arr_decreases(*node, "children"@);
            }
            render_html_blocks(ch, plugins, out);
        },
        None => {},
    }
}

// ---------------------------------------------------------------------------
// Typst
// ---------------------------------------------------------------------------

/// The Typst of a block node, chosen by its `t` field; unknown nodes give
/// nothing.
pub open spec fn typst_node(node: JsonValue, plugins: Map<(PluginType, Seq<char>), PluginEntry>) -> Seq<char>
    decreases node, 6nat,
{
    let t = str_or(node, "t"@, ""@);
    if t == "heading"@ {
        heading_typst(node, plugins)
    } else if t == "paragraph"@ {
        paragraph_typst(node, plugins)
    } else if t == "fenced"@ {
        fenced_typst(node, plugins)
    } else if t == "math_block"@ {
        math_typst(node)
    } else if t == "blockquote"@ {
        blockquote_typst(node, plugins)
    } else if t == "list"@ {
        list_typst(node, plugins)
    } else if t == "table"@ {
        table_typst(node, plugins)
    } else if t == "hr"@ {
        hr_typst()
    } else if t == "footnote_def"@ {
        footnote_typst(node, plugins)
    } else if t == "directive"@ {
        directive_typst(node, plugins)
    } else {
        Seq::empty()
    }
}

/// The Typst of a sequence of block nodes.
pub open spec fn typst_blocks(nodes: Seq<JsonValue>, plugins: Map<(PluginType, Seq<char>), PluginEntry>) -> Seq<char>
    decreases nodes, 0nat,
{
    if nodes.len() == 0 {
        Seq::empty()
    } else {
        typst_blocks(nodes.drop_last(), plugins) + typst_node(nodes.last(), plugins)
    }
}

/// The Typst of a node's `children` blocks (nothing when absent).
pub open spec fn typst_blocks_kids(node: JsonValue, plugins: Map<(PluginType, Seq<char>), PluginEntry>) -> Seq<char>
    decreases node, 1nat,
{
    proof {
        lemma_arr_decreases(node, "children"@);
    }
    match as_array(get(node, "children"@)) {
        Some(ch) => typst_blocks(ch, plugins),
        None => Seq::empty(),
    }
}

/// Renders a block node as Typst.
pub fn render_typst_node(node: &JsonValue, plugins: &PluginRegistry, out: &mut String)
    ensures
        final(out)@ == old(out)@ + typst_node(*node, plugins@),
    decreases *node, 6nat,
{
    let t = str_field(node, "t", "");
    if str_eq(t, "heading") {
        render_heading_typst(node, plugins, out);
    } else if str_eq(t, "paragraph") {
        render_paragraph_typst(node, plugins, out);
    } else if str_eq(t, "fenced") {
        render_fenced_typst(node, plugins, out);
    } else if str_eq(t, "math_block") {
        render_math_typst(node, out);
    } else if str_eq(t, "blockquote") {
        render_blockquote_typst(node, plugins, out);
    } else if str_eq(t, "list") {
        render_list_typst(node, plugins, out);
    } else if str_eq(t, "table") {
        render_table_typst(node, plugins, out);
    } else if str_eq(t, "hr") {
        push_str(out, "#line(length: 100%, stroke: 0.3pt)\n\n");
    } else if str_eq(t, "footnote_def") {
        render_footnote_typst(node, plugins, out);
    } else if str_eq(t, "directive") {
        render_directive_typst(node, plugins, out);
    }
}

/// Renders a sequence of block nodes as Typst.
pub fn render_typst_blocks(nodes: &[JsonValue], plugins: &PluginRegistry, out: &mut String)
    ensures
        final(out)@ == old(out)@ + typst_blocks(nodes@, plugins@),
    decreases nodes@, 0nat,
{
    let n = nodes.len();
    let mut i: usize = 0;
    while i < n
        invariant
            n == nodes@.len(),
            i <= n,
            out@ == old(out)@ + typst_blocks(nodes@.take(i as int), plugins@),
        decreases n - i,
    {
        proof {
            assert(nodes@.take(i + 1).drop_last() == nodes@.take(i as int));
            assert(nodes@.take(i + 1).last() == nodes@[i as int]);
        }
        render_typst_node(&nodes[i], plugins, out);
        i += 1;
    }
    proof {
        assert(nodes@.take(n as int) == nodes@);
    }
}

/// Renders a node's `children` blocks as Typst.
pub fn render_typst_blocks_kids(node: &JsonValue, plugins: &PluginRegistry, out: &mut String)
    ensures
        final(out)@ == old(out)@ + typst_blocks_kids(*node, plugins@),
    decreases *node, 1nat,
{
    match arr_field(node, "children") {
        Some(ch) => {
            proof {
                lemma_arr_decreases(*node, "children"@);
            }
            render_typst_blocks(ch, plugins, out);
        },
        None => {},
    }
}

// ---------------------------------------------------------------------------
// Markdown
// ---------------------------------------------------------------------------

/// The Markdown of a block node, chosen by its `t` field; unknown nodes
/// give nothing.
pub open spec fn md_node(node: JsonValue, plugins: Map<(PluginType, Seq<char>), PluginEntry>) -> Seq<char>
    decreases node, 6nat,
{
    let t = str_or(node, "t"@, ""@);
    if t == "heading"@ {
        heading_md(node, plugins)
    } else if t == "paragraph"@ {
        paragraph_md(node, plugins)
    } else if t == "fenced"@ {
        fenced_md(node, plugins)
    } else if t == "math_block"@ {
        math_md(node)
    } else if t == "blockquote"@ {
        blockquote_md(node, plugins)
    } else if t == "list"@ {
        list_md(node, plugins)
    } else if t == "table"@ {
        table_md(node, plugins)
    } else if t == "hr"@ {
        hr_md()
    } else if t == "footnote_def"@ {
        footnote_md(node, plugins)
    } else if t == "directive"@ {
        directive_md(node, plugins)
    } else {
        Seq::empty()
    }
}

/// The Markdown of a sequence of block nodes.
pub open spec fn md_blocks(nodes: Seq<JsonValue>, plugins: Map<(PluginType, Seq<char>), PluginEntry>) -> Seq<char>
    decreases nodes, 0nat,
{
    if nodes.len() == 0 {
        Seq::empty()
    } else {
        md_blocks(nodes.drop_last(), plugins) + md_node(nodes.last(), plugins)
    }
}

/// The Markdown of a node's `children` blocks (nothing when absent).
pub open spec fn md_blocks_kids(node: JsonValue, plugins: Map<(PluginType, Seq<char>), PluginEntry>) -> Seq<char>
    decreases node, 1nat,
{
    proof {
        lemma_arr_decreases(node, "children"@);
    }
    match as_array(get(node, "children"@)) {
        Some(ch) => md_blocks(ch, plugins),
        None => Seq::empty(),
    }
}

/// Renders a block node as Markdown.
pub fn render_markdown_node(node: &JsonValue, plugins: &PluginRegistry, out: &mut String)
    ensures
        final(out)@ == old(out)@ + md_node(*node, plugins@),
    decreases *node, 6nat,
{
    let t = str_field(node, "t", "");
    if str_eq(t, "heading") {
        render_heading_md(node, plugins, out);
    } else if str_eq(t, "paragraph") {
        render_paragraph_md(node, plugins, out);
    } else if str_eq(t, "fenced") {
        render_fenced_md(node, plugins, out);
    } else if str_eq(t, "math_block") {
        render_math_md(node, out);
    } else if str_eq(t, "blockquote") {
        render_blockquote_md(node, plugins, out);
    } else if str_eq(t, "list") {
        render_list_md(node, plugins, out);
    } else if str_eq(t, "table") {
        render_table_md(node, plugins, out);
    } else if str_eq(t, "hr") {
        push_str(out, "---\n\n");
    } else if str_eq(t, "footnote_def") {
        render_footnote_md(node, plugins, out);
    } else if str_eq(t, "directive") {
        render_directive_md(node, plugins, out);
    }
}

/// Renders a sequence of block nodes as Markdown.
pub fn render_md_blocks(nodes: &[JsonValue], plugins: &PluginRegistry, out: &mut String)
    ensures
        final(out)@ == old(out)@ + md_blocks(nodes@, plugins@),
    decreases nodes@, 0nat,
{
    let n = nodes.len();
    let mut i: usize = 0;
    while i < n
        invariant
            n == nodes@.len(),
            i <= n,
            out@ == old(out)@ + md_blocks(nodes@.take(i as int), plugins@),
        decreases n - i,
    {
        proof {
            assert(nodes@.take(i + 1).drop_last() == nodes@.take(i as int));
            assert(nodes@.take(i + 1).last() == nodes@[i as int]);
        }
        render_markdown_node(&nodes[i], plugins, out);
        i += 1;
    }
    proof {
        assert(nodes@.take(n as int) == nodes@);
    }
}

/// Renders a node's `children` blocks as Markdown.
pub fn render_md_blocks_kids(node: &JsonValue, plugins: &PluginRegistry, out: &mut String)
    ensures
        final(out)@ == old(out)@ + md_blocks_kids(*node, plugins@),
    decreases *node, 1nat,
{
    match arr_field(node, "children") {
        Some(ch) => {
            proof {
                lemma_arr_decreases(*node, "children"@);
            }
            render_md_blocks(ch, plugins, out);
        },
        None => {},
    }
}

} // verus!
