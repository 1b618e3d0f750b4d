//! Ordered and unordered lists. Item children are either block nodes or,
//! in tight lists, inline nodes.

use vstd::prelude::*;
use crate::blocks::{RenderBlock, is_block_type, is_block, html_node, typst_node, md_node, render_html_node, render_typst_node, render_markdown_node};
use crate::blocks::inline::{html_inline_node, typst_inline_node, md_inline_node, render_html_inline_node, render_typst_inline_node, render_markdown_inline_node};
use crate::json::{JsonValue, get, as_array, str_or, bool_or, u64_or, lemma_arr_decreases, arr_field, str_field, bool_field, u64_field};
use crate::plugin::{PluginEntry, PluginRegistry, PluginType};
use crate::text::{decimal, push_str, push_decimal, push_repeat, lines, trim_end, hanging_lines, split_lines, trim_end_string, push_hanging_lines};

verus! {

/// Renders list nodes.
pub struct ListRenderer;

// ---------------------------------------------------------------------------
// HTML
// ---------------------------------------------------------------------------

pub open spec fn item_children_html(children: Seq<JsonValue>, plugins: Map<(PluginType, Seq<char>), PluginEntry>) -> Seq<char>
    decreases children, 0nat,
{
    if children.len() == 0 {
        Seq::empty()
    } else {
        let c = children.last();
        item_children_html(children.drop_last(), plugins) + if is_block_type(str_or(c, "t"@, ""@)) {
            html_node(c, plugins)
        } else {
            html_inline_node(c)
        }
    }
}

pub open spec fn item_kids_html(item: JsonValue, plugins: Map<(PluginType, Seq<char>), PluginEntry>) -> Seq<char>
    decreases item, 1nat,
{
    proof {
        lemma_arr_decreases(item, "children"@);
    }
    match as_array(get(item, "children"@)) {
        Some(ch) => item_children_html(ch, plugins),
        None => Seq::empty(),
    }
}

pub open spec fn list_items_html(items: Seq<JsonValue>, plugins: Map<(PluginType, Seq<char>), PluginEntry>) -> Seq<char>
    decreases items, 0nat,
{
    if items.len() == 0 {
        Seq::empty()
    } else {
        list_items_html(items.drop_last(), plugins) + "<li>"@ + item_kids_html(items.last(), plugins) + "</li>\n"@
    }
}

/// `<ol start="N">` (N defaulting to 1) or `<ul>`, one `<li>` per item.
pub open spec fn list_html(node: JsonValue, plugins: Map<(PluginType, Seq<char>), PluginEntry>) -> Seq<char>
    decreases node, 2nat,
{
    proof {
        lemma_arr_decreases(node, "items"@);
    }
    let ordered = bool_or(node, "ordered"@, false);
    (if ordered {
        "<ol start=\""@ + decimal(u64_or(node, "start"@, 1) as nat) + "\">\n"@
    } else {
        "<ul>\n"@
    }) + match as_array(get(node, "items"@)) {
        Some(items) => list_items_html(items, plugins),
        None => Seq::empty(),
    } + if ordered {
        "</ol>\n"@
    } else {
        "</ul>\n"@
    }
}

fn render_item_children_html(children: &[JsonValue], plugins: &PluginRegistry, out: &mut String)
    ensures
        final(out)@ == old(out)@ + item_children_html(children@, plugins@),
    decreases children@, 0nat,
{
    let n = children.len();
    let mut i: usize = 0;
    while i < n
        invariant
            n == children@.len(),
            i <= n,
            out@ == old(out)@ + item_children_html(children@.take(i as int), plugins@),
        decreases n - i,
    {
        proof {
            assert(children@.take(i + 1).drop_last() == children@.take(i as int));
            assert(children@.take(i + 1).last() == children@[i as int]);
        }
        let child = &children[i];
        if is_block(str_field(child, "t", "")) {
            render_html_node(child, plugins, out);
        } else {
            render_html_inline_node(child, out);
        }
        i += 1;
    }
    proof {
        assert(children@.take(n as int) == children@);
    }
}

fn render_item_kids_html(item: &JsonValue, plugins: &PluginRegistry, out: &mut String)
    ensures
        final(out)@ == old(out)@ + item_kids_html(*item, plugins@),
    decreases *item, 1nat,
{
    match arr_field(item, "children") {
        Some(ch) => {
            proof {
                lemma_arr_decreases(*item, "children"@);
            }
            render_item_children_html(ch, plugins, out);
        },
        None => {},
    }
}

fn render_items_html(items: &[JsonValue], plugins: &PluginRegistry, out: &mut String)
    ensures
        final(out)@ == old(out)@ + list_items_html(items@, plugins@),
    decreases items@, 0nat,
{
    let n = items.len();
    let mut i: usize = 0;
    while i < n
        invariant
            n == items@.len(),
            i <= n,
            out@ == old(out)@ + list_items_html(items@.take(i as int), plugins@),
        decreases n - i,
    {
        proof {
            assert(items@.take(i + 1).drop_last() == items@.take(i as int));
            assert(items@.take(i + 1).last() == items@[i as int]);
        }
        push_str(out, "<li>");
        render_item_kids_html(&items[i], plugins, out);
        push_str(out, "</li>\n");
        i += 1;
    }
    proof {
        assert(items@.take(n as int) == items@);
    }
}

pub fn render_list_html(node: &JsonValue, plugins: &PluginRegistry, out: &mut String)
    ensures
        final(out)@ == old(out)@ + list_html(*node, plugins@),
    decreases *node, 2nat,
{
    let ordered = bool_field(node, "ordered", false);
    if ordered {
        let start = u64_field(node, "start", 1);
        push_str(out, "<ol start=\"");
        push_decimal(out, start);
        push_str(out, "\">\n");
    } else {
        push_str(out, "<ul>\n");
    }
    match arr_field(node, "items") {
        Some(items) => {
            proof {
                lemma_arr_decreases(*node, "items"@);
            }
            render_items_html(items, plugins, out);
        },
        None => {},
    }
    if ordered {
        push_str(out, "</ol>\n");
    } else {
        push_str(out, "</ul>\n");
    }
}

// ---------------------------------------------------------------------------
// Typst
// ---------------------------------------------------------------------------

pub open spec fn item_children_typst(children: Seq<JsonValue>, plugins: Map<(PluginType, Seq<char>), PluginEntry>) -> Seq<char>
    decreases children, 0nat,
{
    if children.len() == 0 {
        Seq::empty()
    } else {
        let c = children.last();
        item_children_typst(children.drop_last(), plugins) + if is_block_type(str_or(c, "t"@, ""@)) {
            typst_node(c, plugins)
        } else {
            typst_inline_node(c, plugins)
        }
    }
}

pub open spec fn item_kids_typst(item: JsonValue, plugins: Map<(PluginType, Seq<char>), PluginEntry>) -> Seq<char>
    decreases item, 1nat,
{
    proof {
        lemma_arr_decreases(item, "children"@);
    }
    match as_array(get(item, "children"@)) {
        Some(ch) => item_children_typst(ch, plugins),
        None => Seq::empty(),
    }
}

/// One item: the marker and the item's content, ended with a line feed
/// unless it already ends with one.
pub open spec fn list_item_typst(item: JsonValue, marker: Seq<char>, plugins: Map<(PluginType, Seq<char>), PluginEntry>) -> Seq<char>
    decreases item, 2nat,
{
    let b = marker + item_kids_typst(item, plugins);
    if b.len() > 0 && b.last() == '\n' {
        b
    } else {
        b + "\n"@
    }
}

pub open spec fn list_items_typst(items: Seq<JsonValue>, marker: Seq<char>, plugins: Map<(PluginType, Seq<char>), PluginEntry>) -> Seq<char>
    decreases items, 0nat,
{
    if items.len() == 0 {
        Seq::empty()
    } else {
        list_items_typst(items.drop_last(), marker, plugins) + list_item_typst(items.last(), marker, plugins)
    }
}

/// The list marker in Typst: `+ ` for ordered lists, `- ` otherwise.
pub open spec fn typst_marker(node: JsonValue) -> Seq<char> {
    if bool_or(node, "ordered"@, false) {
        "+ "@
    } else {
        "- "@
    }
}

pub open spec fn list_typst(node: JsonValue, plugins: Map<(PluginType, Seq<char>), PluginEntry>) -> Seq<char>
    decreases node, 2nat,
{
    proof {
        lemma_arr_decreases(node, "items"@);
    }
    (match as_array(get(node, "items"@)) {
        Some(items) => list_items_typst(items, typst_marker(node), plugins),
        None => Seq::empty(),
    }) + "\n"@
}

fn render_item_children_typst(children: &[JsonValue], plugins: &PluginRegistry, out: &mut String)
    ensures
        final(out)@ == old(out)@ + item_children_typst(children@, plugins@),
    decreases children@, 0nat,
{
    let n = children.len();
    let mut i: usize = 0;
    while i < n
        invariant
            n == children@.len(),
            i <= n,
            out@ == old(out)@ + item_children_typst(children@.take(i as int), plugins@),
        decreases n - i,
    {
        proof {
            assert(children@.take(i + 1).drop_last() == children@.take(i as int));
            assert(children@.take(i + 1).last() == children@[i as int]);
        }
        let child = &children[i];
        if is_block(str_field(child, "t", "")) {
            render_typst_node(child, plugins, out);
        } else {
            render_typst_inline_node(child, plugins, out);
        }
        i += 1;
    }
    proof {
        assert(children@.take(n as int) == children@);
    }
}

fn render_item_typst(item: &JsonValue, marker: &str, plugins: &PluginRegistry, out: &mut String)
    ensures
        final(out)@ == old(out)@ + list_item_typst(*item, marker@, plugins@),
    decreases *item, 2nat,
{
    let mut b = String::new();
    push_str(&mut b, marker);
    match arr_field(item, "children") {
        Some(ch) => {
            proof {
                lemma_arr_decreases(*item, "children"@);
            }
            render_item_children_typst(ch, plugins, &mut b);
        },
        None => {},
    }
    let ghost bv = b@;
    push_str(out, b.as_str());
    let n = b.unicode_len();
    let ends_nl = n > 0 && b.get_char(n - 1) == '\n';
    if !ends_nl {
        push_str(out, "\n");
    }
}

fn render_items_typst(items: &[JsonValue], marker: &str, plugins: &PluginRegistry, out: &mut String)
    ensures
        final(out)@ == old(out)@ + list_items_typst(items@, marker@, plugins@),
    decreases items@, 0nat,
{
    let n = items.len();
    let mut i: usize = 0;
    while i < n
        invariant
            n == items@.len(),
            i <= n,
            out@ == old(out)@ + list_items_typst(items@.take(i as int), marker@, plugins@),
        decreases n - i,
    {
        proof {
            assert(items@.take(i + 1).drop_last() == items@.take(i as int));
            assert(items@.take(i + 1).last() == items@[i as int]);
        }
        render_item_typst(&items[i], marker, plugins, out);
        i += 1;
    }
    proof {
        assert(items@.take(n as int) == items@);
    }
}

pub fn render_list_typst(node: &JsonValue, plugins: &PluginRegistry, out: &mut String)
    ensures
        final(out)@ == old(out)@ + list_typst(*node, plugins@),
    decreases *node, 2nat,
{
    let marker = if bool_field(node, "ordered", false) { "+ " } else { "- " };
    match arr_field(node, "items") {
        Some(items) => {
            proof {
                lemma_arr_decreases(*node, "items"@);
            }
            render_items_typst(items, marker, plugins, out);
        },
        None => {},
    }
    push_str(out, "\n");
}

// ---------------------------------------------------------------------------
// Markdown
// ---------------------------------------------------------------------------

pub open spec fn item_children_md(children: Seq<JsonValue>, plugins: Map<(PluginType, Seq<char>), PluginEntry>) -> Seq<char>
    decreases children, 0nat,
{
    if children.len() == 0 {
        Seq::empty()
    } else {
        let c = children.last();
        item_children_md(children.drop_last(), plugins) + if is_block_type(str_or(c, "t"@, ""@)) {
            md_node(c, plugins)
        } else {
            md_inline_node(c, plugins)
        }
    }
}

pub open spec fn item_kids_md(item: JsonValue, plugins: Map<(PluginType, Seq<char>), PluginEntry>) -> Seq<char>
    decreases item, 1nat,
{
    proof {
        lemma_arr_decreases(item, "children"@);
    }
    match as_array(get(item, "children"@)) {
        Some(ch) => item_children_md(ch, plugins),
        None => Seq::empty(),
    }
}

/// The marker of item number `num`: `num. ` in an ordered list, `- `
/// otherwise.
pub open spec fn md_marker(num: nat, ordered: bool) -> Seq<char> {
    if ordered {
        decimal(num) + ". "@
    } else {
        "- "@
    }
}

/// Item number `num`: its marker, then the lines of its content (trailing
/// whitespace trimmed), continuation lines indented by the marker's width.
pub open spec fn list_item_md(item: JsonValue, num: nat, ordered: bool, plugins: Map<(PluginType, Seq<char>), PluginEntry>) -> Seq<char>
    decreases item, 2nat,
{
    let marker = md_marker(num, ordered);
    marker + hanging_lines(
        lines(trim_end(item_kids_md(item, plugins))),
        Seq::new(marker.len(), |i: int| ' '),
    )
}

pub open spec fn list_items_md(items: Seq<JsonValue>, ordered: bool, plugins: Map<(PluginType, Seq<char>), PluginEntry>) -> Seq<char>
    decreases items, 0nat,
{
    if items.len() == 0 {
        Seq::empty()
    } else {
        list_items_md(items.drop_last(), ordered, plugins) + list_item_md(
            items.last(),
            items.len(),
            ordered,
            plugins,
        )
    }
}

pub open spec fn list_md(node: JsonValue, plugins: Map<(PluginType, Seq<char>), PluginEntry>) -> Seq<char>
    decreases node, 2nat,
{
    proof {
        lemma_arr_decreases(node, "items"@);
    }
    (match as_array(get(node, "items"@)) {
        Some(items) => list_items_md(items, bool_or(node, "ordered"@, false), plugins),
        None => Seq::empty(),
    }) + "\n"@
}

fn render_item_children_md(children: &[JsonValue], plugins: &PluginRegistry, out: &mut String)
    ensures
        final(out)@ == old(out)@ + item_children_md(children@, plugins@),
    decreases children@, 0nat,
{
    let n = children.len();
    let mut i: usize = 0;
    while i < n
        invariant
            n == children@.len(),
            i <= n,
            out@ == old(out)@ + item_children_md(children@.take(i as int), plugins@),
        decreases n - i,
    {
        proof {
            assert(children@.take(i + 1).drop_last() == children@.take(i as int));
            assert(children@.take(i + 1).last() == children@[i as int]);
        }
        let child = &children[i];
        if is_block(str_field(child, "t", "")) {
            render_markdown_node(child, plugins, out);
        } else {
            render_markdown_inline_node(child, plugins, out);
        }
        i += 1;
    }
    proof {
        assert(children@.take(n as int) == children@);
    }
}

fn render_item_md(item: &JsonValue, num: u64, ordered: bool, plugins: &PluginRegistry, out: &mut String)
    ensures
        final(out)@ == old(out)@ + list_item_md(*item, num as nat, ordered, plugins@),
    decreases *item, 2nat,
{
    let mut marker = String::new();
    if ordered {
        push_decimal(&mut marker, num);
        push_str(&mut marker, ". ");
    } else {
        push_str(&mut marker, "- ");
    }
    push_str(out, marker.as_str());
    let mut inner = String::new();
    match arr_field(item, "children") {
        Some(ch) => {
            proof {
                lemma_arr_decreases(*item, "children"@);
            }
            render_item_children_md(ch, plugins, &mut inner);
        },
        None => {},
    }
    let trimmed = trim_end_string(inner.as_str());
    let ls = split_lines(trimmed.as_str());
    let mut indent = String::new();
    push_repeat(&mut indent, ' ', marker.unicode_len() as u64);
    push_hanging_lines(out, &ls, indent.as_str());
}

fn render_items_md(items: &[JsonValue], ordered: bool, plugins: &PluginRegistry, out: &mut String)
    ensures
        final(out)@ == old(out)@ + list_items_md(items@, ordered, plugins@),
    decreases items@, 0nat,
{
    let n = items.len();
    let mut i: usize = 0;
    while i < n
        invariant
            n == items@.len(),
            i <= n,
            out@ == old(out)@ + list_items_md(items@.take(i as int), ordered, plugins@),
        decreases n - i,
    {
        proof {
            assert(items@.take(i + 1).drop_last() == items@.take(i as int));
            assert(items@.take(i + 1).last() == items@[i as int]);
            assert(items@.take(i + 1).len() == i + 1);
        }
        render_item_md(&items[i], (i + 1) as u64, ordered, plugins, out);
        i += 1;
    }
    proof {
        assert(items@.take(n as int) == items@);
    }
}

pub fn render_list_md(node: &JsonValue, plugins: &PluginRegistry, out: &mut String)
    ensures
        final(out)@ == old(out)@ + list_md(*node, plugins@),
    decreases *node, 2nat,
{
    let ordered = bool_field(node, "ordered", false);
    match arr_field(node, "items") {
        Some(items) => {
            proof {
                lemma_arr_decreases(*node, "items"@);
            }
            render_items_md(items, ordered, plugins, out);
        },
        None => {},
    }
    push_str(out, "\n");
}

impl RenderBlock for ListRenderer {
    fn render_html(node: &JsonValue, plugins: &PluginRegistry, out: &mut String)
        ensures
            final(out)@ == old(out)@ + list_html(*node, plugins@),
    {
        render_list_html(node, plugins, out)
    }

    fn render_typst(node: &JsonValue, plugins: &PluginRegistry, out: &mut String)
        ensures
            final(out)@ == old(out)@ + list_typst(*node, plugins@),
    {
        render_list_typst(node, plugins, out)
    }

    fn render_markdown(node: &JsonValue, plugins: &PluginRegistry, out: &mut String)
        ensures
            final(out)@ == old(out)@ + list_md(*node, plugins@),
    {
        render_list_md(node, plugins, out)
    }
}

} // verus!
