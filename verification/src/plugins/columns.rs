//! The `columns` directive: each child block in a column of its own.

use vstd::prelude::*;
use crate::blocks::{html_node, typst_node, md_node, render_html_node, render_typst_node, render_markdown_node};
use crate::json::{JsonValue, get, as_array, lemma_arr_decreases, arr_field};
use crate::plugin::{Plugin, PluginEntry, PluginRegistry, PluginType};
use crate::plugins::MarkplusPlugin;
use crate::text::{decimal, push_str, push_decimal};

verus! {

/// Lays the children of a `columns` directive out side by side.
pub struct ColumnsPlugin;

pub open spec fn columns_cells_html(children: Seq<JsonValue>, plugins: Map<(PluginType, Seq<char>), PluginEntry>) -> Seq<char>
    decreases children, 0nat,
{
    if children.len() == 0 {
        Seq::empty()
    } else {
        columns_cells_html(children.drop_last(), plugins) + "<div class=\"col\" style=\"flex: 1;\">\n"@
            + html_node(children.last(), plugins) + "</div>\n"@
    }
}

pub open spec fn columns_html(node: JsonValue, plugins: Map<(PluginType, Seq<char>), PluginEntry>) -> Seq<char>
    decreases node, 2nat,
{
    proof {
        lemma_arr_decreases(node, "children"@);
    }
    "<div class=\"directive columns\" style=\"display: flex; gap: 1rem;\">\n"@ + match as_array(
        get(node, "children"@),
    ) {
        Some(ch) => columns_cells_html(ch, plugins),
        None => Seq::empty(),
    } + "</div>\n"@
}

pub open spec fn columns_cells_typst(children: Seq<JsonValue>, plugins: Map<(PluginType, Seq<char>), PluginEntry>) -> Seq<char>
    decreases children, 0nat,
{
    if children.len() == 0 {
        Seq::empty()
    } else {
        columns_cells_typst(children.drop_last(), plugins) + typst_node(children.last(), plugins)
            + "#colbreak()\n"@
    }
}

/// The number of columns: the number of children, 1 when there is no
/// `children` array, and at least 1.
pub open spec fn column_count(node: JsonValue) -> nat {
    let count = match as_array(get(node, "children"@)) {
        Some(ch) => ch.len(),
        None => 1,
    };
    if count < 1 { 1 } else { count }
}

pub open spec fn columns_typst(node: JsonValue, plugins: Map<(PluginType, Seq<char>), PluginEntry>) -> Seq<char>
    decreases node, 2nat,
{
    proof {
        lemma_arr_decreases(node, "children"@);
    }
    "#columns("@ + decimal(column_count(node)) + ")[\n"@ + match as_array(get(node, "children"@)) {
        Some(ch) => columns_cells_typst(ch, plugins),
        None => Seq::empty(),
    } + "]\n\n"@
}

pub open spec fn columns_cells_md(children: Seq<JsonValue>, plugins: Map<(PluginType, Seq<char>), PluginEntry>) -> Seq<char>
    decreases children, 0nat,
{
    if children.len() == 0 {
        Seq::empty()
    } else {
        columns_cells_md(children.drop_last(), plugins) + ":::col \n"@ + md_node(children.last(), plugins)
            + ":::\n"@
    }
}

pub open spec fn columns_md(node: JsonValue, plugins: Map<(PluginType, Seq<char>), PluginEntry>) -> Seq<char>
    decreases node, 2nat,
{
    proof {
        lemma_arr_decreases(node, "children"@);
    }
    ":::columns \n"@ + match as_array(get(node, "children"@)) {
        Some(ch) => columns_cells_md(ch, plugins),
        None => Seq::empty(),
    } + ":::\n\n"@
}

fn render_cells_html(children: &[JsonValue], plugins: &PluginRegistry, out: &mut String)
    ensures
        final(out)@ == old(out)@ + columns_cells_html(children@, plugins@),
    decreases children@, 0nat,
{
    let n = children.len();
    let mut i: usize = 0;
    while i < n
        invariant
            n == children@.len(),
            i <= n,
            out@ == old(out)@ + columns_cells_html(children@.take(i as int), plugins@),
        decreases n - i,
    {
        proof {
            assert(children@.take(i + 1).drop_last() == children@.take(i as int));
            assert(children@.take(i + 1).last() == children@[i as int]);
        }
        push_str(out, "<div class=\"col\" style=\"flex: 1;\">\n");
        render_html_node(&children[i], plugins, out);
        push_str(out, "</div>\n");
        i += 1;
    }
    proof {
        assert(children@.take(n as int) == children@);
    }
}

pub fn render_columns_html(node: &JsonValue, plugins: &PluginRegistry, out: &mut String)
    ensures
        final(out)@ == old(out)@ + columns_html(*node, plugins@),
    decreases *node, 2nat,
{
    push_str(out, "<div class=\"directive columns\" style=\"display: flex; gap: 1rem;\">\n");
    match arr_field(node, "children") {
        Some(ch) => {
            proof {
                lemma_arr_decreases(*node, "children"@);
            }
            render_cells_html(ch, plugins, out);
        },
        None => {},
    }
    push_str(out, "</div>\n");
}

fn render_cells_typst(children: &[JsonValue], plugins: &PluginRegistry, out: &mut String)
    ensures
        final(out)@ == old(out)@ + columns_cells_typst(children@, plugins@),
    decreases children@, 0nat,
{
    let n = children.len();
    let mut i: usize = 0;
    while i < n
        invariant
            n == children@.len(),
            i <= n,
            out@ == old(out)@ + columns_cells_typst(children@.take(i as int), plugins@),
        decreases n - i,
    {
        proof {
            assert(children@.take(i + 1).drop_last() == children@.take(i as int));
            assert(children@.take(i + 1).last() == children@[i as int]);
        }
        render_typst_node(&children[i], plugins, out);
        push_str(out, "#colbreak()\n");
        i += 1;
    }
    proof {
        assert(children@.take(n as int) == children@);
    }
}

pub fn render_columns_typst(node: &JsonValue, plugins: &PluginRegistry, out: &mut String)
    ensures
        final(out)@ == old(out)@ + columns_typst(*node, plugins@),
    decreases *node, 2nat,
{
    let count: usize = match arr_field(node, "children") {
        Some(ch) => ch.len(),
        None => 1,
    };
    push_str(out, "#columns(");
    push_decimal(out, if count < 1 { 1 } else { count as u64 });
    push_str(out, ")[\n");
    match arr_field(node, "children") {
        Some(ch) => {
            proof {
                lemma_arr_decreases(*node, "children"@);
            }
            render_cells_typst(ch, plugins, out);
        },
        None => {},
    }
    push_str(out, "]\n\n");
}

fn render_cells_md(children: &[JsonValue], plugins: &PluginRegistry, out: &mut String)
    ensures
        final(out)@ == old(out)@ + columns_cells_md(children@, plugins@),
    decreases children@, 0nat,
{
    let n = children.len();
    let mut i: usize = 0;
    while i < n
        invariant
            n == children@.len(),
            i <= n,
            out@ == old(out)@ + columns_cells_md(children@.take(i as int), plugins@),
        decreases n - i,
    {
        proof {
            assert(children@.take(i + 1).drop_last() == children@.take(i as int));
            assert(children@.take(i + 1).last() == children@[i as int]);
        }
        push_str(out, ":::col \n");
        render_markdown_node(&children[i], plugins, out);
        push_str(out, ":::\n");
        i += 1;
    }
    proof {
        assert(children@.take(n as int) == children@);
    }
}

pub fn render_columns_md(node: &JsonValue, plugins: &PluginRegistry, out: &mut String)
    ensures
        final(out)@ == old(out)@ + columns_md(*node, plugins@),
    decreases *node, 2nat,
{
    push_str(out, ":::columns \n");
    match arr_field(node, "children") {
        Some(ch) => {
            proof {
                lemma_arr_decreases(*node, "children"@);
            }
            render_cells_md(ch, plugins, out);
        },
        None => {},
    }
    push_str(out, ":::\n\n");
}

impl MarkplusPlugin for ColumnsPlugin {
    open spec fn spec_name(&self) -> Seq<char> {
        Plugin::Columns.spec_name()
    }

    open spec fn spec_type(&self) -> PluginType {
        Plugin::Columns.spec_type()
    }

    open spec fn spec_html(&self, node: JsonValue) -> Seq<char> {
        columns_html(node, Map::empty())
    }

    open spec fn spec_typst(&self, node: JsonValue) -> Seq<char> {
        columns_typst(node, Map::empty())
    }

    open spec fn spec_md(&self, node: JsonValue) -> Seq<char> {
        columns_md(node, Map::empty())
    }

    fn name(&self) -> (r: &'static str) {
        "columns"
    }

    fn plugin_type(&self) -> (r: PluginType) {
        PluginType::Directive
    }

    fn render_html(&self, node: &JsonValue, out: &mut String) {
        render_columns_html(node, &PluginRegistry::new(), out)
    }

    fn render_typst(&self, node: &JsonValue, out: &mut String) {
        render_columns_typst(node, &PluginRegistry::new(), out)
    }

    fn render_markdown(&self, node: &JsonValue, out: &mut String) {
        render_columns_md(node, &PluginRegistry::new(), out)
    }
}

} // verus!
