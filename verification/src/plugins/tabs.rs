//! The `tabs` directive.

use vstd::prelude::*;
use crate::blocks::{
    html_blocks_kids, typst_blocks_kids, md_blocks_kids, render_html_blocks_kids,
    render_typst_blocks_kids, render_md_blocks_kids,
};
use crate::json::JsonValue;
use crate::plugin::{Plugin, PluginEntry, PluginRegistry, PluginType};
use crate::plugins::MarkplusPlugin;
use crate::text::push_str;

verus! {

/// Renders a `tabs` directive as a tab group.
pub struct TabsPlugin;

pub open spec fn tabs_html(node: JsonValue, plugins: Map<(PluginType, Seq<char>), PluginEntry>) -> Seq<char>
    decreases node, 2nat,
{
    "<div class=\"directive tabs\">\n"@ + html_blocks_kids(node, plugins) + "</div>\n"@
}

pub open spec fn tabs_typst(node: JsonValue, plugins: Map<(PluginType, Seq<char>), PluginEntry>) -> Seq<char>
    decreases node, 2nat,
{
    "#block(fill: luma(250), width: 100%, inset: 8pt)[\n"@ + "  *Tabs*\n"@ + typst_blocks_kids(node, plugins)
        + "]\n\n"@
}

pub open spec fn tabs_md(node: JsonValue, plugins: Map<(PluginType, Seq<char>), PluginEntry>) -> Seq<char>
    decreases node, 2nat,
{
    ":::tabs \n"@ + md_blocks_kids(node, plugins) + ":::\n\n"@
}

pub fn render_tabs_html(node: &JsonValue, plugins: &PluginRegistry, out: &mut String)
    ensures
        final(out)@ == old(out)@ + tabs_html(*node, plugins@),
    decreases *node, 2nat,
{
    push_str(out, "<div class=\"directive tabs\">\n");
    render_html_blocks_kids(node, plugins, out);
    push_str(out, "</div>\n");
}

pub fn render_tabs_typst(node: &JsonValue, plugins: &PluginRegistry, out: &mut String)
    ensures
        final(out)@ == old(out)@ + tabs_typst(*node, plugins@),
    decreases *node, 2nat,
{
    push_str(out, "#block(fill: luma(250), width: 100%, inset: 8pt)[\n");
    push_str(out, "  *Tabs*\n");
    render_typst_blocks_kids(node, plugins, out);
    push_str(out, "]\n\n");
}

pub fn render_tabs_md(node: &JsonValue, plugins: &PluginRegistry, out: &mut String)
    ensures
        final(out)@ == old(out)@ + tabs_md(*node, plugins@),
    decreases *node, 2nat,
{
    push_str(out, ":::tabs \n");
    render_md_blocks_kids(node, plugins, out);
    push_str(out, ":::\n\n");
}

impl MarkplusPlugin for TabsPlugin {
    open spec fn spec_name(&self) -> Seq<char> {
        Plugin::Tabs.spec_name()
    }

    open spec fn spec_type(&self) -> PluginType {
        Plugin::Tabs.spec_type()
    }

    open spec fn spec_html(&self, node: JsonValue) -> Seq<char> {
        tabs_html(node, Map::empty())
    }

    open spec fn spec_typst(&self, node: JsonValue) -> Seq<char> {
        tabs_typst(node, Map::empty())
    }

    open spec fn spec_md(&self, node: JsonValue) -> Seq<char> {
        tabs_md(node, Map::empty())
    }

    fn name(&self) -> (r: &'static str) {
        "tabs"
    }

    fn plugin_type(&self) -> (r: PluginType) {
        PluginType::Directive
    }

    fn render_html(&self, node: &JsonValue, out: &mut String) {
        render_tabs_html(node, &PluginRegistry::new(), out)
    }

    fn render_typst(&self, node: &JsonValue, out: &mut String) {
        render_tabs_typst(node, &PluginRegistry::new(), out)
    }

    fn render_markdown(&self, node: &JsonValue, out: &mut String) {
        render_tabs_md(node, &PluginRegistry::new(), out)
    }
}

} // verus!
