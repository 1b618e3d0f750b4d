//! Directives (`::name … ::`); a registered directive plugin takes over its
//! name.

use vstd::prelude::*;
use crate::blocks::{RenderBlock, html_blocks_kids, typst_blocks_kids, md_blocks_kids, render_html_blocks_kids, render_typst_blocks_kids, render_md_blocks_kids};
use crate::json::{JsonValue, str_or, str_field};
use crate::plugin::{PluginEntry, PluginRegistry, PluginType, get_plugin};
use crate::plugins::{plugin_html, plugin_typst, plugin_md, render_plugin_html, render_plugin_typst, render_plugin_md};
use crate::text::{upper_case, str_to_uppercase, push_str};

verus! {

/// Renders directive nodes.
pub struct DirectiveRenderer;

/// The directive's name, `unknown` when absent.
pub open spec fn directive_name(node: JsonValue) -> Seq<char> {
    str_or(node, "name"@, "unknown"@)
}

pub open spec fn directive_html(node: JsonValue, plugins: Map<(PluginType, Seq<char>), PluginEntry>) -> Seq<char>
    decreases node, 5nat,
{
    let name = directive_name(node);
    let key = (PluginType::Directive, name);
    if plugins.contains_key(key) {
        plugin_html(plugins[key], node, plugins)
    } else {
        "<div class=\"directive "@ + name + "\">\n"@ + "<div class=\"directive-header\">"@ + upper_case(name)
            + "</div>\n"@ + "<div class=\"directive-body\">\n"@ + html_blocks_kids(node, plugins)
            + "</div>\n</div>\n"@
    }
}

pub open spec fn directive_typst(node: JsonValue, plugins: Map<(PluginType, Seq<char>), PluginEntry>) -> Seq<char>
    decreases node, 5nat,
{
    let name = directive_name(node);
    let key = (PluginType::Directive, name);
    if plugins.contains_key(key) {
        plugin_typst(plugins[key], node, plugins)
    } else {
        "#block(fill: luma(245), width: 100%, inset: 8pt, radius: 4pt)[\n"@ + "  *"@ + upper_case(name)
            + "*\n  #v(0.5em)\n"@ + typst_blocks_kids(node, plugins) + "]\n\n"@
    }
}

pub open spec fn directive_md(node: JsonValue, plugins: Map<(PluginType, Seq<char>), PluginEntry>) -> Seq<char>
    decreases node, 5nat,
{
    let name = directive_name(node);
    let key = (PluginType::Directive, name);
    if plugins.contains_key(key) {
        plugin_md(plugins[key], node, plugins)
    } else {
        ":::"@ + name + " \n"@ + md_blocks_kids(node, plugins) + ":::\n\n"@
    }
}

pub fn render_directive_html(node: &JsonValue, plugins: &PluginRegistry, out: &mut String)
    ensures
        final(out)@ == old(out)@ + directive_html(*node, plugins@),
    decreases *node, 5nat,
{
    let name = str_field(node, "name", "unknown");
    match get_plugin(plugins, PluginType::Directive, name) {
        Some(p) => render_plugin_html(p, node, plugins, out),
        None => {
            push_str(out, "<div class=\"directive ");
            push_str(out, name);
            push_str(out, "\">\n");
            push_str(out, "<div class=\"directive-header\">");
            push_str(out, str_to_uppercase(name).as_str());
            push_str(out, "</div>\n");
            push_str(out, "<div class=\"directive-body\">\n");
            render_html_blocks_kids(node, plugins, out);
            push_str(out, "</div>\n</div>\n");
        },
    }
}

pub fn render_directive_typst(node: &JsonValue, plugins: &PluginRegistry, out: &mut String)
    ensures
        final(out)@ == old(out)@ + directive_typst(*node, plugins@),
    decreases *node, 5nat,
{
    let name = str_field(node, "name", "unknown");
    match get_plugin(plugins, PluginType::Directive, name) {
        Some(p) => render_plugin_typst(p, node, plugins, out),
        None => {
            push_str(out, "#block(fill: luma(245), width: 100%, inset: 8pt, radius: 4pt)[\n");
            push_str(out, "  *");
            push_str(out, str_to_uppercase(name).as_str());
            push_str(out, "*\n  #v(0.5em)\n");
            render_typst_blocks_kids(node, plugins, out);
            push_str(out, "]\n\n");
        },
    }
}

pub fn render_directive_md(node: &JsonValue, plugins: &PluginRegistry, out: &mut String)
    ensures
        final(out)@ == old(out)@ + directive_md(*node, plugins@),
    decreases *node, 5nat,
{
    let name = str_field(node, "name", "unknown");
    match get_plugin(plugins, PluginType::Directive, name) {
        Some(p) => render_plugin_md(p, node, plugins, out),
        None => {
            push_str(out, ":::");
            push_str(out, name);
            push_str(out, " \n");
            render_md_blocks_kids(node, plugins, out);
            push_str(out, ":::\n\n");
        },
    }
}

impl RenderBlock for DirectiveRenderer {
    fn render_html(node: &JsonValue, plugins: &PluginRegistry, out: &mut String)
        ensures
            final(out)@ == old(out)@ + directive_html(*node, plugins@),
    {
        render_directive_html(node, plugins, out)
    }

    fn render_typst(node: &JsonValue, plugins: &PluginRegistry, out: &mut String)
        ensures
            final(out)@ == old(out)@ + directive_typst(*node, plugins@),
    {
        render_directive_typst(node, plugins, out)
    }

    fn render_markdown(node: &JsonValue, plugins: &PluginRegistry, out: &mut String)
        ensures
            final(out)@ == old(out)@ + directive_md(*node, plugins@),
    {
        render_directive_md(node, plugins, out)
    }
}

} // verus!
