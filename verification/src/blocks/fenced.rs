//! Fenced code blocks; a registered fenced plugin takes over its name.

use vstd::prelude::*;
use crate::blocks::RenderBlock;
use crate::json::{JsonValue, str_or, str_field};
use crate::plugin::{PluginEntry, PluginRegistry, PluginType, get_plugin};
use crate::plugins::{plugin_html, plugin_typst, plugin_md, render_plugin_html, render_plugin_typst, render_plugin_md};
use crate::text::{escape_text, encode_text, push_str};

verus! {

/// Renders fenced code blocks.
pub struct FencedRenderer;

/// The plain rendering of a fenced block in Typst and Markdown: the block
/// between backtick fences, the name as info string.
pub open spec fn fence(node: JsonValue) -> Seq<char> {
    "```"@ + str_or(node, "name"@, ""@) + "\n"@ + str_or(node, "raw"@, ""@) + "\n```\n\n"@
}

pub open spec fn fenced_html(node: JsonValue, plugins: Map<(PluginType, Seq<char>), PluginEntry>) -> Seq<char>
    decreases node, 5nat,
{
    let name = str_or(node, "name"@, ""@);
    let key = (PluginType::Fenced, name);
    if plugins.contains_key(key) {
        plugin_html(plugins[key], node, plugins)
    } else {
        "<pre><code class=\"language-"@ + escape_text(name) + "\">"@ + escape_text(str_or(node, "raw"@, ""@))
            + "</code></pre>\n"@
    }
}

pub open spec fn fenced_typst(node: JsonValue, plugins: Map<(PluginType, Seq<char>), PluginEntry>) -> Seq<char>
    decreases node, 5nat,
{
    let key = (PluginType::Fenced, str_or(node, "name"@, ""@));
    if plugins.contains_key(key) {
        plugin_typst(plugins[key], node, plugins)
    } else {
        fence(node)
    }
}

pub open spec fn fenced_md(node: JsonValue, plugins: Map<(PluginType, Seq<char>), PluginEntry>) -> Seq<char>
    decreases node, 5nat,
{
    let key = (PluginType::Fenced, str_or(node, "name"@, ""@));
    if plugins.contains_key(key) {
        plugin_md(plugins[key], node, plugins)
    } else {
        fence(node)
    }
}

fn push_fence(node: &JsonValue, out: &mut String)
    ensures
        final(out)@ == old(out)@ + fence(*node),
{
    push_str(out, "```");
    push_str(out, str_field(node, "name", ""));
    push_str(out, "\n");
    push_str(out, str_field(node, "raw", ""));
    push_str(out, "\n```\n\n");
}

pub fn render_fenced_html(node: &JsonValue, plugins: &PluginRegistry, out: &mut String)
    ensures
        final(out)@ == old(out)@ + fenced_html(*node, plugins@),
    decreases *node, 5nat,
{
    let name = str_field(node, "name", "");
    match get_plugin(plugins, PluginType::Fenced, name) {
        Some(p) => render_plugin_html(p, node, plugins, out),
        None => {
            let raw = str_field(node, "raw", "");
            push_str(out, "<pre><code class=\"language-");
            push_str(out, encode_text(name).as_str());
            push_str(out, "\">");
            push_str(out, encode_text(raw).as_str());
            push_str(out, "</code></pre>\n");
        },
    }
}

pub fn render_fenced_typst(node: &JsonValue, plugins: &PluginRegistry, out: &mut String)
    ensures
        final(out)@ == old(out)@ + fenced_typst(*node, plugins@),
    decreases *node, 5nat,
{
    let name = str_field(node, "name", "");
    match get_plugin(plugins, PluginType::Fenced, name) {
        Some(p) => render_plugin_typst(p, node, plugins, out),
        None => push_fence(node, out),
    }
}

pub fn render_fenced_md(node: &JsonValue, plugins: &PluginRegistry, out: &mut String)
    ensures
        final(out)@ == old(out)@ + fenced_md(*node, plugins@),
    decreases *node, 5nat,
{
    let name = str_field(node, "name", "");
    match get_plugin(plugins, PluginType::Fenced, name) {
        Some(p) => render_plugin_md(p, node, plugins, out),
        None => push_fence(node, out),
    }
}

impl RenderBlock for FencedRenderer {
    fn render_html(node: &JsonValue, plugins: &PluginRegistry, out: &mut String)
        ensures
            final(out)@ == old(out)@ + fenced_html(*node, plugins@),
    {
        render_fenced_html(node, plugins, out)
    }

    fn render_typst(node: &JsonValue, plugins: &PluginRegistry, out: &mut String)
        ensures
            final(out)@ == old(out)@ + fenced_typst(*node, plugins@),
    {
        render_fenced_typst(node, plugins, out)
    }

    fn render_markdown(node: &JsonValue, plugins: &PluginRegistry, out: &mut String)
        ensures
            final(out)@ == old(out)@ + fenced_md(*node, plugins@),
    {
        render_fenced_md(node, plugins, out)
    }
}

} // verus!
