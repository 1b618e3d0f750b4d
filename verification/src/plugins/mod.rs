//! Rendering by the plugins this crate provides, and the plugin trait.

pub mod columns;
pub mod mermaid;
pub mod tabs;
pub mod tooltip;

use vstd::prelude::*;
use crate::json::JsonValue;
use crate::plugin::{Plugin, PluginEntry, PluginRegistry, PluginType};
use self::columns::{columns_html, columns_typst, columns_md, render_columns_html, render_columns_typst, render_columns_md};
use self::mermaid::{mermaid_html, mermaid_typst, mermaid_md, render_mermaid_html, render_mermaid_typst, render_mermaid_md};
use self::tabs::{tabs_html, tabs_typst, tabs_md, render_tabs_html, render_tabs_typst, render_tabs_md};
use self::tooltip::{tooltip_html, tooltip_typst, tooltip_md, render_tooltip_html, render_tooltip_typst, render_tooltip_md};

verus! {

/// A plugin that takes over the rendering of the fenced blocks, directives
/// or widgets with its name, once registered as `PluginEntry::Custom`.
/// Its render methods get the node alone, not the registry: the shipped
/// plugins registered this way render nested blocks with no plugins (as
/// `PluginEntry::Builtin` they use the registry they are found in). Its spec
/// functions say what its methods give, and each implementation is to define
/// them so that its methods meet their contracts; the defaults fit only a
/// plugin with an empty name that writes nothing.
pub trait MarkplusPlugin {
    /// The name this plugin triggers on.
    open spec fn spec_name(&self) -> Seq<char> {
        Seq::empty()
    }

    /// The kind of node this plugin intercepts.
    open spec fn spec_type(&self) -> PluginType {
        PluginType::Fenced
    }

    /// The HTML this plugin writes for a node.
    open spec fn spec_html(&self, node: JsonValue) -> Seq<char> {
        Seq::empty()
    }

    /// The Typst this plugin writes for a node.
    open spec fn spec_typst(&self, node: JsonValue) -> Seq<char> {
        Seq::empty()
    }

    /// The Markdown this plugin writes for a node.
    open spec fn spec_md(&self, node: JsonValue) -> Seq<char> {
        Seq::empty()
    }

    /// The name this plugin triggers on.
    fn name(&self) -> (r: &'static str)
        ensures
            r@ == self.spec_name(),
    ;

    /// The kind of node this plugin intercepts.
    fn plugin_type(&self) -> (r: PluginType)
        ensures
            r == self.spec_type(),
    ;

    /// Renders a node to HTML.
    fn render_html(&self, node: &JsonValue, out: &mut String)
        ensures
            final(out)@ == old(out)@ + self.spec_html(*node),
    ;

    /// Renders a node to Typst.
    fn render_typst(&self, node: &JsonValue, out: &mut String)
        ensures
            final(out)@ == old(out)@ + self.spec_typst(*node),
    ;

    /// Renders a node to Markdown.
    fn render_markdown(&self, node: &JsonValue, out: &mut String)
        ensures
            final(out)@ == old(out)@ + self.spec_md(*node),
    ;
}

/// The HTML that shipped plugin `p` writes for `node`.
pub open spec fn builtin_html(p: Plugin, node: JsonValue, plugins: Map<(PluginType, Seq<char>), PluginEntry>) -> Seq<char>
    decreases node, 3nat,
{
    match p {
        Plugin::Columns => columns_html(node, plugins),
        Plugin::Mermaid => mermaid_html(node),
        Plugin::Tabs => tabs_html(node, plugins),
        Plugin::Tooltip => tooltip_html(node),
    }
}

/// The Typst that shipped plugin `p` writes for `node`.
pub open spec fn builtin_typst(p: Plugin, node: JsonValue, plugins: Map<(PluginType, Seq<char>), PluginEntry>) -> Seq<char>
    decreases node, 3nat,
{
    match p {
        Plugin::Columns => columns_typst(node, plugins),
        Plugin::Mermaid => mermaid_typst(node),
        Plugin::Tabs => tabs_typst(node, plugins),
        Plugin::Tooltip => tooltip_typst(node),
    }
}

/// The Markdown that shipped plugin `p` writes for `node`.
pub open spec fn builtin_md(p: Plugin, node: JsonValue, plugins: Map<(PluginType, Seq<char>), PluginEntry>) -> Seq<char>
    decreases node, 3nat,
{
    match p {
        Plugin::Columns => columns_md(node, plugins),
        Plugin::Mermaid => mermaid_md(node),
        Plugin::Tabs => tabs_md(node, plugins),
        Plugin::Tooltip => tooltip_md(node),
    }
}

/// The HTML that a registered plugin writes for `node`.
pub open spec fn plugin_html(e: PluginEntry, node: JsonValue, plugins: Map<(PluginType, Seq<char>), PluginEntry>) -> Seq<char>
    decreases node, 4nat,
{
    match e {
        PluginEntry::Builtin(p) => builtin_html(p, node, plugins),
        PluginEntry::Custom(c) => c.spec_html(node),
    }
}

/// The Typst that a registered plugin writes for `node`.
pub open spec fn plugin_typst(e: PluginEntry, node: JsonValue, plugins: Map<(PluginType, Seq<char>), PluginEntry>) -> Seq<char>
    decreases node, 4nat,
{
    match e {
        PluginEntry::Builtin(p) => builtin_typst(p, node, plugins),
        PluginEntry::Custom(c) => c.spec_typst(node),
    }
}

/// The Markdown that a registered plugin writes for `node`.
pub open spec fn plugin_md(e: PluginEntry, node: JsonValue, plugins: Map<(PluginType, Seq<char>), PluginEntry>) -> Seq<char>
    decreases node, 4nat,
{
    match e {
        PluginEntry::Builtin(p) => builtin_md(p, node, plugins),
        PluginEntry::Custom(c) => c.spec_md(node),
    }
}

/// Renders `node` to HTML with shipped plugin `p`.
fn render_builtin_html(p: Plugin, node: &JsonValue, plugins: &PluginRegistry, out: &mut String)
    ensures
        final(out)@ == old(out)@ + builtin_html(p, *node, plugins@),
    decreases *node, 3nat,
{
    match p {
        Plugin::Columns => render_columns_html(node, plugins, out),
        Plugin::Mermaid => render_mermaid_html(node, out),
        Plugin::Tabs => render_tabs_html(node, plugins, out),
        Plugin::Tooltip => render_tooltip_html(node, out),
    }
}

/// Renders `node` to Typst with shipped plugin `p`.
fn render_builtin_typst(p: Plugin, node: &JsonValue, plugins: &PluginRegistry, out: &mut String)
    ensures
        final(out)@ == old(out)@ + builtin_typst(p, *node, plugins@),
    decreases *node, 3nat,
{
    match p {
        Plugin::Columns => render_columns_typst(node, plugins, out),
        Plugin::Mermaid => render_mermaid_typst(node, out),
        Plugin::Tabs => render_tabs_typst(node, plugins, out),
        Plugin::Tooltip => render_tooltip_typst(node, out),
    }
}

/// Renders `node` to Markdown with shipped plugin `p`.
fn render_builtin_md(p: Plugin, node: &JsonValue, plugins: &PluginRegistry, out: &mut String)
    ensures
        final(out)@ == old(out)@ + builtin_md(p, *node, plugins@),
    decreases *node, 3nat,
{
    match p {
        Plugin::Columns => render_columns_md(node, plugins, out),
        Plugin::Mermaid => render_mermaid_md(node, out),
        Plugin::Tabs => render_tabs_md(node, plugins, out),
        Plugin::Tooltip => render_tooltip_md(node, out),
    }
}

/// Renders `node` with a registered plugin.
pub fn render_plugin_html(e: &PluginEntry, node: &JsonValue, plugins: &PluginRegistry, out: &mut String)
    ensures
        final(out)@ == old(out)@ + plugin_html(*e, *node, plugins@),
    decreases *node, 4nat,
{
    match e {
        PluginEntry::Builtin(p) => render_builtin_html(*p, node, plugins, out),
        PluginEntry::Custom(c) => c.render_html(node, out),
    }
}

/// Renders `node` with a registered plugin.
pub fn render_plugin_typst(e: &PluginEntry, node: &JsonValue, plugins: &PluginRegistry, out: &mut String)
    ensures
        final(out)@ == old(out)@ + plugin_typst(*e, *node, plugins@),
    decreases *node, 4nat,
{
    match e {
        PluginEntry::Builtin(p) => render_builtin_typst(*p, node, plugins, out),
        PluginEntry::Custom(c) => c.render_typst(node, out),
    }
}

/// Renders `node` with a registered plugin.
pub fn render_plugin_md(e: &PluginEntry, node: &JsonValue, plugins: &PluginRegistry, out: &mut String)
    ensures
        final(out)@ == old(out)@ + plugin_md(*e, *node, plugins@),
    decreases *node, 4nat,
{
    match e {
        PluginEntry::Builtin(p) => render_builtin_md(*p, node, plugins, out),
        PluginEntry::Custom(c) => c.render_markdown(node, out),
    }
}

} // verus!
