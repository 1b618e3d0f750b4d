//! The `tooltip` widget: inline text with a hover tip.

use vstd::prelude::*;
use crate::json::{JsonValue, get, as_str, str_or, str_field, get_field};
use crate::plugin::{Plugin, PluginType};
use crate::plugins::MarkplusPlugin;
use crate::text::push_str;

verus! {

/// Renders `tooltip` widgets.
pub struct TooltipPlugin;

/// The tip: the `data` field when present, else the `tooltip` field, as a
/// string (empty when that field is not a string).
pub open spec fn tooltip_tip(node: JsonValue) -> Seq<char> {
    let f = if get(node, "data"@) is Some { get(node, "data"@) } else { get(node, "tooltip"@) };
    match as_str(f) {
        Some(s) => s,
        None => ""@,
    }
}

pub open spec fn tooltip_html(node: JsonValue) -> Seq<char> {
    "<span class=\"widget tooltip\" title=\""@ + tooltip_tip(node) + "\">"@ + str_or(node, "text"@, ""@)
        + "</span>"@
}

pub open spec fn tooltip_typst(node: JsonValue) -> Seq<char> {
    "#box(fill: luma(240), inset: 2pt, radius: 2pt)["@ + str_or(node, "text"@, ""@) + "]"@
}

pub open spec fn tooltip_md(node: JsonValue) -> Seq<char> {
    "["@ + str_or(node, "text"@, ""@) + "](# \""@ + tooltip_tip(node) + "\")"@
}

fn tip_of(node: &JsonValue) -> (r: &str)
    ensures
        r@ == tooltip_tip(*node),
{
    let f = match get_field(node, "data") {
        Some(d) => Some(d),
        None => get_field(node, "tooltip"),
    };
    match f {
        Some(JsonValue::Str(s)) => s.as_str(),
        _ => "",
    }
}

pub fn render_tooltip_html(node: &JsonValue, out: &mut String)
    ensures
        final(out)@ == old(out)@ + tooltip_html(*node),
{
    let text = str_field(node, "text", "");
    let tip = tip_of(node);
    push_str(out, "<span class=\"widget tooltip\" title=\"");
    push_str(out, tip);
    push_str(out, "\">");
    push_str(out, text);
    push_str(out, "</span>");
}

pub fn render_tooltip_typst(node: &JsonValue, out: &mut String)
    ensures
        final(out)@ == old(out)@ + tooltip_typst(*node),
{
    let text = str_field(node, "text", "");
    push_str(out, "#box(fill: luma(240), inset: 2pt, radius: 2pt)[");
    push_str(out, text);
    push_str(out, "]");
}

pub fn render_tooltip_md(node: &JsonValue, out: &mut String)
    ensures
        final(out)@ == old(out)@ + tooltip_md(*node),
{
    let text = str_field(node, "text", "");
    let tip = tip_of(node);
    push_str(out, "[");
    push_str(out, text);
    push_str(out, "](# \"");
    push_str(out, tip);
    push_str(out, "\")");
}

impl MarkplusPlugin for TooltipPlugin {
    open spec fn spec_name(&self) -> Seq<char> {
        Plugin::Tooltip.spec_name()
    }

    open spec fn spec_type(&self) -> PluginType {
        Plugin::Tooltip.spec_type()
    }

    open spec fn spec_html(&self, node: JsonValue) -> Seq<char> {
        tooltip_html(node)
    }

    open spec fn spec_typst(&self, node: JsonValue) -> Seq<char> {
        tooltip_typst(node)
    }

    open spec fn spec_md(&self, node: JsonValue) -> Seq<char> {
        tooltip_md(node)
    }

    fn name(&self) -> (r: &'static str) {
        "tooltip"
    }

    fn plugin_type(&self) -> (r: PluginType) {
        PluginType::Widget
    }

    fn render_html(&self, node: &JsonValue, out: &mut String) {
        render_tooltip_html(node, out)
    }

    fn render_typst(&self, node: &JsonValue, out: &mut String) {
        render_tooltip_typst(node, out)
    }

    fn render_markdown(&self, node: &JsonValue, out: &mut String) {
        render_tooltip_md(node, out)
    }
}

} // verus!
