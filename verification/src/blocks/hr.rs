//! Horizontal rules.

use vstd::prelude::*;
use crate::blocks::RenderBlock;
use crate::json::JsonValue;
use crate::plugin::PluginRegistry;
use crate::text::push_str;

verus! {

/// Renders horizontal rules.
pub struct HrRenderer;

pub open spec fn hr_html() -> Seq<char> {
    "<hr>\n"@
}

pub open spec fn hr_typst() -> Seq<char> {
    "#line(length: 100%, stroke: 0.3pt)\n\n"@
}

pub open spec fn hr_md() -> Seq<char> {
    "---\n\n"@
}

impl RenderBlock for HrRenderer {
    fn render_html(node: &JsonValue, plugins: &PluginRegistry, out: &mut String)
        ensures
            final(out)@ == old(out)@ + hr_html(),
    {
        push_str(out, "<hr>\n");
    }

    fn render_typst(node: &JsonValue, plugins: &PluginRegistry, out: &mut String)
        ensures
            final(out)@ == old(out)@ + hr_typst(),
    {
        push_str(out, "#line(length: 100%, stroke: 0.3pt)\n\n");
    }

    fn render_markdown(node: &JsonValue, plugins: &PluginRegistry, out: &mut String)
        ensures
            final(out)@ == old(out)@ + hr_md(),
    {
        push_str(out, "---\n\n");
    }
}

} // verus!
