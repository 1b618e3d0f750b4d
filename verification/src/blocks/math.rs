//! Display math blocks.

use vstd::prelude::*;
use crate::blocks::RenderBlock;
use crate::json::{JsonValue, str_or, str_field};
use crate::plugin::PluginRegistry;
use crate::text::{escape_text, encode_text, push_str};

verus! {

/// Renders display math blocks.
pub struct MathBlockRenderer;

/// The escaped source, once as a data attribute and once between `$$`.
pub open spec fn math_html(node: JsonValue) -> Seq<char> {
    let e = escape_text(str_or(node, "src"@, ""@));
    "<p class=\"math-block\" data-math=\""@ + e + "\">$$"@ + e + "$$</p>\n"@
}

pub open spec fn math_typst(node: JsonValue) -> Seq<char> {
    "$ "@ + str_or(node, "src"@, ""@) + " $\n\n"@
}

pub open spec fn math_md(node: JsonValue) -> Seq<char> {
    "$$\n"@ + str_or(node, "src"@, ""@) + "\n$$\n\n"@
}

pub fn render_math_html(node: &JsonValue, out: &mut String)
    ensures
        final(out)@ == old(out)@ + math_html(*node),
{
    let e = encode_text(str_field(node, "src", ""));
    push_str(out, "<p class=\"math-block\" data-math=\"");
    push_str(out, e.as_str());
    push_str(out, "\">$$");
    push_str(out, e.as_str());
    push_str(out, "$$</p>\n");
}

pub fn render_math_typst(node: &JsonValue, out: &mut String)
    ensures
        final(out)@ == old(out)@ + math_typst(*node),
{
    push_str(out, "$ ");
    push_str(out, str_field(node, "src", ""));
    push_str(out, " $\n\n");
}

pub fn render_math_md(node: &JsonValue, out: &mut String)
    ensures
        final(out)@ == old(out)@ + math_md(*node),
{
    push_str(out, "$$\n");
    push_str(out, str_field(node, "src", ""));
    push_str(out, "\n$$\n\n");
}

impl RenderBlock for MathBlockRenderer {
    fn render_html(node: &JsonValue, plugins: &PluginRegistry, out: &mut String)
        ensures
            final(out)@ == old(out)@ + math_html(*node),
    {
        render_math_html(node, out)
    }

    fn render_typst(node: &JsonValue, plugins: &PluginRegistry, out: &mut String)
        ensures
            final(out)@ == old(out)@ + math_typst(*node),
    {
        render_math_typst(node, out)
    }

    fn render_markdown(node: &JsonValue, plugins: &PluginRegistry, out: &mut String)
        ensures
            final(out)@ == old(out)@ + math_md(*node),
    {
        render_math_md(node, out)
    }
}

} // verus!
