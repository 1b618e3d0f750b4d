//! Inline nodes (text, emphasis, links, math, ...) rendered to HTML, Typst
//! and Markdown, plus plain-text collection and slugs.

use vstd::prelude::*;
use crate::json::{JsonValue, get, as_array, as_str, str_or, lemma_arr_decreases, arr_field, str_field, opt_str_field};
use crate::plugin::{PluginEntry, PluginRegistry, PluginType, get_plugin};
use crate::plugins::{plugin_typst, plugin_md, render_plugin_typst, render_plugin_md};
use crate::text::{escape_text, encode_text, push_str, push_char, str_eq, slugify, slug_char, squeeze_dashes, char_is_ascii_alnum, to_ascii_lowercase};

verus! {

/// The HTML of an inline node's `children` array (nothing when absent).
pub open spec fn html_inline_kids(child: JsonValue) -> Seq<char>
    decreases child, 1nat,
{
    proof {
        lemma_arr_decreases(child, "children"@);
    }
    match as_array(get(child, "children"@)) {
        Some(ch) => html_inline(ch),
        None => Seq::empty(),
    }
}

/// The HTML of a sequence of inline nodes.
pub open spec fn html_inline(children: Seq<JsonValue>) -> Seq<char>
    decreases children, 0nat,
{
    if children.len() == 0 {
        Seq::empty()
    } else {
        html_inline(children.drop_last()) + html_inline_node(children.last())
    }
}

/// The HTML of one inline node, chosen by its `t` field; text is escaped.
pub open spec fn html_inline_node(child: JsonValue) -> Seq<char>
    decreases child, 2nat,
{
    let t = str_or(child, "t"@, ""@);
    let text = str_or(child, "text"@, ""@);
    if t == "text"@ {
        escape_text(text)
    } else if t == "strong"@ {
        "<strong>"@ + html_inline_kids(child) + "</strong>"@
    } else if t == "em"@ {
        "<em>"@ + html_inline_kids(child) + "</em>"@
    } else if t == "code"@ {
        "<code>"@ + escape_text(text) + "</code>"@
    } else if t == "link"@ {
        "<a href=\""@ + escape_text(str_or(child, "href"@, ""@)) + "\">"@ + html_inline_kids(child)
            + "</a>"@
    } else if t == "image"@ {
        "<img src=\""@ + escape_text(str_or(child, "src"@, ""@)) + "\" alt=\""@ + escape_text(
            str_or(child, "alt"@, ""@),
        ) + "\">"@
    } else if t == "math_inline"@ {
        let src = escape_text(str_or(child, "src"@, ""@));
        "<span class=\"math-inline\" data-math=\""@ + src + "\">$"@ + src + "$</span>"@
    } else if t == "hard_break"@ {
        "<br>"@
    } else if t == "del"@ {
        "<del>"@ + html_inline_kids(child) + "</del>"@
    } else if t == "sup"@ {
        "<sup>"@ + html_inline_kids(child) + "</sup>"@
    } else if t == "sub"@ {
        "<sub>"@ + html_inline_kids(child) + "</sub>"@
    } else if t == "footnote_ref"@ {
        let label = str_or(child, "label"@, ""@);
        "<sup><a href=\"#fn-"@ + label + "\" id=\"fnref-"@ + label + "\">["@ + label + "]</a></sup>"@
    } else if t == "widget"@ {
        "<span class=\"widget "@ + escape_text(str_or(child, "name"@, ""@)) + "\">"@ + escape_text(text)
            + "</span>"@
    } else {
        escape_text(text)
    }
}

fn push_escaped(out: &mut String, s: &str)
    ensures
        final(out)@ == old(out)@ + escape_text(s@),
{
    let e = encode_text(s);
    push_str(out, e.as_str());
}

pub fn render_html_inline_kids(child: &JsonValue, out: &mut String)
    ensures
        final(out)@ == old(out)@ + html_inline_kids(*child),
    decreases *child, 1nat,
{
    match arr_field(child, "children") {
        Some(ch) => {
            proof {
                lemma_arr_decreases(*child, "children"@);
            }
            render_html_inline(ch, out);
        },
        None => {},
    }
}

/// Renders a sequence of inline nodes as HTML.
pub fn render_html_inline(children: &[JsonValue], out: &mut String)
    ensures
        final(out)@ == old(out)@ + html_inline(children@),
    decreases children@, 0nat,
{
    let n = children.len();
    let mut i: usize = 0;
    while i < n
        invariant
            n == children@.len(),
            i <= n,
            out@ == old(out)@ + html_inline(children@.take(i as int)),
        decreases n - i,
    {
        proof {
            assert(children@.take(i + 1).drop_last() == children@.take(i as int));
            assert(children@.take(i + 1).last() == children@[i as int]);
        }
        render_html_inline_node(&children[i], out);
        i += 1;
    }
    proof {
        assert(children@.take(n as int) == children@);
    }
}

pub fn render_html_inline_node(child: &JsonValue, out: &mut String)
    ensures
        final(out)@ == old(out)@ + html_inline_node(*child),
    decreases *child, 2nat,
{
    let t = str_field(child, "t", "");
    let text = str_field(child, "text", "");
    if str_eq(t, "text") {
        push_escaped(out, text);
    } else if str_eq(t, "strong") {
        push_str(out, "<strong>");
        render_html_inline_kids(child, out);
        push_str(out, "</strong>");
    } else if str_eq(t, "em") {
        push_str(out, "<em>");
        render_html_inline_kids(child, out);
        push_str(out, "</em>");
    } else if str_eq(t, "code") {
        push_str(out, "<code>");
        push_escaped(out, text);
        push_str(out, "</code>");
    } else if str_eq(t, "link") {
        push_str(out, "<a href=\"");
        push_escaped(out, str_field(child, "href", ""));
        push_str(out, "\">");
        render_html_inline_kids(child, out);
        push_str(out, "</a>");
    } else if str_eq(t, "image") {
        push_str(out, "<img src=\"");
        push_escaped(out, str_field(child, "src", ""));
        push_str(out, "\" alt=\"");
        push_escaped(out, str_field(child, "alt", ""));
        push_str(out, "\">");
    } else if str_eq(t, "math_inline") {
        let src = encode_text(str_field(child, "src", ""));
        push_str(out, "<span class=\"math-inline\" data-math=\"");
        push_str(out, src.as_str());
        push_str(out, "\">$");
        push_str(out, src.as_str());
        push_str(out, "$</span>");
    } else if str_eq(t, "hard_break") {
        push_str(out, "<br>");
    } else if str_eq(t, "del") {
        push_str(out, "<del>");
        render_html_inline_kids(child, out);
        push_str(out, "</del>");
    } else if str_eq(t, "sup") {
        push_str(out, "<sup>");
        render_html_inline_kids(child, out);
        push_str(out, "</sup>");
    } else if str_eq(t, "sub") {
        push_str(out, "<sub>");
        render_html_inline_kids(child, out);
        push_str(out, "</sub>");
    } else if str_eq(t, "footnote_ref") {
        let label = str_field(child, "label", "");
        push_str(out, "<sup><a href=\"#fn-");
        push_str(out, label);
        push_str(out, "\" id=\"fnref-");
        push_str(out, label);
        push_str(out, "\">[");
        push_str(out, label);
        push_str(out, "]</a></sup>");
    } else if str_eq(t, "widget") {
        push_str(out, "<span class=\"widget ");
        push_escaped(out, str_field(child, "name", ""));
        push_str(out, "\">");
        push_escaped(out, text);
        push_str(out, "</span>");
    } else {
        push_escaped(out, text);
    }
}

/// Converts a string to a URL-safe lowercase slug (see `slugify`).
pub fn slugify_text(s: &str) -> (r: String)
    ensures
        r@ == slugify(s@),
{
    let mut out = String::new();
    let ghost full = s@;
    let ghost mapped = full.map_values(|c: char| slug_char(c));
    let mut prev_dash = false;
    for c in it: s.chars()
        invariant
            it.seq() == full,
            mapped == full.map_values(|c: char| slug_char(c)),
            it.index() <= full.len(),
            out@ == squeeze_dashes(mapped.take(it.index() as int)),
            prev_dash == (it.index() > 0 && mapped[it.index() - 1] == '-'),
    {
        let ghost i = it.index() as int;
        proof {
            assert(mapped.take(i + 1).drop_last() == mapped.take(i));
            assert(mapped.take(i + 1).last() == mapped[i]);
            assert(mapped[i] == slug_char(c));
            if i >= 1 {
                assert(mapped.take(i + 1)[i - 1] == mapped[i - 1]);
            }
        }
        if char_is_ascii_alnum(c) {
            let l = to_ascii_lowercase(c);
            if prev_dash && out.unicode_len() > 0 {
                push_char(&mut out, '-');
            }
            push_char(&mut out, l);
            prev_dash = false;
        } else {
            prev_dash = true;
        }
    }
    proof {
        assert(mapped.take(full.len() as int) == mapped);
    }
    out
}


/// The plain text of a sequence of inline nodes: each node's `text`, or
/// else the text of its `children`.
pub open spec fn collect_text_spec(children: Seq<JsonValue>) -> Seq<char>
    decreases children, 0nat,
{
    if children.len() == 0 {
        Seq::empty()
    } else {
        collect_text_spec(children.drop_last()) + collect_text_node(children.last())
    }
}

pub open spec fn collect_text_node(child: JsonValue) -> Seq<char>
    decreases child, 1nat,
{
    proof {
        lemma_arr_decreases(child, "children"@);
    }
    match as_str(get(child, "text"@)) {
        Some(t) => t,
        None => match as_array(get(child, "children"@)) {
            Some(ch) => collect_text_spec(ch),
            None => Seq::empty(),
        },
    }
}

/// Collects the plain text of inline nodes (recursively).
pub fn collect_text(children: &[JsonValue]) -> (r: String)
    ensures
        r@ == collect_text_spec(children@),
    decreases children@, 0nat,
{
    let mut out = String::new();
    let n = children.len();
    let mut i: usize = 0;
    while i < n
        invariant
            n == children@.len(),
            i <= n,
            out@ == collect_text_spec(children@.take(i as int)),
        decreases n - i,
    {
        proof {
            assert(children@.take(i + 1).drop_last() == children@.take(i as int));
            assert(children@.take(i + 1).last() == children@[i as int]);
        }
        let t = collect_text_one(&children[i]);
        push_str(&mut out, t.as_str());
        i += 1;
    }
    proof {
        assert(children@.take(n as int) == children@);
    }
    out
}

fn collect_text_one(child: &JsonValue) -> (r: String)
    ensures
        r@ == collect_text_node(*child),
    decreases *child, 1nat,
{
    match opt_str_field(child, "text") {
        Some(t) => {
            let mut s = String::new();
            push_str(&mut s, t);
            s
        },
        None => match arr_field(child, "children") {
            Some(ch) => {
                proof {
                    lemma_arr_decreases(*child, "children"@);
                }
                collect_text(ch)
            },
            None => String::new(),
        },
    }
}

// ---------------------------------------------------------------------------
// Typst
// ---------------------------------------------------------------------------

/// The Typst of an inline node's `children` array (nothing when absent).
pub open spec fn typst_inline_kids(child: JsonValue, plugins: Map<(PluginType, Seq<char>), PluginEntry>) -> Seq<char>
    decreases child, 1nat,
{
    proof {
        lemma_arr_decreases(child, "children"@);
    }
    match as_array(get(child, "children"@)) {
        Some(ch) => typst_inline(ch, plugins),
        None => Seq::empty(),
    }
}

/// The Typst of a sequence of inline nodes.
pub open spec fn typst_inline(children: Seq<JsonValue>, plugins: Map<(PluginType, Seq<char>), PluginEntry>) -> Seq<char>
    decreases children, 0nat,
{
    if children.len() == 0 {
        Seq::empty()
    } else {
        typst_inline(children.drop_last(), plugins) + typst_inline_node(children.last(), plugins)
    }
}

/// The Typst of one inline node; a widget with a registered plugin is
/// rendered by that plugin.
pub open spec fn typst_inline_node(child: JsonValue, plugins: Map<(PluginType, Seq<char>), PluginEntry>) -> Seq<char>
    decreases child, 5nat,
{
    let t = str_or(child, "t"@, ""@);
    let text = str_or(child, "text"@, ""@);
    if t == "text"@ {
        text
    } else if t == "strong"@ {
        "*"@ + typst_inline_kids(child, plugins) + "*"@
    } else if t == "em"@ {
        "_"@ + typst_inline_kids(child, plugins) + "_"@
    } else if t == "code"@ {
        "`"@ + text + "`"@
    } else if t == "link"@ {
        "#link(\""@ + str_or(child, "href"@, ""@) + "\")["@ + typst_inline_kids(child, plugins) + "]"@
    } else if t == "image"@ {
        "#image(\""@ + str_or(child, "src"@, ""@) + "\")"@
    } else if t == "math_inline"@ {
        "$"@ + str_or(child, "src"@, ""@) + "$"@
    } else if t == "hard_break"@ {
        "\\ \n"@
    } else if t == "del"@ {
        "#strike["@ + typst_inline_kids(child, plugins) + "]"@
    } else if t == "sup"@ {
        "#super["@ + typst_inline_kids(child, plugins) + "]"@
    } else if t == "sub"@ {
        "#sub["@ + typst_inline_kids(child, plugins) + "]"@
    } else if t == "footnote_ref"@ {
        "#footnote(<fn-"@ + str_or(child, "label"@, ""@) + ">)"@
    } else if t == "widget"@ {
        let key = (PluginType::Widget, str_or(child, "name"@, ""@));
        if plugins.contains_key(key) {
            plugin_typst(plugins[key], child, plugins)
        } else {
            "#box(fill: luma(240), inset: 2pt, radius: 2pt)["@ + text + "]"@
        }
    } else {
        text
    }
}

pub fn render_typst_inline_kids(child: &JsonValue, plugins: &PluginRegistry, out: &mut String)
    ensures
        final(out)@ == old(out)@ + typst_inline_kids(*child, plugins@),
    decreases *child, 1nat,
{
    match arr_field(child, "children") {
        Some(ch) => {
            proof {
                lemma_arr_decreases(*child, "children"@);
            }
            render_typst_inline(ch, plugins, out);
        },
        None => {},
    }
}

/// Renders a sequence of inline nodes as Typst.
pub fn render_typst_inline(children: &[JsonValue], plugins: &PluginRegistry, out: &mut String)
    ensures
        final(out)@ == old(out)@ + typst_inline(children@, plugins@),
    decreases children@, 0nat,
{
    let n = children.len();
    let mut i: usize = 0;
    while i < n
        invariant
            n == children@.len(),
            i <= n,
            out@ == old(out)@ + typst_inline(children@.take(i as int), plugins@),
        decreases n - i,
    {
        proof {
            assert(children@.take(i + 1).drop_last() == children@.take(i as int));
            assert(children@.take(i + 1).last() == children@[i as int]);
        }
        render_typst_inline_node(&children[i], plugins, out);
        i += 1;
    }
    proof {
        assert(children@.take(n as int) == children@);
    }
}

/// Renders one inline node as Typst.
pub fn render_typst_inline_node(child: &JsonValue, plugins: &PluginRegistry, out: &mut String)
    ensures
        final(out)@ == old(out)@ + typst_inline_node(*child, plugins@),
    decreases *child, 5nat,
{
    let t = str_field(child, "t", "");
    let text = str_field(child, "text", "");
    if str_eq(t, "text") {
        push_str(out, text);
    } else if str_eq(t, "strong") {
        push_str(out, "*");
        render_typst_inline_kids(child, plugins, out);
        push_str(out, "*");
    } else if str_eq(t, "em") {
        push_str(out, "_");
        render_typst_inline_kids(child, plugins, out);
        push_str(out, "_");
    } else if str_eq(t, "code") {
        push_str(out, "`");
        push_str(out, text);
        push_str(out, "`");
    } else if str_eq(t, "link") {
        push_str(out, "#link(\"");
        push_str(out, str_field(child, "href", ""));
        push_str(out, "\")[");
        render_typst_inline_kids(child, plugins, out);
        push_str(out, "]");
    } else if str_eq(t, "image") {
        push_str(out, "#image(\"");
        push_str(out, str_field(child, "src", ""));
        push_str(out, "\")");
    } else if str_eq(t, "math_inline") {
        push_str(out, "$");
        push_str(out, str_field(child, "src", ""));
        push_str(out, "$");
    } else if str_eq(t, "hard_break") {
        push_str(out, "\\ \n");
    } else if str_eq(t, "del") {
        push_str(out, "#strike[");
        render_typst_inline_kids(child, plugins, out);
        push_str(out, "]");
    } else if str_eq(t, "sup") {
        push_str(out, "#super[");
        render_typst_inline_kids(child, plugins, out);
        push_str(out, "]");
    } else if str_eq(t, "sub") {
        push_str(out, "#sub[");
        render_typst_inline_kids(child, plugins, out);
        push_str(out, "]");
    } else if str_eq(t, "footnote_ref") {
        push_str(out, "#footnote(<fn-");
        push_str(out, str_field(child, "label", ""));
        push_str(out, ">)");
    } else if str_eq(t, "widget") {
        let name = str_field(child, "name", "");
        match get_plugin(plugins, PluginType::Widget, name) {
            Some(p) => render_plugin_typst(p, child, plugins, out),
            None => {
                push_str(out, "#box(fill: luma(240), inset: 2pt, radius: 2pt)[");
                push_str(out, text);
                push_str(out, "]");
            },
        }
    } else {
        push_str(out, text);
    }
}

// ---------------------------------------------------------------------------
// Markdown
// ---------------------------------------------------------------------------

/// The Markdown of an inline node's `children` array (nothing when absent).
pub open spec fn md_inline_kids(child: JsonValue, plugins: Map<(PluginType, Seq<char>), PluginEntry>) -> Seq<char>
    decreases child, 1nat,
{
    proof {
        lemma_arr_decreases(child, "children"@);
    }
    match as_array(get(child, "children"@)) {
        Some(ch) => md_inline(ch, plugins),
        None => Seq::empty(),
    }
}

/// The Markdown of a sequence of inline nodes.
pub open spec fn md_inline(children: Seq<JsonValue>, plugins: Map<(PluginType, Seq<char>), PluginEntry>) -> Seq<char>
    decreases children, 0nat,
{
    if children.len() == 0 {
        Seq::empty()
    } else {
        md_inline(children.drop_last(), plugins) + md_inline_node(children.last(), plugins)
    }
}

/// The Markdown of one inline node; a widget with a registered plugin is
/// written as that plugin's Markdown.
pub open spec fn md_inline_node(child: JsonValue, plugins: Map<(PluginType, Seq<char>), PluginEntry>) -> Seq<char>
    decreases child, 5nat,
{
    let t = str_or(child, "t"@, ""@);
    let text = str_or(child, "text"@, ""@);
    if t == "text"@ {
        text
    } else if t == "strong"@ {
        "**"@ + md_inline_kids(child, plugins) + "**"@
    } else if t == "em"@ {
        "*"@ + md_inline_kids(child, plugins) + "*"@
    } else if t == "code"@ {
        "`"@ + text + "`"@
    } else if t == "link"@ {
        "["@ + md_inline_kids(child, plugins) + "]("@ + str_or(child, "href"@, ""@) + ")"@
    } else if t == "image"@ {
        "!["@ + str_or(child, "alt"@, ""@) + "]("@ + str_or(child, "src"@, ""@) + ")"@
    } else if t == "math_inline"@ {
        "$"@ + str_or(child, "src"@, ""@) + "$"@
    } else if t == "hard_break"@ {
        "  \n"@
    } else if t == "del"@ {
        "~~"@ + md_inline_kids(child, plugins) + "~~"@
    } else if t == "footnote_ref"@ {
        "[^"@ + str_or(child, "label"@, ""@) + "]"@
    } else if t == "widget"@ {
        let name = str_or(child, "name"@, ""@);
        let key = (PluginType::Widget, name);
        if plugins.contains_key(key) {
            plugin_md(plugins[key], child, plugins)
        } else {
            "<span class=\"widget "@ + name + "\">"@ + text + "</span>"@
        }
    } else {
        text
    }
}

pub fn render_md_inline_kids(child: &JsonValue, plugins: &PluginRegistry, out: &mut String)
    ensures
        final(out)@ == old(out)@ + md_inline_kids(*child, plugins@),
    decreases *child, 1nat,
{
    match arr_field(child, "children") {
        Some(ch) => {
            proof {
                lemma_arr_decreases(*child, "children"@);
            }
            render_markdown_inline(ch, plugins, out);
        },
        None => {},
    }
}

/// Renders a sequence of inline nodes as Markdown.
pub fn render_markdown_inline(children: &[JsonValue], plugins: &PluginRegistry, out: &mut String)
    ensures
        final(out)@ == old(out)@ + md_inline(children@, plugins@),
    decreases children@, 0nat,
{
    let n = children.len();
    let mut i: usize = 0;
    while i < n
        invariant
            n == children@.len(),
            i <= n,
            out@ == old(out)@ + md_inline(children@.take(i as int), plugins@),
        decreases n - i,
    {
        proof {
            assert(children@.take(i + 1).drop_last() == children@.take(i as int));
            assert(children@.take(i + 1).last() == children@[i as int]);
        }
        render_markdown_inline_node(&children[i], plugins, out);
        i += 1;
    }
    proof {
        assert(children@.take(n as int) == children@);
    }
}

/// Renders one inline node as Markdown.
pub fn render_markdown_inline_node(child: &JsonValue, plugins: &PluginRegistry, out: &mut String)
    ensures
        final(out)@ == old(out)@ + md_inline_node(*child, plugins@),
    decreases *child, 5nat,
{
    let t = str_field(child, "t", "");
    let text = str_field(child, "text", "");
    if str_eq(t, "text") {
        push_str(out, text);
    } else if str_eq(t, "strong") {
        push_str(out, "**");
        render_md_inline_kids(child, plugins, out);
        push_str(out, "**");
    } else if str_eq(t, "em") {
        push_str(out, "*");
        render_md_inline_kids(child, plugins, out);
        push_str(out, "*");
    } else if str_eq(t, "code") {
        push_str(out, "`");
        push_str(out, text);
        push_str(out, "`");
    } else if str_eq(t, "link") {
        push_str(out, "[");
        render_md_inline_kids(child, plugins, out);
        push_str(out, "](");
        push_str(out, str_field(child, "href", ""));
        push_str(out, ")");
    } else if str_eq(t, "image") {
        push_str(out, "![");
        push_str(out, str_field(child, "alt", ""));
        push_str(out, "](");
        push_str(out, str_field(child, "src", ""));
        push_str(out, ")");
    } else if str_eq(t, "math_inline") {
        push_str(out, "$");
        push_str(out, str_field(child, "src", ""));
        push_str(out, "$");
    } else if str_eq(t, "hard_break") {
        push_str(out, "  \n");
    } else if str_eq(t, "del") {
        push_str(out, "~~");
        render_md_inline_kids(child, plugins, out);
        push_str(out, "~~");
    } else if str_eq(t, "footnote_ref") {
        push_str(out, "[^");
        push_str(out, str_field(child, "label", ""));
        push_str(out, "]");
    } else if str_eq(t, "widget") {
        let name = str_field(child, "name", "");
        match get_plugin(plugins, PluginType::Widget, name) {
            Some(p) => render_plugin_md(p, child, plugins, out),
            None => {
                push_str(out, "<span class=\"widget ");
                push_str(out, name);
                push_str(out, "\">");
                push_str(out, text);
                push_str(out, "</span>");
            },
        }
    } else {
        push_str(out, text);
    }
}

} // verus!
