use markplus_render::blocks::inline::{render_html_inline, render_markdown_inline, render_typst_inline};
use markplus_render::context::SiteAsset;
use markplus_render::plugin::PluginRegistry;
use markplus_render::json::{JsonMember, JsonNumber, JsonValue};
use markplus_render::{RenderEngine, RenderError};

const TEMPLATE: &str = "<!DOCTYPE html>\n<html><head><title>{% if meta and meta.title %}{{ meta.title }}{% endif %}</title></head>\n<body>\n{% if meta and meta.tags %}<ul class=\"tags\">{% for tag in meta.tags %}<li>{{ tag }}</li>{% endfor %}</ul>{% endif %}\n{% if toc | length > 1 %}<nav class=\"toc\">{% for entry in toc %}<a href=\"#{{ entry.slug }}\" class=\"level-{{ entry.level }}\">{{ entry.text }}</a>{% endfor %}</nav>{% endif %}\n<article id=\"{{ slug }}\">\n{% for node in body recursive %}{% if node.t == \"heading\" %}<h{{ node.level }}>{{ loop(node.children) }}</h{{ node.level }}>\n{% elif node.t == \"paragraph\" %}<p>{{ loop(node.children) }}</p>\n{% elif node.t == \"text\" %}{{ node.text | escape }}{% elif node.t == \"strong\" %}<strong>{{ loop(node.children) }}</strong>{% elif node.t == \"em\" %}<em>{{ loop(node.children) }}</em>{% elif node.t == \"math_inline\" %}<span class=\"math-inline\">${{ node.src | escape }}$</span>{% elif node.t == \"fenced\" %}<pre><code class=\"language-{{ node.name }}\">{{ node.raw | escape }}</code></pre>\n{% elif node.t == \"math_block\" %}<div class=\"math-block\">$${{ node.src | escape }}$$</div>\n{% elif node.t == \"blockquote\" %}<blockquote{% if node.kind %} class=\"{{ node.kind }}\"{% endif %}>\n{{ loop(node.children) }}</blockquote>\n{% elif node.t == \"list\" %}{% if node.ordered %}<ol start=\"{{ node.start }}\">\n{{ loop(node.items) }}</ol>\n{% else %}<ul>\n{{ loop(node.items) }}</ul>\n{% endif %}{% elif node.t == \"list_item\" %}<li>{{ loop(node.children) }}</li>\n{% elif node.t == \"table\" %}<table>\n<thead><tr>{% for c in node.headers %}<th>{% for x in c.children %}{{ x.text | escape }}{% endfor %}</th>{% endfor %}</tr></thead>\n<tbody>{% for row in node.rows %}<tr>{% for c in row %}<td>{% for x in c.children %}{{ x.text | escape }}{% endfor %}</td>{% endfor %}</tr>{% endfor %}</tbody>\n</table>\n{% elif node.t == \"hr\" %}<hr>\n{% endif %}{% endfor %}</article>\n</body></html>\n";

fn s(x: &str) -> JsonValue {
    JsonValue::Str(x.to_string())
}

fn n(x: u64) -> JsonValue {
    JsonValue::Number(JsonNumber::PosInt(x))
}

fn arr(items: Vec<JsonValue>) -> JsonValue {
    JsonValue::Array(items)
}

fn obj(entries: Vec<(&str, JsonValue)>) -> JsonValue {
    JsonValue::Object(
        entries
            .into_iter()
            .map(|(k, v)| JsonMember { key: k.to_string(), value: v })
            .collect(),
    )
}

fn text(x: &str) -> JsonValue {
    obj(vec![("t", s("text")), ("text", s(x))])
}

fn heading(level: u64, children: Vec<JsonValue>) -> JsonValue {
    obj(vec![("t", s("heading")), ("level", n(level)), ("children", arr(children))])
}

fn paragraph(children: Vec<JsonValue>) -> JsonValue {
    obj(vec![("t", s("paragraph")), ("children", arr(children))])
}

fn cell(x: &str) -> JsonValue {
    obj(vec![("t", s("_cell")), ("children", arr(vec![text(x)]))])
}

fn list(ordered: bool, items: &[&str]) -> JsonValue {
    let mut fields = vec![("t", s("list")), ("ordered", JsonValue::Bool(ordered))];
    if ordered {
        fields.push(("start", n(1)));
    }
    fields.push((
        "items",
        arr(items
            .iter()
            .map(|x| obj(vec![("t", s("list_item")), ("children", arr(vec![text(x)]))]))
            .collect()),
    ));
    obj(fields)
}

fn engine() -> RenderEngine {
    match RenderEngine::builder().build_with_templates(vec![(
        "default/article.html.tera".to_string(),
        TEMPLATE.to_string(),
    )]) {
        Ok(e) => e,
        Err(e) => panic!("engine build failed: {}", e.to_string()),
    }
}

fn render_asset(asset: &SiteAsset) -> String {
    match engine().render_html(asset, "default/article.html.tera") {
        Ok(out) => out,
        Err(e) => panic!("render failed: {}", e.to_string()),
    }
}

fn render(ast: Vec<JsonValue>) -> String {
    render_asset(&SiteAsset { meta: None, ast })
}

#[test]
fn html_h1_heading() {
    let out = render(vec![heading(1, vec![text("My Title")])]);
    assert!(out.contains("<h1"), "expected h1 tag: {}", out);
    assert!(out.contains("My Title"), "expected heading text: {}", out);
}

#[test]
fn html_h2_heading() {
    let out = render(vec![heading(2, vec![text("Sub-section")])]);
    assert!(out.contains("<h2"), "{}", out);
    assert!(out.contains("Sub-section"), "{}", out);
}

#[test]
fn html_paragraph() {
    let out = render(vec![paragraph(vec![text("Hello world.")])]);
    assert!(out.contains("<p>"), "{}", out);
    assert!(out.contains("Hello world"), "{}", out);
}

#[test]
fn html_strong_and_em() {
    let out = render(vec![paragraph(vec![
        obj(vec![("t", s("strong")), ("children", arr(vec![text("bold")]))]),
        text(" and "),
        obj(vec![("t", s("em")), ("children", arr(vec![text("italic")]))]),
    ])]);
    assert!(out.contains("<strong>"), "{}", out);
    assert!(out.contains("<em>"), "{}", out);
}

#[test]
fn html_fenced_block() {
    let out = render(vec![obj(vec![("t", s("fenced")), ("name", s("rust")), ("raw", s("fn main() {}"))])]);
    assert!(out.contains("language-rust"), "{}", out);
    assert!(out.contains("fn main()"), "{}", out);
}

#[test]
fn html_fenced_block_escapes_html_chars() {
    let out = render(vec![obj(vec![("t", s("fenced")), ("name", s("html")), ("raw", s("<div>hello</div>"))])]);
    assert!(out.contains("&lt;div&gt;"), "{}", out);
}

#[test]
fn html_table_has_headers() {
    let out = render(vec![obj(vec![
        ("t", s("table")),
        ("align", arr(vec![s("none"), s("none")])),
        ("headers", arr(vec![cell("A"), cell("B")])),
        ("rows", arr(vec![arr(vec![cell("1"), cell("2")])])),
    ])]);
    assert!(out.contains("<table>"), "{}", out);
    assert!(out.contains("<th>"), "{}", out);
    assert!(out.contains("<td>"), "{}", out);
}

#[test]
fn html_math_block() {
    let out = render(vec![obj(vec![("t", s("math_block")), ("src", s("E = mc^2"))])]);
    assert!(out.contains("math-block"), "{}", out);
    assert!(out.contains("mc^2"), "{}", out);
}

#[test]
fn html_math_inline() {
    let out = render(vec![paragraph(vec![
        text("Inline "),
        obj(vec![("t", s("math_inline")), ("src", s("x^2"))]),
        text("."),
    ])]);
    assert!(out.contains("math-inline"), "{}", out);
}

#[test]
fn html_blockquote() {
    let out = render(vec![obj(vec![("t", s("blockquote")), ("children", arr(vec![paragraph(vec![text("A quote.")])]))])]);
    assert!(out.contains("<blockquote"), "{}", out);
    assert!(out.contains("A quote"), "{}", out);
}

#[test]
fn html_gfm_note_alert() {
    let out = render(vec![obj(vec![
        ("t", s("blockquote")),
        ("kind", s("note")),
        ("children", arr(vec![paragraph(vec![text("This is a note.")])])),
    ])]);
    assert!(out.contains("class=\"note\"") || out.contains("<blockquote"), "{}", out);
}

#[test]
fn html_unordered_list() {
    let out = render(vec![list(false, &["alpha", "beta", "gamma"])]);
    assert!(out.contains("<ul>"), "{}", out);
    assert!(out.contains("<li>"), "{}", out);
}

#[test]
fn html_ordered_list() {
    let out = render(vec![list(true, &["first", "second"])]);
    assert!(out.contains("<ol"), "{}", out);
}

#[test]
fn html_meta_title_in_head() {
    let out = render_asset(&SiteAsset {
        meta: Some(obj(vec![("title", s("Test Doc"))])),
        ast: vec![heading(1, vec![text("Hello")])],
    });
    assert!(out.contains("Test Doc"), "{}", out);
}

#[test]
fn html_meta_tags_rendered() {
    let out = render_asset(&SiteAsset {
        meta: Some(obj(vec![("title", s("T")), ("tags", arr(vec![s("rust"), s("wasm")]))])),
        ast: vec![heading(1, vec![text("T")])],
    });
    assert!(out.contains("rust"), "{}", out);
    assert!(out.contains("wasm"), "{}", out);
}

#[test]
fn html_toc_appears_for_multiple_headings() {
    let out = render(vec![
        heading(1, vec![text("A")]),
        heading(2, vec![text("B")]),
        heading(2, vec![text("C")]),
    ]);
    assert!(out.contains("class=\"toc\""), "{}", out);
}

#[test]
fn html_hr() {
    let out = render(vec![
        obj(vec![("t", s("hr"))]),
        paragraph(vec![text("text")]),
        obj(vec![("t", s("hr"))]),
    ]);
    assert!(out.contains("<hr>"), "{}", out);
}

#[test]
fn html_missing_template_is_a_render_error() {
    let asset = SiteAsset { meta: None, ast: vec![] };
    match engine().render_html(&asset, "nope.html") {
        Err(RenderError::TeraRender(_)) => {}
        other => panic!("expected a template error, got {:?}", other),
    }
}

#[test]
fn html_template_sees_slug_and_escapes_values() {
    let engine = match RenderEngine::builder().build_with_templates(vec![(
        "t.html".to_string(),
        "{{ slug }}|{{ meta.title }}|{{ meta.title | slugify }}|{{ meta.title | safe_html | safe }}".to_string(),
    )]) {
        Ok(e) => e,
        Err(e) => panic!("{}", e.to_string()),
    };
    let asset = SiteAsset { meta: Some(obj(vec![("title", s("A <b> Title"))])), ast: vec![] };
    match engine.render_html(&asset, "t.html") {
        Ok(out) => assert_eq!(out, "a-b-title|A &lt;b&gt; Title|a-b-title|A &lt;b&gt; Title"),
        Err(e) => panic!("{}", e.to_string()),
    }
}

#[test]
fn html_date_fmt_filter_in_template() {
    let engine = match RenderEngine::builder().build_with_templates(vec![(
        "d.txt".to_string(),
        "{{ meta.date | date_fmt }}/{{ meta.date | date_fmt(format=\"%Y-%m-%d\") }}/{{ meta.date | date_fmt(format=\"%B %Y\") }}".to_string(),
    )]) {
        Ok(e) => e,
        Err(e) => panic!("{}", e.to_string()),
    };
    let asset = SiteAsset { meta: Some(obj(vec![("date", s("2026-06-07"))])), ast: vec![] };
    match engine.render_html(&asset, "d.txt") {
        Ok(out) => assert_eq!(out, "June 07, 2026/2026-06-07/June 2026"),
        Err(e) => panic!("{}", e.to_string()),
    }
}

#[test]
fn html_bad_template_fails_the_build() {
    match RenderEngine::builder().build_with_templates(vec![("bad.html".to_string(), "{% if %}".to_string())]) {
        Err(RenderError::TeraRender(_)) => {}
        Ok(_) => panic!("expected a build error"),
        Err(e) => panic!("unexpected error {}", e.to_string()),
    }
}

#[test]
fn html_inline_nodes_exact_markup() {
    let children = inline_sample();
    let mut out = String::new();
    render_html_inline(&children, &mut out);
    assert_eq!(
        out,
        "a&lt;b &amp; c&gt;<strong>S</strong><em>E</em><code>x&lt;y</code>\
<a href=\"https://e.com/?a=1&amp;b=2\">L</a><img src=\"p.png\" alt=\"A&lt;\">\
<span class=\"math-inline\" data-math=\"a&lt;b\">$a&lt;b$</span><br><del>D</del><sup>2</sup><sub>i</sub>\
<sup><a href=\"#fn-1\" id=\"fnref-1\">[1]</a></sup><span class=\"widget tip\">W&amp;</span> "
    );
}

#[test]
fn typst_inline_nodes_exact_markup() {
    let mut out = String::new();
    render_typst_inline(&inline_sample(), &PluginRegistry::new(), &mut out);
    assert_eq!(
        out,
        "a<b & c>*S*_E_`x<y`#link(\"https://e.com/?a=1&b=2\")[L]#image(\"p.png\")$a<b$\\ \n\
#strike[D]#super[2]#sub[i]#footnote(<fn-1>)#box(fill: luma(240), inset: 2pt, radius: 2pt)[W&] "
    );
}

#[test]
fn markdown_inline_nodes_exact_markup() {
    let mut out = String::new();
    render_markdown_inline(&inline_sample(), &PluginRegistry::new(), &mut out);
    assert_eq!(
        out,
        "a<b & c>**S***E*`x<y`[L](https://e.com/?a=1&b=2)![A<](p.png)$a<b$  \n~~D~~[^1]<span class=\"widget tip\">W&</span> "
    );
}

fn inline_sample() -> Vec<JsonValue> {
    vec![
        text("a<b & c>"),
        obj(vec![("t", s("strong")), ("children", arr(vec![text("S")]))]),
        obj(vec![("t", s("em")), ("children", arr(vec![text("E")]))]),
        obj(vec![("t", s("code")), ("text", s("x<y"))]),
        obj(vec![("t", s("link")), ("href", s("https://e.com/?a=1&b=2")), ("children", arr(vec![text("L")]))]),
        obj(vec![("t", s("image")), ("src", s("p.png")), ("alt", s("A<"))]),
        obj(vec![("t", s("math_inline")), ("src", s("a<b"))]),
        obj(vec![("t", s("hard_break"))]),
        obj(vec![("t", s("del")), ("children", arr(vec![text("D")]))]),
        obj(vec![("t", s("sup")), ("children", arr(vec![text("2")]))]),
        obj(vec![("t", s("sub")), ("children", arr(vec![text("i")]))]),
        obj(vec![("t", s("footnote_ref")), ("label", s("1"))]),
        obj(vec![("t", s("widget")), ("name", s("tip")), ("text", s("W&"))]),
        obj(vec![("t", s("soft_break")), ("text", s(" "))]),
    ]
}
