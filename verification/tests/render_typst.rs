use markplus_render::context::SiteAsset;
use markplus_render::json::{JsonMember, JsonNumber, JsonValue};
use markplus_render::RenderEngine;

const TEMPLATE: &str = "#set document(title: \"{% if meta and meta.title %}{{ meta.title }}{% endif %}\")\n#set page(paper: \"a4\")\n#set heading(numbering: \"1.\")\n{% if meta and meta.tags %}Tags: {% for tag in meta.tags %}{{ tag }} {% endfor %}\n{% endif %}\n{% for node in body recursive %}{% if node.t == \"heading\" %}{% for i in range(node.level) %}={% endfor %} {{ loop(node.children) }}\n\n{% elif node.t == \"paragraph\" %}{{ loop(node.children) }}\n\n{% elif node.t == \"text\" %}{{ node.text }}{% elif node.t == \"strong\" %}*{{ loop(node.children) }}*{% elif node.t == \"em\" %}_{{ loop(node.children) }}_{% elif node.t == \"math_inline\" %}${{ node.src }}${% elif node.t == \"fenced\" %}```{{ node.name }}\n{{ node.raw }}\n```\n\n{% elif node.t == \"math_block\" %}$ {{ node.src }} $\n\n{% elif node.t == \"list\" %}{{ loop(node.items) }}\n{% elif node.t == \"list_item\" %}- {{ loop(node.children) }}\n{% elif node.t == \"table\" %}#table(columns: {{ node.headers | length }}, {% for c in node.headers %}[{% for x in c.children %}{{ x.text }}{% endfor %}], {% endfor %}{% for row in node.rows %}{% for c in row %}[{% for x in c.children %}{{ x.text }}{% endfor %}], {% endfor %}{% endfor %})\n\n{% elif node.t == \"hr\" %}#line(length: 100%)\n\n{% endif %}{% endfor %}";

fn s(x: &str) -> JsonValue {
    JsonValue::Str(x.to_string())
}

fn n(x: u64) -> JsonValue {
    JsonValue::Number(JsonNumber::PosInt(x))
}

fn arr(items: Vec<JsonValue>) -> JsonValue {
    JsonValue::Array(items)
}

fn obj(entries: Vec<(&str, JsonValue)>) -> JsonValue {
    JsonValue::Object(
        entries
            .into_iter()
            .map(|(k, v)| JsonMember { key: k.to_string(), value: v })
            .collect(),
    )
}

fn text(x: &str) -> JsonValue {
    obj(vec![("t", s("text")), ("text", s(x))])
}

fn heading(level: u64, children: Vec<JsonValue>) -> JsonValue {
    obj(vec![("t", s("heading")), ("level", n(level)), ("children", arr(children))])
}

fn paragraph(children: Vec<JsonValue>) -> JsonValue {
    obj(vec![("t", s("paragraph")), ("children", arr(children))])
}

fn cell(x: &str) -> JsonValue {
    obj(vec![("t", s("_cell")), ("children", arr(vec![text(x)]))])
}

fn engine() -> RenderEngine {
    match RenderEngine::builder().build_with_templates(vec![(
        "default/article.typ.jinja".to_string(),
        TEMPLATE.to_string(),
    )]) {
        Ok(e) => e,
        Err(e) => panic!("engine build failed: {}", e.to_string()),
    }
}

fn render_asset(asset: &SiteAsset) -> String {
    match engine().render_typst_string(asset, "default/article.typ.jinja") {
        Ok(out) => out,
        Err(e) => panic!("render failed: {}", e.to_string()),
    }
}

fn render_typ(ast: Vec<JsonValue>) -> String {
    render_asset(&SiteAsset { meta: None, ast })
}

#[test]
fn typst_h1_uses_equals_sign() {
    let out = render_typ(vec![heading(1, vec![text("My Title")])]);
    assert!(out.contains("= My Title"), "expected '= My Title' in:\n{}", out);
}

#[test]
fn typst_h2_uses_double_equals() {
    let out = render_typ(vec![heading(2, vec![text("Sub")])]);
    assert!(out.contains("== Sub"), "{}", out);
}

#[test]
fn typst_h3_uses_triple_equals() {
    let out = render_typ(vec![heading(3, vec![text("Deep")])]);
    assert!(out.contains("=== Deep"), "{}", out);
}

#[test]
fn typst_paragraph_text_present() {
    let out = render_typ(vec![paragraph(vec![text("Hello, Typst world.")])]);
    assert!(out.contains("Hello, Typst world"), "{}", out);
}

#[test]
fn typst_strong_uses_asterisks() {
    let out = render_typ(vec![paragraph(vec![obj(vec![
        ("t", s("strong")),
        ("children", arr(vec![text("bold text")])),
    ])])]);
    assert!(out.contains("*bold text*"), "{}", out);
}

#[test]
fn typst_em_uses_underscores() {
    let out = render_typ(vec![paragraph(vec![obj(vec![
        ("t", s("em")),
        ("children", arr(vec![text("italic text")])),
    ])])]);
    assert!(out.contains("_italic text_"), "{}", out);
}

#[test]
fn typst_fenced_block_backtick_fence() {
    let out = render_typ(vec![obj(vec![("t", s("fenced")), ("name", s("rust")), ("raw", s("fn main() {}"))])]);
    assert!(out.contains("```rust"), "{}", out);
    assert!(out.contains("fn main()"), "{}", out);
}

#[test]
fn typst_math_block_dollar_syntax() {
    let out = render_typ(vec![obj(vec![("t", s("math_block")), ("src", s("E = mc^2"))])]);
    assert!(out.contains("mc^2"), "{}", out);
}

#[test]
fn typst_math_inline_dollar() {
    let out = render_typ(vec![paragraph(vec![
        text("Inline "),
        obj(vec![("t", s("math_inline")), ("src", s("x^2"))]),
        text("."),
    ])]);
    assert!(out.contains("$x^2$"), "{}", out);
}

#[test]
fn typst_table_contains_table_call() {
    let out = render_typ(vec![obj(vec![
        ("t", s("table")),
        ("align", arr(vec![s("none"), s("none")])),
        ("headers", arr(vec![cell("A"), cell("B")])),
        ("rows", arr(vec![arr(vec![cell("1"), cell("2")])])),
    ])]);
    assert!(out.contains("table("), "{}", out);
}

#[test]
fn typst_unordered_list_uses_dash() {
    let items = vec![
        obj(vec![("t", s("list_item")), ("children", arr(vec![text("item one")]))]),
        obj(vec![("t", s("list_item")), ("children", arr(vec![text("item two")]))]),
    ];
    let out = render_typ(vec![obj(vec![("t", s("list")), ("ordered", JsonValue::Bool(false)), ("items", arr(items))])]);
    assert!(out.contains("- item one"), "{}", out);
}

#[test]
fn typst_hr_uses_line() {
    let out = render_typ(vec![
        paragraph(vec![text("text")]),
        obj(vec![("t", s("hr"))]),
        paragraph(vec![text("more")]),
    ]);
    assert!(out.contains("#line("), "{}", out);
}

#[test]
fn typst_meta_title_in_document_set() {
    let out = render_asset(&SiteAsset {
        meta: Some(obj(vec![("title", s("My Article"))])),
        ast: vec![heading(1, vec![text("My Article")])],
    });
    assert!(out.contains("My Article"), "{}", out);
}

#[test]
fn typst_meta_tags_present() {
    let out = render_asset(&SiteAsset {
        meta: Some(obj(vec![("title", s("T")), ("tags", arr(vec![s("rust")]))])),
        ast: vec![heading(1, vec![text("T")])],
    });
    assert!(out.contains("rust"), "{}", out);
}

#[test]
fn typst_output_starts_with_set_document() {
    let out = render_typ(vec![heading(1, vec![text("Hello")])]);
    assert!(out.contains("#set document("), "{}", out);
}

#[test]
fn typst_output_sets_page() {
    let out = render_typ(vec![heading(1, vec![text("Hello")])]);
    assert!(out.contains("#set page("), "{}", out);
}
