use markplus_render::blocks::render_markdown_node;
use markplus_render::json::{JsonMember, JsonNumber, JsonValue};
use markplus_render::plugin::PluginRegistry;

fn s(x: &str) -> JsonValue {
    JsonValue::Str(x.to_string())
}

fn n(x: u64) -> JsonValue {
    JsonValue::Number(JsonNumber::PosInt(x))
}

fn arr(items: Vec<JsonValue>) -> JsonValue {
    JsonValue::Array(items)
}

fn obj(entries: Vec<(&str, JsonValue)>) -> JsonValue {
    JsonValue::Object(
        entries
            .into_iter()
            .map(|(k, v)| JsonMember { key: k.to_string(), value: v })
            .collect(),
    )
}

fn text(x: &str) -> JsonValue {
    obj(vec![("t", s("text")), ("text", s(x))])
}

fn paragraph(children: Vec<JsonValue>) -> JsonValue {
    obj(vec![("t", s("paragraph")), ("children", arr(children))])
}

fn cell(x: &str) -> JsonValue {
    obj(vec![("t", s("_cell")), ("children", arr(vec![text(x)]))])
}

fn render(ast: Vec<JsonValue>) -> String {
    let plugins = PluginRegistry::new();
    let mut out = String::new();
    for node in &ast {
        render_markdown_node(node, &plugins, &mut out);
    }
    out
}

#[test]
fn markdown_basic() {
    let out = render(vec![
        obj(vec![("t", s("heading")), ("level", n(1)), ("children", arr(vec![text("Heading")]))]),
        paragraph(vec![
            text("Paragraph with "),
            obj(vec![("t", s("strong")), ("children", arr(vec![text("bold")]))]),
            text(" and "),
            obj(vec![("t", s("em")), ("children", arr(vec![text("italic")]))]),
            text("."),
        ]),
        obj(vec![
            ("t", s("list")),
            ("ordered", JsonValue::Bool(false)),
            ("items", arr(vec![obj(vec![("t", s("list_item")), ("children", arr(vec![text("list item")]))])])),
        ]),
    ]);
    assert!(out.contains("# Heading"));
    assert!(out.contains("- list item"));
}

#[test]
fn markdown_fenced() {
    let out = render(vec![obj(vec![("t", s("fenced")), ("name", s("rust")), ("raw", s("fn main() {}"))])]);
    assert!(out.contains("```rust"));
    assert!(out.contains("fn main() {}"));
}

#[test]
fn markdown_blockquote() {
    let out = render(vec![obj(vec![("t", s("blockquote")), ("children", arr(vec![paragraph(vec![text("Quote")])]))])]);
    assert!(out.contains("> Quote"));
}

#[test]
fn markdown_math() {
    let out = render(vec![
        obj(vec![("t", s("math_block")), ("src", s("1+1=2"))]),
        paragraph(vec![text("Inline "), obj(vec![("t", s("math_inline")), ("src", s("x=y"))]), text(".")]),
    ]);
    assert!(out.contains("$$"));
    assert!(out.contains("1+1=2"));
    assert!(out.contains("$x=y$"));
}

#[test]
fn markdown_table() {
    let out = render(vec![obj(vec![
        ("t", s("table")),
        ("align", arr(vec![s("none"), s("none")])),
        ("headers", arr(vec![cell("A"), cell("B")])),
        ("rows", arr(vec![arr(vec![cell("1"), cell("2")])])),
    ])]);
    assert!(out.contains("| A |"));
}

#[test]
fn markdown_hr() {
    let out = render(vec![obj(vec![("t", s("hr"))])]);
    assert!(out.contains("---"));
}

#[test]
fn markdown_directive_and_footnote() {
    let out = render(vec![
        obj(vec![("t", s("directive")), ("name", s("note")), ("children", arr(vec![paragraph(vec![text("hello")])]))]),
        obj(vec![("t", s("footnote_def")), ("label", s("1")), ("children", arr(vec![paragraph(vec![text("note text")])]))]),
    ]);
    assert!(out.contains("[^1]:"));
}

#[test]
fn markdown_footnote_continuation_lines_are_indented() {
    let out = render(vec![obj(vec![
        ("t", s("footnote_def")),
        ("label", s("1")),
        ("children", arr(vec![paragraph(vec![text("a")]), paragraph(vec![text("b  ")])])),
    ])]);
    assert_eq!(out, "[^1]: a\n    \n    b\n\n");
}

#[test]
fn markdown_empty_footnote() {
    let out = render(vec![obj(vec![("t", s("footnote_def")), ("label", s("x")), ("children", arr(vec![]))])]);
    assert_eq!(out, "[^x]: \n\n");
}

#[test]
fn markdown_blockquote_prefixes_every_line() {
    let out = render(vec![obj(vec![("t", s("blockquote")), ("children", arr(vec![paragraph(vec![text("Quote")])]))])]);
    assert_eq!(out, "> Quote\n> \n\n");
}
