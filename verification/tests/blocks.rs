use markplus_render::blocks::{render_html_node, render_markdown_node, render_typst_node};
use markplus_render::context::build_toc;
use markplus_render::json::{JsonMember, JsonNumber, JsonValue};
use markplus_render::json_text::to_json_text;
use markplus_render::plugin::{register_plugin, Plugin, PluginEntry, PluginRegistry};

fn s(x: &str) -> JsonValue {
    JsonValue::Str(x.to_string())
}

fn n(x: u64) -> JsonValue {
    JsonValue::Number(JsonNumber::PosInt(x))
}

fn arr(items: Vec<JsonValue>) -> JsonValue {
    JsonValue::Array(items)
}

fn obj(entries: Vec<(&str, JsonValue)>) -> JsonValue {
    JsonValue::Object(
        entries
            .into_iter()
            .map(|(k, v)| JsonMember { key: k.to_string(), value: v })
            .collect(),
    )
}

fn text(x: &str) -> JsonValue {
    obj(vec![("t", s("text")), ("text", s(x))])
}

fn paragraph(children: Vec<JsonValue>) -> JsonValue {
    obj(vec![("t", s("paragraph")), ("children", arr(children))])
}

fn item(children: Vec<JsonValue>) -> JsonValue {
    obj(vec![("t", s("list_item")), ("children", arr(children))])
}

fn cell(children: Vec<JsonValue>) -> JsonValue {
    obj(vec![("t", s("_cell")), ("children", arr(children))])
}

fn all_three(node: &JsonValue) -> (String, String, String) {
    let reg = PluginRegistry::new();
    let mut h = String::new();
    let mut t = String::new();
    let mut m = String::new();
    render_html_node(node, &reg, &mut h);
    render_typst_node(node, &reg, &mut t);
    render_markdown_node(node, &reg, &mut m);
    (h, t, m)
}

#[test]
fn ordered_list_with_loose_and_tight_items() {
    let list = obj(vec![
        ("t", s("list")),
        ("ordered", JsonValue::Bool(true)),
        ("start", n(3)),
        ("items", arr(vec![item(vec![paragraph(vec![text("one")])]), item(vec![text("two")])])),
    ]);
    let (h, t, m) = all_three(&list);
    assert_eq!(h, "<ol start=\"3\">\n<li><p>one</p>\n</li>\n<li>two</li>\n</ol>\n");
    assert_eq!(t, "+ one\n\n+ two\n\n");
    assert_eq!(m, "1. one\n2. two\n\n");
}

#[test]
fn nested_list_markdown_is_indented() {
    let inner = obj(vec![
        ("t", s("list")),
        ("ordered", JsonValue::Bool(false)),
        ("items", arr(vec![item(vec![text("b")]), item(vec![text("c")])])),
    ]);
    let outer = obj(vec![
        ("t", s("list")),
        ("ordered", JsonValue::Bool(false)),
        ("items", arr(vec![item(vec![paragraph(vec![text("a")]), inner])])),
    ]);
    let (h, _, m) = all_three(&outer);
    assert_eq!(h, "<ul>\n<li><p>a</p>\n<ul>\n<li>b</li>\n<li>c</li>\n</ul>\n</li>\n</ul>\n");
    assert_eq!(m, "- a\n  \n  - b\n  - c\n\n");
}

#[test]
fn empty_list_item() {
    let list = obj(vec![("t", s("list")), ("items", arr(vec![item(vec![])]))]);
    let (h, t, m) = all_three(&list);
    assert_eq!(h, "<ul>\n<li></li>\n</ul>\n");
    assert_eq!(t, "- \n\n");
    assert_eq!(m, "- \n\n");
}

#[test]
fn table_in_three_formats() {
    let table = obj(vec![
        ("t", s("table")),
        ("headers", arr(vec![cell(vec![text("A")]), cell(vec![text("B")])])),
        ("rows", arr(vec![arr(vec![cell(vec![text("1")]), cell(vec![text("2")])])])),
    ]);
    let (h, t, m) = all_three(&table);
    assert_eq!(
        h,
        "<table>\n<thead><tr>\n<th>A</th>\n<th>B</th>\n</tr></thead>\n<tbody>\n<tr>\n<td>1</td>\n<td>2</td>\n</tr>\n</tbody>\n</table>\n"
    );
    assert_eq!(t, "#table(\n  columns: 2,\n  [A],\n  [B],\n  [1],\n  [2],\n)\n\n");
    assert_eq!(m, "| A | B | \n|---|---|\n| 1 | 2 | \n\n");
}

#[test]
fn table_without_headers_and_with_line_breaks() {
    let table = obj(vec![
        ("t", s("table")),
        ("rows", arr(vec![arr(vec![cell(vec![text("x"), obj(vec![("t", s("hard_break"))]), text("y")])])])),
    ]);
    let (h, t, m) = all_three(&table);
    assert_eq!(h, "<table>\n<tbody>\n<tr>\n<td>x<br>y</td>\n</tr>\n</tbody>\n</table>\n");
    assert_eq!(t, "#table(\n  columns: 1,\n  [x\\ \ny],\n)\n\n");
    assert_eq!(m, "| x   y | \n\n");
}

#[test]
fn math_block_in_three_formats() {
    let node = obj(vec![("t", s("math_block")), ("src", s("a<b"))]);
    let (h, t, m) = all_three(&node);
    assert_eq!(h, "<p class=\"math-block\" data-math=\"a&lt;b\">$$a&lt;b$$</p>\n");
    assert_eq!(t, "$ a<b $\n\n");
    assert_eq!(m, "$$\na<b\n$$\n\n");
}

#[test]
fn hr_in_three_formats() {
    let (h, t, m) = all_three(&obj(vec![("t", s("hr"))]));
    assert_eq!(h, "<hr>\n");
    assert_eq!(t, "#line(length: 100%, stroke: 0.3pt)\n\n");
    assert_eq!(m, "---\n\n");
}

#[test]
fn unknown_block_renders_nothing() {
    let (h, t, m) = all_three(&obj(vec![("t", s("mystery"))]));
    assert_eq!((h.as_str(), t.as_str(), m.as_str()), ("", "", ""));
}

fn with_plugins(node: &JsonValue, plugins: &[Plugin]) -> (String, String, String) {
    let mut reg = PluginRegistry::new();
    for p in plugins {
        register_plugin(&mut reg, PluginEntry::Builtin(*p));
    }
    let mut h = String::new();
    let mut t = String::new();
    let mut m = String::new();
    render_html_node(node, &reg, &mut h);
    render_typst_node(node, &reg, &mut t);
    render_markdown_node(node, &reg, &mut m);
    (h, t, m)
}

#[test]
fn blockquote_alert_in_three_formats() {
    let node = obj(vec![
        ("t", s("blockquote")),
        ("kind", s("warning")),
        ("children", arr(vec![paragraph(vec![text("Careful")])])),
    ]);
    let (h, t, m) = all_three(&node);
    assert_eq!(h, "<blockquote class=\"warning\">\n<p>Careful</p>\n</blockquote>\n");
    assert_eq!(t, "#quote(block: true)[\nCareful\n\n]\n\n");
    assert_eq!(m, "> Careful\n> \n\n");
}

#[test]
fn footnote_definition_in_html_and_typst() {
    let node = obj(vec![
        ("t", s("footnote_def")),
        ("label", s("n")),
        ("children", arr(vec![paragraph(vec![text("Note")])])),
    ]);
    let (h, t, _) = all_three(&node);
    assert_eq!(h, "<div class=\"footnote-def\" id=\"fn-n\">\n  <sup>n</sup>\n<p>Note</p>\n</div>\n");
    assert_eq!(t, "#footnote[<fn-n> Note\n\n]\n\n");
}

#[test]
fn columns_plugin_lays_out_children() {
    let node = obj(vec![
        ("t", s("directive")),
        ("name", s("columns")),
        ("children", arr(vec![paragraph(vec![text("L")]), paragraph(vec![text("R")])])),
    ]);
    let (h, t, m) = with_plugins(&node, &[Plugin::Columns]);
    assert_eq!(
        h,
        "<div class=\"directive columns\" style=\"display: flex; gap: 1rem;\">\n\
<div class=\"col\" style=\"flex: 1;\">\n<p>L</p>\n</div>\n\
<div class=\"col\" style=\"flex: 1;\">\n<p>R</p>\n</div>\n</div>\n"
    );
    assert_eq!(t, "#columns(2)[\nL\n\n#colbreak()\nR\n\n#colbreak()\n]\n\n");
    assert_eq!(m, ":::columns \n:::col \nL\n\n:::\n:::col \nR\n\n:::\n:::\n\n");
}

#[test]
fn columns_plugin_without_children_has_one_column() {
    let node = obj(vec![("t", s("directive")), ("name", s("columns"))]);
    let (_, t, _) = with_plugins(&node, &[Plugin::Columns]);
    assert_eq!(t, "#columns(1)[\n]\n\n");
}

#[test]
fn tabs_plugin_wraps_children() {
    let node = obj(vec![
        ("t", s("directive")),
        ("name", s("tabs")),
        ("children", arr(vec![paragraph(vec![text("T")])])),
    ]);
    let (h, t, m) = with_plugins(&node, &[Plugin::Tabs]);
    assert_eq!(h, "<div class=\"directive tabs\">\n<p>T</p>\n</div>\n");
    assert_eq!(t, "#block(fill: luma(250), width: 100%, inset: 8pt)[\n  *Tabs*\nT\n\n]\n\n");
    assert_eq!(m, ":::tabs \nT\n\n:::\n\n");
}

#[test]
fn directive_typst_without_plugin() {
    let node = obj(vec![
        ("t", s("directive")),
        ("name", s("warning")),
        ("children", arr(vec![paragraph(vec![text("W")])])),
    ]);
    let (_, t, _) = all_three(&node);
    assert_eq!(t, "#block(fill: luma(245), width: 100%, inset: 8pt, radius: 4pt)[\n  *WARNING*\n  #v(0.5em)\nW\n\n]\n\n");
}

#[test]
fn heading_id_matches_toc_slug_with_math() {
    let node = obj(vec![
        ("t", s("heading")),
        ("level", n(1)),
        ("children", arr(vec![text("Area "), obj(vec![("t", s("math_inline")), ("src", s("x^2"))])])),
    ]);
    let reg = PluginRegistry::new();
    let mut h = String::new();
    render_html_node(&node, &reg, &mut h);
    assert_eq!(h, "<h1 id=\"area-x-2\">Area <span class=\"math-inline\" data-math=\"x^2\">$x^2$</span></h1>\n");
    let toc = build_toc(&[node]);
    assert_eq!(toc.len(), 1);
    assert_eq!(to_json_text(&toc[0]), "{\"level\":1,\"slug\":\"area-x-2\",\"text\":\"Area x^2\"}");
}
