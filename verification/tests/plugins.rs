use markplus_render::blocks::{render_html_node, render_markdown_node, render_typst_node};
use markplus_render::json::{JsonMember, JsonNumber, JsonValue};
use markplus_render::plugin::{get_plugin, register_plugin, Plugin, PluginEntry, PluginRegistry, PluginType};
use markplus_render::plugins::tooltip::TooltipPlugin;
use markplus_render::plugins::MarkplusPlugin;
use markplus_render::render::render_html_document;
use markplus_render::RenderEngine;

fn s(x: &str) -> JsonValue {
    JsonValue::Str(x.to_string())
}

fn arr(items: Vec<JsonValue>) -> JsonValue {
    JsonValue::Array(items)
}

fn obj(entries: Vec<(&str, JsonValue)>) -> JsonValue {
    JsonValue::Object(
        entries
            .into_iter()
            .map(|(k, v)| JsonMember { key: k.to_string(), value: v })
            .collect(),
    )
}

fn html(node: &JsonValue, plugins: &PluginRegistry) -> String {
    let mut out = String::new();
    render_html_node(node, plugins, &mut out);
    out
}

fn typst(node: &JsonValue, plugins: &PluginRegistry) -> String {
    let mut out = String::new();
    render_typst_node(node, plugins, &mut out);
    out
}

fn markdown(node: &JsonValue, plugins: &PluginRegistry) -> String {
    let mut out = String::new();
    render_markdown_node(node, plugins, &mut out);
    out
}

fn found(reg: &PluginRegistry, ptype: PluginType, name: &str) -> Option<Plugin> {
    match get_plugin(reg, ptype, name) {
        Some(PluginEntry::Builtin(p)) => Some(*p),
        Some(PluginEntry::Custom(c)) => panic!("unexpected user plugin {}", c.name()),
        None => None,
    }
}

#[test]
fn registry_finds_registered_plugin_by_type_and_name() {
    let mut reg = PluginRegistry::new();
    assert_eq!(found(&reg, PluginType::Fenced, "mermaid"), None);
    register_plugin(&mut reg, PluginEntry::Builtin(Plugin::Mermaid));
    assert_eq!(found(&reg, PluginType::Fenced, "mermaid"), Some(Plugin::Mermaid));
    assert_eq!(found(&reg, PluginType::Directive, "mermaid"), None);
    assert_eq!(found(&reg, PluginType::Fenced, "tabs"), None);
}

#[test]
fn registering_twice_keeps_one_entry() {
    let mut reg = PluginRegistry::new();
    register_plugin(&mut reg, PluginEntry::Builtin(Plugin::Tabs));
    register_plugin(&mut reg, PluginEntry::Builtin(Plugin::Tabs));
    register_plugin(&mut reg, PluginEntry::Builtin(Plugin::Columns));
    assert_eq!(found(&reg, PluginType::Directive, "tabs"), Some(Plugin::Tabs));
    assert_eq!(found(&reg, PluginType::Directive, "columns"), Some(Plugin::Columns));
}

/// A plugin written outside the library: renders `chart` fences.
struct ChartPlugin;

impl MarkplusPlugin for ChartPlugin {
    fn name(&self) -> &'static str {
        "chart"
    }

    fn plugin_type(&self) -> PluginType {
        PluginType::Fenced
    }

    fn render_html(&self, node: &JsonValue, out: &mut String) {
        out.push_str("<figure class=\"chart\">");
        if let JsonValue::Object(members) = node {
            for m in members {
                if m.key == "raw" {
                    if let JsonValue::Str(raw) = &m.value {
                        out.push_str(raw);
                    }
                }
            }
        }
        out.push_str("</figure>\n");
    }

    fn render_typst(&self, _node: &JsonValue, out: &mut String) {
        out.push_str("#figure[chart]\n\n");
    }

    fn render_markdown(&self, _node: &JsonValue, out: &mut String) {
        out.push_str("<!-- chart -->\n\n");
    }
}

#[test]
fn user_plugin_renders_its_fenced_blocks() {
    let node = obj(vec![("t", s("fenced")), ("name", s("chart")), ("raw", s("1,2,3"))]);
    let mut reg = PluginRegistry::new();
    assert_eq!(html(&node, &reg), "<pre><code class=\"language-chart\">1,2,3</code></pre>\n");
    register_plugin(&mut reg, PluginEntry::Custom(Box::new(ChartPlugin)));
    match get_plugin(&reg, PluginType::Fenced, "chart") {
        Some(e) => {
            assert_eq!(e.name(), "chart");
            assert_eq!(e.plugin_type(), PluginType::Fenced);
        }
        None => panic!("the chart plugin is not registered"),
    }
    assert_eq!(html(&node, &reg), "<figure class=\"chart\">1,2,3</figure>\n");
    assert_eq!(typst(&node, &reg), "#figure[chart]\n\n");
    assert_eq!(markdown(&node, &reg), "<!-- chart -->\n\n");
}

#[test]
fn shipped_plugin_registered_as_user_plugin() {
    let mut reg = PluginRegistry::new();
    register_plugin(&mut reg, PluginEntry::Custom(Box::new(TooltipPlugin)));
    assert_eq!(markdown(&para_node(), &reg), "[LO](# \"Local oscillator\")\n\n");
}

#[test]
fn plugin_names_and_types() {
    assert_eq!(Plugin::Columns.name(), "columns");
    assert_eq!(Plugin::Mermaid.plugin_type(), PluginType::Fenced);
    assert_eq!(Plugin::Tabs.plugin_type(), PluginType::Directive);
    assert_eq!(Plugin::Tooltip.plugin_type(), PluginType::Widget);
}

#[test]
fn fenced_block_without_plugin_is_code() {
    let node = obj(vec![("t", s("fenced")), ("name", s("mermaid")), ("raw", s("graph TD"))]);
    let reg = PluginRegistry::new();
    assert_eq!(html(&node, &reg), "<pre><code class=\"language-mermaid\">graph TD</code></pre>\n");
    assert_eq!(typst(&node, &reg), "```mermaid\ngraph TD\n```\n\n");
}

#[test]
fn mermaid_plugin_takes_over_fenced_block() {
    let node = obj(vec![("t", s("fenced")), ("name", s("mermaid")), ("raw", s("graph TD"))]);
    let mut reg = PluginRegistry::new();
    register_plugin(&mut reg, PluginEntry::Builtin(Plugin::Mermaid));
    assert_eq!(html(&node, &reg), "<pre class=\"mermaid\">graph TD</pre>\n");
    assert_eq!(markdown(&node, &reg), "```mermaid\ngraph TD\n```\n\n");
    let with_svg = obj(vec![
        ("t", s("fenced")),
        ("name", s("mermaid")),
        ("raw", s("graph TD")),
        ("svg_html", s("<svg/>")),
    ]);
    assert_eq!(
        html(&with_svg, &reg),
        "<div class=\"mermaid-diagram\" style=\"text-align: center; margin: 1.5em 0;\">\n<svg/>\n</div>\n"
    );
}

#[test]
fn tooltip_widget_plugin_serves_markdown_only() {
    let para = para_node();
    let mut reg = PluginRegistry::new();
    let plain = render_html_document(&[para_node()], &reg);
    assert_eq!(plain, "<p><span class=\"widget tooltip\">LO</span></p>\n");
    register_plugin(&mut reg, PluginEntry::Builtin(Plugin::Tooltip));
    let out = render_html_document(&[para_node()], &reg);
    assert_eq!(out, plain);
    assert_eq!(markdown(&para, &reg), "[LO](# \"Local oscillator\")\n\n");
    assert_eq!(markdown(&para, &PluginRegistry::new()), "<span class=\"widget tooltip\">LO</span>\n\n");
}

fn para_node() -> JsonValue {
    obj(vec![
        ("t", s("paragraph")),
        (
            "children",
            arr(vec![obj(vec![("t", s("widget")), ("name", s("tooltip")), ("text", s("LO")), ("data", s("Local oscillator"))])]),
        ),
    ])
}

#[test]
fn directive_without_plugin_has_generic_markup() {
    let node = obj(vec![
        ("t", s("directive")),
        ("name", s("note")),
        ("children", arr(vec![obj(vec![("t", s("paragraph")), ("children", arr(vec![obj(vec![("t", s("text")), ("text", s("hi"))])]))])])),
    ]);
    let reg = PluginRegistry::new();
    let out = html(&node, &reg);
    assert!(out.starts_with("<div class=\"directive note\">\n<div class=\"directive-header\">NOTE</div>\n<div class=\"directive-body\">\n"), "{}", out);
    assert!(out.ends_with("</div>\n</div>\n"), "{}", out);
    assert_eq!(markdown(&node, &reg), ":::note \nhi\n\n:::\n\n");
}

#[test]
fn engine_plugins_start_empty_and_can_be_added() {
    let mut engine = match RenderEngine::builder().build_with_templates(vec![]) {
        Ok(e) => e,
        Err(e) => panic!("{}", e.to_string()),
    };
    assert_eq!(found(engine.plugins(), PluginType::Fenced, "mermaid"), None);
    engine.register_plugin(PluginEntry::Builtin(Plugin::Mermaid));
    assert_eq!(found(engine.plugins(), PluginType::Fenced, "mermaid"), Some(Plugin::Mermaid));
}

#[test]
fn heading_html_has_slug_id() {
    let node = obj(vec![
        ("t", s("heading")),
        ("level", JsonValue::Number(JsonNumber::PosInt(2))),
        ("children", arr(vec![obj(vec![("t", s("text")), ("text", s("Getting Started"))])])),
    ]);
    let reg = PluginRegistry::new();
    assert_eq!(html(&node, &reg), "<h2 id=\"getting-started\">Getting Started</h2>\n");
    assert_eq!(typst(&node, &reg), "== Getting Started\n\n");
    assert_eq!(markdown(&node, &reg), "## Getting Started\n\n");
}
