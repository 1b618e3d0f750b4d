use markplus_render::context::{build_context, build_toc, collect_text, derive_slug, slugify_text, SiteAsset};
use markplus_render::json::{JsonMember, JsonNumber, JsonValue};
use markplus_render::json_text::to_json_text;

fn s(x: &str) -> JsonValue {
    JsonValue::Str(x.to_string())
}

fn n(x: u64) -> JsonValue {
    JsonValue::Number(JsonNumber::PosInt(x))
}

fn arr(items: Vec<JsonValue>) -> JsonValue {
    JsonValue::Array(items)
}

fn obj(entries: Vec<(&str, JsonValue)>) -> JsonValue {
    JsonValue::Object(
        entries
            .into_iter()
            .map(|(k, v)| JsonMember { key: k.to_string(), value: v })
            .collect(),
    )
}

fn text(x: &str) -> JsonValue {
    obj(vec![("t", s("text")), ("text", s(x))])
}

fn heading(level: u64, children: Vec<JsonValue>) -> JsonValue {
    obj(vec![("t", s("heading")), ("level", n(level)), ("children", arr(children))])
}

#[test]
fn slugify_handles_special_chars() {
    assert_eq!(slugify_text("Hello, World! (2026)"), "hello-world-2026");
}

#[test]
fn slugify_trims_and_squeezes_separators() {
    assert_eq!(slugify_text("  --Getting   Started--  "), "getting-started");
    assert_eq!(slugify_text(""), "");
    assert_eq!(slugify_text("!!!"), "");
    assert_eq!(slugify_text("ÄBC über"), "bc-ber");
    assert_eq!(slugify_text("Café Über"), "caf-ber");
}

#[test]
fn slugify_is_idempotent_on_examples() {
    for input in ["Hello, World! (2026)", "a--b", "Ünïcode Title", "x_y z"] {
        let once = slugify_text(input);
        assert_eq!(slugify_text(&once), once);
    }
}

#[test]
fn collect_text_joins_nested_text_and_math() {
    let children = vec![
        text("E is "),
        obj(vec![("t", s("math_inline")), ("src", s("mc^2"))]),
        obj(vec![("t", s("strong")), ("children", arr(vec![text(" bold")]))]),
    ];
    assert_eq!(collect_text(&children), "E is mc^2 bold");
}

#[test]
fn toc_lists_headings_in_order_including_nested() {
    let ast = vec![
        heading(1, vec![text("Introduction")]),
        obj(vec![("t", s("paragraph")), ("children", arr(vec![text("body")]))]),
        obj(vec![
            ("t", s("blockquote")),
            ("children", arr(vec![heading(2, vec![text("Quoted Part")])])),
        ]),
        obj(vec![
            ("t", s("list")),
            ("ordered", JsonValue::Bool(false)),
            (
                "items",
                arr(vec![obj(vec![
                    ("t", s("list_item")),
                    ("children", arr(vec![heading(3, vec![text("In A List")])])),
                ])]),
            ),
        ]),
    ];
    let toc = build_toc(&ast);
    assert_eq!(toc.len(), 3);
    assert_eq!(
        to_json_text(&JsonValue::Array(toc)),
        "[{\"level\":1,\"slug\":\"introduction\",\"text\":\"Introduction\"},\
{\"level\":2,\"slug\":\"quoted-part\",\"text\":\"Quoted Part\"},\
{\"level\":3,\"slug\":\"in-a-list\",\"text\":\"In A List\"}]"
    );
}

#[test]
fn toc_heading_without_level_defaults_to_one() {
    let ast = vec![obj(vec![("t", s("heading")), ("children", arr(vec![text("No Level")]))])];
    let toc = build_toc(&ast);
    assert_eq!(
        to_json_text(&toc[0]),
        "{\"level\":1,\"slug\":\"no-level\",\"text\":\"No Level\"}"
    );
}

#[test]
fn slug_prefers_meta_title() {
    let asset = SiteAsset {
        meta: Some(obj(vec![("title", s("My Article"))])),
        ast: vec![heading(1, vec![text("Other")])],
    };
    assert_eq!(derive_slug(&asset), "my-article");
}

#[test]
fn slug_falls_back_to_first_heading_with_text() {
    let asset = SiteAsset {
        meta: Some(obj(vec![("author", s("Ada"))])),
        ast: vec![heading(1, vec![]), heading(2, vec![text("Second Heading")])],
    };
    assert_eq!(derive_slug(&asset), "second-heading");
}

#[test]
fn slug_defaults_to_document() {
    let asset = SiteAsset { meta: None, ast: vec![] };
    assert_eq!(derive_slug(&asset), "document");
}

#[test]
fn context_has_body_meta_slug_toc() {
    let asset = SiteAsset {
        meta: Some(obj(vec![("title", s("T")), ("tags", arr(vec![s("rust"), s("wasm")]))])),
        ast: vec![heading(1, vec![text("T")])],
    };
    let ctx = build_context(&asset);
    assert_eq!(
        to_json_text(&ctx),
        "{\"body\":[{\"t\":\"heading\",\"level\":1,\"children\":[{\"t\":\"text\",\"text\":\"T\"}]}],\"meta\":{\"title\":\"T\",\"tags\":[\"rust\",\"wasm\"]},\
\"slug\":\"t\",\"toc\":[{\"level\":1,\"slug\":\"t\",\"text\":\"T\"}]}"
    );
}

#[test]
fn context_meta_is_null_without_front_matter() {
    let asset = SiteAsset { meta: None, ast: vec![] };
    let ctx = build_context(&asset);
    assert_eq!(to_json_text(&ctx), "{\"body\":[],\"meta\":null,\"slug\":\"document\",\"toc\":[]}");
}
