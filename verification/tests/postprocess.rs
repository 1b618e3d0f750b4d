use markplus_render::context::SiteAsset;
use markplus_render::json::{JsonMember, JsonValue};
use markplus_render::json_text::to_json_text;
use markplus_render::{ImagePathRewriter, PostProcessPipeline, PostProcessor, RenderError};

fn s(x: &str) -> JsonValue {
    JsonValue::Str(x.to_string())
}

fn arr(items: Vec<JsonValue>) -> JsonValue {
    JsonValue::Array(items)
}

fn obj(entries: Vec<(&str, JsonValue)>) -> JsonValue {
    JsonValue::Object(
        entries
            .into_iter()
            .map(|(k, v)| JsonMember { key: k.to_string(), value: v })
            .collect(),
    )
}

fn image(src: &str) -> JsonValue {
    obj(vec![("t", s("image")), ("src", s(src)), ("children", arr(vec![]))])
}

fn ast_text(asset: &SiteAsset) -> String {
    let mut out = String::new();
    for node in &asset.ast {
        out.push_str(&to_json_text(node));
        out.push('\n');
    }
    out
}

struct AppendHr;

impl PostProcessor for AppendHr {
    fn process(&self, asset: &mut SiteAsset) -> Result<(), RenderError> {
        asset.ast.push(obj(vec![("t", s("hr"))]));
        Ok(())
    }
}

struct Fails;

impl PostProcessor for Fails {
    fn process(&self, _asset: &mut SiteAsset) -> Result<(), RenderError> {
        Err(RenderError::InvalidContext("refused".to_string()))
    }
}

#[test]
fn image_paths_get_prefix_in_nested_nodes() {
    let mut asset = SiteAsset {
        meta: None,
        ast: vec![
            obj(vec![("t", s("paragraph")), ("children", arr(vec![image("a.png"), image("https://x/b.png")]))]),
            obj(vec![
                ("t", s("list")),
                ("items", arr(vec![obj(vec![("t", s("list_item")), ("children", arr(vec![image("data:xyz")]))])])),
            ]),
            obj(vec![
                ("t", s("table")),
                ("headers", arr(vec![obj(vec![("t", s("_cell")), ("children", arr(vec![image("h.png")]))])])),
                ("rows", arr(vec![arr(vec![obj(vec![("t", s("_cell")), ("children", arr(vec![image("http://y/c.png")]))]), image("d.png")])])),
            ]),
        ],
    };
    let rewriter = ImagePathRewriter { prefix: "/static/".to_string() };
    assert!(rewriter.process(&mut asset).is_ok());
    assert_eq!(
        ast_text(&asset),
        "{\"t\":\"paragraph\",\"children\":[{\"t\":\"image\",\"src\":\"/static/a.png\",\"children\":[]},{\"t\":\"image\",\"src\":\"https://x/b.png\",\"children\":[]}]}\n\
{\"t\":\"list\",\"items\":[{\"t\":\"list_item\",\"children\":[{\"t\":\"image\",\"src\":\"data:xyz\",\"children\":[]}]}]}\n\
{\"t\":\"table\",\"headers\":[{\"t\":\"_cell\",\"children\":[{\"t\":\"image\",\"src\":\"/static/h.png\",\"children\":[]}]}],\"rows\":[[{\"t\":\"_cell\",\"children\":[{\"t\":\"image\",\"src\":\"http://y/c.png\",\"children\":[]}]},{\"t\":\"image\",\"src\":\"/static/d.png\",\"children\":[]}]]}\n"
    );
}

#[test]
fn image_rewriter_leaves_other_nodes_alone() {
    let mut asset = SiteAsset {
        meta: Some(obj(vec![("title", s("T"))])),
        ast: vec![
            obj(vec![("t", s("link")), ("src", s("page.html"))]),
            obj(vec![("t", s("image")), ("src", JsonValue::Null)]),
        ],
    };
    let before = ast_text(&asset);
    let rewriter = ImagePathRewriter { prefix: "p/".to_string() };
    assert!(rewriter.process(&mut asset).is_ok());
    assert_eq!(ast_text(&asset), before);
    assert_eq!(to_json_text(asset.meta.as_ref().unwrap()), "{\"title\":\"T\"}");
}

#[test]
fn image_rewriter_with_empty_prefix_changes_nothing() {
    let mut asset = SiteAsset { meta: None, ast: vec![image("a.png")] };
    let before = ast_text(&asset);
    let rewriter = ImagePathRewriter { prefix: String::new() };
    assert!(rewriter.process(&mut asset).is_ok());
    assert_eq!(ast_text(&asset), before);
}

#[test]
fn pipeline_runs_processors_in_order() {
    let pipeline = PostProcessPipeline::new()
        .add_processor(Box::new(AppendHr))
        .add_processor(Box::new(ImagePathRewriter { prefix: "img/".to_string() }));
    let mut asset = SiteAsset { meta: None, ast: vec![image("a.png")] };
    assert!(pipeline.run(&mut asset).is_ok());
    assert_eq!(
        ast_text(&asset),
        "{\"t\":\"image\",\"src\":\"img/a.png\",\"children\":[]}\n{\"t\":\"hr\"}\n"
    );
}

#[test]
fn empty_pipeline_leaves_asset_unchanged() {
    let pipeline = PostProcessPipeline::new();
    let mut asset = SiteAsset { meta: None, ast: vec![image("a.png")] };
    let before = ast_text(&asset);
    assert!(pipeline.run(&mut asset).is_ok());
    assert_eq!(ast_text(&asset), before);
}

#[test]
fn pipeline_stops_at_first_error() {
    let pipeline = PostProcessPipeline::new()
        .add_processor(Box::new(Fails))
        .add_processor(Box::new(AppendHr));
    let mut asset = SiteAsset { meta: None, ast: vec![] };
    match pipeline.run(&mut asset) {
        Err(RenderError::InvalidContext(m)) => assert_eq!(m, "refused"),
        other => panic!("expected the processor's error, got {:?}", other),
    }
    assert_eq!(asset.ast.len(), 0);
}

#[test]
fn pipeline_keeps_earlier_changes_on_error() {
    let pipeline = PostProcessPipeline::new()
        .add_processor(Box::new(AppendHr))
        .add_processor(Box::new(Fails))
        .add_processor(Box::new(AppendHr));
    let mut asset = SiteAsset { meta: None, ast: vec![] };
    match pipeline.run(&mut asset) {
        Err(RenderError::InvalidContext(m)) => assert_eq!(m, "refused"),
        other => panic!("expected the processor's error, got {:?}", other),
    }
    assert_eq!(asset.ast.len(), 1);
}
