use markplus_render::context::SiteAsset;
use markplus_render::engine::template_name;
use markplus_render::json::{JsonMember, JsonNumber, JsonValue};
use markplus_render::pdf::pdf_result;
use markplus_render::json_text::to_json_text;
use markplus_render::render::{output_format, render_outcome, require_pages, OutputFormat, RenderedFile};
use markplus_render::{RenderEngine, RenderError};

#[test]
fn output_format_by_extension() {
    assert!(matches!(output_format("html"), Ok(OutputFormat::Html)));
    assert!(matches!(output_format("typ"), Ok(OutputFormat::Typst)));
    assert!(matches!(output_format("pdf"), Ok(OutputFormat::Pdf)));
    match output_format("docx") {
        Err(RenderError::Io(m)) => assert_eq!(m, "unsupported output extension: \"docx\" (use .html, .typ, or .pdf)"),
        other => panic!("{:?}", other),
    }
    match output_format("") {
        Err(RenderError::Io(m)) => assert_eq!(m, "unsupported output extension: \"\" (use .html, .typ, or .pdf)"),
        other => panic!("{:?}", other),
    }
}

#[test]
fn pdf_needs_a_page() {
    assert!(require_pages(1).is_ok());
    match require_pages(0) {
        Err(RenderError::TypstCompile(m)) => assert_eq!(m, "document has no pages"),
        other => panic!("{:?}", other),
    }
}

#[test]
fn error_messages() {
    assert_eq!(RenderError::TeraRender("x".to_string()).to_string(), "template render error: x");
    assert_eq!(RenderError::TypstCompile("y".to_string()).to_string(), "typst compile error: y");
    assert_eq!(RenderError::Io("z".to_string()).to_string(), "io error: z");
    assert_eq!(RenderError::InvalidContext("w".to_string()).to_string(), "invalid context: w");
}

#[test]
fn render_outcome_maps_errors() {
    match render_outcome(Ok("out".to_string())) {
        Ok(s) => assert_eq!(s, "out"),
        Err(e) => panic!("{:?}", e),
    }
    match render_outcome(Err("template not found".to_string())) {
        Err(RenderError::TeraRender(m)) => assert_eq!(m, "template not found"),
        other => panic!("{:?}", other),
    }
}

#[test]
fn json_text_of_values() {
    let v = JsonValue::Object(vec![
        JsonMember { key: "a".to_string(), value: JsonValue::Number(JsonNumber::PosInt(12)) },
        JsonMember { key: "b".to_string(), value: JsonValue::Number(JsonNumber::NegInt(-7)) },
        JsonMember { key: "c".to_string(), value: JsonValue::Number(JsonNumber::Float("1.5".to_string())) },
        JsonMember {
            key: "d\"q".to_string(),
            value: JsonValue::Array(vec![JsonValue::Null, JsonValue::Bool(true), JsonValue::Bool(false)]),
        },
        JsonMember { key: "e".to_string(), value: JsonValue::Str("line\nbreak\\ \u{1}".to_string()) },
    ]);
    assert_eq!(
        to_json_text(&v),
        "{\"a\":12,\"b\":-7,\"c\":1.5,\"d\\\"q\":[null,true,false],\"e\":\"line\\u000abreak\\\\ \\u0001\"}"
    );
    assert_eq!(to_json_text(&JsonValue::Number(JsonNumber::NegInt(i64::MIN))), "-9223372036854775808");
    assert_eq!(to_json_text(&JsonValue::Array(vec![])), "[]");
    assert_eq!(to_json_text(&JsonValue::Object(vec![])), "{}");
}

#[test]
fn builder_remembers_templates_dir() {
    let b = RenderEngine::builder();
    assert_eq!(b.templates_dir(), None);
    let b = b.with_templates("/my/templates");
    assert_eq!(b.templates_dir(), Some("/my/templates"));
}

#[test]
fn pdf_result_maps_each_outcome() {
    match pdf_result(Err("export".to_string())) {
        Err(RenderError::TypstCompile(m)) => assert_eq!(m, "export"),
        other => panic!("{:?}", other),
    }
    match pdf_result(Ok(vec![37u8, 80, 68, 70])) {
        Ok(b) => assert_eq!(b, vec![37u8, 80, 68, 70]),
        other => panic!("{:?}", other),
    }
}

#[test]
fn file_contents_follow_the_extension() {
    let engine = match RenderEngine::builder()
        .build_with_templates(vec![("a.html".to_string(), "<main>{% for n in body %}<{{ n.t }}>{% endfor %}</main>".to_string())])
    {
        Ok(e) => e,
        Err(e) => panic!("{}", e.to_string()),
    };
    let asset = SiteAsset { meta: None, ast: vec![JsonValue::Object(vec![JsonMember {
        key: "t".to_string(),
        value: JsonValue::Str("hr".to_string()),
    }])] };
    match engine.render_file_contents(&asset, "a.html", "html") {
        (w, Ok(RenderedFile::Text(s))) => {
            assert!(w.is_empty());
            assert_eq!(s, "<main><hr></main>");
        }
        _ => panic!("expected text"),
    }
    match engine.render_file_contents(&asset, "a.html", "txt") {
        (_, Err(RenderError::Io(m))) => assert_eq!(m, "unsupported output extension: \"txt\" (use .html, .typ, or .pdf)"),
        _ => panic!("expected an io error"),
    }
    match engine.render_file_contents(&asset, "missing.typ", "typ") {
        (_, Err(RenderError::TeraRender(_))) => {}
        _ => panic!("expected a template error"),
    }
}

#[test]
fn template_names_and_directory() {
    assert_eq!(template_name("default\\article.html.jinja"), "default/article.html.jinja");
    assert_eq!(template_name("plain.txt"), "plain.txt");
    assert_eq!(RenderEngine::builder().load_dir(), "templates");
    assert_eq!(RenderEngine::builder().with_templates("/t").load_dir(), "/t");
}

#[test]
fn html_and_typst_templates_get_the_same_context() {
    let engine = match RenderEngine::builder().build_with_templates(vec![("t".to_string(), "{{ body }}|{{ slug }}".to_string())]) {
        Ok(e) => e,
        Err(e) => panic!("{}", e.to_string()),
    };
    let asset = SiteAsset { meta: None, ast: vec![JsonValue::Object(vec![JsonMember {
        key: "t".to_string(),
        value: JsonValue::Str("hr".to_string()),
    }])] };
    let html = match engine.render_html(&asset, "t") {
        Ok(s) => s,
        Err(e) => panic!("{}", e.to_string()),
    };
    let typst = match engine.render_typst_string(&asset, "t") {
        Ok(s) => s,
        Err(e) => panic!("{}", e.to_string()),
    };
    assert_eq!(html, typst);
    assert!(html.ends_with("|document"), "{}", html);
}

#[test]
fn deeply_nested_front_matter_renders() {
    let engine = match RenderEngine::builder().build_with_templates(vec![("t".to_string(), "{{ slug }}".to_string())]) {
        Ok(e) => e,
        Err(e) => panic!("{}", e.to_string()),
    };
    let mut inner = JsonValue::Str("leaf".to_string());
    for _ in 0..300 {
        inner = JsonValue::Array(vec![inner]);
    }
    let meta = JsonValue::Object(vec![
        JsonMember { key: "title".to_string(), value: JsonValue::Str("Deep Doc".to_string()) },
        JsonMember { key: "nested".to_string(), value: inner },
    ]);
    let asset = SiteAsset { meta: Some(meta), ast: vec![] };
    match engine.render_html(&asset, "t") {
        Ok(s) => assert_eq!(s, "deep-doc"),
        Err(e) => panic!("{}", e.to_string()),
    }
}

#[test]
fn html_and_typst_rendering_fail_alike() {
    let engine = match RenderEngine::builder()
        .build_with_templates(vec![("t".to_string(), "{{ body | no_such_filter }}".to_string())])
    {
        Ok(e) => e,
        Err(e) => panic!("{}", e.to_string()),
    };
    let asset = SiteAsset { meta: None, ast: vec![] };
    let html = engine.render_html(&asset, "t");
    let typst = engine.render_typst_string(&asset, "t");
    match (html, typst) {
        (Err(RenderError::TeraRender(a)), Err(RenderError::TeraRender(b))) => {
            assert_eq!(a, b);
            assert!(a.contains("no_such_filter"), "{}", a);
        }
        other => panic!("{:?}", other),
    }
    match (engine.render_html(&asset, "absent"), engine.render_typst_string(&asset, "absent")) {
        (Err(RenderError::TeraRender(a)), Err(RenderError::TeraRender(b))) => assert_eq!(a, b),
        other => panic!("{:?}", other),
    }
}
