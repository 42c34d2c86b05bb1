use pdf_agent::config::PipelineConfig;
use pdf_agent::context::PipelineContext;
use pdf_agent::document::Document;
use pdf_agent::processors::equation::EquationProcessor;
use pdf_agent::processors::order::OrderProcessor;
use pdf_agent::processors::table_merge::TableMergeProcessor;
use pdf_agent::processors::toc::TocProcessor;
use pdf_agent::processors::DocumentProcessor;
use pdf_agent::providers::ServiceRegistry;
use pdf_agent::renderers::html::HtmlRenderer;
use pdf_agent::renderers::DocumentRenderer;
use pdf_agent::schema::{BBox, Block, BlockType, Page};

/// Points to the hundredths of a point in which the library measures.
fn pt(v: f64) -> i64 {
    (v * 100.0).round() as i64
}

fn ctx() -> PipelineContext {
    PipelineContext::new(PipelineConfig::default(), ServiceRegistry::new())
}

fn text_block(id: &str, text: &str) -> Block {
    Block::new(
        id.to_string(),
        BBox::new(pt(0.0), pt(0.0), pt(10.0), pt(10.0)),
        BlockType::Text,
        text.to_string(),
        vec![],
    )
}

fn typed_block(id: &str, text: &str, btype: BlockType) -> Block {
    Block::new(
        id.to_string(),
        BBox::new(pt(0.0), pt(0.0), pt(10.0), pt(10.0)),
        btype,
        text.to_string(),
        vec![],
    )
}

fn positioned_block(id: &str, x0: f64, y0: f64) -> Block {
    Block::new(
        id.to_string(),
        BBox::new(pt(x0), pt(y0), pt(x0 + 10.0), pt(y0 + 10.0)),
        BlockType::Text,
        "test".to_string(),
        vec![],
    )
}

#[test]
fn test_equation_processor() {
    let b1 = text_block("1", "$$ x^2 + y^2 = r^2 $$");
    let b2 = text_block("2", "\\[ E = mc^2 \\]");
    let b3 = text_block("3", "This is normal text $$ inline $$ test.");

    let page = Page::new(0, pt(800.0), pt(600.0), vec![b1, b2, b3]);
    let mut doc = Document::new("test.pdf".to_string(), vec![page]);
    let ctx = ctx();

    let processor = EquationProcessor;
    processor.process(&mut doc, &ctx).unwrap();

    assert_eq!(doc.pages[0].blocks[0].block_type, BlockType::Equation);
    assert_eq!(doc.pages[0].blocks[1].block_type, BlockType::Equation);
    assert_eq!(doc.pages[0].blocks[2].block_type, BlockType::Text);
}

#[test]
fn test_order_processor() {
    let b1 = positioned_block("b1", 100.0, 50.0);
    let b2 = positioned_block("b2", 10.0, 50.0);
    let b3 = positioned_block("b3", 10.0, 100.0);
    let b4 = positioned_block("b4", 50.0, 52.0);

    let page = Page::new(0, pt(800.0), pt(600.0), vec![b1, b2, b3, b4]);
    let mut doc = Document::new("test.pdf".to_string(), vec![page]);
    let ctx = ctx();

    let processor = OrderProcessor;
    processor.process(&mut doc, &ctx).unwrap();

    let ordered_ids: Vec<String> = doc.pages[0].blocks.iter().map(|b| b.id.clone()).collect();
    assert_eq!(ordered_ids, vec!["b2", "b4", "b1", "b3"]);
}

#[test]
fn test_table_merge_processor() {
    let b1 = typed_block("1", "Text", BlockType::Text);
    let b2 = typed_block("2", "Table Part 1", BlockType::Table);
    let page1 = Page::new(0, pt(800.0), pt(600.0), vec![b1, b2]);

    let b3 = typed_block("3", "Table Part 2", BlockType::Table);
    let b4 = typed_block("4", "More Text", BlockType::Text);
    let page2 = Page::new(1, pt(800.0), pt(600.0), vec![b3, b4]);

    let mut doc = Document::new("test.pdf".to_string(), vec![page1, page2]);
    let ctx = ctx();

    let processor = TableMergeProcessor;
    processor.process(&mut doc, &ctx).unwrap();

    assert_eq!(doc.pages[0].blocks[1].text, "Table Part 1\nTable Part 2");
    assert_eq!(doc.pages[0].blocks[1].block_type, BlockType::Table);

    assert_eq!(doc.pages[1].blocks[0].text, "");
    assert_eq!(doc.pages[1].blocks[0].block_type, BlockType::Unknown);
}

#[test]
fn test_toc_processor() {
    let b1 = typed_block("1", "Introduction", BlockType::Heading1);
    let b2 = typed_block("2", "Background", BlockType::Heading2);
    let b3 = typed_block("3", "Some text", BlockType::Text);

    let page1 = Page::new(0, pt(800.0), pt(600.0), vec![b1, b2, b3]);
    let page2 = Page::new(
        1,
        pt(800.0),
        pt(600.0),
        vec![typed_block("4", "Conclusion", BlockType::Heading1)],
    );

    let mut doc = Document::new("test.pdf".to_string(), vec![page1, page2]);
    let ctx = ctx();

    let processor = TocProcessor;
    processor.process(&mut doc, &ctx).unwrap();

    assert!(doc.metadata.contains_key("toc_json"));
    let toc_json = doc.metadata.get("toc_json").unwrap();
    let parsed: serde_json::Value = serde_json::from_str(toc_json).unwrap();
    let parsed = parsed.as_array().unwrap();

    assert_eq!(parsed.len(), 3);
    assert_eq!(parsed[0]["title"], "Introduction");
    assert_eq!(parsed[0]["level"], 1);
    assert_eq!(parsed[0]["page_index"], 0);

    assert_eq!(parsed[1]["title"], "Background");
    assert_eq!(parsed[1]["level"], 2);

    assert_eq!(parsed[2]["title"], "Conclusion");
    assert_eq!(parsed[2]["level"], 1);
    assert_eq!(parsed[2]["page_index"], 1);
}

#[test]
fn test_html_renderer() {
    let b1 = typed_block("1", "Title", BlockType::Heading1);
    let b2 = typed_block("2", "Some <text> & symbols", BlockType::Text);
    let page1 = Page::new(0, pt(800.0), pt(600.0), vec![b1, b2]);

    let doc = Document::new("test.pdf".to_string(), vec![page1]);
    let ctx = ctx();

    let renderer = HtmlRenderer;
    let html = renderer.render(&doc, &ctx).unwrap();

    assert!(html.contains("<h1>Title</h1>"));
    assert!(html.contains("<p>Some &lt;text&gt; &amp; symbols</p>"));
    assert!(html.contains("<!DOCTYPE html>"));
}

#[test]
fn toc_titles_survive_json_escaping() {
    let title = "Say \"hi\" \\ tab\there é \u{1}";
    let page = Page::new(0, pt(800.0), pt(600.0), vec![typed_block("1", title, BlockType::Heading2)]);
    let mut doc = Document::new("t.pdf".to_string(), vec![page]);
    TocProcessor.process(&mut doc, &ctx()).unwrap();
    let toc_json = doc.metadata.get("toc_json").unwrap();
    let parsed: serde_json::Value = serde_json::from_str(toc_json).unwrap();
    assert_eq!(parsed[0]["title"], title);
    assert_eq!(parsed[0]["level"], 2);
    let expected = serde_json::to_string(title).unwrap();
    assert!(toc_json.contains(&expected));
}

#[test]
fn no_headings_no_toc() {
    let page = Page::new(0, pt(800.0), pt(600.0), vec![text_block("1", "body")]);
    let mut doc = Document::new("t.pdf".to_string(), vec![page]);
    TocProcessor.process(&mut doc, &ctx()).unwrap();
    assert!(!doc.metadata.contains_key("toc_json"));
}
