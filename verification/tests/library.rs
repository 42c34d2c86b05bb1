use pdf_agent::builder::{DocumentBuilder, TextDocumentBuilder};
use pdf_agent::config::PipelineConfig;
use pdf_agent::context::PipelineContext;
use pdf_agent::converter::{CancelCheck, PdfConverter, ProcessorKind};
use pdf_agent::diff::{diff_rows, rows_of_changes, ChangeKind};
use pdf_agent::document::{Document, Metadata};
use pdf_agent::error::Error;
use pdf_agent::feedback::{
    apply_feedback, estimated_tokens, feedback_prompt, system_prompt, usage_day_key,
    FEEDBACK_MAX_TOKENS,
};
use pdf_agent::json::push_json_string;
use pdf_agent::job::{outcome_event, JobEvent, PipelineStage, ProgressReporter};
use pdf_agent::jobs::{ActiveJob, JobRegistry};
use pdf_agent::predictors::{LayoutPredictor, OcrPredictor};
use pdf_agent::processors::heading::{is_bold_lowercase, HeadingProcessor};
use pdf_agent::processors::line_merge::LineMergeProcessor;
use pdf_agent::processors::list::ListProcessor;
use pdf_agent::processors::DocumentProcessor;
use pdf_agent::providers::{DocumentProvider, OcrService, PageImage, ServiceRegistry};
use pdf_agent::renderers::html::html_escape;
use pdf_agent::renderers::markdown::MarkdownRenderer;
use pdf_agent::schema::{BBox, Block, BlockType, Line, Page, Span};

fn ctx() -> PipelineContext {
    PipelineContext::new(PipelineConfig::default(), ServiceRegistry::new())
}

fn block(id: &str, text: &str, btype: BlockType, bbox: BBox, lines: Vec<Line>) -> Block {
    Block::new(id.to_string(), bbox, btype, text.to_string(), lines)
}

fn line(text: &str, font: &str, size: i64, bbox: BBox) -> Line {
    Line::new(vec![Span::new(text.to_string(), font.to_string(), size, bbox, vec![])], bbox)
}

fn three_block_doc() -> Document {
    let b = BBox::new(0, 0, 1000, 1000);
    let blocks = vec![
        block("a", "first", BlockType::Text, b, vec![]),
        block("b", "second", BlockType::Text, b, vec![]),
        block("c", "third", BlockType::Text, b, vec![]),
    ];
    Document::new("doc.pdf".to_string(), vec![Page::new(0, 80000, 60000, blocks)])
}

#[test]
fn update_then_find_gives_the_new_text() {
    let mut d = three_block_doc();
    assert!(d.update_block_text("b", "changed"));
    let (prev, target, next) = d.find_block_with_context("b").unwrap();
    assert_eq!(target.text, "changed");
    assert_eq!(prev.unwrap().text, "first");
    assert_eq!(next.unwrap().text, "third");
    assert!(!d.update_block_text("zz", "x"));
    assert!(d.find_block_with_context("zz").is_none());
}

#[test]
fn metadata_reads_what_was_written() {
    let mut m = Metadata::new();
    m.insert("k".to_string(), "1".to_string());
    m.insert("j".to_string(), "2".to_string());
    m.insert("k".to_string(), "3".to_string());
    assert_eq!(m.get("k").map(|s| s.as_str()), Some("3"));
    assert_eq!(m.get("j").map(|s| s.as_str()), Some("2"));
    assert!(m.get("x").is_none());
    assert!(m.contains_key("j"));
}

#[test]
fn feedback_prompt_quotes_the_neighbours() {
    let d = three_block_doc();
    let p = feedback_prompt(&d, "a", "Fix it").unwrap();
    assert_eq!(
        p.user_prompt,
        "Context:\n- Previous Block: [None]\n- Target Block: first\n- Next Block: second\n\nUser Feedback: Fix it\n\nCorrected Target Block text:"
    );
    assert_eq!(p.max_tokens, FEEDBACK_MAX_TOKENS);
    assert!(!p.json_mode);
    assert_eq!(p.system_prompt, system_prompt());
    assert!(feedback_prompt(&d, "missing", "x").is_none());
}

#[test]
fn applying_feedback_rewrites_one_block() {
    let d = three_block_doc();
    let (md, d2) = apply_feedback(d, "c", "3rd");
    assert_eq!(d2.pages[0].blocks[2].text, "3rd");
    assert_eq!(d2.pages[0].blocks[0].text, "first");
    assert_eq!(md, MarkdownRenderer.render_markdown(&d2));
    assert!(md.contains("3rd"));
}

#[test]
fn token_estimate_counts_bytes() {
    let sys = system_prompt().len() as i64;
    assert_eq!(estimated_tokens("abcd"), (4 + sys) / 4);
    assert_eq!(estimated_tokens("é"), (2 + sys) / 4);
    assert_eq!(usage_day_key(Some(3 * 86400 + 5)), "day_3");
    assert_eq!(usage_day_key(None), "today");
}

#[test]
fn diff_rows_mark_each_line() {
    let rows = diff_rows("a\nb\nc\n", "a\nB\nc\n");
    let texts: Vec<&str> = rows.iter().map(|r| r.text.as_str()).collect();
    assert_eq!(texts, vec!["  a", "- b", "+ B", "  c"]);
    assert_eq!(rows[1].kind, ChangeKind::Delete);
    assert_eq!(rows[2].kind, ChangeKind::Insert);
    assert!(diff_rows("", "").is_empty());
}

#[test]
fn job_registry_cancels_once() {
    let mut r: JobRegistry<u32> = JobRegistry::new();
    r.insert("job_1".to_string(), ActiveJob { cancel_token: 7 });
    r.insert("job_2".to_string(), ActiveJob { cancel_token: 8 });
    assert!(r.contains("job_1"));
    let first = r.remove("job_1");
    assert_eq!(first.map(|j| j.cancel_token), Some(7));
    assert!(r.remove("job_1").is_none());
    assert!(r.contains("job_2"));
    r.insert("job_2".to_string(), ActiveJob { cancel_token: 9 });
    assert_eq!(r.remove("job_2").map(|j| j.cancel_token), Some(9));
    assert!(!r.contains("job_2"));
}

#[test]
fn bold_font_names_match_in_any_case() {
    let bb = BBox::new(0, 0, 10000, 1200);
    let heading = block(
        "h",
        "Results",
        BlockType::Text,
        bb,
        vec![line("Results", "Arial-BOLD", 1200, bb)],
    );
    let plain = block("p", "Results", BlockType::Text, bb, vec![line("Results", "Arial", 1200, bb)]);
    let big = block("g", "Title", BlockType::Text, bb, vec![line("Title", "Arial", 1600, bb)]);
    let mut d = Document::new("d".to_string(), vec![Page::new(0, 80000, 60000, vec![heading, plain, big])]);
    HeadingProcessor.process(&mut d, &ctx()).unwrap();
    assert_eq!(d.pages[0].blocks[0].block_type, BlockType::Heading3);
    assert_eq!(d.pages[0].blocks[1].block_type, BlockType::Text);
    assert_eq!(d.pages[0].blocks[2].block_type, BlockType::Heading1);
}

#[test]
fn list_processing_twice_changes_nothing() {
    let b = BBox::new(0, 0, 1000, 1000);
    let mut d = Document::new(
        "d".to_string(),
        vec![Page::new(0, 80000, 60000, vec![block("a", "- item", BlockType::Text, b, vec![])])],
    );
    ListProcessor.process(&mut d, &ctx()).unwrap();
    assert_eq!(d.pages[0].blocks[0].block_type, BlockType::ListItem);
    assert_eq!(d.pages[0].blocks[0].text, "item");
    ListProcessor.process(&mut d, &ctx()).unwrap();
    assert_eq!(d.pages[0].blocks[0].block_type, BlockType::ListItem);
    assert_eq!(d.pages[0].blocks[0].text, "item");
}

#[test]
fn line_merge_keeps_every_line() {
    let b1 = BBox::new(0, 1000, 10000, 2200);
    let b2 = BBox::new(0, 0, 10000, 1000);
    let l1 = line("one", "A", 1000, b1);
    let l2 = line("two", "A", 1000, b2);
    let mut d = Document::new(
        "d".to_string(),
        vec![Page::new(
            0,
            80000,
            60000,
            vec![
                block("a", "one", BlockType::Text, b1, vec![l1]),
                block("b", "two", BlockType::Text, b2, vec![l2]),
            ],
        )],
    );
    LineMergeProcessor.process(&mut d, &ctx()).unwrap();
    assert_eq!(d.pages[0].blocks.len(), 1);
    assert_eq!(d.pages[0].blocks[0].text, "one two");
    let texts: Vec<String> = d.pages[0].blocks[0].lines.iter().map(|l| l.text()).collect();
    assert_eq!(texts, vec!["one", "two"]);
    assert_eq!(d.pages[0].blocks[0].id, "a");
}

#[test]
fn html_escape_leaves_no_markup() {
    let e = html_escape("<a href=\"x\">'&'</a>");
    assert_eq!(e, "&lt;a href=&quot;x&quot;&gt;&#39;&amp;&#39;&lt;/a&gt;");
    assert!(!e.contains('<') && !e.contains('>') && !e.contains('"') && !e.contains('\''));
}

#[test]
fn error_messages() {
    assert_eq!(Error::Cancelled.message(), "Job cancelled");
    assert_eq!(Error::Io("disk".to_string()).message(), "I/O error: disk");
    assert_eq!(
        Error::Pipeline { stage: "Rendering".to_string(), message: "bad".to_string() }.message(),
        "Pipeline error at stage Rendering: bad"
    );
}

struct FakePdf {
    texts: Vec<&'static str>,
}

impl DocumentProvider for FakePdf {
    fn page_count(&self) -> Result<usize, Error> {
        Ok(self.texts.len())
    }

    fn page_size(&self, _page_index: usize) -> Result<(i64, i64), Error> {
        Ok((61200, 79200))
    }

    fn render_page(&self, _page_index: usize, _dpi: u32) -> Result<PageImage, Error> {
        Ok(PageImage { width: 1, height: 1, bytes: vec![0, 0, 0, 0] })
    }

    fn extract_native_text(&self, page_index: usize) -> Result<Vec<Line>, Error> {
        let t = self.texts[page_index];
        if t.is_empty() {
            Ok(vec![])
        } else {
            let bb = BBox::new(7200, 7200 + 2000 * page_index as i64, 30000, 8400);
            Ok(vec![line(t, "Helvetica", 1000, bb)])
        }
    }
}

struct Never;

impl CancelCheck for Never {
    fn is_cancelled(&self) -> bool {
        false
    }
}

struct Always;

impl CancelCheck for Always {
    fn is_cancelled(&self) -> bool {
        true
    }
}

/// A signal raised after it has been asked a given number of times.
struct RaisedAfter {
    asked: std::cell::Cell<usize>,
    limit: usize,
}

impl CancelCheck for RaisedAfter {
    fn is_cancelled(&self) -> bool {
        let n = self.asked.get() + 1;
        self.asked.set(n);
        n > self.limit
    }
}

/// The progress events waiting on a channel: job id, stage, page, pages.
fn drain(rx: &mut tokio::sync::mpsc::UnboundedReceiver<JobEvent>) -> Vec<(String, PipelineStage, usize, usize)> {
    let mut out = vec![];
    while let Ok(event) = rx.try_recv() {
        match event {
            JobEvent::Progress(p) => out.push((p.job_id, p.stage, p.current_page, p.total_pages)),
            _ => panic!("expected progress"),
        }
    }
    out
}

#[test]
fn builder_makes_one_block_per_line_with_ocr_fallback() {
    let pdf = FakePdf { texts: vec!["Hello", ""] };
    let d = TextDocumentBuilder.build(&pdf, &ctx()).unwrap();
    assert_eq!(d.file_name, "extracted_document");
    assert_eq!(d.pages[0].blocks[0].id, "p0_b0");
    assert_eq!(d.pages[0].blocks[0].text, "Hello");
    assert!(d.pages[1].blocks.is_empty());

    let mut registry = ServiceRegistry::new();
    registry.register_ocr(OcrService::new(Box::new(OcrPredictor::new())));
    let with_ocr = PipelineContext::new(PipelineConfig::default(), registry);
    let d = TextDocumentBuilder.build(&pdf, &with_ocr).unwrap();
    assert_eq!(d.pages[1].blocks[0].id, "p1_b0");
    assert_eq!(d.pages[1].blocks[0].text, "Scanned page content recognized via OCR pipeline");
    let _ = LayoutPredictor::new();
}

#[test]
fn conversion_runs_the_default_pipeline() {
    let pdf = FakePdf { texts: vec!["- first point", "Plain words here"] };
    let (tx, mut rx) = tokio::sync::mpsc::unbounded_channel();
    let mut progress = ProgressReporter::new("job_9".to_string(), Some(tx));
    let (md, d) = PdfConverter::new().convert(&pdf, &ctx(), &Never, &mut progress).unwrap();
    assert_eq!(d.pages[0].blocks[0].block_type, BlockType::ListItem);
    assert!(md.contains("* first point"));
    assert!(md.contains("Plain words here"));
    let j = "job_9".to_string();
    assert_eq!(
        drain(&mut rx),
        vec![
            (j.clone(), PipelineStage::LoadingPdf, 0, 2),
            (j.clone(), PipelineStage::RunningProcessors, 0, 2),
            (j.clone(), PipelineStage::Rendering, 2, 2)
        ]
    );
    let r = PdfConverter::new().convert(&pdf, &ctx(), &Always, &mut progress);
    assert!(matches!(r, Err(Error::Cancelled)));
    assert!(drain(&mut rx).is_empty());
}

#[test]
fn a_chosen_pipeline_runs_in_order() {
    let c = PdfConverter::with_processors(vec![ProcessorKind::List, ProcessorKind::Equation]);
    let b = BBox::new(0, 0, 1000, 1000);
    let d = Document::new(
        "d".to_string(),
        vec![Page::new(0, 80000, 60000, vec![block("a", "$$ x $$", BlockType::Text, b, vec![])])],
    );
    let (md, d) = c.process_document(d, &ctx()).unwrap();
    assert_eq!(d.pages[0].blocks[0].block_type, BlockType::Equation);
    assert!(md.contains("$$ x $$"));
}

struct BrokenPdf;

impl DocumentProvider for BrokenPdf {
    fn page_count(&self) -> Result<usize, Error> {
        Err(Error::Pdf("damaged xref".to_string()))
    }

    fn page_size(&self, _page_index: usize) -> Result<(i64, i64), Error> {
        Err(Error::Pdf("no page".to_string()))
    }

    fn render_page(&self, _page_index: usize, _dpi: u32) -> Result<PageImage, Error> {
        Err(Error::Pdf("no page".to_string()))
    }

    fn extract_native_text(&self, _page_index: usize) -> Result<Vec<Line>, Error> {
        Err(Error::Pdf("no page".to_string()))
    }
}

#[test]
fn a_broken_pdf_fails_the_conversion() {
    let (tx, mut rx) = tokio::sync::mpsc::unbounded_channel();
    let mut progress = ProgressReporter::new("j".to_string(), Some(tx));
    match PdfConverter::new().convert(&BrokenPdf, &ctx(), &Never, &mut progress) {
        Err(e) => assert_eq!(e.message(), "PDF processing error: damaged xref"),
        Ok(_) => panic!("expected an error"),
    }
    assert!(drain(&mut rx).is_empty());
}

#[test]
fn every_error_has_its_message() {
    let cases = vec![
        (Error::Io("a".to_string()), "I/O error: a"),
        (Error::Serialization("b".to_string()), "Serialization error: b"),
        (Error::Database("c".to_string()), "Database error: c"),
        (Error::Pdf("d".to_string()), "PDF processing error: d"),
        (Error::Inference("e".to_string()), "Inference/OCR error: e"),
        (Error::Llm("f".to_string()), "LLM Service error: f"),
        (Error::Cancelled, "Job cancelled"),
        (Error::General("g".to_string()), "General error: g"),
    ];
    for (e, m) in cases {
        assert_eq!(e.message(), m);
    }
}

#[test]
fn job_outcomes_become_events() {
    match outcome_event("j".to_string(), Err(Error::Cancelled)) {
        JobEvent::Failed { job_id, error } => {
            assert_eq!(job_id, "j");
            assert_eq!(error, "Job cancelled");
        }
        _ => panic!("expected a failure"),
    }
    let d = three_block_doc();
    match outcome_event("j".to_string(), Ok(("md".to_string(), d))) {
        JobEvent::Finished { job_id, markdown, document } => {
            assert_eq!(job_id, "j");
            assert_eq!(markdown, "md");
            assert_eq!(document.pages[0].blocks.len(), 3);
        }
        _ => panic!("expected a finish"),
    }
}

#[test]
fn the_mock_provider_is_named_mock() {
    assert!(pdf_agent::feedback::uses_mock_llm("mock"));
    assert!(!pdf_agent::feedback::uses_mock_llm("openai"));
}

#[test]
fn rows_from_given_changes() {
    let changes = vec![
        (ChangeKind::Equal, "same\n".to_string()),
        (ChangeKind::Delete, "old\n\n".to_string()),
        (ChangeKind::Insert, "new".to_string()),
    ];
    let rows = rows_of_changes(&changes);
    let texts: Vec<&str> = rows.iter().map(|r| r.text.as_str()).collect();
    assert_eq!(texts, vec!["  same", "- old", "+ new"]);
}

#[test]
fn bold_words_in_lowercase_names() {
    assert!(is_bold_lowercase("arial-bold"));
    assert!(is_bold_lowercase("helveticabd"));
    assert!(is_bold_lowercase("roboto black"));
    assert!(!is_bold_lowercase("Arial-BOLD"));
    assert!(!is_bold_lowercase("times"));
}

fn ocr_context(mode: &str) -> PipelineContext {
    let mut registry = ServiceRegistry::new();
    registry.register_ocr(OcrService::new(Box::new(OcrPredictor::new())));
    let mut config = PipelineConfig::default();
    config.ocr_mode = mode.to_string();
    PipelineContext::new(config, registry)
}

#[test]
fn ocr_mode_decides_where_lines_come_from() {
    let pdf = FakePdf { texts: vec!["Hello", ""] };
    let ocr_text = "Scanned page content recognized via OCR pipeline";

    let d = TextDocumentBuilder.build(&pdf, &ocr_context("never")).unwrap();
    assert_eq!(d.pages[0].blocks[0].text, "Hello");
    assert!(d.pages[1].blocks.is_empty());

    let d = TextDocumentBuilder.build(&pdf, &ocr_context("always")).unwrap();
    assert_eq!(d.pages[0].blocks.len(), 1);
    assert_eq!(d.pages[0].blocks[0].text, ocr_text);
    assert_eq!(d.pages[1].blocks[0].text, ocr_text);

    let d = TextDocumentBuilder.build(&pdf, &ocr_context("auto")).unwrap();
    assert_eq!(d.pages[0].blocks[0].text, "Hello");
    assert_eq!(d.pages[1].blocks[0].text, ocr_text);

    let always_without_service = {
        let mut config = PipelineConfig::default();
        config.ocr_mode = "always".to_string();
        PipelineContext::new(config, ServiceRegistry::new())
    };
    let d = TextDocumentBuilder.build(&pdf, &always_without_service).unwrap();
    assert_eq!(d.pages[0].blocks[0].text, "Hello");
    assert!(d.pages[1].blocks.is_empty());
}

/// Decodes the entities that `html_escape` writes, left to right.
fn unescape(s: &str) -> String {
    let mut out = String::new();
    let mut rest = s;
    while let Some(c) = rest.chars().next() {
        let entities = [("&amp;", '&'), ("&lt;", '<'), ("&gt;", '>'), ("&quot;", '"'), ("&#39;", '\'')];
        match entities.iter().find(|(e, _)| rest.starts_with(e)) {
            Some((e, d)) => {
                out.push(*d);
                rest = &rest[e.len()..];
            }
            None => {
                out.push(c);
                rest = &rest[c.len_utf8()..];
            }
        }
    }
    out
}

#[test]
fn html_escape_round_trips_and_keeps_plain_text() {
    for s in ["a & b <c> \"d\" 'e'", "&amp;lt;", "é — ü", ""] {
        assert_eq!(unescape(&html_escape(s)), s);
    }
    assert_eq!(html_escape("plain text, 123 é"), "plain text, 123 é");
}

#[test]
fn conversion_stops_at_the_check_after_the_build() {
    let pdf = FakePdf { texts: vec!["Plain words here"] };
    let (tx, mut rx) = tokio::sync::mpsc::unbounded_channel();
    let mut progress = ProgressReporter::new("job_3".to_string(), Some(tx));
    let signal = RaisedAfter { asked: std::cell::Cell::new(0), limit: 1 };
    let r = PdfConverter::new().convert(&pdf, &ctx(), &signal, &mut progress);
    assert!(matches!(r, Err(Error::Cancelled)));
    assert_eq!(drain(&mut rx), vec![("job_3".to_string(), PipelineStage::LoadingPdf, 0, 1)]);
    assert_eq!(signal.asked.get(), 2);
}

#[test]
fn default_converter_runs_the_default_pipeline() {
    let pdf = FakePdf { texts: vec!["- first point", "Plain words here"] };
    let mut progress = ProgressReporter::new("job_4".to_string(), None);
    let (md_default, d_default) = PdfConverter::default().convert(&pdf, &ctx(), &Never, &mut progress).unwrap();
    let (md_new, d_new) = PdfConverter::new().convert(&pdf, &ctx(), &Never, &mut progress).unwrap();
    assert_eq!(md_default, md_new);
    assert_eq!(d_default.pages[0].blocks[0].block_type, BlockType::ListItem);
    assert_eq!(d_new.pages[0].blocks[0].block_type, BlockType::ListItem);
}

#[test]
fn escaped_html_decodes_back_by_replacement() {
    let s = "a < b && c > \"d\" 'e' &lt; &amp;";
    let e = html_escape(s);
    assert!(!e.contains('<') && !e.contains('>') && !e.contains('"') && !e.contains('\''));
    let back = e
        .replace("&lt;", "<")
        .replace("&gt;", ">")
        .replace("&quot;", "\"")
        .replace("&#39;", "'")
        .replace("&amp;", "&");
    assert_eq!(back, s);
}

#[test]
fn json_strings_are_escaped_as_stated() {
    let mut out = "x=".to_string();
    push_json_string(&mut out, "a\"b\\c\n\t\u{8}\u{c}\r\u{1}\u{1f}é");
    assert_eq!(out, "x=\"a\\\"b\\\\c\\n\\t\\b\\f\\r\\u0001\\u001fé\"");
}
