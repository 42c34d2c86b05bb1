use pdf_agent::app_state::{
    default_export_name, event_message, export_name_for, loaded_title, no_file_message, pdf_opened_message,
    render_result_message, Action, AppState, MainState, Message, Route, MAX_HISTORY_DEPTH,
};
use pdf_agent::error::Error;
use pdf_agent::job::JobEvent;
use pdf_agent::providers::PageImage;
use pdf_agent::document::Document;
use pdf_agent::schema::{BBox, Block, BlockType, Page};
use pdf_agent::ui::{
    block_label, can_submit_feedback, capitalize, capitalized_with, feedback_placeholder, format_limit,
    history_buttons, next_page, page_caption, page_preview, previous_page, right_pane,
    selection_after_click, status_bar_text, status_label, status_tone, toolbar_flags,
    toolbar_items, version_caption, PagePreview, RightPane, StatusTone, ToolbarItem,
};

fn doc_with_text(text: &str) -> Document {
    let block = Block::new(
        "p0_b0".to_string(),
        BBox::new(0, 0, 1000, 1000),
        BlockType::Text,
        text.to_string(),
        vec![],
    );
    Document::new(
        "extracted_document".to_string(),
        vec![Page::new(0, 80000, 60000, vec![block])],
    )
}

fn loaded_state() -> AppState {
    let mut s = AppState::new();
    let a = s.handle_message(
        Message::PdfLoaded { path: "/data/report.pdf".to_string(), page_count: 3 },
        0,
    );
    assert!(matches!(a, Action::RenderPage { page_index: 0, dpi: 150, .. }));
    s
}

fn converted_state() -> AppState {
    let mut s = loaded_state();
    s.handle_message(
        Message::JobFinished {
            job_id: "job_1".to_string(),
            markdown: "v0".to_string(),
            document: doc_with_text("v0"),
        },
        0,
    );
    s
}

fn markdown_shown(s: &AppState) -> String {
    match &s.main_state {
        MainState::Converted { markdown, .. } => markdown.clone(),
        _ => panic!("not converted"),
    }
}

#[test]
fn new_state_has_the_default_settings() {
    let s = AppState::new();
    assert_eq!(s.route, Route::Main);
    assert!(matches!(s.main_state, MainState::Empty));
    assert_eq!(s.config.ocr_mode, "auto");
    assert_eq!(s.config.output_format, "markdown");
    assert_eq!(s.config.llm.provider, "mock");
    assert_eq!(s.config.llm.model_name, "gpt-4o-mini");
    assert_eq!(s.config.llm.base_url, "https://api.openai.com/v1");
    assert_eq!(s.config.llm.daily_limit, 50000);
    assert_eq!(s.history.len(), 0);
    assert_eq!(s.title(), "PPT_Agent_Rust - PDF to Markdown Converter");
}

#[test]
fn title_names_the_loaded_file() {
    let s = loaded_state();
    assert_eq!(s.title(), "PPT_Agent_Rust — report.pdf");
}

#[test]
fn export_names_replace_the_pdf_extension() {
    assert_eq!(default_export_name("/data/report.pdf", ".md"), "report.md");
    assert_eq!(default_export_name("/data/report.pdf", ".json"), "report.json");
    assert_eq!(default_export_name("/data/notes", ".md"), "notes.md");
    assert_eq!(default_export_name("", ".md"), "document.md");
}

#[test]
fn convert_starts_a_job_named_by_the_clock() {
    let mut s = loaded_state();
    let a = s.handle_message(Message::ConvertClicked, 1_700_000_000_123);
    match a {
        Action::StartConversion { job_id, file_path, .. } => {
            assert_eq!(job_id, "job_1700000000123");
            assert_eq!(file_path, "/data/report.pdf");
        }
        _ => panic!("expected a conversion"),
    }
    assert_eq!(s.current_job_id.as_deref(), Some("job_1700000000123"));
}

#[test]
fn convert_without_a_file_does_nothing() {
    let mut s = AppState::new();
    let a = s.handle_message(Message::ConvertClicked, 5);
    assert!(matches!(a, Action::NoOp));
    assert!(s.current_job_id.is_none());
}

#[test]
fn cancel_returns_to_the_loaded_pdf() {
    let mut s = loaded_state();
    s.handle_message(Message::ConvertClicked, 7);
    let a = s.handle_message(Message::CancelClicked, 8);
    match a {
        Action::CancelJob { job_id } => assert_eq!(job_id, "job_7"),
        _ => panic!("expected a cancel"),
    }
    assert!(matches!(s.main_state, MainState::PdfLoaded { page_count: 0, .. }));
}

#[test]
fn page_changes_stay_within_the_document() {
    let mut s = loaded_state();
    let a = s.handle_message(Message::PageChanged(2), 0);
    assert!(matches!(a, Action::RenderPage { page_index: 2, .. }));
    assert_eq!(s.current_page_index, 2);
    let a = s.handle_message(Message::PageChanged(3), 0);
    assert!(matches!(a, Action::NoOp));
    assert_eq!(s.current_page_index, 2);
}

#[test]
fn history_stays_within_its_depth() {
    let mut s = converted_state();
    for k in 1..30 {
        let md = format!("v{}", k);
        s.handle_message(Message::LlmFeedbackResult(Ok((md.clone(), doc_with_text(&md)))), 0);
        assert!(s.diff_mode);
        assert_eq!(s.patch_preview.as_deref(), Some(md.as_str()));
        s.handle_message(Message::AcceptPatchClicked, 0);
        assert!(s.history.len() <= MAX_HISTORY_DEPTH);
        assert!(s.history_index < s.history.len());
        assert_eq!(markdown_shown(&s), md);
    }
    assert_eq!(s.history.len(), 20);
    assert_eq!(s.history_index, 19);
}

#[test]
fn undo_then_redo_shows_the_same_version() {
    let mut s = converted_state();
    for k in 1..4 {
        let md = format!("v{}", k);
        s.handle_message(Message::LlmFeedbackResult(Ok((md.clone(), doc_with_text(&md)))), 0);
        s.handle_message(Message::AcceptPatchClicked, 0);
    }
    assert_eq!(s.history_index, 3);
    s.handle_message(Message::UndoClicked, 0);
    assert_eq!(s.history_index, 2);
    assert_eq!(markdown_shown(&s), "v2");
    s.handle_message(Message::RedoClicked, 0);
    assert_eq!(s.history_index, 3);
    assert_eq!(markdown_shown(&s), "v3");
    s.handle_message(Message::RedoClicked, 0);
    assert_eq!(s.history_index, 3);
}

#[test]
fn rejecting_a_patch_drops_it() {
    let mut s = converted_state();
    s.handle_message(Message::LlmFeedbackResult(Ok(("v1".to_string(), doc_with_text("v1")))), 0);
    assert_eq!(s.history.len(), 2);
    s.handle_message(Message::RejectPatchClicked, 0);
    assert_eq!(s.history.len(), 1);
    assert!(!s.diff_mode);
    assert!(s.patch_preview.is_none());
    assert_eq!(markdown_shown(&s), "v0");
}

#[test]
fn feedback_is_sent_for_the_selected_block() {
    let mut s = converted_state();
    s.handle_message(Message::FeedbackInputChanged("fix typo".to_string()), 0);
    let a = s.handle_message(Message::SubmitFeedbackClicked, 0);
    assert!(matches!(a, Action::NoOp));
    s.handle_message(Message::BlockSelected(Some("p0_b0".to_string())), 0);
    let a = s.handle_message(Message::SubmitFeedbackClicked, 0);
    match a {
        Action::SubmitFeedback { block_id, feedback, .. } => {
            assert_eq!(block_id, "p0_b0");
            assert_eq!(feedback, "fix typo");
        }
        _ => panic!("expected a request"),
    }
    assert_eq!(s.feedback_input, "");
}

#[test]
fn errors_are_reported_with_their_prefix() {
    let mut s = converted_state();
    s.handle_message(Message::LlmFeedbackResult(Err("timeout".to_string())), 0);
    assert_eq!(s.image_error.as_deref(), Some("LLM Feedback error: timeout"));
    s.handle_message(Message::ExportCompleted(Err("denied".to_string())), 0);
    assert_eq!(s.image_error.as_deref(), Some("Export failed: denied"));
    let a = s.handle_message(Message::ExportCompleted(Ok("/tmp/x.md".to_string())), 0);
    match a {
        Action::Report(m) => assert_eq!(m, "Exported successfully to /tmp/x.md"),
        _ => panic!("expected a report"),
    }
}

#[test]
fn settings_messages_update_the_config() {
    let mut s = AppState::new();
    s.handle_message(Message::LlmLimitChanged("1234".to_string()), 0);
    assert_eq!(s.config.llm.daily_limit, 1234);
    s.handle_message(Message::LlmLimitChanged("12a".to_string()), 0);
    assert_eq!(s.config.llm.daily_limit, 1234);
    s.handle_message(Message::LlmLimitChanged("-7".to_string()), 0);
    assert_eq!(s.config.llm.daily_limit, -7);
    s.handle_message(Message::OcrModeChanged("never".to_string()), 0);
    assert_eq!(s.config.ocr_mode, "never");
    s.handle_message(Message::LlmKeyChanged("k".to_string()), 0);
    let a = s.handle_message(Message::SaveSettingsClicked, 0);
    match a {
        Action::SaveSettings { provider, api_key } => {
            assert_eq!(provider, "mock");
            assert_eq!(api_key, "k");
        }
        _ => panic!("expected a save"),
    }
}

#[test]
fn export_uses_the_converted_file_name() {
    let mut s = converted_state();
    match s.handle_message(Message::ExportMarkdownClicked, 0) {
        Action::ExportMarkdown { markdown, file_name } => {
            assert_eq!(markdown, "v0");
            assert_eq!(file_name, "report.md");
        }
        _ => panic!("expected an export"),
    }
    match s.handle_message(Message::ExportJsonClicked, 0) {
        Action::ExportJson { file_name, .. } => assert_eq!(file_name, "report.json"),
        _ => panic!("expected an export"),
    }
}

#[test]
fn capitalize_uses_the_unicode_mapping() {
    assert_eq!(capitalize("auto"), "Auto");
    assert_eq!(capitalize("markdown"), "Markdown");
    assert_eq!(capitalize(""), "");
    assert_eq!(capitalize("ßx"), "SSx");
}

#[test]
fn limits_are_shown_in_thousands() {
    assert_eq!(format_limit(50000), "50k");
    assert_eq!(format_limit(1000), "1k");
    assert_eq!(format_limit(1999), "1k");
    assert_eq!(format_limit(999), "999");
    assert_eq!(format_limit(-3), "-3");
}

#[test]
fn status_bar_texts() {
    let s = AppState::new();
    let t = status_bar_text(&s.main_state, "auto", "markdown", 50000);
    assert_eq!(t.label, "Ready");
    assert_eq!(t.ocr, "OCR: Auto");
    assert_eq!(t.output, "Output: Markdown");
    assert_eq!(t.quota, "Quota: 0/50k");
    assert_eq!(status_tone(&s.main_state), StatusTone::Green);
    let failed = MainState::Failed { file_path: None, error: "x".to_string() };
    assert_eq!(status_label(&failed), "Failed");
    assert_eq!(status_tone(&failed), StatusTone::Red);
}

#[test]
fn toolbar_follows_the_state() {
    assert_eq!(toolbar_items(false, false, false), vec![ToolbarItem::OpenPdf]);
    assert_eq!(toolbar_items(true, false, false), vec![ToolbarItem::OpenPdf, ToolbarItem::Convert]);
    assert_eq!(toolbar_items(false, true, false), vec![ToolbarItem::Cancel]);
    assert_eq!(
        toolbar_items(true, false, true),
        vec![
            ToolbarItem::OpenPdf,
            ToolbarItem::Convert,
            ToolbarItem::Spacer,
            ToolbarItem::ExportMarkdown,
            ToolbarItem::ExportJson
        ]
    );
    let s = converted_state();
    assert_eq!(toolbar_flags(&s.main_state), (true, false, true));
    assert_eq!(toolbar_flags(&MainState::Empty), (false, false, false));
}

#[test]
fn feedback_box() {
    assert!(!can_submit_feedback("fix", None));
    assert!(!can_submit_feedback("  \n", Some("b")));
    assert!(can_submit_feedback(" fix ", Some("b")));
    assert_eq!(
        feedback_placeholder(None),
        "Select a block above to request LLM alignment..."
    );
    assert_eq!(feedback_placeholder(Some("p0_b1")), "Feedback on Block (ID: p0_b1)...");
    assert_eq!(feedback_placeholder(Some("p12_b3456")), "Feedback on Block (ID: p12_b345)...");
    assert_eq!(feedback_placeholder(Some("ééééé")), "Feedback on Block (ID: éééé)...");
}

#[test]
fn page_navigation() {
    assert_eq!(previous_page(0), None);
    assert_eq!(previous_page(2), Some(1));
    assert_eq!(next_page(1, 3), Some(2));
    assert_eq!(next_page(2, 3), None);
    assert_eq!(next_page(0, 0), None);
    assert_eq!(page_caption(0, 3), "Page 1 of 3");
    assert!(matches!(page_preview(0, true, None, true), PagePreview::NoDocument));
    assert!(matches!(page_preview(2, true, Some("e"), true), PagePreview::Rendering));
    match page_preview(2, false, Some("bad page"), true) {
        PagePreview::Failed(m) => assert_eq!(m, "Failed to render page: bad page"),
        _ => panic!("expected a failure"),
    }
    assert!(matches!(page_preview(2, false, None, true), PagePreview::Image));
    assert!(matches!(page_preview(2, false, None, false), PagePreview::NotRendered));
}

#[test]
fn history_controls() {
    assert_eq!(history_buttons(0, 1), (false, false));
    assert_eq!(history_buttons(1, 3), (true, true));
    assert_eq!(history_buttons(2, 3), (true, false));
    assert_eq!(version_caption(1, 3), "Version 2 / 3");
}

#[test]
fn right_pane_choice() {
    let s = converted_state();
    assert_eq!(right_pane(&s.main_state, false, false), RightPane::Blocks);
    assert_eq!(right_pane(&s.main_state, true, false), RightPane::Blocks);
    assert_eq!(right_pane(&s.main_state, true, true), RightPane::Diff);
    assert_eq!(right_pane(&MainState::Empty, true, true), RightPane::NoConversion);
}

#[test]
fn block_labels_are_one_line_and_cut() {
    let short = Block::new(
        "b".to_string(),
        BBox::new(0, 0, 1, 1),
        BlockType::Heading2,
        "a\nb".to_string(),
        vec![],
    );
    assert_eq!(block_label(&short), "[Heading2] a b");
    let long_text = "x".repeat(79) + "\nyyyy";
    let long = Block::new("b".to_string(), BBox::new(0, 0, 1, 1), BlockType::Text, long_text, vec![]);
    assert_eq!(block_label(&long), format!("[Text] {} ...", "x".repeat(79)));
}

#[test]
fn clicking_the_selected_block_clears_the_selection() {
    assert_eq!(selection_after_click(Some("a"), "a"), None);
    assert_eq!(selection_after_click(Some("a"), "b"), Some("b".to_string()));
    assert_eq!(selection_after_click(None, "b"), Some("b".to_string()));
}

#[test]
fn undo_at_the_first_version_does_nothing() {
    let mut s = converted_state();
    s.handle_message(Message::UndoClicked, 0);
    assert_eq!(s.history_index, 0);
    assert_eq!(markdown_shown(&s), "v0");
}

#[test]
fn job_events_become_messages() {
    match event_message(JobEvent::Started { job_id: "j".to_string() }) {
        Message::ConvertJobStarted(j) => assert_eq!(j, "j"),
        _ => panic!("expected a start"),
    }
    match event_message(JobEvent::Failed { job_id: "j".to_string(), error: "e".to_string() }) {
        Message::JobFailed { job_id, error } => {
            assert_eq!(job_id, "j");
            assert_eq!(error, "e");
        }
        _ => panic!("expected a failure"),
    }
    match no_file_message() {
        Message::PdfLoadFailed(e) => assert_eq!(e, "No file selected"),
        _ => panic!("expected a failure"),
    }
    match pdf_opened_message("/a.pdf".to_string(), Err(Error::Pdf("x".to_string()))) {
        Message::PdfLoaded { path, page_count } => {
            assert_eq!(path, "/a.pdf");
            assert_eq!(page_count, 0);
        }
        _ => panic!("expected a load"),
    }
    match render_result_message(3, Err(Error::Pdf("bad".to_string()))) {
        Message::PageImageLoadFailed(e) => assert_eq!(e, "PDF processing error: bad"),
        _ => panic!("expected a failure"),
    }
    match render_result_message(3, Ok(PageImage { width: 1, height: 2, bytes: vec![1, 2, 3, 4, 5, 6, 7, 8] })) {
        Message::PageImageLoaded { page_index, image } => {
            assert_eq!(page_index, 3);
            assert_eq!(image.height, 2);
        }
        _ => panic!("expected an image"),
    }
}

#[test]
fn names_from_a_given_file_name() {
    assert_eq!(export_name_for(Some("a.pdf".to_string()), ".md"), "a.md");
    assert_eq!(export_name_for(Some("a.pdf.pdf".to_string()), ".md"), "a.md.md");
    assert_eq!(export_name_for(Some("scan".to_string()), ".json"), "scan.json");
    assert_eq!(export_name_for(None, ".json"), "document.json");
    assert_eq!(loaded_title(Some("x.pdf".to_string())), "PPT_Agent_Rust — x.pdf");
    assert_eq!(loaded_title(None), "PPT_Agent_Rust — ");
    assert_eq!(capitalized_with("SS", "ßx"), "SSx");
    assert_eq!(capitalized_with("X", ""), "");
}
