//! The state of the desktop workspace and its update rule: each message
//! changes the state and names at most one action for the shell to perform
//! (a dialog, a render, a conversion job, a language-model request, a file
//! export).
use crate::config::{PipelineConfig, PipelineConfigV};
use crate::document::Document;
use crate::error::{error_message, Error};
use crate::job::{JobEvent, JobProgress, JobProgressV, PipelineStage};
use crate::providers::{PageImage, PageImageV};
use crate::schema::DocumentV;
use crate::text::{
    append_str, chars_of, decimal, ends_with, from_str, parse_i64, parse_i64_spec, push_decimal,
    replace, replace_all, seq_ends_with,
};
use vstd::prelude::*;

verus! {

/// Versions kept in the undo/redo history.
pub const MAX_HISTORY_DEPTH: usize = 20;

/// The DPI at which pages are rendered for the preview.
pub const PREVIEW_DPI: u32 = 150;

#[derive(Clone, Copy, Debug, PartialEq, Eq, Structural)]
pub enum Route {
    Main,
    Settings,
}

#[derive(Clone, Debug)]
pub enum MainState {
    Empty,
    PdfLoaded { file_path: String, page_count: usize },
    Converting { file_path: String, progress: JobProgress },
    Converted { file_path: String, markdown: String, document: Document },
    Failed { file_path: Option<String>, error: String },
}

pub enum MainStateV {
    Empty,
    PdfLoaded { file_path: Seq<char>, page_count: usize },
    Converting { file_path: Seq<char>, progress: JobProgressV },
    Converted { file_path: Seq<char>, markdown: Seq<char>, document: DocumentV },
    Failed { file_path: Option<Seq<char>>, error: Seq<char> },
}

pub open spec fn opt_str(o: Option<String>) -> Option<Seq<char>> {
    match o {
        Some(s) => Some(s@),
        None => None,
    }
}

impl View for MainState {
    type V = MainStateV;

    open spec fn view(&self) -> MainStateV {
        match self {
            MainState::Empty => MainStateV::Empty,
            MainState::PdfLoaded { file_path, page_count } => MainStateV::PdfLoaded {
                file_path: file_path@,
                page_count: *page_count,
            },
            MainState::Converting { file_path, progress } => MainStateV::Converting {
                file_path: file_path@,
                progress: progress@,
            },
            MainState::Converted { file_path, markdown, document } => MainStateV::Converted {
                file_path: file_path@,
                markdown: markdown@,
                document: document@,
            },
            MainState::Failed { file_path, error } => MainStateV::Failed {
                file_path: opt_str(*file_path),
                error: error@,
            },
        }
    }
}

/// A user action or a report from a job or command.
#[derive(Debug)]
pub enum Message {
    TabChanged(Route),
    OpenFileClicked,
    PdfLoaded { path: String, page_count: usize },
    PdfLoadFailed(String),
    ConvertClicked,
    ConvertJobStarted(String),
    JobProgressUpdate(JobProgress),
    JobFinished { job_id: String, markdown: String, document: Document },
    JobFailed { job_id: String, error: String },
    CancelClicked,
    FeedbackInputChanged(String),
    SubmitFeedbackClicked,
    PageChanged(usize),
    PageImageLoaded { page_index: usize, image: PageImage },
    PageImageLoadFailed(String),
    BlockSelected(Option<String>),
    UndoClicked,
    RedoClicked,
    AcceptPatchClicked,
    RejectPatchClicked,
    LlmFeedbackResult(Result<(String, Document), String>),
    OcrModeChanged(String),
    OutputFormatChanged(String),
    LlmProviderChanged(String),
    LlmModelChanged(String),
    LlmBaseUrlChanged(String),
    LlmKeyChanged(String),
    LlmLimitChanged(String),
    SaveSettingsClicked,
    ExportMarkdownClicked,
    ExportJsonClicked,
    ExportCompleted(Result<String, String>),
}

/// What the shell is asked to do after a message.
#[derive(Debug)]
pub enum Action {
    NoOp,
    PickFile,
    RenderPage { path: String, page_index: usize, dpi: u32 },
    StartConversion { job_id: String, file_path: String, config: PipelineConfig, api_key: String },
    CancelJob { job_id: String },
    SubmitFeedback {
        document: Document,
        block_id: String,
        feedback: String,
        config: PipelineConfig,
        api_key: String,
    },
    SaveSettings { provider: String, api_key: String },
    ExportMarkdown { markdown: String, file_name: String },
    ExportJson { document: Document, file_name: String },
    Report(String),
}

pub enum ActionV {
    NoOp,
    PickFile,
    RenderPage { path: Seq<char>, page_index: usize, dpi: u32 },
    StartConversion {
        job_id: Seq<char>,
        file_path: Seq<char>,
        config: PipelineConfigV,
        api_key: Seq<char>,
    },
    CancelJob { job_id: Seq<char> },
    SubmitFeedback {
        document: DocumentV,
        block_id: Seq<char>,
        feedback: Seq<char>,
        config: PipelineConfigV,
        api_key: Seq<char>,
    },
    SaveSettings { provider: Seq<char>, api_key: Seq<char> },
    ExportMarkdown { markdown: Seq<char>, file_name: Seq<char> },
    ExportJson { document: DocumentV, file_name: Seq<char> },
    Report(Seq<char>),
}

impl View for Action {
    type V = ActionV;

    open spec fn view(&self) -> ActionV {
        match self {
            Action::NoOp => ActionV::NoOp,
            Action::PickFile => ActionV::PickFile,
            Action::RenderPage { path, page_index, dpi } => ActionV::RenderPage {
                path: path@,
                page_index: *page_index,
                dpi: *dpi,
            },
            Action::StartConversion { job_id, file_path, config, api_key } =>
                ActionV::StartConversion {
                job_id: job_id@,
                file_path: file_path@,
                config: config@,
                api_key: api_key@,
            },
            Action::CancelJob { job_id } => ActionV::CancelJob { job_id: job_id@ },
            Action::SubmitFeedback { document, block_id, feedback, config, api_key } =>
                ActionV::SubmitFeedback {
                document: document@,
                block_id: block_id@,
                feedback: feedback@,
                config: config@,
                api_key: api_key@,
            },
            Action::SaveSettings { provider, api_key } => ActionV::SaveSettings {
                provider: provider@,
                api_key: api_key@,
            },
            Action::ExportMarkdown { markdown, file_name } => ActionV::ExportMarkdown {
                markdown: markdown@,
                file_name: file_name@,
            },
            Action::ExportJson { document, file_name } => ActionV::ExportJson {
                document: document@,
                file_name: file_name@,
            },
            Action::Report(s) => ActionV::Report(s@),
        }
    }
}

/// The workspace state.
pub struct AppState {
    pub route: Route,
    pub main_state: MainState,
    pub feedback_input: String,
    pub current_job_id: Option<String>,
    pub current_file_path: Option<String>,
    pub current_page_index: usize,
    pub total_pages: usize,
    pub rendered_page_image: Option<PageImage>,
    pub is_loading_image: bool,
    pub image_error: Option<String>,
    pub selected_block_id: Option<String>,
    pub diff_mode: bool,
    pub patch_preview: Option<String>,
    pub history: Vec<(Document, String)>,
    pub history_index: usize,
    pub config: PipelineConfig,
    pub api_key: String,
}

pub struct AppStateV {
    pub route: Route,
    pub main_state: MainStateV,
    pub feedback_input: Seq<char>,
    pub current_job_id: Option<Seq<char>>,
    pub current_file_path: Option<Seq<char>>,
    pub current_page_index: usize,
    pub total_pages: usize,
    pub rendered_page_image: Option<PageImageV>,
    pub is_loading_image: bool,
    pub image_error: Option<Seq<char>>,
    pub selected_block_id: Option<Seq<char>>,
    pub diff_mode: bool,
    pub patch_preview: Option<Seq<char>>,
    pub history: Seq<(DocumentV, Seq<char>)>,
    pub history_index: usize,
    pub config: PipelineConfigV,
    pub api_key: Seq<char>,
}

pub open spec fn version_view(v: (Document, String)) -> (DocumentV, Seq<char>) {
    (v.0@, v.1@)
}

impl View for AppState {
    type V = AppStateV;

    open spec fn view(&self) -> AppStateV {
        AppStateV {
            route: self.route,
            main_state: self.main_state@,
            feedback_input: self.feedback_input@,
            current_job_id: opt_str(self.current_job_id),
            current_file_path: opt_str(self.current_file_path),
            current_page_index: self.current_page_index,
            total_pages: self.total_pages,
            rendered_page_image: match self.rendered_page_image {
                Some(i) => Some(i@),
                None => None,
            },
            is_loading_image: self.is_loading_image,
            image_error: opt_str(self.image_error),
            selected_block_id: opt_str(self.selected_block_id),
            diff_mode: self.diff_mode,
            patch_preview: opt_str(self.patch_preview),
            history: self.history@.map_values(|v: (Document, String)| version_view(v)),
            history_index: self.history_index,
            config: self.config@,
            api_key: self.api_key@,
        }
    }
}

/// The history is at most `MAX_HISTORY_DEPTH` versions long, and its index
/// names one of them (or is 0 when it is empty).
pub open spec fn history_ok(s: AppStateV) -> bool {
    &&& s.history.len() <= MAX_HISTORY_DEPTH
    &&& if s.history.len() == 0 {
        s.history_index == 0
    } else {
        s.history_index < s.history.len()
    }
}

/// Drops the oldest versions until at most `MAX_HISTORY_DEPTH` remain; the
/// index follows the version it named (or stays at 0).
pub open spec fn trim_history(h: Seq<(DocumentV, Seq<char>)>, idx: usize) -> (
    Seq<(DocumentV, Seq<char>)>,
    usize,
)
    decreases h.len(),
{
    if h.len() > MAX_HISTORY_DEPTH {
        trim_history(
            h.drop_first(),
            if idx > 0 {
                (idx - 1) as usize
            } else {
                0
            },
        )
    } else {
        (h, idx)
    }
}

/// The versions up to and including version `idx` (all of them when `idx`
/// is past the end).
pub open spec fn keep_upto(h: Seq<(DocumentV, Seq<char>)>, idx: usize) -> Seq<(DocumentV, Seq<char>)> {
    if idx < h.len() {
        h.take(idx + 1)
    } else {
        h
    }
}

/// The name under which a converted file is exported by default: the PDF's
/// file name with `.pdf` replaced by `ext` (or `ext` appended), or
/// `document` + `ext` when the path has no file name.
pub open spec fn export_file_name(name: Option<Seq<char>>, ext: Seq<char>) -> Seq<char> {
    let n = match name {
        Some(x) => x,
        None => "document"@,
    };
    if seq_ends_with(n, ".pdf"@) {
        replace_all(n, ".pdf"@, ext)
    } else {
        n + ext
    }
}

/// What `Path::file_name` returns for a path, as text.
pub uninterp spec fn path_file_name(path: Seq<char>) -> Option<Seq<char>>;

/// `Path::file_name`: the last component of the path (by the path rules of
/// the platform the library is built for), unless it is `..` or the path
/// ends in a root or prefix; taken as text, which is lossless for a path
/// given as text. Which component that is, is named, not stated.
#[verifier::external_body]
fn file_name_of(path: &str) -> (r: Option<String>)
    ensures
        opt_str(r) == path_file_name(path@),
{
    std::path::Path::new(path).file_name().map(|n| n.to_string_lossy().to_string())
}

/// The default export name for the PDF at `path`.
pub fn default_export_name(path: &str, ext: &str) -> (name: String)
    ensures
        name@ == export_file_name(path_file_name(path@), ext@),
{
    export_name_for(file_name_of(path), ext)
}

/// The default export name, given the file name of the PDF (if its path
/// has one).
pub fn export_name_for(file_name: Option<String>, ext: &str) -> (name: String)
    ensures
        name@ == export_file_name(opt_str(file_name), ext@),
{
    let n = match file_name {
        Some(x) => x,
        None => from_str("document"),
    };
    let v = chars_of(n.as_str());
    if ends_with(&v, ".pdf") {
        proof {
            reveal_strlit(".pdf");
        }
        replace(n.as_str(), ".pdf", ext)
    } else {
        let mut out = n;
        append_str(&mut out, ext);
        out
    }
}

/// The window title: the file name of the loaded PDF, or the product name.
pub open spec fn window_title(path: Option<Seq<char>>) -> Seq<char> {
    match path {
        Some(p) => "PPT_Agent_Rust — "@ + match path_file_name(p) {
            Some(n) => n,
            None => Seq::empty(),
        },
        None => "PPT_Agent_Rust - PDF to Markdown Converter"@,
    }
}

/// The window title while a PDF is loaded, given its file name (empty when
/// its path has none).
pub fn loaded_title(file_name: Option<String>) -> (t: String)
    ensures
        t@ == "PPT_Agent_Rust — "@ + match opt_str(file_name) {
            Some(n) => n,
            None => Seq::empty(),
        },
{
    let mut t = from_str("PPT_Agent_Rust — ");
    match file_name {
        Some(n) => append_str(&mut t, n.as_str()),
        None => {
            assert(t@ + Seq::<char>::empty() =~= t@);
        },
    }
    t
}

/// The converted view of a version of the history.
pub open spec fn converted_at(path: Seq<char>, v: (DocumentV, Seq<char>)) -> MainStateV {
    MainStateV::Converted { file_path: path, markdown: v.1, document: v.0 }
}

/// The state after showing version `idx` of the history (when a file is
/// loaded).
pub open spec fn show_version(s: AppStateV, idx: usize) -> AppStateV {
    AppStateV {
        history_index: idx,
        main_state: match s.current_file_path {
            Some(p) => converted_at(p, s.history[idx as int]),
            None => s.main_state,
        },
        ..s
    }
}

/// The next state and the action for a message, at time `now_ms`
/// (milliseconds since the Unix epoch).
pub open spec fn step(s: AppStateV, m: Message, now_ms: u128) -> (AppStateV, ActionV) {
    match m {
        Message::TabChanged(r) => (AppStateV { route: r, ..s }, ActionV::NoOp),
        Message::OpenFileClicked => (s, ActionV::PickFile),
        Message::PdfLoaded { path, page_count } => (
            AppStateV {
                current_file_path: Some(path@),
                main_state: MainStateV::PdfLoaded { file_path: path@, page_count },
                current_page_index: 0,
                total_pages: page_count,
                rendered_page_image: None,
                is_loading_image: true,
                image_error: None,
                ..s
            },
            ActionV::RenderPage { path: path@, page_index: 0, dpi: PREVIEW_DPI },
        ),
        Message::PdfLoadFailed(err) => (
            AppStateV { main_state: MainStateV::Failed { file_path: None, error: err@ }, ..s },
            ActionV::NoOp,
        ),
        Message::PageChanged(i) => match s.current_file_path {
            Some(p) => if i < s.total_pages {
                (
                    AppStateV {
                        current_page_index: i,
                        is_loading_image: true,
                        image_error: None,
                        ..s
                    },
                    ActionV::RenderPage { path: p, page_index: i, dpi: PREVIEW_DPI },
                )
            } else {
                (s, ActionV::NoOp)
            },
            None => (s, ActionV::NoOp),
        },
        Message::PageImageLoaded { page_index, image } => if page_index == s.current_page_index {
            (
                AppStateV { rendered_page_image: Some(image@), is_loading_image: false, ..s },
                ActionV::NoOp,
            )
        } else {
            (s, ActionV::NoOp)
        },
        Message::PageImageLoadFailed(err) => (
            AppStateV { is_loading_image: false, image_error: Some(err@), ..s },
            ActionV::NoOp,
        ),
        Message::ConvertClicked => match s.current_file_path {
            Some(p) => {
                let job_id = "job_"@ + decimal(now_ms as nat);
                (
                    AppStateV { current_job_id: Some(job_id), ..s },
                    ActionV::StartConversion {
                        job_id,
                        file_path: p,
                        config: s.config,
                        api_key: s.api_key,
                    },
                )
            },
            None => (s, ActionV::NoOp),
        },
        Message::ConvertJobStarted(job_id) => match s.current_file_path {
            Some(p) => (
                AppStateV {
                    main_state: MainStateV::Converting {
                        file_path: p,
                        progress: JobProgressV {
                            job_id: job_id@,
                            stage: PipelineStage::Idle,
                            current_page: 0,
                            total_pages: 0,
                            elapsed_ms: 0,
                        },
                    },
                    ..s
                },
                ActionV::NoOp,
            ),
            None => (s, ActionV::NoOp),
        },
        Message::JobProgressUpdate(progress) => match s.current_file_path {
            Some(p) => (
                AppStateV {
                    main_state: MainStateV::Converting { file_path: p, progress: progress@ },
                    ..s
                },
                ActionV::NoOp,
            ),
            None => (s, ActionV::NoOp),
        },
        Message::JobFinished { markdown, document, .. } => match s.current_file_path {
            Some(p) => (
                AppStateV {
                    main_state: MainStateV::Converted {
                        file_path: p,
                        markdown: markdown@,
                        document: document@,
                    },
                    history: seq![(document@, markdown@)],
                    history_index: 0,
                    selected_block_id: None,
                    diff_mode: false,
                    patch_preview: None,
                    ..s
                },
                ActionV::NoOp,
            ),
            None => (s, ActionV::NoOp),
        },
        Message::JobFailed { error, .. } => (
            AppStateV {
                main_state: MainStateV::Failed { file_path: s.current_file_path, error: error@ },
                ..s
            },
            ActionV::NoOp,
        ),
        Message::CancelClicked => (
            AppStateV {
                main_state: match s.current_file_path {
                    Some(p) => MainStateV::PdfLoaded { file_path: p, page_count: 0 },
                    None => MainStateV::Empty,
                },
                ..s
            },
            match s.current_job_id {
                Some(j) => ActionV::CancelJob { job_id: j },
                None => ActionV::NoOp,
            },
        ),
        Message::FeedbackInputChanged(input) => (
            AppStateV { feedback_input: input@, ..s },
            ActionV::NoOp,
        ),
        Message::SubmitFeedbackClicked => match (s.selected_block_id, s.main_state) {
            (Some(b), MainStateV::Converted { document, .. }) => (
                AppStateV { feedback_input: Seq::empty(), ..s },
                ActionV::SubmitFeedback {
                    document,
                    block_id: b,
                    feedback: s.feedback_input,
                    config: s.config,
                    api_key: s.api_key,
                },
            ),
            _ => (s, ActionV::NoOp),
        },
        Message::LlmFeedbackResult(r) => match r {
            Ok((md, doc)) => {
                let kept = keep_upto(s.history, s.history_index);
                let (h, idx) = trim_history(kept.push((doc@, md@)), s.history_index);
                (
                    AppStateV {
                        patch_preview: Some(md@),
                        diff_mode: true,
                        history: h,
                        history_index: idx,
                        ..s
                    },
                    ActionV::NoOp,
                )
            },
            Err(e) => (
                AppStateV { image_error: Some("LLM Feedback error: "@ + e@), ..s },
                ActionV::NoOp,
            ),
        },
        Message::BlockSelected(id) => (
            AppStateV { selected_block_id: opt_str(id), ..s },
            ActionV::NoOp,
        ),
        Message::AcceptPatchClicked => (
            show_version(
                AppStateV { diff_mode: false, patch_preview: None, ..s },
                (s.history.len() - 1) as usize,
            ),
            ActionV::NoOp,
        ),
        Message::RejectPatchClicked => (
            AppStateV {
                diff_mode: false,
                patch_preview: None,
                history: keep_upto(s.history, s.history_index),
                ..s
            },
            ActionV::NoOp,
        ),
        Message::UndoClicked => if s.history_index > 0 {
            (show_version(s, (s.history_index - 1) as usize), ActionV::NoOp)
        } else {
            (s, ActionV::NoOp)
        },
        Message::RedoClicked => if s.history_index + 1 < s.history.len() {
            (show_version(s, (s.history_index + 1) as usize), ActionV::NoOp)
        } else {
            (s, ActionV::NoOp)
        },
        Message::OcrModeChanged(mode) => (
            AppStateV { config: PipelineConfigV { ocr_mode: mode@, ..s.config }, ..s },
            ActionV::NoOp,
        ),
        Message::OutputFormatChanged(f) => (
            AppStateV { config: PipelineConfigV { output_format: f@, ..s.config }, ..s },
            ActionV::NoOp,
        ),
        Message::LlmProviderChanged(x) => (
            AppStateV {
                config: PipelineConfigV {
                    llm: crate::config::LlmConfigV { provider: x@, ..s.config.llm },
                    ..s.config
                },
                ..s
            },
            ActionV::NoOp,
        ),
        Message::LlmModelChanged(x) => (
            AppStateV {
                config: PipelineConfigV {
                    llm: crate::config::LlmConfigV { model_name: x@, ..s.config.llm },
                    ..s.config
                },
                ..s
            },
            ActionV::NoOp,
        ),
        Message::LlmBaseUrlChanged(x) => (
            AppStateV {
                config: PipelineConfigV {
                    llm: crate::config::LlmConfigV { base_url: x@, ..s.config.llm },
                    ..s.config
                },
                ..s
            },
            ActionV::NoOp,
        ),
        Message::LlmKeyChanged(k) => (AppStateV { api_key: k@, ..s }, ActionV::NoOp),
        Message::LlmLimitChanged(lim) => match parse_i64_spec(lim@) {
            Some(l) => (
                AppStateV {
                    config: PipelineConfigV {
                        llm: crate::config::LlmConfigV { daily_limit: l, ..s.config.llm },
                        ..s.config
                    },
                    ..s
                },
                ActionV::NoOp,
            ),
            None => (s, ActionV::NoOp),
        },
        Message::SaveSettingsClicked => (
            s,
            ActionV::SaveSettings { provider: s.config.llm.provider, api_key: s.api_key },
        ),
        Message::ExportMarkdownClicked => match s.main_state {
            MainStateV::Converted { file_path, markdown, .. } => (
                s,
                ActionV::ExportMarkdown {
                    markdown,
                    file_name: export_file_name(path_file_name(file_path), ".md"@),
                },
            ),
            _ => (s, ActionV::NoOp),
        },
        Message::ExportJsonClicked => match s.main_state {
            MainStateV::Converted { file_path, document, .. } => (
                s,
                ActionV::ExportJson {
                    document,
                    file_name: export_file_name(path_file_name(file_path), ".json"@),
                },
            ),
            _ => (s, ActionV::NoOp),
        },
        Message::ExportCompleted(r) => match r {
            Ok(path) => (s, ActionV::Report("Exported successfully to "@ + path@)),
            Err(e) => (
                AppStateV { image_error: Some("Export failed: "@ + e@), ..s },
                ActionV::NoOp,
            ),
        },
    }
}

/// The state of a freshly opened workspace: the main tab, nothing loaded,
/// an empty history, and the default settings with no API key.
pub open spec fn is_fresh(s: AppStateV) -> bool {
    &&& s.route == Route::Main
    &&& s.main_state == MainStateV::Empty
    &&& s.feedback_input == Seq::<char>::empty()
    &&& s.current_job_id is None
    &&& s.current_file_path is None
    &&& s.current_page_index == 0
    &&& s.total_pages == 0
    &&& s.rendered_page_image is None
    &&& !s.is_loading_image
    &&& s.image_error is None
    &&& s.selected_block_id is None
    &&& !s.diff_mode
    &&& s.patch_preview is None
    &&& s.history.len() == 0
    &&& s.history_index == 0
    &&& s.config.ocr_mode == "auto"@
    &&& s.config.output_format == "markdown"@
    &&& s.config.llm.provider == "mock"@
    &&& s.config.llm.model_name == "gpt-4o-mini"@
    &&& s.config.llm.base_url == "https://api.openai.com/v1"@
    &&& s.config.llm.daily_limit == 50000
    &&& s.api_key == Seq::<char>::empty()
    &&& history_ok(s)
}

fn copy_opt(o: &Option<String>) -> (r: Option<String>)
    ensures
        opt_str(r) == opt_str(*o),
{
    match o {
        Some(s) => Some(from_str(s.as_str())),
        None => None,
    }
}

fn prefixed(prefix: &str, m: &String) -> (s: String)
    ensures
        s@ == prefix@ + m@,
{
    let mut s = from_str(prefix);
    append_str(&mut s, m.as_str());
    s
}

impl AppState {
    /// The state of a freshly opened workspace.
    pub fn new() -> (s: AppState)
        ensures
            is_fresh(s@),
    {
        AppState {
            route: Route::Main,
            main_state: MainState::Empty,
            feedback_input: String::new(),
            current_job_id: None,
            current_file_path: None,
            current_page_index: 0,
            total_pages: 0,
            rendered_page_image: None,
            is_loading_image: false,
            image_error: None,
            selected_block_id: None,
            diff_mode: false,
            patch_preview: None,
            history: Vec::new(),
            history_index: 0,
            config: PipelineConfig::default(),
            api_key: String::new(),
        }
    }

    /// The window title.
    pub fn title(&self) -> (t: String)
        ensures
            t@ == window_title(opt_str(self.current_file_path)),
    {
        match &self.current_file_path {
            Some(p) => loaded_title(file_name_of(p.as_str())),
            None => from_str("PPT_Agent_Rust - PDF to Markdown Converter"),
        }
    }

    /// Shows version `idx` of the history.
    fn show(&mut self, idx: usize)
        requires
            old(self).current_file_path is Some ==> idx < old(self).history@.len(),
        ensures
            final(self)@ == show_version(old(self)@, idx),
    {
        self.history_index = idx;
        match &self.current_file_path {
            Some(p) => {
                let path = from_str(p.as_str());
                let markdown = from_str(self.history[idx].1.as_str());
                let document = self.history[idx].0.duplicate();
                self.main_state = MainState::Converted { file_path: path, markdown, document };
            },
            None => {},
        }
    }

    /// Keeps the versions up to the current one, adds a proposed version, and
    /// drops the oldest beyond the depth limit.
    fn push_version(&mut self, markdown: String, document: Document)
        ensures
            ({
                let kept = keep_upto(old(self)@.history, old(self)@.history_index);
                let (h, idx) = trim_history(
                    kept.push((document@, markdown@)),
                    old(self)@.history_index,
                );
                final(self)@ == AppStateV {
                    patch_preview: Some(markdown@),
                    diff_mode: true,
                    history: h,
                    history_index: idx,
                    ..old(self)@
                }
            }),
    {
        let ghost s0 = self@;
        let preview = from_str(markdown.as_str());
        self.patch_preview = Some(preview);
        self.diff_mode = true;
        let keep: usize = if self.history_index < self.history.len() {
            self.history_index + 1
        } else {
            self.history.len()
        };
        self.history.truncate(keep);
        assert(self@.history =~= keep_upto(s0.history, s0.history_index));
        let ghost kept = self@.history;
        self.history.push((document, markdown));
        assert(self@.history =~= kept.push(version_view(self.history@[self.history@.len() - 1])));
        while self.history.len() > MAX_HISTORY_DEPTH
            invariant
                trim_history(self@.history, self@.history_index) == trim_history(
                    kept.push((document@, markdown@)),
                    s0.history_index,
                ),
                self@ == (AppStateV {
                    patch_preview: self@.patch_preview,
                    diff_mode: self@.diff_mode,
                    history: self@.history,
                    history_index: self@.history_index,
                    ..s0
                }),
                self@.patch_preview == Some(markdown@),
                self@.diff_mode,
            decreases self.history@.len(),
        {
            let ghost before = self@.history;
            self.history.remove(0);
            assert(self@.history =~= before.drop_first());
            if self.history_index > 0 {
                self.history_index = self.history_index - 1;
            }
        }
        assert(self@.history =~= trim_history(kept.push((document@, markdown@)), s0.history_index).0);
    }

    /// Applies a message: updates the state and returns the action for the
    /// shell. `now_ms` is the time, in milliseconds since the Unix epoch,
    /// from which a new job's id is made.
    #[verifier::rlimit(60)]
    pub fn handle_message(&mut self, message: Message, now_ms: u128) -> (action: Action)
        requires
            message is AcceptPatchClicked ==> old(self).history@.len() > 0,
            message is UndoClicked && old(self).history_index > 0
                && old(self).current_file_path is Some ==> old(self).history_index - 1 < old(
                self,
            ).history@.len(),
        ensures
            (final(self)@, action@) == step(old(self)@, message, now_ms),
    {
        match message {
            Message::TabChanged(r) => {
                self.route = r;
                Action::NoOp
            },
            Message::OpenFileClicked => Action::PickFile,
            Message::PdfLoaded { path, page_count } => {
                let p2 = from_str(path.as_str());
                let p3 = from_str(path.as_str());
                self.current_file_path = Some(path);
                self.main_state = MainState::PdfLoaded { file_path: p2, page_count };
                self.current_page_index = 0;
                self.total_pages = page_count;
                self.rendered_page_image = None;
                self.is_loading_image = true;
                self.image_error = None;
                Action::RenderPage { path: p3, page_index: 0, dpi: PREVIEW_DPI }
            },
            Message::PdfLoadFailed(err) => {
                self.main_state = MainState::Failed { file_path: None, error: err };
                Action::NoOp
            },
            Message::PageChanged(i) => {
                match &self.current_file_path {
                    Some(p) => {
                        if i < self.total_pages {
                            let path = from_str(p.as_str());
                            self.current_page_index = i;
                            self.is_loading_image = true;
                            self.image_error = None;
                            return Action::RenderPage { path, page_index: i, dpi: PREVIEW_DPI };
                        }
                    },
                    None => {},
                }
                Action::NoOp
            },
            Message::PageImageLoaded { page_index, image } => {
                if page_index == self.current_page_index {
                    self.rendered_page_image = Some(image);
                    self.is_loading_image = false;
                }
                Action::NoOp
            },
            Message::PageImageLoadFailed(err) => {
                self.is_loading_image = false;
                self.image_error = Some(err);
                Action::NoOp
            },
            Message::ConvertClicked => {
                match &self.current_file_path {
                    Some(p) => {
                        let mut job_id = from_str("job_");
                        push_decimal(&mut job_id, now_ms);
                        let id2 = from_str(job_id.as_str());
                        let file_path = from_str(p.as_str());
                        let config = self.config.duplicate();
                        let api_key = from_str(self.api_key.as_str());
                        self.current_job_id = Some(id2);
                        assert(config@ == self@.config);
                        Action::StartConversion { job_id, file_path, config, api_key }
                    },
                    None => Action::NoOp,
                }
            },
            Message::ConvertJobStarted(job_id) => {
                match &self.current_file_path {
                    Some(p) => {
                        let file_path = from_str(p.as_str());
                        self.main_state = MainState::Converting {
                            file_path,
                            progress: JobProgress {
                                job_id,
                                stage: PipelineStage::Idle,
                                current_page: 0,
                                total_pages: 0,
                                elapsed_ms: 0,
                            },
                        };
                    },
                    None => {},
                }
                Action::NoOp
            },
            Message::JobProgressUpdate(progress) => {
                match &self.current_file_path {
                    Some(p) => {
                        let file_path = from_str(p.as_str());
                        self.main_state = MainState::Converting { file_path, progress };
                    },
                    None => {},
                }
                Action::NoOp
            },
            Message::JobFinished { markdown, document, .. } => {
                match &self.current_file_path {
                    Some(p) => {
                        let file_path = from_str(p.as_str());
                        let md2 = from_str(markdown.as_str());
                        let doc2 = document.duplicate();
                        self.main_state = MainState::Converted {
                            file_path,
                            markdown: md2,
                            document: doc2,
                        };
                        let mut h: Vec<(Document, String)> = Vec::new();
                        h.push((document, markdown));
                        self.history = h;
                        self.history_index = 0;
                        self.selected_block_id = None;
                        self.diff_mode = false;
                        self.patch_preview = None;
                        assert(self@.history =~= seq![version_view(self.history@[0])]);
                    },
                    None => {},
                }
                Action::NoOp
            },
            Message::JobFailed { error, .. } => {
                let file_path = copy_opt(&self.current_file_path);
                self.main_state = MainState::Failed { file_path, error };
                Action::NoOp
            },
            Message::CancelClicked => {
                let action = match &self.current_job_id {
                    Some(j) => Action::CancelJob { job_id: from_str(j.as_str()) },
                    None => Action::NoOp,
                };
                match &self.current_file_path {
                    Some(p) => {
                        let file_path = from_str(p.as_str());
                        self.main_state = MainState::PdfLoaded { file_path, page_count: 0 };
                    },
                    None => {
                        self.main_state = MainState::Empty;
                    },
                }
                action
            },
            Message::FeedbackInputChanged(input) => {
                self.feedback_input = input;
                Action::NoOp
            },
            Message::SubmitFeedbackClicked => {
                match &self.selected_block_id {
                    Some(b) => {
                        match &self.main_state {
                            MainState::Converted { document, .. } => {
                                let action = Action::SubmitFeedback {
                                    document: document.duplicate(),
                                    block_id: from_str(b.as_str()),
                                    feedback: from_str(self.feedback_input.as_str()),
                                    config: self.config.duplicate(),
                                    api_key: from_str(self.api_key.as_str()),
                                };
                                self.feedback_input = String::new();
                                return action;
                            },
                            _ => {},
                        }
                    },
                    None => {},
                }
                Action::NoOp
            },
            Message::LlmFeedbackResult(r) => {
                match r {
                    Ok((md, doc)) => {
                        self.push_version(md, doc);
                    },
                    Err(e) => {
                        self.image_error = Some(prefixed("LLM Feedback error: ", &e));
                    },
                }
                Action::NoOp
            },
            Message::BlockSelected(id) => {
                self.selected_block_id = id;
                Action::NoOp
            },
            Message::AcceptPatchClicked => {
                self.diff_mode = false;
                self.patch_preview = None;
                let idx = self.history.len() - 1;
                self.show(idx);
                Action::NoOp
            },
            Message::RejectPatchClicked => {
                self.diff_mode = false;
                self.patch_preview = None;
                let ghost s0 = self@;
                let keep: usize = if self.history_index < self.history.len() {
                    self.history_index + 1
                } else {
                    self.history.len()
                };
                self.history.truncate(keep);
                assert(self@.history =~= keep_upto(s0.history, s0.history_index));
                Action::NoOp
            },
            Message::UndoClicked => {
                if self.history_index > 0 {
                    let idx = self.history_index - 1;
                    self.show(idx);
                }
                Action::NoOp
            },
            Message::RedoClicked => {
                if self.history_index < self.history.len() && self.history_index + 1
                    < self.history.len() {
                    let idx = self.history_index + 1;
                    self.show(idx);
                }
                Action::NoOp
            },
            Message::OcrModeChanged(mode) => {
                self.config.ocr_mode = mode;
                Action::NoOp
            },
            Message::OutputFormatChanged(f) => {
                self.config.output_format = f;
                Action::NoOp
            },
            Message::LlmProviderChanged(x) => {
                self.config.llm.provider = x;
                Action::NoOp
            },
            Message::LlmModelChanged(x) => {
                self.config.llm.model_name = x;
                Action::NoOp
            },
            Message::LlmBaseUrlChanged(x) => {
                self.config.llm.base_url = x;
                Action::NoOp
            },
            Message::LlmKeyChanged(k) => {
                self.api_key = k;
                Action::NoOp
            },
            Message::LlmLimitChanged(lim) => {
                match parse_i64(lim.as_str()) {
                    Some(l) => {
                        self.config.llm.daily_limit = l;
                    },
                    None => {},
                }
                Action::NoOp
            },
            Message::SaveSettingsClicked => Action::SaveSettings {
                provider: from_str(self.config.llm.provider.as_str()),
                api_key: from_str(self.api_key.as_str()),
            },
            Message::ExportMarkdownClicked => {
                match &self.main_state {
                    MainState::Converted { file_path, markdown, .. } => {
                        let file_name = default_export_name(file_path.as_str(), ".md");
                        Action::ExportMarkdown { markdown: from_str(markdown.as_str()), file_name }
                    },
                    _ => Action::NoOp,
                }
            },
            Message::ExportJsonClicked => {
                match &self.main_state {
                    MainState::Converted { file_path, document, .. } => {
                        let file_name = default_export_name(file_path.as_str(), ".json");
                        Action::ExportJson { document: document.duplicate(), file_name }
                    },
                    _ => Action::NoOp,
                }
            },
            Message::ExportCompleted(r) => {
                match r {
                    Ok(path) => Action::Report(prefixed("Exported successfully to ", &path)),
                    Err(e) => {
                        self.image_error = Some(prefixed("Export failed: ", &e));
                        Action::NoOp
                    },
                }
            },
        }
    }
}

/// The message that a job's event becomes.
pub fn event_message(event: JobEvent) -> (m: Message)
    ensures
        match event {
            JobEvent::Started { job_id } => m matches Message::ConvertJobStarted(j) && j == job_id,
            JobEvent::Progress(p) => m matches Message::JobProgressUpdate(q) && q == p,
            JobEvent::Finished { job_id, markdown, document } => m matches Message::JobFinished {
                job_id: j,
                markdown: md,
                document: d,
            } && j == job_id && md == markdown && d == document,
            JobEvent::Failed { job_id, error } => m matches Message::JobFailed { job_id: j, error: e }
                && j == job_id && e == error,
        },
{
    match event {
        JobEvent::Started { job_id } => Message::ConvertJobStarted(job_id),
        JobEvent::Progress(progress) => Message::JobProgressUpdate(progress),
        JobEvent::Finished { job_id, markdown, document } => Message::JobFinished {
            job_id,
            markdown,
            document,
        },
        JobEvent::Failed { job_id, error } => Message::JobFailed { job_id, error },
    }
}

/// The message when the file dialog was closed without a choice.
pub fn no_file_message() -> (m: Message)
    ensures
        m matches Message::PdfLoadFailed(e) && e@ == "No file selected"@,
{
    Message::PdfLoadFailed(from_str("No file selected"))
}

/// The message once the chosen PDF is open: its page count, or 0 when the
/// count could not be read.
pub fn pdf_opened_message(path: String, page_count: Result<usize, Error>) -> (m: Message)
    ensures
        m matches Message::PdfLoaded { path: p, page_count: n } && p@ == path@ && n == match page_count {
            Ok(c) => c,
            Err(_) => 0,
        },
{
    let n = match page_count {
        Ok(c) => c,
        Err(_) => 0,
    };
    Message::PdfLoaded { path, page_count: n }
}

/// The message once a page was rendered, or failed to render.
pub fn render_result_message(page_index: usize, rendered: Result<PageImage, Error>) -> (m: Message)
    ensures
        match rendered {
            Ok(img) => m matches Message::PageImageLoaded { page_index: i, image } && i == page_index
                && image == img,
            Err(e) => m matches Message::PageImageLoadFailed(msg) && msg@ == error_message(e),
        },
{
    match rendered {
        Ok(image) => Message::PageImageLoaded { page_index, image },
        Err(e) => Message::PageImageLoadFailed(e.message()),
    }
}

impl Clone for Message {
    fn clone(&self) -> (m: Message) {
        match self {
            Message::TabChanged(r) => Message::TabChanged(*r),
            Message::OpenFileClicked => Message::OpenFileClicked,
            Message::PdfLoaded { path, page_count } => Message::PdfLoaded {
                path: path.clone(),
                page_count: *page_count,
            },
            Message::PdfLoadFailed(e) => Message::PdfLoadFailed(e.clone()),
            Message::ConvertClicked => Message::ConvertClicked,
            Message::ConvertJobStarted(j) => Message::ConvertJobStarted(j.clone()),
            Message::JobProgressUpdate(p) => Message::JobProgressUpdate(p.clone()),
            Message::JobFinished { job_id, markdown, document } => Message::JobFinished {
                job_id: job_id.clone(),
                markdown: markdown.clone(),
                document: document.clone(),
            },
            Message::JobFailed { job_id, error } => Message::JobFailed {
                job_id: job_id.clone(),
                error: error.clone(),
            },
            Message::CancelClicked => Message::CancelClicked,
            Message::FeedbackInputChanged(s) => Message::FeedbackInputChanged(s.clone()),
            Message::SubmitFeedbackClicked => Message::SubmitFeedbackClicked,
            Message::PageChanged(i) => Message::PageChanged(*i),
            Message::PageImageLoaded { page_index, image } => Message::PageImageLoaded {
                page_index: *page_index,
                image: image.clone(),
            },
            Message::PageImageLoadFailed(e) => Message::PageImageLoadFailed(e.clone()),
            Message::BlockSelected(id) => Message::BlockSelected(
                match id {
                    Some(s) => Some(s.clone()),
                    None => None,
                },
            ),
            Message::UndoClicked => Message::UndoClicked,
            Message::RedoClicked => Message::RedoClicked,
            Message::AcceptPatchClicked => Message::AcceptPatchClicked,
            Message::RejectPatchClicked => Message::RejectPatchClicked,
            Message::LlmFeedbackResult(r) => Message::LlmFeedbackResult(
                match r {
                    Ok((md, d)) => Ok((md.clone(), d.clone())),
                    Err(e) => Err(e.clone()),
                },
            ),
            Message::OcrModeChanged(s) => Message::OcrModeChanged(s.clone()),
            Message::OutputFormatChanged(s) => Message::OutputFormatChanged(s.clone()),
            Message::LlmProviderChanged(s) => Message::LlmProviderChanged(s.clone()),
            Message::LlmModelChanged(s) => Message::LlmModelChanged(s.clone()),
            Message::LlmBaseUrlChanged(s) => Message::LlmBaseUrlChanged(s.clone()),
            Message::LlmKeyChanged(s) => Message::LlmKeyChanged(s.clone()),
            Message::LlmLimitChanged(s) => Message::LlmLimitChanged(s.clone()),
            Message::SaveSettingsClicked => Message::SaveSettingsClicked,
            Message::ExportMarkdownClicked => Message::ExportMarkdownClicked,
            Message::ExportJsonClicked => Message::ExportJsonClicked,
            Message::ExportCompleted(r) => Message::ExportCompleted(
                match r {
                    Ok(p) => Ok(p.clone()),
                    Err(e) => Err(e.clone()),
                },
            ),
        }
    }
}

impl Default for AppState {
    fn default() -> (s: AppState)
        ensures
            is_fresh(s@),
    {
        AppState::new()
    }
}

} // verus!
