//! What the workspace shows, decided from its state: the status bar, the
//! toolbar, the feedback box, page navigation, the history controls and the
//! block list. The application draws these with its widget toolkit.
use crate::app_state::MainState;
use crate::schema::{Block, BlockType};
use crate::text::{
    append_str, byte_prefix, char_to_uppercase, chars_of, from_str, i64_to_string,
    is_char_boundary, prefix_by_bytes, push_decimal, signed_decimal, decimal, string_from_range,
    trim, trim_seq, uppercase_char, utf8_len, utf8_len_exec,
};
use vstd::prelude::*;

verus! {

/// `s` with its first character in upper case (its Unicode uppercase
/// mapping, which may be more than one character).
pub open spec fn capitalized(s: Seq<char>) -> Seq<char> {
    if s.len() == 0 {
        Seq::empty()
    } else {
        uppercase_char(s[0]) + s.drop_first()
    }
}

pub fn capitalize(s: &str) -> (r: String)
    ensures
        r@ == capitalized(s@),
{
    let v = chars_of(s);
    if v.len() == 0 {
        return String::new();
    }
    capitalized_with(char_to_uppercase(v[0]).as_str(), s)
}

/// `s` with its first character replaced by `first_upper`, the uppercase
/// mapping of that character; empty when `s` is.
pub fn capitalized_with(first_upper: &str, s: &str) -> (r: String)
    ensures
        r@ == if s@.len() == 0 {
            Seq::empty()
        } else {
            first_upper@ + s@.drop_first()
        },
{
    let v = chars_of(s);
    if v.len() == 0 {
        return String::new();
    }
    let mut r = from_str(first_upper);
    let rest = string_from_range(&v, 1, v.len());
    append_str(&mut r, rest.as_str());
    assert(v@.subrange(1, v@.len() as int) =~= v@.drop_first());
    r
}

/// A daily token limit as shown: thousands with a `k` from 1000 up
/// (50000 is `50k`), the number itself below.
pub open spec fn limit_text(limit: i64) -> Seq<char> {
    if limit >= 1000 {
        decimal((limit / 1000) as nat) + "k"@
    } else {
        signed_decimal(limit as int)
    }
}

pub fn format_limit(limit: i64) -> (r: String)
    ensures
        r@ == limit_text(limit),
{
    if limit >= 1000 {
        let mut r = String::new();
        push_decimal(&mut r, (limit / 1000) as u128);
        append_str(&mut r, "k");
        r
    } else {
        i64_to_string(limit)
    }
}

pub open spec fn status_label_text(state: &MainState) -> Seq<char> {
    match state {
        MainState::Empty => "Ready"@,
        MainState::PdfLoaded { .. } => "PDF Loaded"@,
        MainState::Converting { .. } => "Converting"@,
        MainState::Converted { .. } => "Converted"@,
        MainState::Failed { .. } => "Failed"@,
    }
}

/// The word for the workspace's state in the status bar.
pub fn status_label(state: &MainState) -> (r: &'static str)
    ensures
        r@ == status_label_text(state),
{
    match state {
        MainState::Empty => "Ready",
        MainState::PdfLoaded { .. } => "PDF Loaded",
        MainState::Converting { .. } => "Converting",
        MainState::Converted { .. } => "Converted",
        MainState::Failed { .. } => "Failed",
    }
}

/// The colour of the status dot: green when ready or done, blue while
/// converting, red after a failure.
#[derive(Clone, Copy, Debug, PartialEq, Eq, Structural)]
pub enum StatusTone {
    Green,
    Blue,
    Red,
}

pub open spec fn status_tone_of(state: &MainState) -> StatusTone {
    match state {
        MainState::Converting { .. } => StatusTone::Blue,
        MainState::Failed { .. } => StatusTone::Red,
        _ => StatusTone::Green,
    }
}

pub fn status_tone(state: &MainState) -> (t: StatusTone)
    ensures
        t == status_tone_of(state),
{
    match state {
        MainState::Empty | MainState::PdfLoaded { .. } => StatusTone::Green,
        MainState::Converting { .. } => StatusTone::Blue,
        MainState::Converted { .. } => StatusTone::Green,
        MainState::Failed { .. } => StatusTone::Red,
    }
}

/// The texts of the status bar.
#[derive(Debug)]
pub struct StatusBarText {
    pub label: String,
    pub ocr: String,
    pub output: String,
    pub quota: String,
}

pub fn status_bar_text(state: &MainState, ocr_mode: &str, output_format: &str, daily_limit: i64) -> (r:
    StatusBarText)
    ensures
        r.label@ == status_label_text(state),
        r.ocr@ == "OCR: "@ + capitalized(ocr_mode@),
        r.output@ == "Output: "@ + capitalized(output_format@),
        r.quota@ == "Quota: 0/"@ + limit_text(daily_limit),
{
    let label = from_str(status_label(state));
    let mut ocr = from_str("OCR: ");
    append_str(&mut ocr, capitalize(ocr_mode).as_str());
    let mut output = from_str("Output: ");
    append_str(&mut output, capitalize(output_format).as_str());
    let mut quota = from_str("Quota: 0/");
    append_str(&mut quota, format_limit(daily_limit).as_str());
    StatusBarText { label, ocr, output, quota }
}

/// An item of the toolbar.
#[derive(Clone, Copy, Debug, PartialEq, Eq, Structural)]
pub enum ToolbarItem {
    Cancel,
    OpenPdf,
    Convert,
    Spacer,
    ExportMarkdown,
    ExportJson,
}

/// The toolbar: Cancel while converting, else Open PDF (and Convert once a
/// PDF is loaded); the two exports once converted.
pub open spec fn toolbar_spec(is_pdf_loaded: bool, is_converting: bool, is_converted: bool) -> Seq<
    ToolbarItem,
> {
    let first = if is_converting {
        seq![ToolbarItem::Cancel]
    } else if is_pdf_loaded {
        seq![ToolbarItem::OpenPdf, ToolbarItem::Convert]
    } else {
        seq![ToolbarItem::OpenPdf]
    };
    if is_converted && !is_converting {
        first + seq![ToolbarItem::Spacer, ToolbarItem::ExportMarkdown, ToolbarItem::ExportJson]
    } else {
        first
    }
}

pub fn toolbar_items(is_pdf_loaded: bool, is_converting: bool, is_converted: bool) -> (items: Vec<
    ToolbarItem,
>)
    ensures
        items@ == toolbar_spec(is_pdf_loaded, is_converting, is_converted),
{
    let mut items: Vec<ToolbarItem> = Vec::new();
    if is_converting {
        items.push(ToolbarItem::Cancel);
    } else {
        items.push(ToolbarItem::OpenPdf);
        if is_pdf_loaded {
            items.push(ToolbarItem::Convert);
        }
    }
    if is_converted && !is_converting {
        items.push(ToolbarItem::Spacer);
        items.push(ToolbarItem::ExportMarkdown);
        items.push(ToolbarItem::ExportJson);
    }
    assert(items@ =~= toolbar_spec(is_pdf_loaded, is_converting, is_converted));
    items
}

/// The toolbar's inputs for a state: a PDF counts as loaded unless the
/// workspace is empty or converting.
pub fn toolbar_flags(state: &MainState) -> (r: (bool, bool, bool))
    ensures
        r.0 == !(state is Empty || state is Converting),
        r.1 == state is Converting,
        r.2 == state is Converted,
{
    match state {
        MainState::Empty => (false, false, false),
        MainState::Converting { .. } => (false, true, false),
        MainState::Converted { .. } => (true, false, true),
        _ => (true, false, false),
    }
}

/// Feedback can be sent when a block is selected and the feedback is more
/// than white space.
pub fn can_submit_feedback(feedback_input: &str, selected_block_id: Option<&str>) -> (b: bool)
    ensures
        b == (selected_block_id is Some && trim_seq(feedback_input@).len() > 0),
{
    let t = trim(feedback_input);
    selected_block_id.is_some() && chars_of(t.as_str()).len() > 0
}

/// The first eight bytes of an id (all of it when shorter).
pub open spec fn short_id(id: Seq<char>) -> Seq<char> {
    byte_prefix(id, if utf8_len(id) < 8 { utf8_len(id) } else { 8 })
}

pub open spec fn short_id_ok(id: Seq<char>) -> bool {
    is_char_boundary(id, if utf8_len(id) < 8 { utf8_len(id) } else { 8 })
}

pub open spec fn feedback_placeholder_text(selected: Option<Seq<char>>) -> Seq<char> {
    match selected {
        Some(id) => "Feedback on Block (ID: "@ + short_id(id) + ")..."@,
        None => "Select a block above to request LLM alignment..."@,
    }
}

/// The placeholder of the feedback box.
pub fn feedback_placeholder(selected_block_id: Option<&str>) -> (r: String)
    requires
        selected_block_id matches Some(id) ==> short_id_ok(id@),
    ensures
        r@ == feedback_placeholder_text(
            match selected_block_id {
                Some(id) => Some(id@),
                None => None,
            },
        ),
{
    match selected_block_id {
        Some(id) => {
            let len = utf8_len_exec(&chars_of(id));
            let n: usize = if len < 8 {
                len as usize
            } else {
                8
            };
            let mut r = from_str("Feedback on Block (ID: ");
            append_str(&mut r, prefix_by_bytes(id, n).as_str());
            append_str(&mut r, ")...");
            r
        },
        None => from_str("Select a block above to request LLM alignment..."),
    }
}

/// The page before the current one, if any.
pub fn previous_page(current_page: usize) -> (r: Option<usize>)
    ensures
        r == (if current_page > 0 {
            Some((current_page - 1) as usize)
        } else {
            None::<usize>
        }),
{
    if current_page > 0 {
        Some(current_page - 1)
    } else {
        None
    }
}

/// The page after the current one, if any.
pub fn next_page(current_page: usize, total_pages: usize) -> (r: Option<usize>)
    ensures
        r == (if current_page + 1 < total_pages {
            Some((current_page + 1) as usize)
        } else {
            None::<usize>
        }),
{
    if current_page < total_pages && total_pages - current_page > 1 {
        Some(current_page + 1)
    } else {
        None
    }
}

/// `Page n of m`, counting from one.
pub fn page_caption(current_page: usize, total_pages: usize) -> (r: String)
    ensures
        r@ == "Page "@ + decimal((current_page + 1) as nat) + " of "@ + decimal(total_pages as nat),
{
    let mut r = from_str("Page ");
    push_decimal(&mut r, current_page as u128 + 1);
    append_str(&mut r, " of ");
    push_decimal(&mut r, total_pages as u128);
    r
}

/// What the preview pane shows.
#[derive(Debug)]
pub enum PagePreview {
    NoDocument,
    Rendering,
    Failed(String),
    Image,
    NotRendered,
}

pub fn page_preview(total_pages: usize, is_loading_image: bool, image_error: Option<&str>, has_image: bool) -> (r:
    PagePreview)
    ensures
        total_pages == 0 ==> r is NoDocument,
        total_pages != 0 && is_loading_image ==> r is Rendering,
        total_pages != 0 && !is_loading_image && image_error is Some ==> (r matches PagePreview::Failed(
            m,
        ) && m@ == "Failed to render page: "@ + image_error->0@),
        total_pages != 0 && !is_loading_image && image_error is None && has_image ==> r is Image,
        total_pages != 0 && !is_loading_image && image_error is None && !has_image ==> r is NotRendered,
{
    if total_pages == 0 {
        PagePreview::NoDocument
    } else if is_loading_image {
        PagePreview::Rendering
    } else {
        match image_error {
            Some(e) => {
                let mut m = from_str("Failed to render page: ");
                append_str(&mut m, e);
                PagePreview::Failed(m)
            },
            None => if has_image {
                PagePreview::Image
            } else {
                PagePreview::NotRendered
            },
        }
    }
}

/// Undo is offered after the first version, redo before the last.
pub fn history_buttons(history_index: usize, history_len: usize) -> (r: (bool, bool))
    ensures
        r.0 == (history_index > 0),
        r.1 == (history_index + 1 < history_len),
{
    (history_index > 0, history_index < history_len && history_len - history_index > 1)
}

/// `Version n / m`, counting from one.
pub fn version_caption(history_index: usize, history_len: usize) -> (r: String)
    ensures
        r@ == "Version "@ + decimal((history_index + 1) as nat) + " / "@ + decimal(history_len as nat),
{
    let mut r = from_str("Version ");
    push_decimal(&mut r, history_index as u128 + 1);
    append_str(&mut r, " / ");
    push_decimal(&mut r, history_len as u128);
    r
}

/// What the right-hand pane shows.
#[derive(Clone, Copy, Debug, PartialEq, Eq, Structural)]
pub enum RightPane {
    NoConversion,
    Loaded,
    Progress,
    Diff,
    Blocks,
    Failure,
}

pub fn right_pane(state: &MainState, diff_mode: bool, has_patch_preview: bool) -> (r: RightPane)
    ensures
        r == match state {
            MainState::Empty => RightPane::NoConversion,
            MainState::PdfLoaded { .. } => RightPane::Loaded,
            MainState::Converting { .. } => RightPane::Progress,
            MainState::Converted { .. } => if diff_mode && has_patch_preview {
                RightPane::Diff
            } else {
                RightPane::Blocks
            },
            MainState::Failed { .. } => RightPane::Failure,
        },
{
    match state {
        MainState::Empty => RightPane::NoConversion,
        MainState::PdfLoaded { .. } => RightPane::Loaded,
        MainState::Converting { .. } => RightPane::Progress,
        MainState::Converted { .. } => if diff_mode && has_patch_preview {
            RightPane::Diff
        } else {
            RightPane::Blocks
        },
        MainState::Failed { .. } => RightPane::Failure,
    }
}

/// The name of a block type, as its `Debug` form writes it.
pub open spec fn block_type_name(t: BlockType) -> Seq<char> {
    match t {
        BlockType::Text => "Text"@,
        BlockType::Heading1 => "Heading1"@,
        BlockType::Heading2 => "Heading2"@,
        BlockType::Heading3 => "Heading3"@,
        BlockType::Heading4 => "Heading4"@,
        BlockType::Heading5 => "Heading5"@,
        BlockType::Heading6 => "Heading6"@,
        BlockType::ListItem => "ListItem"@,
        BlockType::Table => "Table"@,
        BlockType::Equation => "Equation"@,
        BlockType::Image => "Image"@,
        BlockType::Code => "Code"@,
        BlockType::Unknown => "Unknown"@,
    }
}

fn block_type_str(t: BlockType) -> (r: &'static str)
    ensures
        r@ == block_type_name(t),
{
    match t {
        BlockType::Text => "Text",
        BlockType::Heading1 => "Heading1",
        BlockType::Heading2 => "Heading2",
        BlockType::Heading3 => "Heading3",
        BlockType::Heading4 => "Heading4",
        BlockType::Heading5 => "Heading5",
        BlockType::Heading6 => "Heading6",
        BlockType::ListItem => "ListItem",
        BlockType::Table => "Table",
        BlockType::Equation => "Equation",
        BlockType::Image => "Image",
        BlockType::Code => "Code",
        BlockType::Unknown => "Unknown",
    }
}

/// `s` with each line break replaced by a space.
pub open spec fn one_line(s: Seq<char>) -> Seq<char> {
    s.map_values(|c: char| if c == '\n' { ' ' } else { c })
}

fn push_one_line(out: &mut String, s: &str)
    ensures
        final(out)@ == old(out)@ + one_line(s@),
{
    let v = chars_of(s);
    let ghost start = out@;
    let mut i: usize = 0;
    while i < v.len()
        invariant
            i <= v@.len(),
            out@ == start + one_line(v@.take(i as int)),
        decreases v@.len() - i,
    {
        let c = if v[i] == '\n' {
            ' '
        } else {
            v[i]
        };
        crate::text::push_char(out, c);
        assert(one_line(v@.take(i + 1)) =~= one_line(v@.take(i as int)).push(c));
        i = i + 1;
    }
    assert(v@.take(i as int) =~= v@);
}

/// The label of a block in the block list: its type in brackets, then its
/// text on one line, cut to its first 80 bytes and `...` when longer.
pub open spec fn block_label_text(t: BlockType, text: Seq<char>) -> Seq<char> {
    "["@ + block_type_name(t) + "] "@ + if utf8_len(text) > 80 {
        one_line(byte_prefix(text, 80)) + "..."@
    } else {
        one_line(text)
    }
}

pub open spec fn block_label_ok(text: Seq<char>) -> bool {
    utf8_len(text) > 80 ==> is_char_boundary(text, 80)
}

pub fn block_label(block: &Block) -> (r: String)
    requires
        block_label_ok(block.text@),
    ensures
        r@ == block_label_text(block.block_type, block.text@),
{
    let mut r = from_str("[");
    append_str(&mut r, block_type_str(block.block_type));
    append_str(&mut r, "] ");
    let len = utf8_len_exec(&chars_of(block.text.as_str()));
    if len > 80 {
        let head = prefix_by_bytes(block.text.as_str(), 80);
        push_one_line(&mut r, head.as_str());
        append_str(&mut r, "...");
    } else {
        push_one_line(&mut r, block.text.as_str());
    }
    r
}

/// What choosing a block in the list selects: the block, or nothing when
/// it was the selected one.
pub fn selection_after_click(selected_block_id: Option<&str>, block_id: &str) -> (r: Option<String>)
    ensures
        (selected_block_id matches Some(s) && s@ == block_id@) ==> r is None,
        !(selected_block_id matches Some(s) && s@ == block_id@) ==> (r matches Some(x) && x@
            == block_id@),
{
    let is_selected = match selected_block_id {
        Some(s) => crate::text::str_eq(s, block_id),
        None => false,
    };
    if is_selected {
        None
    } else {
        Some(from_str(block_id))
    }
}

} // verus!
