//! Corrections by a language model: the prompt that asks for a corrected
//! block, how the answer is applied to the document, and how the tokens it
//! cost are counted.
use crate::document::{first_with_id, lacks_id, with_block_text, Document};
use crate::renderers::markdown::{markdown, MarkdownRenderer};
use crate::schema::DocumentV;
use crate::text::{append_str, chars_of, decimal, from_str, push_decimal, utf8_len, utf8_len_exec};
use vstd::prelude::*;

verus! {

/// The most tokens the model may answer with.
pub const FEEDBACK_MAX_TOKENS: u32 = 1024;

/// Seconds in a day, by which token usage is counted.
pub const SECONDS_PER_DAY: u64 = 86400;

pub open spec fn system_prompt_text() -> Seq<char> {
    "You are an assistant correcting OCR and layout parsing errors in a document block. Output only the corrected text for the target block. Do not wrap in markdown code blocks unless the block itself is a code block."@
}

/// The instructions given to the model with every correction request.
pub fn system_prompt() -> (s: String)
    ensures
        s@ == system_prompt_text(),
{
    from_str(
        "You are an assistant correcting OCR and layout parsing errors in a document block. Output only the corrected text for the target block. Do not wrap in markdown code blocks unless the block itself is a code block.",
    )
}

/// A request for a corrected block. The sampling temperature (0.2) is set
/// by the client that sends it.
#[derive(Debug)]
pub struct FeedbackPrompt {
    pub system_prompt: String,
    pub user_prompt: String,
    pub max_tokens: u32,
    pub json_mode: bool,
}

/// The text of block `i` of page `p`, or `[None]` when there is no such
/// block.
pub open spec fn neighbour_text(d: DocumentV, p: int, i: int) -> Seq<char> {
    if 0 <= i < d.pages[p].blocks.len() {
        d.pages[p].blocks[i].text
    } else {
        "[None]"@
    }
}

pub open spec fn user_prompt_text(
    prev: Seq<char>,
    target: Seq<char>,
    next: Seq<char>,
    feedback: Seq<char>,
) -> Seq<char> {
    "Context:\n- Previous Block: "@ + prev + "\n- Target Block: "@ + target + "\n- Next Block: "@
        + next + "\n\nUser Feedback: "@ + feedback + "\n\nCorrected Target Block text:"@
}

/// The prompt for block `i` of page `p`: the blocks around it and the
/// user's feedback.
pub open spec fn prompt_for(d: DocumentV, p: int, i: int, feedback: Seq<char>) -> Seq<char> {
    user_prompt_text(
        neighbour_text(d, p, i - 1),
        d.pages[p].blocks[i].text,
        neighbour_text(d, p, i + 1),
        feedback,
    )
}

/// The request for correcting the first block with the id `block_id`,
/// given the user's feedback; `None` when no block has that id.
pub fn feedback_prompt(document: &Document, block_id: &str, feedback: &str) -> (r: Option<
    FeedbackPrompt,
>)
    ensures
        r is None <==> lacks_id(document@, block_id@),
        r matches Some(fp) ==> {
            &&& fp.system_prompt@ == system_prompt_text()
            &&& fp.max_tokens == FEEDBACK_MAX_TOKENS
            &&& !fp.json_mode
            &&& exists|p: int, i: int|
                first_with_id(document@, p, i, block_id@) && fp.user_prompt@ == prompt_for(
                    document@,
                    p,
                    i,
                    feedback@,
                )
        },
{
    match document.find_block_with_context(block_id) {
        Some((prev, target, next)) => {
            let ghost d = document@;
            let ghost (p, i) = choose|p: int, i: int|
                {
                    &&& first_with_id(d, p, i, block_id@)
                    &&& target@ == d.pages[p].blocks[i]
                    &&& match prev {
                        Some(x) => i > 0 && x@ == d.pages[p].blocks[i - 1],
                        None => i == 0,
                    }
                    &&& match next {
                        Some(x) => i + 1 < d.pages[p].blocks.len() && x@ == d.pages[p].blocks[i
                            + 1],
                        None => i + 1 >= d.pages[p].blocks.len(),
                    }
                };
            let mut u = from_str("Context:\n- Previous Block: ");
            match prev {
                Some(x) => append_str(&mut u, x.text.as_str()),
                None => append_str(&mut u, "[None]"),
            }
            assert(u@ == "Context:\n- Previous Block: "@ + neighbour_text(d, p, i - 1));
            append_str(&mut u, "\n- Target Block: ");
            append_str(&mut u, target.text.as_str());
            append_str(&mut u, "\n- Next Block: ");
            match next {
                Some(x) => append_str(&mut u, x.text.as_str()),
                None => append_str(&mut u, "[None]"),
            }
            append_str(&mut u, "\n\nUser Feedback: ");
            append_str(&mut u, feedback);
            append_str(&mut u, "\n\nCorrected Target Block text:");
            assert(u@ == prompt_for(d, p, i, feedback@));
            Some(
                FeedbackPrompt {
                    system_prompt: system_prompt(),
                    user_prompt: u,
                    max_tokens: FEEDBACK_MAX_TOKENS,
                    json_mode: false,
                },
            )
        },
        None => None,
    }
}

/// Applies the model's answer: the text of the first block with the id
/// `block_id` becomes `new_text` (the document is unchanged when no block
/// has that id), and the document is rendered again as Markdown.
pub fn apply_feedback(document: Document, block_id: &str, new_text: &str) -> (r: (String, Document))
    ensures
        lacks_id(document@, block_id@) ==> r.1@ == document@,
        !lacks_id(document@, block_id@) ==> exists|p: int, i: int|
            first_with_id(document@, p, i, block_id@) && r.1@ == with_block_text(
                document@,
                p,
                i,
                new_text@,
            ),
        r.0@ == markdown(r.1@),
{
    let mut d = document;
    d.update_block_text(block_id, new_text);
    let md = MarkdownRenderer.render_markdown(&d);
    (md, d)
}

/// The tokens counted for a correction: the bytes of the answer and of the
/// instructions, over four.
pub open spec fn token_estimate(new_text: Seq<char>) -> int {
    (utf8_len(new_text) + utf8_len(system_prompt_text())) as int / 4
}

pub fn estimated_tokens(new_text: &str) -> (n: i64)
    requires
        utf8_len(new_text@) + utf8_len(system_prompt_text()) <= i64::MAX,
    ensures
        n == token_estimate(new_text@),
{
    let a = utf8_len_exec(&chars_of(new_text));
    let b = utf8_len_exec(&chars_of(system_prompt().as_str()));
    ((a + b) / 4) as i64
}

/// The key under which a day's token usage is counted, from the seconds
/// since the Unix epoch; `today` when the clock could not be read.
pub fn usage_day_key(seconds_since_epoch: Option<u64>) -> (key: String)
    ensures
        key@ == match seconds_since_epoch {
            Some(s) => "day_"@ + decimal((s / SECONDS_PER_DAY) as nat),
            None => "today"@,
        },
{
    match seconds_since_epoch {
        Some(s) => {
            let mut key = from_str("day_");
            push_decimal(&mut key, (s / SECONDS_PER_DAY) as u128);
            key
        },
        None => from_str("today"),
    }
}

/// Whether the offline model stands in for a real provider: the provider
/// named `mock`.
pub fn uses_mock_llm(provider: &str) -> (b: bool)
    ensures
        b == (provider@ == "mock"@),
{
    crate::text::str_eq(provider, "mock")
}

} // verus!
