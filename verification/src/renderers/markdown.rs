//! Markdown output: one section per page, headed by a page comment.
use crate::context::PipelineContext;
use crate::document::Document;
use crate::error::Error;
use crate::renderers::DocumentRenderer;
use crate::schema::{BlockType, BlockV, DocumentV, PageV, Page};
use crate::text::{append_str, decimal, push_decimal, trim, trim_seq};
use vstd::prelude::*;

verus! {

pub struct MarkdownRenderer;

/// The Markdown of a block that is not a list item.
pub open spec fn md_block(b: BlockV) -> Seq<char> {
    let t = trim_seq(b.text);
    match b.block_type {
        BlockType::Heading1 => "# "@ + t + "\n\n"@,
        BlockType::Heading2 => "## "@ + t + "\n\n"@,
        BlockType::Heading3 => "### "@ + t + "\n\n"@,
        BlockType::Heading4 => "#### "@ + t + "\n\n"@,
        BlockType::Heading5 => "##### "@ + t + "\n\n"@,
        BlockType::Heading6 => "###### "@ + t + "\n\n"@,
        BlockType::Code => "```\n"@ + t + "\n```\n\n"@,
        BlockType::Table => t + "\n\n"@,
        BlockType::Equation => "$$\n"@ + t + "\n$$\n\n"@,
        BlockType::Image => "![Image]("@ + t + ")\n\n"@,
        _ => t + "\n\n"@,
    }
}

/// The Markdown of a run of blocks, and whether it ends inside a list.
/// A list item is a `* ` line; a list is closed by a blank line.
pub open spec fn md_blocks(bs: Seq<BlockV>) -> (Seq<char>, bool)
    decreases bs.len(),
{
    if bs.len() == 0 {
        (Seq::empty(), false)
    } else {
        let (out, in_list) = md_blocks(bs.drop_last());
        let b = bs.last();
        if b.block_type == BlockType::ListItem {
            (out + "* "@ + trim_seq(b.text) + "\n"@, true)
        } else {
            (out + (if in_list {
                "\n"@
            } else {
                Seq::empty()
            }) + md_block(b), false)
        }
    }
}

/// The Markdown of a page.
pub open spec fn md_page(pg: PageV) -> Seq<char> {
    let (body, in_list) = md_blocks(pg.blocks);
    "<!-- Page "@ + decimal((pg.index + 1) as nat) + " -->\n\n"@ + body + (if in_list {
        "\n"@
    } else {
        Seq::empty()
    }) + "\n"@
}

/// The Markdown of the pages, in order.
pub open spec fn md_pages(pages: Seq<PageV>) -> Seq<char>
    decreases pages.len(),
{
    if pages.len() == 0 {
        Seq::empty()
    } else {
        md_pages(pages.drop_last()) + md_page(pages.last())
    }
}

pub open spec fn markdown(d: DocumentV) -> Seq<char> {
    md_pages(d.pages)
}

fn push_block(out: &mut String, b: &crate::schema::Block)
    ensures
        final(out)@ == old(out)@ + md_block(b@),
{
    let t = trim(b.text.as_str());
    match b.block_type {
        BlockType::Heading1 => {
            append_str(out, "# ");
            append_str(out, t.as_str());
            append_str(out, "\n\n");
        },
        BlockType::Heading2 => {
            append_str(out, "## ");
            append_str(out, t.as_str());
            append_str(out, "\n\n");
        },
        BlockType::Heading3 => {
            append_str(out, "### ");
            append_str(out, t.as_str());
            append_str(out, "\n\n");
        },
        BlockType::Heading4 => {
            append_str(out, "#### ");
            append_str(out, t.as_str());
            append_str(out, "\n\n");
        },
        BlockType::Heading5 => {
            append_str(out, "##### ");
            append_str(out, t.as_str());
            append_str(out, "\n\n");
        },
        BlockType::Heading6 => {
            append_str(out, "###### ");
            append_str(out, t.as_str());
            append_str(out, "\n\n");
        },
        BlockType::Code => {
            append_str(out, "```\n");
            append_str(out, t.as_str());
            append_str(out, "\n```\n\n");
        },
        BlockType::Table => {
            append_str(out, t.as_str());
            append_str(out, "\n\n");
        },
        BlockType::Equation => {
            append_str(out, "$$\n");
            append_str(out, t.as_str());
            append_str(out, "\n$$\n\n");
        },
        BlockType::Image => {
            append_str(out, "![Image](");
            append_str(out, t.as_str());
            append_str(out, ")\n\n");
        },
        _ => {
            append_str(out, t.as_str());
            append_str(out, "\n\n");
        },
    }
    assert(final(out)@ =~= old(out)@ + md_block(b@));
}

/// Appends the Markdown of a page.
pub fn push_page(out: &mut String, page: &Page)
    ensures
        final(out)@ == old(out)@ + md_page(page@),
{
    let ghost start = old(out)@;
    let ghost bs = page@.blocks;
    append_str(out, "<!-- Page ");
    push_decimal(out, page.index as u128 + 1);
    append_str(out, " -->\n\n");
    let ghost head = out@;
    let mut in_list = false;
    let mut i: usize = 0;
    while i < page.blocks.len()
        invariant
            bs == page@.blocks,
            i <= bs.len(),
            out@ == head + md_blocks(bs.take(i as int)).0,
            in_list == md_blocks(bs.take(i as int)).1,
        decreases bs.len() - i,
    {
        assert(bs.take(i + 1).drop_last() =~= bs.take(i as int));
        let b = &page.blocks[i];
        if b.block_type == BlockType::ListItem {
            in_list = true;
            append_str(out, "* ");
            let t = trim(b.text.as_str());
            append_str(out, t.as_str());
            append_str(out, "\n");
        } else {
            if in_list {
                append_str(out, "\n");
                in_list = false;
            }
            push_block(out, b);
        }
        assert(out@ =~= head + md_blocks(bs.take(i + 1)).0);
        i = i + 1;
    }
    assert(bs.take(bs.len() as int) =~= bs);
    if in_list {
        append_str(out, "\n");
    }
    append_str(out, "\n");
    assert(out@ =~= start + md_page(page@));
}

impl MarkdownRenderer {
    /// The Markdown of the document.
    pub fn render_markdown(&self, document: &Document) -> (s: String)
        ensures
            s@ == markdown(document@),
    {
        let ghost pages = document@.pages;
        let mut out = String::new();
        let mut p: usize = 0;
        while p < document.pages.len()
            invariant
                pages == document@.pages,
                p <= pages.len(),
                out@ == md_pages(pages.take(p as int)),
            decreases pages.len() - p,
        {
            assert(pages.take(p + 1).drop_last() =~= pages.take(p as int));
            push_page(&mut out, &document.pages[p]);
            p = p + 1;
        }
        assert(pages.take(pages.len() as int) =~= pages);
        out
    }
}

impl DocumentRenderer for MarkdownRenderer {
    type Output = String;

    open spec fn rendered(&self, d: DocumentV, out: String) -> bool {
        out@ == markdown(d)
    }

    fn render(&self, document: &Document, _ctx: &PipelineContext) -> (r: Result<String, Error>) {
        Ok(self.render_markdown(document))
    }
}

} // verus!
