//! HTML output: a standalone page with one `div` per document page.
use crate::context::PipelineContext;
use crate::document::Document;
use crate::error::Error;
use crate::renderers::DocumentRenderer;
use crate::schema::{Block, BlockType, BlockV, DocumentV, Page, PageV};
use crate::text::{
    append_str, chars_of, decimal, push_char, push_decimal, split_on, split_on_exec,
    string_from_chars, trim_seq, trim,
};
use vstd::prelude::*;

verus! {

pub struct HtmlRenderer;

/// The HTML escape of one character.
pub open spec fn html_escape_char(c: char) -> Seq<char> {
    if c == '&' {
        "&amp;"@
    } else if c == '<' {
        "&lt;"@
    } else if c == '>' {
        "&gt;"@
    } else if c == '"' {
        "&quot;"@
    } else if c == '\'' {
        "&#39;"@
    } else {
        seq![c]
    }
}

/// The text with `&`, `<`, `>`, `"` and `'` replaced by their entities.
pub open spec fn html_escape_seq(s: Seq<char>) -> Seq<char>
    decreases s.len(),
{
    if s.len() == 0 {
        Seq::empty()
    } else {
        html_escape_seq(s.drop_last()) + html_escape_char(s.last())
    }
}

/// Escapes text for HTML.
pub fn html_escape(s: &str) -> (r: String)
    ensures
        r@ == html_escape_seq(s@),
{
    let v = chars_of(s);
    let mut out = String::new();
    let mut i: usize = 0;
    while i < v.len()
        invariant
            v@ == s@,
            i <= v@.len(),
            out@ == html_escape_seq(v@.take(i as int)),
        decreases v@.len() - i,
    {
        assert(v@.take(i + 1).drop_last() =~= v@.take(i as int));
        let c = v[i];
        if c == '&' {
            append_str(&mut out, "&amp;");
        } else if c == '<' {
            append_str(&mut out, "&lt;");
        } else if c == '>' {
            append_str(&mut out, "&gt;");
        } else if c == '"' {
            append_str(&mut out, "&quot;");
        } else if c == '\'' {
            append_str(&mut out, "&#39;");
        } else {
            push_char(&mut out, c);
        }
        assert(out@ =~= html_escape_seq(v@.take(i + 1)));
        i = i + 1;
    }
    assert(v@.take(v@.len() as int) =~= v@);
    out
}

/// The head of the page, up to and including `<body>`.
pub open spec fn html_head(title: Seq<char>) -> Seq<char> {
    "<!DOCTYPE html>\n<html>\n<head>\n"@ + "  <title>"@ + title + "</title>\n"@ + "  <style>\n"@
        + "    body { font-family: sans-serif; line-height: 1.6; max-width: 800px; margin: 0 auto; padding: 20px; }\n"@
        + "    table { border-collapse: collapse; width: 100%; margin-bottom: 1em; }\n"@
        + "    th, td { border: 1px solid #ddd; padding: 8px; }\n"@
        + "    img { max-width: 100%; height: auto; }\n"@
        + "    pre, code { background-color: #f4f4f4; padding: 2px 4px; border-radius: 4px; }\n"@
        + "    .page-break { border-bottom: 2px dashed #ccc; margin: 40px 0; text-align: center; color: #999; }\n"@
        + "  </style>\n</head>\n<body>\n"@
}

/// The rows of a table: each non-blank line of the escaped text in a cell.
pub open spec fn html_rows(rows: Seq<Seq<char>>) -> Seq<char>
    decreases rows.len(),
{
    if rows.len() == 0 {
        Seq::empty()
    } else {
        let row = rows.last();
        html_rows(rows.drop_last()) + if trim_seq(row).len() == 0 {
            Seq::empty()
        } else {
            "    <tr>\n"@ + "      <td><pre>"@ + row + "</pre></td>\n"@ + "    </tr>\n"@
        }
    }
}

/// The HTML of a block; nothing for a block whose text is blank.
pub open spec fn html_block(b: BlockV) -> Seq<char> {
    let e = html_escape_seq(b.text);
    if trim_seq(b.text).len() == 0 {
        Seq::empty()
    } else {
        match b.block_type {
            BlockType::Heading1 => "  <h1>"@ + e + "</h1>\n"@,
            BlockType::Heading2 => "  <h2>"@ + e + "</h2>\n"@,
            BlockType::Heading3 => "  <h3>"@ + e + "</h3>\n"@,
            BlockType::Heading4 => "  <h4>"@ + e + "</h4>\n"@,
            BlockType::Heading5 => "  <h5>"@ + e + "</h5>\n"@,
            BlockType::Heading6 => "  <h6>"@ + e + "</h6>\n"@,
            BlockType::ListItem => "  <ul><li>"@ + e + "</li></ul>\n"@,
            BlockType::Table => "  <table>\n"@ + html_rows(split_on(e, '\n')) + "  </table>\n"@,
            BlockType::Equation => "  <div class=\"equation\">\n    "@ + e + "\n  </div>\n"@,
            BlockType::Code => "  <pre><code>"@ + e + "</code></pre>\n"@,
            BlockType::Image => "  <img alt=\""@ + e + "\" />\n"@,
            _ => "  <p>"@ + e + "</p>\n"@,
        }
    }
}

pub open spec fn html_blocks(bs: Seq<BlockV>) -> Seq<char>
    decreases bs.len(),
{
    if bs.len() == 0 {
        Seq::empty()
    } else {
        html_blocks(bs.drop_last()) + html_block(bs.last())
    }
}

pub open spec fn html_page(pg: PageV) -> Seq<char> {
    "<div id=\"page-"@ + decimal(pg.index as nat) + "\" class=\"page\">\n"@ + html_blocks(pg.blocks)
        + "</div>\n"@ + "<div class=\"page-break\">--- Page "@ + decimal((pg.index + 1) as nat)
        + " ---</div>\n"@
}

pub open spec fn html_pages(pages: Seq<PageV>) -> Seq<char>
    decreases pages.len(),
{
    if pages.len() == 0 {
        Seq::empty()
    } else {
        html_pages(pages.drop_last()) + html_page(pages.last())
    }
}

pub open spec fn html(d: DocumentV) -> Seq<char> {
    html_head(html_escape_seq(d.file_name)) + html_pages(d.pages) + "</body>\n</html>"@
}

fn is_blank(s: &str) -> (b: bool)
    ensures
        b == (trim_seq(s@).len() == 0),
{
    trim(s).as_str().is_empty()
}

fn push_rows(out: &mut String, escaped: &String)
    ensures
        final(out)@ == old(out)@ + html_rows(split_on(escaped@, '\n')),
{
    let v = chars_of(escaped.as_str());
    let rows = split_on_exec(&v, '\n');
    let ghost rs = rows@.map_values(|r: Vec<char>| r@);
    let ghost start = out@;
    let mut k: usize = 0;
    while k < rows.len()
        invariant
            rs == rows@.map_values(|r: Vec<char>| r@),
            rs == split_on(escaped@, '\n'),
            k <= rs.len(),
            out@ == start + html_rows(rs.take(k as int)),
        decreases rs.len() - k,
    {
        assert(rs.take(k + 1).drop_last() =~= rs.take(k as int));
        let row = string_from_chars(&rows[k]);
        if !is_blank(row.as_str()) {
            append_str(out, "    <tr>\n");
            append_str(out, "      <td><pre>");
            append_str(out, row.as_str());
            append_str(out, "</pre></td>\n");
            append_str(out, "    </tr>\n");
        }
        assert(out@ =~= start + html_rows(rs.take(k + 1)));
        k = k + 1;
    }
    assert(rs.take(rs.len() as int) =~= rs);
}

fn push_tagged(out: &mut String, open: &str, body: &String, close: &str)
    ensures
        final(out)@ == old(out)@ + open@ + body@ + close@,
{
    append_str(out, open);
    append_str(out, body.as_str());
    append_str(out, close);
}

fn push_html_block(out: &mut String, b: &Block)
    ensures
        final(out)@ == old(out)@ + html_block(b@),
{
    if is_blank(b.text.as_str()) {
        assert(old(out)@ + html_block(b@) =~= old(out)@);
        return ;
    }
    let e = html_escape(b.text.as_str());
    match b.block_type {
        BlockType::Heading1 => push_tagged(out, "  <h1>", &e, "</h1>\n"),
        BlockType::Heading2 => push_tagged(out, "  <h2>", &e, "</h2>\n"),
        BlockType::Heading3 => push_tagged(out, "  <h3>", &e, "</h3>\n"),
        BlockType::Heading4 => push_tagged(out, "  <h4>", &e, "</h4>\n"),
        BlockType::Heading5 => push_tagged(out, "  <h5>", &e, "</h5>\n"),
        BlockType::Heading6 => push_tagged(out, "  <h6>", &e, "</h6>\n"),
        BlockType::ListItem => push_tagged(out, "  <ul><li>", &e, "</li></ul>\n"),
        BlockType::Table => {
            append_str(out, "  <table>\n");
            push_rows(out, &e);
            append_str(out, "  </table>\n");
        },
        BlockType::Equation => push_tagged(out, "  <div class=\"equation\">\n    ", &e, "\n  </div>\n"),
        BlockType::Code => push_tagged(out, "  <pre><code>", &e, "</code></pre>\n"),
        BlockType::Image => push_tagged(out, "  <img alt=\"", &e, "\" />\n"),
        _ => push_tagged(out, "  <p>", &e, "</p>\n"),
    }
    assert(final(out)@ =~= old(out)@ + html_block(b@));
}

fn push_html_page(out: &mut String, page: &Page)
    ensures
        final(out)@ == old(out)@ + html_page(page@),
{
    let ghost start = old(out)@;
    let ghost bs = page@.blocks;
    append_str(out, "<div id=\"page-");
    push_decimal(out, page.index as u128);
    append_str(out, "\" class=\"page\">\n");
    let ghost head = out@;
    let mut i: usize = 0;
    while i < page.blocks.len()
        invariant
            bs == page@.blocks,
            i <= bs.len(),
            out@ == head + html_blocks(bs.take(i as int)),
        decreases bs.len() - i,
    {
        assert(bs.take(i + 1).drop_last() =~= bs.take(i as int));
        push_html_block(out, &page.blocks[i]);
        assert(out@ =~= head + html_blocks(bs.take(i + 1)));
        i = i + 1;
    }
    assert(bs.take(bs.len() as int) =~= bs);
    append_str(out, "</div>\n");
    append_str(out, "<div class=\"page-break\">--- Page ");
    push_decimal(out, page.index as u128 + 1);
    append_str(out, " ---</div>\n");
    assert(out@ =~= start + html_page(page@));
}

impl HtmlRenderer {
    /// The HTML page of the document.
    pub fn render_html(&self, document: &Document) -> (s: String)
        ensures
            s@ == html(document@),
    {
        let title = html_escape(document.file_name.as_str());
        let mut out = String::new();
        append_str(&mut out, "<!DOCTYPE html>\n<html>\n<head>\n");
        append_str(&mut out, "  <title>");
        append_str(&mut out, title.as_str());
        append_str(&mut out, "</title>\n");
        append_str(&mut out, "  <style>\n");
        append_str(&mut out, "    body { font-family: sans-serif; line-height: 1.6; max-width: 800px; margin: 0 auto; padding: 20px; }\n");
        append_str(&mut out, "    table { border-collapse: collapse; width: 100%; margin-bottom: 1em; }\n");
        append_str(&mut out, "    th, td { border: 1px solid #ddd; padding: 8px; }\n");
        append_str(&mut out, "    img { max-width: 100%; height: auto; }\n");
        append_str(&mut out, "    pre, code { background-color: #f4f4f4; padding: 2px 4px; border-radius: 4px; }\n");
        append_str(&mut out, "    .page-break { border-bottom: 2px dashed #ccc; margin: 40px 0; text-align: center; color: #999; }\n");
        append_str(&mut out, "  </style>\n</head>\n<body>\n");
        let ghost head = out@;
        assert(head =~= html_head(html_escape_seq(document@.file_name)));
        let ghost pages = document@.pages;
        let mut p: usize = 0;
        while p < document.pages.len()
            invariant
                pages == document@.pages,
                p <= pages.len(),
                out@ == head + html_pages(pages.take(p as int)),
            decreases pages.len() - p,
        {
            assert(pages.take(p + 1).drop_last() =~= pages.take(p as int));
            push_html_page(&mut out, &document.pages[p]);
            assert(out@ =~= head + html_pages(pages.take(p + 1)));
            p = p + 1;
        }
        assert(pages.take(pages.len() as int) =~= pages);
        append_str(&mut out, "</body>\n</html>");
        assert(out@ =~= html(document@));
        out
    }
}

impl DocumentRenderer for HtmlRenderer {
    type Output = String;

    open spec fn rendered(&self, d: DocumentV, out: String) -> bool {
        out@ == html(d)
    }

    fn render(&self, document: &Document, _ctx: &PipelineContext) -> (r: Result<String, Error>) {
        Ok(self.render_html(document))
    }
}

} // verus!
