//! Collects the headings of a document into a table of contents and stores
//! it, as JSON, under the metadata key `toc_json`.
use crate::context::PipelineContext;
use crate::document::Document;
use crate::error::Error;
use crate::json::{json_string, push_json_string};
use crate::processors::DocumentProcessor;
use crate::schema::{BlockV, DocumentV, PageV};
use crate::text::{append_str, decimal, from_str, push_char, push_decimal, trim, trim_seq};
use vstd::prelude::*;

verus! {

#[derive(Clone, Debug)]
pub struct TocEntry {
    pub level: usize,
    pub title: String,
    pub page_index: usize,
}

pub struct TocEntryV {
    pub level: usize,
    pub title: Seq<char>,
    pub page_index: usize,
}

impl View for TocEntry {
    type V = TocEntryV;

    open spec fn view(&self) -> TocEntryV {
        TocEntryV { level: self.level, title: self.title@, page_index: self.page_index }
    }
}

pub struct TocProcessor;

/// The entries of the headings among `blocks`, on the page at position `p`.
pub open spec fn block_entries(blocks: Seq<BlockV>, p: usize) -> Seq<TocEntryV>
    decreases blocks.len(),
{
    if blocks.len() == 0 {
        Seq::empty()
    } else {
        let b = blocks.last();
        let rest = block_entries(blocks.drop_last(), p);
        if b.block_type.spec_is_heading() {
            rest.push(
                TocEntryV { level: b.block_type.heading_level(), title: trim_seq(b.text), page_index: p },
            )
        } else {
            rest
        }
    }
}

/// The entries of the headings of the pages, in page order; a page's entries
/// carry its position in the list.
pub open spec fn page_entries(pages: Seq<PageV>) -> Seq<TocEntryV>
    decreases pages.len(),
{
    if pages.len() == 0 {
        Seq::empty()
    } else {
        page_entries(pages.drop_last()) + block_entries(
            pages.last().blocks,
            (pages.len() - 1) as usize,
        )
    }
}

pub open spec fn toc_entries(d: DocumentV) -> Seq<TocEntryV> {
    page_entries(d.pages)
}

/// The JSON object of one entry.
pub open spec fn toc_entry_json(e: TocEntryV) -> Seq<char> {
    "{\"level\":"@ + decimal(e.level as nat) + ",\"title\":"@ + json_string(e.title)
        + ",\"page_index\":"@ + decimal(e.page_index as nat) + "}"@
}

/// The objects of the entries, separated by commas.
pub open spec fn toc_items_json(es: Seq<TocEntryV>) -> Seq<char>
    decreases es.len(),
{
    if es.len() == 0 {
        Seq::empty()
    } else if es.len() == 1 {
        toc_entry_json(es[0])
    } else {
        toc_items_json(es.drop_last()) + ","@ + toc_entry_json(es.last())
    }
}

/// The JSON array of the entries.
pub open spec fn toc_json(es: Seq<TocEntryV>) -> Seq<char> {
    "["@ + toc_items_json(es) + "]"@
}

pub open spec fn toc_result(d: DocumentV) -> DocumentV {
    let es = toc_entries(d);
    if es.len() > 0 {
        DocumentV { metadata: d.metadata.insert("toc_json"@, toc_json(es)), ..d }
    } else {
        d
    }
}

fn heading_level_of(b: &crate::schema::BlockType) -> (l: usize)
    ensures
        l == b.heading_level(),
{
    match b {
        crate::schema::BlockType::Heading2 => 2,
        crate::schema::BlockType::Heading3 => 3,
        crate::schema::BlockType::Heading4 => 4,
        crate::schema::BlockType::Heading5 => 5,
        crate::schema::BlockType::Heading6 => 6,
        _ => 1,
    }
}

impl TocProcessor {
    /// The headings of the document, in reading order.
    pub fn entries(document: &Document) -> (es: Vec<TocEntry>)
        ensures
            es@.map_values(|e: TocEntry| e@) == toc_entries(document@),
    {
        let ghost pages = document@.pages;
        let mut es: Vec<TocEntry> = Vec::new();
        let mut p: usize = 0;
        while p < document.pages.len()
            invariant
                pages == document@.pages,
                p <= pages.len(),
                es@.map_values(|e: TocEntry| e@) == page_entries(pages.take(p as int)),
            decreases pages.len() - p,
        {
            let page = &document.pages[p];
            let ghost blocks = page@.blocks;
            let ghost base = page_entries(pages.take(p as int));
            let mut i: usize = 0;
            while i < page.blocks.len()
                invariant
                    pages == document@.pages,
                    p < pages.len(),
                    blocks == pages[p as int].blocks,
                    blocks == page@.blocks,
                    i <= blocks.len(),
                    es@.map_values(|e: TocEntry| e@) == base + block_entries(
                        blocks.take(i as int),
                        p,
                    ),
                decreases blocks.len() - i,
            {
                let b = &page.blocks[i];
                assert(blocks.take(i + 1).drop_last() =~= blocks.take(i as int));
                if b.block_type.is_heading() {
                    let level = heading_level_of(&b.block_type);
                    let title = trim(b.text.as_str());
                    let ghost before = es@.map_values(|e: TocEntry| e@);
                    es.push(TocEntry { level, title, page_index: p });
                    assert(es@.map_values(|e: TocEntry| e@) =~= before.push(es@[es@.len() - 1]@));
                }
                i = i + 1;
            }
            assert(blocks.take(blocks.len() as int) =~= blocks);
            assert(pages.take(p + 1).drop_last() =~= pages.take(p as int));
            p = p + 1;
        }
        assert(pages.take(pages.len() as int) =~= pages);
        es
    }

    /// The JSON text of the entries.
    pub fn entries_json(es: &Vec<TocEntry>) -> (s: String)
        ensures
            s@ == toc_json(es@.map_values(|e: TocEntry| e@)),
    {
        let ghost ev = es@.map_values(|e: TocEntry| e@);
        let mut s = from_str("[");
        let mut i: usize = 0;
        while i < es.len()
            invariant
                ev == es@.map_values(|e: TocEntry| e@),
                i <= ev.len(),
                s@ == "["@ + toc_items_json(ev.take(i as int)),
            decreases ev.len() - i,
        {
            assert(ev.take(i + 1).drop_last() =~= ev.take(i as int));
            let ghost before = s@;
            if i > 0 {
                push_char(&mut s, ',');
            }
            let e = &es[i];
            append_str(&mut s, "{\"level\":");
            push_decimal(&mut s, e.level as u128);
            append_str(&mut s, ",\"title\":");
            push_json_string(&mut s, e.title.as_str());
            append_str(&mut s, ",\"page_index\":");
            push_decimal(&mut s, e.page_index as u128);
            append_str(&mut s, "}");
            proof {
                reveal_strlit(",");
            }
            if i == 0 {
                assert(ev.take(1) =~= seq![ev[0]]);
            }
            assert(s@ =~= "["@ + toc_items_json(ev.take(i + 1)));
            i = i + 1;
        }
        assert(ev.take(ev.len() as int) =~= ev);
        append_str(&mut s, "]");
        s
    }
}

impl DocumentProcessor for TocProcessor {
    open spec fn accepts(&self, d: DocumentV) -> bool {
        true
    }

    open spec fn result(&self, d: DocumentV) -> DocumentV {
        toc_result(d)
    }

    fn name(&self) -> (n: &'static str)
        ensures
            n@ == "TocProcessor"@,
    {
        "TocProcessor"
    }

    fn process(&self, document: &mut Document, _ctx: &PipelineContext) -> (r: Result<(), Error>) {
        let es = TocProcessor::entries(document);
        if es.len() > 0 {
            let json = TocProcessor::entries_json(&es);
            document.metadata.insert(from_str("toc_json"), json);
        }
        Ok(())
    }
}

} // verus!
