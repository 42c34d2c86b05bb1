//! Builds the document tree from a page source: one text block per line.
//! The OCR mode decides where the lines come from: `never` takes the native
//! text alone, `always` asks OCR for every page, and any other mode (the
//! default `auto`) asks OCR only for pages without native text.
use crate::context::PipelineContext;
use crate::document::Document;
use crate::error::Error;
use crate::providers::{image_result, lines_result, DocumentProvider, PageImageV, ServiceRegistry};
use crate::schema::{Block, BlockType, BlockV, DocumentV, Line, LineV, Page, PageV, line_text};
use crate::text::{append_str, decimal, from_str, push_decimal, str_eq};
use vstd::prelude::*;

verus! {

/// The DPI at which a page is rendered for OCR.
pub const OCR_DPI: u32 = 150;

/// Makes the document tree from a page source. The source is a type
/// parameter, so that a contract of a caller and one of the builder speak of
/// the same source.
pub trait DocumentBuilder {
    fn build<P: DocumentProvider + ?Sized>(&self, provider: &P, ctx: &PipelineContext) -> Result<
        Document,
        Error,
    >;
}

pub struct TextDocumentBuilder;

/// The id of block `k` of page `p`: `p{p}_b{k}`.
pub open spec fn block_id(p: usize, k: nat) -> Seq<char> {
    "p"@ + decimal(p as nat) + "_b"@ + decimal(k)
}

/// The text block made of line `k` of page `p`.
pub open spec fn line_block(p: usize, k: nat, l: LineV) -> BlockV {
    BlockV {
        id: block_id(p, k),
        bbox: l.bbox,
        block_type: BlockType::Text,
        text: line_text(l),
        lines: seq![l],
    }
}

/// The page built from its lines.
pub open spec fn built_page(p: usize, width: i64, height: i64, lines: Seq<LineV>) -> PageV {
    PageV {
        index: p,
        width,
        height,
        blocks: Seq::new(lines.len(), |k: int| line_block(p, k as nat, lines[k])),
    }
}

/// OCR is asked for a page in this mode: in `always` for every page, in
/// `never` for none, and in any other mode (`auto`) for a page without
/// native text.
pub open spec fn ocr_wanted(mode: Seq<char>, native: Seq<LineV>) -> bool {
    mode == "always"@ || (mode != "never"@ && native.len() == 0)
}

/// The lines a page is built from: what OCR recognized, when OCR was asked
/// and answered; its native text otherwise.
pub open spec fn chosen_lines(mode: Seq<char>, native: Seq<LineV>, ocr: Option<Seq<LineV>>) -> Seq<
    LineV,
> {
    if ocr_wanted(mode, native) {
        match ocr {
            Some(o) => o,
            None => native,
        }
    } else {
        native
    }
}

/// Page `p` of the list is built, as page `p`, from some lines.
pub open spec fn page_is_built(pages: Seq<PageV>, p: int) -> bool {
    exists|w: i64, h: i64, lines: Seq<LineV>| #[trigger] built_page(p as usize, w, h, lines) == pages[p]
}

/// Each page of the list is built from some lines.
pub open spec fn pages_are_built(pages: Seq<PageV>) -> bool {
    forall|p: int| 0 <= p < pages.len() ==> #[trigger] page_is_built(pages, p)
}

/// A document as the builder makes it: each page `p` built from some lines.
pub open spec fn is_built_document(d: DocumentV) -> bool {
    &&& d.file_name == "extracted_document"@
    &&& d.metadata == Map::<Seq<char>, Seq<char>>::empty()
    &&& pages_are_built(d.pages)
}

/// OCR of page `p` as the builder asks it: `render` is what the provider
/// gave for the page rendered at `OCR_DPI`, `rec` what the registered OCR
/// service gave for that rendering, and `ocr` the lines that come of it
/// (none when either failed).
pub open spec fn ocr_outcome<P: DocumentProvider + ?Sized>(
    provider: &P,
    p: usize,
    reg: ServiceRegistry,
    render: Result<PageImageV, Error>,
    rec: Result<Seq<LineV>, Error>,
    ocr: Option<Seq<LineV>>,
) -> bool {
    &&& provider.may_render(p, OCR_DPI, render)
    &&& match render {
        Err(_) => ocr is None,
        Ok(img) => {
            &&& reg.ocr_service()->0.may_recognize(img.bytes, img.width, img.height, rec)
            &&& ocr == match rec {
                Ok(o) => Some(o),
                Err(_) => None::<Seq<LineV>>,
            }
        },
    }
}

/// What OCR gives for page `p` with these native lines: where the mode asks
/// for OCR and an OCR service is registered, the outcome of rendering and
/// recognizing the page; nothing otherwise.
pub open spec fn ocr_step<P: DocumentProvider + ?Sized>(
    provider: &P,
    p: usize,
    mode: Seq<char>,
    reg: ServiceRegistry,
    native: Seq<LineV>,
    render: Result<PageImageV, Error>,
    rec: Result<Seq<LineV>, Error>,
    ocr: Option<Seq<LineV>>,
) -> bool {
    if ocr_wanted(mode, native) && reg.has_ocr() {
        ocr_outcome(provider, p, reg, render, rec, ocr)
    } else {
        ocr is None
    }
}

/// The page is page `p` as the builder makes it from the provider's
/// answers for `p`: its size, its native lines, and, where the mode asks
/// for OCR and an OCR service is registered, the rendering and what OCR
/// made of it.
pub open spec fn page_from_provider<P: DocumentProvider + ?Sized>(
    page: PageV,
    p: usize,
    provider: &P,
    mode: Seq<char>,
    reg: ServiceRegistry,
) -> bool {
    exists|
        w: i64,
        h: i64,
        native: Seq<LineV>,
        ocr: Option<Seq<LineV>>,
        render: Result<PageImageV, Error>,
        rec: Result<Seq<LineV>, Error>,
    |
        {
            &&& #[trigger] built_page(p, w, h, chosen_lines(mode, native, ocr)) == page
            &&& provider.may_size(p, Ok((w, h)))
            &&& provider.may_extract(p, Ok(native))
            &&& #[trigger] ocr_step(provider, p, mode, reg, native, render, rec, ocr)
        }
}

/// The document as the builder makes it from the provider: as many pages
/// as the provider counted, page `p` made from the answers for `p`.
pub open spec fn built_from_provider<P: DocumentProvider + ?Sized>(
    d: DocumentV,
    provider: &P,
    mode: Seq<char>,
    reg: ServiceRegistry,
) -> bool {
    &&& is_built_document(d)
    &&& d.pages.len() <= usize::MAX
    &&& provider.may_count(Ok(d.pages.len() as usize))
    &&& forall|p: int|
        0 <= p < d.pages.len() ==> #[trigger] page_from_provider(
            d.pages[p],
            p as usize,
            provider,
            mode,
            reg,
        )
}

/// `e` is an error that the provider may give when asked for its page
/// count, or for the size or native text of some page.
pub open spec fn provider_may_fail<P: DocumentProvider + ?Sized>(provider: &P, e: Error) -> bool {
    ||| provider.may_count(Err(e))
    ||| exists|p: usize| #[trigger] provider.may_size(p, Err(e))
    ||| exists|p: usize| #[trigger] provider.may_extract(p, Err(e))
}

/// Lines taken by their views.
pub open spec fn lines_view(lines: Seq<Line>) -> Seq<LineV> {
    lines.map_values(|l: Line| l@)
}

/// Lines taken by their views, if any.
pub open spec fn lines_option(o: Option<Vec<Line>>) -> Option<Seq<LineV>> {
    match o {
        Some(lines) => Some(lines@.map_values(|l: Line| l@)),
        None => None,
    }
}

proof fn lemma_page_from_provider<P: DocumentProvider + ?Sized>(
    page: PageV,
    p: usize,
    provider: &P,
    mode: Seq<char>,
    reg: ServiceRegistry,
    w: i64,
    h: i64,
    native: Seq<LineV>,
    ocr: Option<Seq<LineV>>,
    render: Result<PageImageV, Error>,
    rec: Result<Seq<LineV>, Error>,
)
    requires
        built_page(p, w, h, chosen_lines(mode, native, ocr)) == page,
        provider.may_size(p, Ok((w, h))),
        provider.may_extract(p, Ok(native)),
        ocr_step(provider, p, mode, reg, native, render, rec, ocr),
    ensures
        page_from_provider(page, p, provider, mode, reg),
{
}

fn block_id_string(p: usize, k: usize) -> (s: String)
    ensures
        s@ == block_id(p, k as nat),
{
    let mut s = from_str("p");
    push_decimal(&mut s, p as u128);
    append_str(&mut s, "_b");
    push_decimal(&mut s, k as u128);
    s
}

/// The page built from its lines, one text block per line.
pub fn build_page(p: usize, width: i64, height: i64, lines: Vec<Line>) -> (page: Page)
    ensures
        page@ == built_page(p, width, height, lines@.map_values(|l: Line| l@)),
{
    let ghost lv = lines@.map_values(|l: Line| l@);
    let ghost ls = lines@;
    let mut blocks: Vec<Block> = Vec::new();
    for line in it: lines.into_iter()
        invariant
            it.seq() == ls,
            lv == ls.map_values(|l: Line| l@),
            blocks@.len() == it.index(),
            forall|k: int|
                0 <= k < it.index() ==> #[trigger] blocks@[k]@ == line_block(p, k as nat, lv[k]),
    {
        let k = blocks.len();
        assert(lv[k as int] == line@);
        let id = block_id_string(p, k);
        let text = line.text();
        let bbox = line.bbox;
        let mut one: Vec<Line> = Vec::new();
        one.push(line);
        let b = Block::new(id, bbox, BlockType::Text, text, one);
        assert(b@.lines =~= seq![lv[k as int]]);
        blocks.push(b);
    }
    let page = Page::new(p, width, height, blocks);
    assert(page@.blocks =~= built_page(p, width, height, lv).blocks);
    page
}

/// Whether OCR is asked for a page (see `ocr_wanted`).
pub fn wants_ocr(mode: &str, native: &Vec<Line>) -> (b: bool)
    ensures
        b == ocr_wanted(mode@, native@.map_values(|l: Line| l@)),
{
    str_eq(mode, "always") || (!str_eq(mode, "never") && native.len() == 0)
}

/// The lines a page is built from (see `chosen_lines`).
pub fn choose_lines(mode: &str, native: Vec<Line>, ocr: Option<Vec<Line>>) -> (lines: Vec<Line>)
    ensures
        lines@.map_values(|l: Line| l@) == chosen_lines(
            mode@,
            native@.map_values(|l: Line| l@),
            match ocr {
                Some(o) => Some(o@.map_values(|l: Line| l@)),
                None => None,
            },
        ),
{
    if wants_ocr(mode, &native) {
        match ocr {
            Some(o) => o,
            None => native,
        }
    } else {
        native
    }
}

/// What OCR makes of page `p` with these native lines: nothing where the
/// mode does not ask for OCR or no OCR service is registered; otherwise the
/// lines that the service recognizes on the page rendered at `OCR_DPI`, or
/// nothing when the rendering or the recognition fails.
fn page_ocr<P: DocumentProvider + ?Sized>(provider: &P, p: usize, native: &Vec<Line>, ctx: &PipelineContext) -> (ocr:
    Option<Vec<Line>>)
    ensures
        exists|render: Result<PageImageV, Error>, rec: Result<Seq<LineV>, Error>|
            #[trigger] ocr_step(
                provider,
                p,
                ctx.config.ocr_mode@,
                ctx.registry,
                lines_view(native@),
                render,
                rec,
                lines_option(ocr),
            ),
{
    let ghost mode = ctx.config.ocr_mode@;
    let ghost reg = ctx.registry;
    let ghost nv = lines_view(native@);
    let ghost none_r: Result<PageImageV, Error> = Err(Error::Cancelled);
    let ghost none_c: Result<Seq<LineV>, Error> = Err(Error::Cancelled);
    if !wants_ocr(ctx.config.ocr_mode.as_str(), native) {
        assert(ocr_step(provider, p, mode, reg, nv, none_r, none_c, lines_option(None)));
        return None;
    }
    match ctx.registry.ocr() {
        None => {
            assert(ocr_step(provider, p, mode, reg, nv, none_r, none_c, lines_option(None)));
            None
        },
        Some(service) => {
            assert(reg.ocr_service()->0 == *service);
            let rendered = provider.render_page(p, OCR_DPI);
            match rendered {
                Err(e) => {
                    assert(ocr_step(provider, p, mode, reg, nv, Err(e), none_c, lines_option(None)));
                    None
                },
                Ok(image) => {
                    let ghost img = image@;
                    let recognized = service.recognize_text(
                        image.bytes.as_slice(),
                        image.width,
                        image.height,
                    );
                    let ghost rec = lines_result(recognized);
                    match recognized {
                        Ok(lines) => {
                            let ocr = Some(lines);
                            assert(ocr_step(provider, p, mode, reg, nv, Ok(img), rec, lines_option(ocr)));
                            ocr
                        },
                        Err(_) => {
                            assert(ocr_step(provider, p, mode, reg, nv, Ok(img), rec, lines_option(None)));
                            None
                        },
                    }
                },
            }
        },
    }
}

impl DocumentBuilder for TextDocumentBuilder {
    /// Builds the document page by page from the provider: page `p` from
    /// the size and native lines that the provider gives for `p`, and, where
    /// the mode asks for OCR and an OCR service is registered, from what
    /// OCR recognizes on the page rendered at `OCR_DPI`. A page whose
    /// rendering or recognition fails keeps its native lines. An error of
    /// the page count, a size or the native text is returned as it is.
    fn build<P: DocumentProvider + ?Sized>(&self, provider: &P, ctx: &PipelineContext) -> (r: Result<
        Document,
        Error,
    >)
        ensures
            r matches Ok(d) ==> built_from_provider(
                d@,
                provider,
                ctx.config.ocr_mode@,
                ctx.registry,
            ),
            r matches Err(e) ==> provider_may_fail(provider, e),
            (forall|e: Error| !provider_may_fail(provider, e)) ==> r is Ok,
    {
        let ghost mode = ctx.config.ocr_mode@;
        let ghost reg = ctx.registry;
        let page_count = match provider.page_count() {
            Ok(n) => n,
            Err(e) => {
                assert(provider_may_fail(provider, e));
                return Err(e);
            },
        };
        let mut pages: Vec<Page> = Vec::new();
        let mut p: usize = 0;
        while p < page_count
            invariant
                p <= page_count,
                provider.may_count(Ok(page_count)),
                pages@.len() == p,
                mode == ctx.config.ocr_mode@,
                reg == ctx.registry,
                pages_are_built(pages@.map_values(|pg: Page| pg@)),
                forall|q: int|
                    0 <= q < p ==> #[trigger] page_from_provider(
                        pages@[q]@,
                        q as usize,
                        provider,
                        mode,
                        reg,
                    ),
            decreases page_count - p,
        {
            let size = provider.page_size(p);
            let (width, height) = match size {
                Ok(wh) => wh,
                Err(e) => {
                    assert(provider.may_size(p, Err(e)));
                    return Err(e);
                },
            };
            assert(provider.may_size(p, Ok((width, height))));
            let extracted = provider.extract_native_text(p);
            let native = match extracted {
                Ok(lines) => lines,
                Err(e) => {
                    assert(provider.may_extract(p, Err(e)));
                    return Err(e);
                },
            };
            let ghost nv = lines_view(native@);
            assert(provider.may_extract(p, Ok(nv)));
            let ocr = page_ocr(provider, p, &native, ctx);
            let ghost ov = lines_option(ocr);
            let ghost (render_g, rec_g) = choose|
                render: Result<PageImageV, Error>,
                rec: Result<Seq<LineV>, Error>,
            | #[trigger] ocr_step(provider, p, mode, reg, nv, render, rec, ov);
            let lines = choose_lines(ctx.config.ocr_mode.as_str(), native, ocr);
            let ghost lv = lines@.map_values(|l: Line| l@);
            let page = build_page(p, width, height, lines);
            assert(lv == chosen_lines(mode, nv, ov));
            proof {
                lemma_page_from_provider(page@, p, provider, mode, reg, width, height, nv, ov, render_g, rec_g);
            }
            let ghost old_pages = pages@.map_values(|pg: Page| pg@);
            pages.push(page);
            let ghost new_pages = pages@.map_values(|pg: Page| pg@);
            assert forall|q: int| 0 <= q < p + 1 implies #[trigger] page_is_built(new_pages, q) by {
                if q < p {
                    assert(new_pages[q] == old_pages[q]);
                    assert(page_is_built(old_pages, q));
                } else {
                    assert(built_page(q as usize, width, height, lv) == new_pages[q]);
                }
            }
            assert forall|q: int| 0 <= q < p + 1 implies #[trigger] page_from_provider(
                pages@[q]@,
                q as usize,
                provider,
                mode,
                reg,
            ) by {
                if q == p {
                    assert(pages@[q]@ == page@);
                }
            }
            p = p + 1;
        }
        let d = Document::new(from_str("extracted_document"), pages);
        assert(d@.pages == pages@.map_values(|pg: Page| pg@));
        assert(d@.metadata == Map::<Seq<char>, Seq<char>>::empty());
        assert(d@.pages.len() == page_count);
        assert forall|q: int| 0 <= q < d@.pages.len() implies #[trigger] page_from_provider(
            d@.pages[q],
            q as usize,
            provider,
            mode,
            reg,
        ) by {
            assert(d@.pages[q] == pages@[q]@);
        }
        Ok(d)
    }
}

} // verus!
