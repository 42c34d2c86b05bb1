//! The conversion pipeline: build the document, run the processors in
//! order, render Markdown; with cancellation checks and progress reports
//! between the stages.
use crate::builder::{built_from_provider, provider_may_fail, DocumentBuilder, TextDocumentBuilder};
use crate::context::PipelineContext;
use crate::document::Document;
use crate::error::Error;
use crate::job::{JobProgressV, PipelineStage, ProgressReporter};
use crate::processors::{all_blocks, DocumentProcessor};
use crate::processors::equation::{equation_result, EquationProcessor};
use crate::processors::heading::{flat_spans, heading_admits, heading_result, HeadingProcessor};
use crate::processors::line_merge::{line_merge_result, LineMergeProcessor};
use crate::processors::list::{list_result, ListProcessor};
use crate::processors::meta::{llm_meta_result, BlockRelabelProcessor, LlmSimpleMetaProcessor};
use crate::processors::order::{order_result, OrderProcessor};
use crate::processors::table::{table_result, TableProcessor};
use crate::processors::table_merge::{table_merge_result, TableMergeProcessor};
use crate::processors::toc::{toc_result, TocProcessor};
use crate::providers::DocumentProvider;
use crate::renderers::markdown::{markdown, MarkdownRenderer};
use crate::schema::{BlockType, BlockV, DocumentV, LineV};
use crate::text::from_str;
use vstd::prelude::*;

verus! {

/// The built-in processors.
#[derive(Clone, Copy, Debug, PartialEq, Eq, Structural)]
pub enum ProcessorKind {
    Table,
    Heading,
    List,
    LineMerge,
    Order,
    Equation,
    BlockRelabel,
    Toc,
    TableMerge,
    LlmSimpleMeta,
}

pub open spec fn kind_accepts(k: ProcessorKind, d: DocumentV) -> bool {
    match k {
        ProcessorKind::Heading => all_blocks(d, |b: BlockV| heading_admits(b)),
        _ => true,
    }
}

pub open spec fn kind_result(k: ProcessorKind, d: DocumentV) -> DocumentV {
    match k {
        ProcessorKind::Table => table_result(d),
        ProcessorKind::Heading => heading_result(d),
        ProcessorKind::List => list_result(d),
        ProcessorKind::LineMerge => line_merge_result(d),
        ProcessorKind::Order => order_result(d),
        ProcessorKind::Equation => equation_result(d),
        ProcessorKind::BlockRelabel => d,
        ProcessorKind::Toc => toc_result(d),
        ProcessorKind::TableMerge => table_merge_result(d),
        ProcessorKind::LlmSimpleMeta => llm_meta_result(d),
    }
}

/// Each processor in turn accepts what the ones before it made.
pub open spec fn kinds_accept(ks: Seq<ProcessorKind>, d: DocumentV) -> bool
    decreases ks.len(),
{
    if ks.len() == 0 {
        true
    } else {
        kinds_accept(ks.drop_last(), d) && kind_accepts(ks.last(), apply_kinds(ks.drop_last(), d))
    }
}

/// The document after the processors, in order.
pub open spec fn apply_kinds(ks: Seq<ProcessorKind>, d: DocumentV) -> DocumentV
    decreases ks.len(),
{
    if ks.len() == 0 {
        d
    } else {
        kind_result(ks.last(), apply_kinds(ks.drop_last(), d))
    }
}

/// The processors of the default pipeline.
pub open spec fn default_kinds() -> Seq<ProcessorKind> {
    seq![ProcessorKind::Table, ProcessorKind::Heading, ProcessorKind::List, ProcessorKind::LineMerge]
}

/// A signal that the job was cancelled. `may_answer` says which answers the
/// signal may give when asked; by default, either. A signal that was raised
/// before the job started answers only `true`; one that is never raised
/// answers only `false`.
pub trait CancelCheck {
    open spec fn may_answer(&self, cancelled: bool) -> bool {
        true
    }

    fn is_cancelled(&self) -> (b: bool)
        ensures
            self.may_answer(b),
    ;
}

/// The error with which a processor refuses a document it cannot take: a
/// text block of 2^31 spans or more, which the heading processor cannot
/// count.
pub open spec fn is_span_limit_error(e: Error) -> bool {
    e matches Error::Pipeline { stage, message } && stage@ == "RunningProcessors"@ && message@
        == "a text block has 2^31 spans or more"@
}

/// The progress reports of a conversion of `n` pages, in order: loading,
/// running the processors, rendering.
pub open spec fn planned_reports(n: usize) -> Seq<(PipelineStage, usize, usize)> {
    seq![
        (PipelineStage::LoadingPdf, 0usize, n),
        (PipelineStage::RunningProcessors, 0usize, n),
        (PipelineStage::Rendering, n, n),
    ]
}

/// `made` is the first reports of the plan for `n` pages, with the job id.
pub open spec fn reports_follow_plan(made: Seq<JobProgressV>, n: usize, job_id: Seq<char>) -> bool {
    &&& made.len() <= 3
    &&& forall|i: int|
        0 <= i < made.len() ==> {
            &&& (#[trigger] made[i]).job_id == job_id
            &&& made[i].stage == planned_reports(n)[i].0
            &&& made[i].current_page == planned_reports(n)[i].1
            &&& made[i].total_pages == planned_reports(n)[i].2
        }
}

/// Whether each text block has fewer than 2^31 spans.
pub fn spans_within_limit(document: &Document) -> (b: bool)
    ensures
        b == all_blocks(document@, |bv: BlockV| heading_admits(bv)),
{
    let ghost d = document@;
    let mut p: usize = 0;
    while p < document.pages.len()
        invariant
            d == document@,
            p <= d.pages.len(),
            forall|q: int, i: int|
                0 <= q < p && 0 <= i < d.pages[q].blocks.len() ==> heading_admits(
                    #[trigger] d.pages[q].blocks[i],
                ),
        decreases d.pages.len() - p,
    {
        let page = &document.pages[p];
        let mut i: usize = 0;
        while i < page.blocks.len()
            invariant
                d == document@,
                p < d.pages.len(),
                page@ == d.pages[p as int],
                i <= d.pages[p as int].blocks.len(),
                forall|q: int, j: int|
                    0 <= q < p && 0 <= j < d.pages[q].blocks.len() ==> heading_admits(
                        #[trigger] d.pages[q].blocks[j],
                    ),
                forall|j: int| 0 <= j < i ==> heading_admits(#[trigger] d.pages[p as int].blocks[j]),
            decreases d.pages[p as int].blocks.len() - i,
        {
            let b = &page.blocks[i];
            if b.block_type == BlockType::Text {
                let n = span_count(&b.lines);
                if n >= 0x8000_0000 {
                    assert(!heading_admits(d.pages[p as int].blocks[i as int]));
                    return false;
                }
            }
            i = i + 1;
        }
        p = p + 1;
    }
    true
}

/// The number of spans of the lines, capped at 2^31.
fn span_count(lines: &Vec<crate::schema::Line>) -> (n: u64)
    ensures
        n == if flat_spans(lines@.map_values(|l: crate::schema::Line| l@)).len() < 0x8000_0000 {
            flat_spans(lines@.map_values(|l: crate::schema::Line| l@)).len() as u64
        } else {
            0x8000_0000u64
        },
{
    let ghost lv = lines@.map_values(|l: crate::schema::Line| l@);
    let mut n: u64 = 0;
    let mut i: usize = 0;
    while i < lines.len()
        invariant
            lv == lines@.map_values(|l: crate::schema::Line| l@),
            i <= lv.len(),
            n == flat_spans(lv.take(i as int)).len(),
            n < 0x8000_0000,
        decreases lv.len() - i,
    {
        assert(lv.take(i + 1).drop_last() =~= lv.take(i as int));
        let k = lines[i].spans.len() as u64;
        if k >= 0x8000_0000 - n {
            proof {
                lemma_flat_spans_prefix(lv, i as int + 1);
            }
            return 0x8000_0000;
        }
        n = n + k;
        i = i + 1;
    }
    assert(lv.take(lv.len() as int) =~= lv);
    n
}

proof fn lemma_flat_spans_prefix(lines: Seq<LineV>, k: int)
    requires
        0 <= k <= lines.len(),
    ensures
        flat_spans(lines.take(k)).len() <= flat_spans(lines).len(),
    decreases lines.len(),
{
    if k < lines.len() {
        assert(lines.drop_last().take(k) =~= lines.take(k));
        lemma_flat_spans_prefix(lines.drop_last(), k);
    } else {
        assert(lines.take(k) =~= lines);
    }
}

/// Runs one processor.
pub fn run_processor(kind: ProcessorKind, document: &mut Document, ctx: &PipelineContext) -> (r:
    Result<(), Error>)
    ensures
        r is Ok <==> kind_accepts(kind, old(document)@),
        r is Ok ==> final(document)@ == kind_result(kind, old(document)@),
        r is Err ==> final(document)@ == old(document)@,
        r matches Err(e) ==> is_span_limit_error(e),
{
    match kind {
        ProcessorKind::Table => TableProcessor.process(document, ctx),
        ProcessorKind::Heading => {
            if !spans_within_limit(document) {
                return Err(
                    Error::Pipeline {
                        stage: from_str("RunningProcessors"),
                        message: from_str("a text block has 2^31 spans or more"),
                    },
                );
            }
            HeadingProcessor.process(document, ctx)
        },
        ProcessorKind::List => ListProcessor.process(document, ctx),
        ProcessorKind::LineMerge => LineMergeProcessor.process(document, ctx),
        ProcessorKind::Order => OrderProcessor.process(document, ctx),
        ProcessorKind::Equation => EquationProcessor.process(document, ctx),
        ProcessorKind::BlockRelabel => BlockRelabelProcessor.process(document, ctx),
        ProcessorKind::Toc => TocProcessor.process(document, ctx),
        ProcessorKind::TableMerge => TableMergeProcessor.process(document, ctx),
        ProcessorKind::LlmSimpleMeta => LlmSimpleMetaProcessor.process(document, ctx),
    }
}

pub struct PdfConverter {
    processors: Vec<ProcessorKind>,
}

impl PdfConverter {
    pub closed spec fn kinds(&self) -> Seq<ProcessorKind> {
        self.processors@
    }

    /// The default pipeline: tables, headings, lists, then line merging.
    pub fn new() -> (c: PdfConverter)
        ensures
            c.kinds() == default_kinds(),
    {
        let mut processors: Vec<ProcessorKind> = Vec::new();
        processors.push(ProcessorKind::Table);
        processors.push(ProcessorKind::Heading);
        processors.push(ProcessorKind::List);
        processors.push(ProcessorKind::LineMerge);
        assert(processors@ =~= default_kinds());
        PdfConverter { processors }
    }

    /// A pipeline of the given processors, in order.
    pub fn with_processors(processors: Vec<ProcessorKind>) -> (c: PdfConverter)
        ensures
            c.kinds() == processors@,
    {
        PdfConverter { processors }
    }

    /// Runs the processors in order on the document and renders it.
    pub fn process_document(&self, input: Document, ctx: &PipelineContext) -> (r: Result<
        (String, Document),
        Error,
    >)
        ensures
            r is Ok <==> kinds_accept(self.kinds(), input@),
            r matches Ok((md, d)) ==> d@ == apply_kinds(self.kinds(), input@) && md@ == markdown(
                d@,
            ),
    {
        let mut document = input;
        let ghost d0 = document@;
        let ghost ks = self.kinds();
        let mut i: usize = 0;
        while i < self.processors.len()
            invariant
                ks == self.kinds(),
                d0 == input@,
                i <= ks.len(),
                kinds_accept(ks.take(i as int), d0),
                document@ == apply_kinds(ks.take(i as int), d0),
            decreases ks.len() - i,
        {
            assert(ks.take(i + 1).drop_last() =~= ks.take(i as int));
            let r = run_processor(self.processors[i], &mut document, ctx);
            if r.is_err() {
                proof {
                    assert(ks.take(i + 1).last() == ks[i as int]);
                    assert(!kinds_accept(ks.take(i + 1), d0));
                    lemma_accept_prefix(ks, d0, i as int + 1);
                    assert(!kinds_accept(self.kinds(), d0));
                    assert(d0 == input@);
                }
                return Err(r.unwrap_err());
            }
            i = i + 1;
        }
        assert(ks.take(ks.len() as int) =~= ks);
        let md = MarkdownRenderer.render_markdown(&document);
        Ok((md, document))
    }

    /// Runs the processors in order, checking for cancellation before each.
    /// A processor that refuses the document stops the run with its error.
    pub fn run_processors<C: CancelCheck + ?Sized>(
        &self,
        input: Document,
        ctx: &PipelineContext,
        cancel: &C,
    ) -> (r: Result<Document, Error>)
        ensures
            r matches Ok(d) ==> kinds_accept(self.kinds(), input@) && d@ == apply_kinds(
                self.kinds(),
                input@,
            ),
            r matches Err(e) ==> (e is Cancelled && cancel.may_answer(true)) || (is_span_limit_error(
                e,
            ) && !kinds_accept(self.kinds(), input@)),
            !kinds_accept(self.kinds(), input@) ==> r is Err,
    {
        let mut document = input;
        let ghost d0 = document@;
        let ghost ks = self.kinds();
        let mut i: usize = 0;
        while i < self.processors.len()
            invariant
                ks == self.kinds(),
                d0 == input@,
                i <= ks.len(),
                kinds_accept(ks.take(i as int), d0),
                document@ == apply_kinds(ks.take(i as int), d0),
            decreases ks.len() - i,
        {
            if cancel.is_cancelled() {
                return Err(Error::Cancelled);
            }
            assert(ks.take(i + 1).drop_last() =~= ks.take(i as int));
            let r = run_processor(self.processors[i], &mut document, ctx);
            if r.is_err() {
                proof {
                    assert(ks.take(i + 1).last() == ks[i as int]);
                    assert(!kinds_accept(ks.take(i + 1), d0));
                    lemma_accept_prefix(ks, d0, i as int + 1);
                }
                return Err(r.unwrap_err());
            }
            i = i + 1;
        }
        assert(ks.take(ks.len() as int) =~= ks);
        Ok(document)
    }

    /// Converts the pages of the provider to Markdown. The document is what
    /// the builder made of the provider's pages in the configured OCR mode,
    /// run through the processors in order. The signal is checked after the
    /// page count, after the build, before each processor and before the
    /// rendering; the job stops with `Cancelled` at the first check that
    /// finds it raised. An error of the provider or a processor is returned
    /// as it is. Progress is reported to `progress` as the plan for a page
    /// count of the provider says, as far as the job got: all three reports
    /// when it succeeds. When the signal was raised before the job started,
    /// no report is made and the job ends with `Cancelled` or with the error
    /// of the page count.
    pub fn convert(
        &self,
        provider: &dyn DocumentProvider,
        ctx: &PipelineContext,
        cancel: &dyn CancelCheck,
        progress: &mut ProgressReporter,
    ) -> (r: Result<(String, Document), Error>)
        ensures
            r matches Ok((md, d)) ==> md@ == markdown(d@) && exists|d0: DocumentV|
                built_from_provider(d0, provider, ctx.config.ocr_mode@, ctx.registry) && kinds_accept(
                    self.kinds(),
                    d0,
                ) && d@ == apply_kinds(self.kinds(), d0),
            r matches Err(e) ==> {
                ||| e is Cancelled && cancel.may_answer(true)
                ||| provider_may_fail(provider, e)
                ||| is_span_limit_error(e) && exists|d0: DocumentV|
                    built_from_provider(d0, provider, ctx.config.ocr_mode@, ctx.registry)
                        && !kinds_accept(self.kinds(), d0)
            },
            !cancel.may_answer(true) && (forall|e: Error| !provider_may_fail(provider, e)) && (forall|
                d0: DocumentV,
            |
                built_from_provider(d0, provider, ctx.config.ocr_mode@, ctx.registry)
                    ==> kinds_accept(self.kinds(), d0)) ==> r is Ok,
            !cancel.may_answer(false) ==> final(progress).reports() == old(progress).reports() && (r
                matches Err(e) && (e is Cancelled || provider.may_count(Err(e)))),
            final(progress).job_id() == old(progress).job_id(),
            final(progress).has_channel() == old(progress).has_channel(),
            final(progress).reports().take(old(progress).reports().len() as int) == old(
                progress,
            ).reports(),
            final(progress).reports().len() >= old(progress).reports().len(),
            exists|n: usize|
                reports_follow_plan(
                    #[trigger] final(progress).reports().skip(old(progress).reports().len() as int),
                    n,
                    old(progress).job_id(),
                ) && (final(progress).reports().len() > old(progress).reports().len()
                    ==> provider.may_count(Ok(n))),
            r is Ok ==> final(progress).reports().len() == old(progress).reports().len() + 3,
    {
        let ghost start = progress.reports();
        let ghost job = progress.job_id();
        let ghost mode = ctx.config.ocr_mode@;
        let ghost reg = ctx.registry;
        assert(progress.reports().skip(start.len() as int) =~= Seq::<JobProgressV>::empty());
        assert(progress.reports().take(start.len() as int) =~= start);
        assert(reports_follow_plan(Seq::<JobProgressV>::empty(), 0, job));
        let counted = provider.page_count();
        let total_pages = match counted {
            Ok(n) => n,
            Err(e) => {
                assert(provider_may_fail(provider, e));
                return Err(e);
            },
        };
        assert(reports_follow_plan(Seq::<JobProgressV>::empty(), total_pages, job));
        if cancel.is_cancelled() {
            return Err(Error::Cancelled);
        }
        progress.report(PipelineStage::LoadingPdf, 0, total_pages);
        proof {
            lemma_prefix_kept(start, progress.reports());
            lemma_report_step(start, progress.reports(), total_pages, job, 0);
        }
        let built = TextDocumentBuilder.build(provider, ctx);
        let document = match built {
            Ok(d) => d,
            Err(e) => {
                return Err(e);
            },
        };
        let ghost d0 = document@;
        assert(built_from_provider(d0, provider, mode, reg));
        if cancel.is_cancelled() {
            return Err(Error::Cancelled);
        }
        progress.report(PipelineStage::RunningProcessors, 0, total_pages);
        proof {
            lemma_prefix_kept(start, progress.reports());
            lemma_report_step(start, progress.reports(), total_pages, job, 1);
        }
        let processed = self.run_processors(document, ctx, cancel);
        let document = match processed {
            Ok(d) => d,
            Err(e) => {
                return Err(e);
            },
        };
        progress.report(PipelineStage::Rendering, total_pages, total_pages);
        proof {
            lemma_prefix_kept(start, progress.reports());
            lemma_report_step(start, progress.reports(), total_pages, job, 2);
        }
        if cancel.is_cancelled() {
            return Err(Error::Cancelled);
        }
        let md = MarkdownRenderer.render_markdown(&document);
        Ok((md, document))
    }
}

impl Default for PdfConverter {
    /// The default pipeline, as `new` makes it.
    fn default() -> (c: PdfConverter)
        ensures
            c.kinds() == default_kinds(),
    {
        PdfConverter::new()
    }
}

/// A report added after `start` keeps `start` as the prefix.
proof fn lemma_prefix_kept(start: Seq<JobProgressV>, now: Seq<JobProgressV>)
    requires
        now.len() >= 1,
        now.drop_last().len() >= start.len(),
        now.drop_last().take(start.len() as int) == start,
    ensures
        now.take(start.len() as int) == start,
{
    assert(now.take(start.len() as int) =~= now.drop_last().take(start.len() as int));
}

/// After the `k`-th report of the plan is made, the reports since `start`
/// still follow the plan.
proof fn lemma_report_step(
    start: Seq<JobProgressV>,
    now: Seq<JobProgressV>,
    n: usize,
    job: Seq<char>,
    k: int,
)
    requires
        0 <= k < 3,
        now.len() == start.len() + k + 1,
        now.take(start.len() as int) == start,
        reports_follow_plan(now.drop_last().skip(start.len() as int), n, job),
        now.last().job_id == job,
        now.last().stage == planned_reports(n)[k].0,
        now.last().current_page == planned_reports(n)[k].1,
        now.last().total_pages == planned_reports(n)[k].2,
    ensures
        reports_follow_plan(now.skip(start.len() as int), n, job),
{
    let made = now.skip(start.len() as int);
    let before = now.drop_last().skip(start.len() as int);
    assert forall|i: int| 0 <= i < made.len() implies {
        &&& (#[trigger] made[i]).job_id == job
        &&& made[i].stage == planned_reports(n)[i].0
        &&& made[i].current_page == planned_reports(n)[i].1
        &&& made[i].total_pages == planned_reports(n)[i].2
    } by {
        if i < made.len() - 1 {
            assert(made[i] == before[i]);
        }
    }
}

proof fn lemma_accept_prefix(ks: Seq<ProcessorKind>, d: DocumentV, k: int)
    requires
        0 <= k <= ks.len(),
        !kinds_accept(ks.take(k), d),
    ensures
        !kinds_accept(ks, d),
    decreases ks.len() - k,
{
    if k < ks.len() {
        assert(ks.take(k + 1).drop_last() =~= ks.take(k));
        lemma_accept_prefix(ks, d, k + 1);
    } else {
        assert(ks.take(k) =~= ks);
    }
}

} // verus!
