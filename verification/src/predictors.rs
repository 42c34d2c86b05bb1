//! The built-in recognition models: a layout detector that finds no regions
//! and an OCR model that reports one fixed line per page.
use crate::error::Error;
use crate::providers::{blocks_result, lines_result, LayoutProvider, OcrProvider};
use crate::schema::{BBox, Block, BlockV, Line, LineV, Span, SpanV};
use crate::text::from_str;
use vstd::prelude::*;

verus! {

pub struct LayoutPredictor;

impl LayoutPredictor {
    pub fn new() -> Self {
        LayoutPredictor
    }
}

impl LayoutProvider for LayoutPredictor {
    /// No layout model is loaded: every page has no detected blocks.
    open spec fn may_detect(
        &self,
        page_image: Seq<u8>,
        width: u32,
        height: u32,
        result: Result<Seq<BlockV>, Error>,
    ) -> bool {
        result == Ok::<Seq<BlockV>, Error>(Seq::empty())
    }

    fn detect_layout(&self, _page_image: &[u8], _width: u32, _height: u32) -> (r: Result<
        Vec<Block>,
        Error,
    >)
        ensures
            r matches Ok(blocks) && blocks@.len() == 0,
    {
        let blocks: Vec<Block> = Vec::new();
        assert(blocks@.map_values(|b: Block| b@) =~= Seq::<BlockV>::empty());
        Ok(blocks)
    }
}

pub struct OcrPredictor;

/// The box of the line that the built-in OCR model reports.
pub open spec fn ocr_line_box() -> BBox {
    BBox { x0: 5000, y0: 10000, x1: 45000, y1: 11500 }
}

/// The line that the built-in OCR model reports for any page.
pub open spec fn ocr_line() -> LineV {
    LineV {
        spans: seq![
            SpanV {
                text: "Scanned page content recognized via OCR pipeline"@,
                font_name: "Courier-Bold"@,
                font_size: 1200,
                bbox: ocr_line_box(),
                chars: Seq::empty(),
            },
        ],
        bbox: ocr_line_box(),
    }
}

impl OcrPredictor {
    pub fn new() -> Self {
        OcrPredictor
    }
}

impl OcrProvider for OcrPredictor {
    /// Every page is recognized as the one fixed line of `ocr_line`.
    open spec fn may_recognize(
        &self,
        page_image: Seq<u8>,
        width: u32,
        height: u32,
        result: Result<Seq<LineV>, Error>,
    ) -> bool {
        result == Ok::<Seq<LineV>, Error>(seq![ocr_line()])
    }

    fn recognize_text(&self, _page_image: &[u8], _width: u32, _height: u32) -> (r: Result<
        Vec<Line>,
        Error,
    >)
        ensures
            r matches Ok(lines) && lines@.map_values(|l: Line| l@) == seq![ocr_line()],
    {
        let bbox = BBox::new(5000, 10000, 45000, 11500);
        let span = Span::new(
            from_str("Scanned page content recognized via OCR pipeline"),
            from_str("Courier-Bold"),
            1200,
            bbox,
            Vec::new(),
        );
        assert(span@.chars =~= Seq::<crate::schema::CharV>::empty());
        assert(span@ == ocr_line().spans[0]);
        let mut spans: Vec<Span> = Vec::new();
        spans.push(span);
        let line = Line::new(spans, bbox);
        let mut lines: Vec<Line> = Vec::new();
        lines.push(line);
        assert(line@.spans =~= ocr_line().spans);
        assert(lines@.map_values(|l: Line| l@) =~= seq![ocr_line()]);
        Ok(lines)
    }
}

} // verus!
