//! The document tree: Document → Page → Block → Line → Span → Char.
//!
//! Geometry is held in fixed point: one unit is a hundredth of a PDF point,
//! so that every comparison the pipeline makes on it is exact.
use crate::text::{append_str, from_str, join_seq, push_char};
use vstd::prelude::*;

verus! {

/// Fixed-point units in one PDF point.
pub const UNITS_PER_POINT: i64 = 100;

/// An axis-aligned box, `(x0, y0)` to `(x1, y1)`, in hundredths of a point.
#[derive(Clone, Copy, Debug, PartialEq, Eq, Structural)]
pub struct BBox {
    pub x0: i64,
    pub y0: i64,
    pub x1: i64,
    pub y1: i64,
}

pub open spec fn min_i64(a: i64, b: i64) -> i64 {
    if a <= b {
        a
    } else {
        b
    }
}

pub open spec fn max_i64(a: i64, b: i64) -> i64 {
    if a >= b {
        a
    } else {
        b
    }
}

impl BBox {
    pub fn new(x0: i64, y0: i64, x1: i64, y1: i64) -> (b: BBox)
        ensures
            b == (BBox { x0, y0, x1, y1 }),
    {
        BBox { x0, y0, x1, y1 }
    }

    /// The smallest box that holds both boxes.
    pub open spec fn union(self, other: BBox) -> BBox {
        BBox {
            x0: min_i64(self.x0, other.x0),
            y0: min_i64(self.y0, other.y0),
            x1: max_i64(self.x1, other.x1),
            y1: max_i64(self.y1, other.y1),
        }
    }

    pub fn merge(&self, other: &BBox) -> (b: BBox)
        ensures
            b == self.union(*other),
    {
        BBox {
            x0: if self.x0 <= other.x0 { self.x0 } else { other.x0 },
            y0: if self.y0 <= other.y0 { self.y0 } else { other.y0 },
            x1: if self.x1 >= other.x1 { self.x1 } else { other.x1 },
            y1: if self.y1 >= other.y1 { self.y1 } else { other.y1 },
        }
    }
}

#[derive(Clone, Copy, Debug, PartialEq, Eq, Structural)]
pub enum BlockType {
    Text,
    Heading1,
    Heading2,
    Heading3,
    Heading4,
    Heading5,
    Heading6,
    ListItem,
    Table,
    Equation,
    Image,
    Code,
    Unknown,
}

impl BlockType {
    pub open spec fn spec_is_heading(&self) -> bool {
        ||| *self == BlockType::Heading1
        ||| *self == BlockType::Heading2
        ||| *self == BlockType::Heading3
        ||| *self == BlockType::Heading4
        ||| *self == BlockType::Heading5
        ||| *self == BlockType::Heading6
    }

    /// The level of a heading type, 1 to 6; 1 for any other type.
    pub open spec fn heading_level(self) -> usize {
        match self {
            BlockType::Heading2 => 2,
            BlockType::Heading3 => 3,
            BlockType::Heading4 => 4,
            BlockType::Heading5 => 5,
            BlockType::Heading6 => 6,
            _ => 1,
        }
    }

    #[verifier::when_used_as_spec(spec_is_heading)]
    pub fn is_heading(&self) -> (b: bool)
        ensures
            b == self.spec_is_heading(),
    {
        match self {
            BlockType::Heading1 | BlockType::Heading2 | BlockType::Heading3 | BlockType::Heading4
            | BlockType::Heading5 | BlockType::Heading6 => true,
            _ => false,
        }
    }
}

pub struct CharV {
    pub value: Seq<char>,
    pub bbox: BBox,
}

pub struct SpanV {
    pub text: Seq<char>,
    pub font_name: Seq<char>,
    pub font_size: i64,
    pub bbox: BBox,
    pub chars: Seq<CharV>,
}

pub struct LineV {
    pub spans: Seq<SpanV>,
    pub bbox: BBox,
}

pub struct BlockV {
    pub id: Seq<char>,
    pub bbox: BBox,
    pub block_type: BlockType,
    pub text: Seq<char>,
    pub lines: Seq<LineV>,
}

pub struct PageV {
    pub index: usize,
    pub width: i64,
    pub height: i64,
    pub blocks: Seq<BlockV>,
}

pub struct DocumentV {
    pub file_name: Seq<char>,
    pub pages: Seq<PageV>,
    pub metadata: Map<Seq<char>, Seq<char>>,
}

#[derive(Clone, Debug)]
pub struct Char {
    pub value: String,
    pub bbox: BBox,
}

impl View for Char {
    type V = CharV;

    open spec fn view(&self) -> CharV {
        CharV { value: self.value@, bbox: self.bbox }
    }
}

impl Char {
    pub fn new(value: String, bbox: BBox) -> (c: Char)
        ensures
            c@ == (CharV { value: value@, bbox }),
    {
        Char { value, bbox }
    }
}

/// A run of text in one font; `font_size` is in hundredths of a point.
#[derive(Clone, Debug)]
pub struct Span {
    pub text: String,
    pub font_name: String,
    pub font_size: i64,
    pub bbox: BBox,
    pub chars: Vec<Char>,
}

impl View for Span {
    type V = SpanV;

    open spec fn view(&self) -> SpanV {
        SpanV {
            text: self.text@,
            font_name: self.font_name@,
            font_size: self.font_size,
            bbox: self.bbox,
            chars: self.chars@.map_values(|c: Char| c@),
        }
    }
}

impl Span {
    pub fn new(text: String, font_name: String, font_size: i64, bbox: BBox, chars: Vec<Char>) -> (s:
        Span)
        ensures
            s@ == (SpanV {
                text: text@,
                font_name: font_name@,
                font_size,
                bbox,
                chars: chars@.map_values(|c: Char| c@),
            }),
    {
        Span { text, font_name, font_size, bbox, chars }
    }
}

#[derive(Clone, Debug)]
pub struct Line {
    pub spans: Vec<Span>,
    pub bbox: BBox,
}

impl View for Line {
    type V = LineV;

    open spec fn view(&self) -> LineV {
        LineV { spans: self.spans@.map_values(|s: Span| s@), bbox: self.bbox }
    }
}

/// The text of a line: the texts of its spans, joined by single spaces.
pub open spec fn line_text(l: LineV) -> Seq<char> {
    join_seq(l.spans.map_values(|s: SpanV| s.text), seq![' '])
}

impl Line {
    pub fn new(spans: Vec<Span>, bbox: BBox) -> (l: Line)
        ensures
            l@ == (LineV { spans: spans@.map_values(|s: Span| s@), bbox }),
    {
        Line { spans, bbox }
    }

    pub fn text(&self) -> (s: String)
        ensures
            s@ == line_text(self@),
    {
        let ghost texts = self@.spans.map_values(|s: SpanV| s.text);
        let mut out = String::new();
        let mut i: usize = 0;
        while i < self.spans.len()
            invariant
                i <= self.spans@.len(),
                texts == self@.spans.map_values(|s: SpanV| s.text),
                out@ == join_seq(texts.take(i as int), seq![' ']),
            decreases self.spans@.len() - i,
        {
            assert(texts.take(i + 1).drop_last() == texts.take(i as int));
            if i > 0 {
                push_char(&mut out, ' ');
            }
            append_str(&mut out, self.spans[i].text.as_str());
            i = i + 1;
        }
        assert(texts.take(self.spans@.len() as int) == texts);
        out
    }
}

#[derive(Clone, Debug)]
pub struct Block {
    pub id: String,
    pub bbox: BBox,
    pub block_type: BlockType,
    pub text: String,
    pub lines: Vec<Line>,
}

impl View for Block {
    type V = BlockV;

    open spec fn view(&self) -> BlockV {
        BlockV {
            id: self.id@,
            bbox: self.bbox,
            block_type: self.block_type,
            text: self.text@,
            lines: self.lines@.map_values(|l: Line| l@),
        }
    }
}

impl Block {
    pub fn new(id: String, bbox: BBox, block_type: BlockType, text: String, lines: Vec<Line>) -> (b:
        Block)
        ensures
            b@ == (BlockV {
                id: id@,
                bbox,
                block_type,
                text: text@,
                lines: lines@.map_values(|l: Line| l@),
            }),
    {
        Block { id, bbox, block_type, text, lines }
    }
}

/// A page; `width` and `height` are in hundredths of a point.
#[derive(Clone, Debug)]
pub struct Page {
    pub index: usize,
    pub width: i64,
    pub height: i64,
    pub blocks: Vec<Block>,
}

impl View for Page {
    type V = PageV;

    open spec fn view(&self) -> PageV {
        PageV {
            index: self.index,
            width: self.width,
            height: self.height,
            blocks: self.blocks@.map_values(|b: Block| b@),
        }
    }
}

impl Page {
    pub fn new(index: usize, width: i64, height: i64, blocks: Vec<Block>) -> (p: Page)
        ensures
            p@ == (PageV { index, width, height, blocks: blocks@.map_values(|b: Block| b@) }),
    {
        Page { index, width, height, blocks }
    }
}

impl Char {
    pub fn duplicate(&self) -> (c: Char)
        ensures
            c@ == self@,
    {
        Char { value: from_str(self.value.as_str()), bbox: self.bbox }
    }
}

fn duplicate_chars(v: &Vec<Char>) -> (r: Vec<Char>)
    ensures
        r@.map_values(|c: Char| c@) == v@.map_values(|c: Char| c@),
{
    let mut r: Vec<Char> = Vec::new();
    let mut i: usize = 0;
    while i < v.len()
        invariant
            i <= v@.len(),
            r@.len() == i,
            forall|j: int| 0 <= j < i ==> #[trigger] r@[j]@ == v@[j]@,
        decreases v@.len() - i,
    {
        r.push(v[i].duplicate());
        i = i + 1;
    }
    assert(r@.map_values(|c: Char| c@) =~= v@.map_values(|c: Char| c@));
    r
}

impl Span {
    pub fn duplicate(&self) -> (s: Span)
        ensures
            s@ == self@,
    {
        Span {
            text: from_str(self.text.as_str()),
            font_name: from_str(self.font_name.as_str()),
            font_size: self.font_size,
            bbox: self.bbox,
            chars: duplicate_chars(&self.chars),
        }
    }
}

fn duplicate_spans(v: &Vec<Span>) -> (r: Vec<Span>)
    ensures
        r@.map_values(|s: Span| s@) == v@.map_values(|s: Span| s@),
{
    let mut r: Vec<Span> = Vec::new();
    let mut i: usize = 0;
    while i < v.len()
        invariant
            i <= v@.len(),
            r@.len() == i,
            forall|j: int| 0 <= j < i ==> #[trigger] r@[j]@ == v@[j]@,
        decreases v@.len() - i,
    {
        r.push(v[i].duplicate());
        i = i + 1;
    }
    assert(r@.map_values(|s: Span| s@) =~= v@.map_values(|s: Span| s@));
    r
}

impl Line {
    pub fn duplicate(&self) -> (l: Line)
        ensures
            l@ == self@,
    {
        Line { spans: duplicate_spans(&self.spans), bbox: self.bbox }
    }
}

fn duplicate_lines(v: &Vec<Line>) -> (r: Vec<Line>)
    ensures
        r@.map_values(|l: Line| l@) == v@.map_values(|l: Line| l@),
{
    let mut r: Vec<Line> = Vec::new();
    let mut i: usize = 0;
    while i < v.len()
        invariant
            i <= v@.len(),
            r@.len() == i,
            forall|j: int| 0 <= j < i ==> #[trigger] r@[j]@ == v@[j]@,
        decreases v@.len() - i,
    {
        r.push(v[i].duplicate());
        i = i + 1;
    }
    assert(r@.map_values(|l: Line| l@) =~= v@.map_values(|l: Line| l@));
    r
}

impl Block {
    pub fn duplicate(&self) -> (b: Block)
        ensures
            b@ == self@,
    {
        Block {
            id: from_str(self.id.as_str()),
            bbox: self.bbox,
            block_type: self.block_type,
            text: from_str(self.text.as_str()),
            lines: duplicate_lines(&self.lines),
        }
    }
}

fn duplicate_blocks(v: &Vec<Block>) -> (r: Vec<Block>)
    ensures
        r@.map_values(|b: Block| b@) == v@.map_values(|b: Block| b@),
{
    let mut r: Vec<Block> = Vec::new();
    let mut i: usize = 0;
    while i < v.len()
        invariant
            i <= v@.len(),
            r@.len() == i,
            forall|j: int| 0 <= j < i ==> #[trigger] r@[j]@ == v@[j]@,
        decreases v@.len() - i,
    {
        r.push(v[i].duplicate());
        i = i + 1;
    }
    assert(r@.map_values(|b: Block| b@) =~= v@.map_values(|b: Block| b@));
    r
}

impl Page {
    pub fn duplicate(&self) -> (p: Page)
        ensures
            p@ == self@,
    {
        Page {
            index: self.index,
            width: self.width,
            height: self.height,
            blocks: duplicate_blocks(&self.blocks),
        }
    }
}

/// Copies of the pages.
pub fn duplicate_pages(v: &Vec<Page>) -> (r: Vec<Page>)
    ensures
        r@.map_values(|p: Page| p@) == v@.map_values(|p: Page| p@),
{
    let mut r: Vec<Page> = Vec::new();
    let mut i: usize = 0;
    while i < v.len()
        invariant
            i <= v@.len(),
            r@.len() == i,
            forall|j: int| 0 <= j < i ==> #[trigger] r@[j]@ == v@[j]@,
        decreases v@.len() - i,
    {
        r.push(v[i].duplicate());
        i = i + 1;
    }
    assert(r@.map_values(|p: Page| p@) =~= v@.map_values(|p: Page| p@));
    r
}

} // verus!
