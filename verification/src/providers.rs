//! What the pipeline reads a document from: the page source, and the
//! optional recognition services that stand behind it.
use crate::error::Error;
use crate::schema::{Block, BlockV, Line, LineV};
use vstd::prelude::*;

verus! {

/// A rendered page: `bytes` holds `width * height` RGBA pixels.
#[derive(Clone, Debug)]
pub struct PageImage {
    pub width: u32,
    pub height: u32,
    pub bytes: Vec<u8>,
}

pub struct PageImageV {
    pub width: u32,
    pub height: u32,
    pub bytes: Seq<u8>,
}

impl View for PageImage {
    type V = PageImageV;

    open spec fn view(&self) -> PageImageV {
        PageImageV { width: self.width, height: self.height, bytes: self.bytes@ }
    }
}

/// A source of pages: a PDF reader implements it. Sizes are in hundredths
/// of a point. The `may_` functions say which answers a source may give; by
/// default, any.
pub trait DocumentProvider: Send + Sync {
    open spec fn may_count(&self, result: Result<usize, Error>) -> bool {
        true
    }

    open spec fn may_size(&self, page_index: usize, result: Result<(i64, i64), Error>) -> bool {
        true
    }

    open spec fn may_render(&self, page_index: usize, dpi: u32, result: Result<PageImageV, Error>) -> bool {
        true
    }

    open spec fn may_extract(&self, page_index: usize, result: Result<Seq<LineV>, Error>) -> bool {
        true
    }

    fn page_count(&self) -> (r: Result<usize, Error>)
        ensures
            self.may_count(r),
    ;

    fn page_size(&self, page_index: usize) -> (r: Result<(i64, i64), Error>)
        ensures
            self.may_size(page_index, r),
    ;

    fn render_page(&self, page_index: usize, dpi: u32) -> (r: Result<PageImage, Error>)
        ensures
            self.may_render(page_index, dpi, image_result(r)),
    ;

    fn extract_native_text(&self, page_index: usize) -> (r: Result<Vec<Line>, Error>)
        ensures
            self.may_extract(page_index, lines_result(r)),
    ;
}

/// A rendering result taken by its view.
pub open spec fn image_result(r: Result<PageImage, Error>) -> Result<PageImageV, Error> {
    match r {
        Ok(img) => Ok(img@),
        Err(e) => Err(e),
    }
}

/// A recognition result taken by its views.
pub open spec fn lines_result(r: Result<Vec<Line>, Error>) -> Result<Seq<LineV>, Error> {
    match r {
        Ok(lines) => Ok(lines@.map_values(|l: Line| l@)),
        Err(e) => Err(e),
    }
}

/// A layout result taken by its views.
pub open spec fn blocks_result(r: Result<Vec<Block>, Error>) -> Result<Seq<BlockV>, Error> {
    match r {
        Ok(blocks) => Ok(blocks@.map_values(|b: Block| b@)),
        Err(e) => Err(e),
    }
}

/// Text recognition on a rendered page. `may_recognize` says which answers
/// a recognizer may give for a page.
pub trait OcrProvider: Send + Sync {
    spec fn may_recognize(
        &self,
        page_image: Seq<u8>,
        width: u32,
        height: u32,
        result: Result<Seq<LineV>, Error>,
    ) -> bool;

    fn recognize_text(&self, page_image: &[u8], width: u32, height: u32) -> (r: Result<
        Vec<Line>,
        Error,
    >)
        ensures
            self.may_recognize(page_image@, width, height, lines_result(r)),
    ;
}

/// The OCR service of a pipeline: a recognizer, asked on the pipeline's
/// behalf. It holds any recognizer (`dyn OcrProvider`).
pub struct OcrService<P: ?Sized = dyn OcrProvider> {
    provider: Box<P>,
}

impl OcrService {
    /// `result` is an answer that the service's recognizer may give for
    /// the page.
    pub closed spec fn may_recognize(
        &self,
        page_image: Seq<u8>,
        width: u32,
        height: u32,
        result: Result<Seq<LineV>, Error>,
    ) -> bool {
        self.provider.may_recognize(page_image, width, height, result)
    }

    /// The service that asks `provider`: it may answer what `provider` may.
    pub fn new(provider: Box<dyn OcrProvider>) -> (s: Self)
        ensures
            forall|page_image: Seq<u8>, width: u32, height: u32, result: Result<Seq<LineV>, Error>|
                #[trigger] s.may_recognize(page_image, width, height, result)
                    == provider.may_recognize(page_image, width, height, result),
    {
        let ghost g = provider;
        let s = OcrService { provider };
        assert forall|page_image: Seq<u8>, width: u32, height: u32, result: Result<Seq<LineV>, Error>|
            #[trigger] s.may_recognize(page_image, width, height, result)
                == g.may_recognize(page_image, width, height, result) by {}
        s
    }

    /// What the service's recognizer answers for the page.
    pub fn recognize_text(&self, page_image: &[u8], width: u32, height: u32) -> (r: Result<
        Vec<Line>,
        Error,
    >)
        ensures
            self.may_recognize(page_image@, width, height, lines_result(r)),
    {
        self.provider.recognize_text(page_image, width, height)
    }
}

/// Layout detection on a rendered page. `may_detect` says which answers a
/// detector may give for a page.
pub trait LayoutProvider: Send + Sync {
    spec fn may_detect(
        &self,
        page_image: Seq<u8>,
        width: u32,
        height: u32,
        result: Result<Seq<BlockV>, Error>,
    ) -> bool;

    fn detect_layout(&self, page_image: &[u8], width: u32, height: u32) -> (r: Result<
        Vec<Block>,
        Error,
    >)
        ensures
            self.may_detect(page_image@, width, height, blocks_result(r)),
    ;
}

/// The layout service of a pipeline: a detector, asked on the pipeline's
/// behalf. It holds any detector (`dyn LayoutProvider`).
pub struct LayoutService<P: ?Sized = dyn LayoutProvider> {
    provider: Box<P>,
}

impl LayoutService {
    /// `result` is an answer that the service's detector may give for the
    /// page.
    pub closed spec fn may_detect(
        &self,
        page_image: Seq<u8>,
        width: u32,
        height: u32,
        result: Result<Seq<BlockV>, Error>,
    ) -> bool {
        self.provider.may_detect(page_image, width, height, result)
    }

    /// The service that asks `provider`: it may answer what `provider` may.
    pub fn new(provider: Box<dyn LayoutProvider>) -> (s: Self)
        ensures
            forall|page_image: Seq<u8>, width: u32, height: u32, result: Result<Seq<BlockV>, Error>|
                #[trigger] s.may_detect(page_image, width, height, result)
                    == provider.may_detect(page_image, width, height, result),
    {
        let ghost g = provider;
        let s = LayoutService { provider };
        assert forall|page_image: Seq<u8>, width: u32, height: u32, result: Result<Seq<BlockV>, Error>|
            #[trigger] s.may_detect(page_image, width, height, result)
                == g.may_detect(page_image, width, height, result) by {}
        s
    }

    /// What the service's detector answers for the page.
    pub fn detect_layout(&self, page_image: &[u8], width: u32, height: u32) -> (r: Result<
        Vec<Block>,
        Error,
    >)
        ensures
            self.may_detect(page_image@, width, height, blocks_result(r)),
    {
        self.provider.detect_layout(page_image, width, height)
    }
}

/// The services that a pipeline may call on: each one is registered or not.
pub struct ServiceRegistry {
    ocr: Option<OcrService>,
    layout: Option<LayoutService>,
}

impl ServiceRegistry {
    /// The registered OCR service, if any.
    pub closed spec fn ocr_service(&self) -> Option<OcrService> {
        self.ocr
    }

    /// The registered layout service, if any.
    pub closed spec fn layout_service(&self) -> Option<LayoutService> {
        self.layout
    }

    pub open spec fn has_ocr(&self) -> bool {
        self.ocr_service() is Some
    }

    pub open spec fn has_layout(&self) -> bool {
        self.layout_service() is Some
    }

    pub fn new() -> (r: ServiceRegistry)
        ensures
            r.ocr_service() is None,
            r.layout_service() is None,
    {
        ServiceRegistry { ocr: None, layout: None }
    }

    /// Registers the OCR service, replacing any registered before.
    pub fn register_ocr(&mut self, service: OcrService)
        ensures
            final(self).ocr_service() == Some(service),
            final(self).layout_service() == old(self).layout_service(),
    {
        self.ocr = Some(service);
    }

    /// Registers the layout service, replacing any registered before.
    pub fn register_layout(&mut self, service: LayoutService)
        ensures
            final(self).layout_service() == Some(service),
            final(self).ocr_service() == old(self).ocr_service(),
    {
        self.layout = Some(service);
    }

    pub fn ocr(&self) -> (r: Option<&OcrService>)
        ensures
            r is Some == self.has_ocr(),
            r matches Some(s) ==> Some(*s) == self.ocr_service(),
    {
        self.ocr.as_ref()
    }

    pub fn layout(&self) -> (r: Option<&LayoutService>)
        ensures
            r is Some == self.has_layout(),
            r matches Some(s) ==> Some(*s) == self.layout_service(),
    {
        self.layout.as_ref()
    }
}

} // verus!
