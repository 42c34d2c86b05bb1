//! Settings of the pipeline and of the language-model service.
use crate::text::from_str;
use vstd::prelude::*;

verus! {

#[derive(Clone, Debug)]
pub struct LlmConfig {
    pub provider: String,
    pub model_name: String,
    pub base_url: String,
    pub daily_limit: i64,
}

pub struct LlmConfigV {
    pub provider: Seq<char>,
    pub model_name: Seq<char>,
    pub base_url: Seq<char>,
    pub daily_limit: i64,
}

impl View for LlmConfig {
    type V = LlmConfigV;

    open spec fn view(&self) -> LlmConfigV {
        LlmConfigV {
            provider: self.provider@,
            model_name: self.model_name@,
            base_url: self.base_url@,
            daily_limit: self.daily_limit,
        }
    }
}

impl Default for LlmConfig {
    fn default() -> (c: Self)
        ensures
            c.provider@ == "mock"@,
            c.model_name@ == "gpt-4o-mini"@,
            c.base_url@ == "https://api.openai.com/v1"@,
            c.daily_limit == 50000,
    {
        LlmConfig {
            provider: from_str("mock"),
            model_name: from_str("gpt-4o-mini"),
            base_url: from_str("https://api.openai.com/v1"),
            daily_limit: 50000,
        }
    }
}

impl LlmConfig {
    pub fn duplicate(&self) -> (c: LlmConfig)
        ensures
            c.provider@ == self.provider@,
            c.model_name@ == self.model_name@,
            c.base_url@ == self.base_url@,
            c.daily_limit == self.daily_limit,
    {
        LlmConfig {
            provider: from_str(self.provider.as_str()),
            model_name: from_str(self.model_name.as_str()),
            base_url: from_str(self.base_url.as_str()),
            daily_limit: self.daily_limit,
        }
    }
}

#[derive(Clone, Debug)]
pub struct PipelineConfig {
    pub ocr_mode: String,
    pub output_format: String,
    pub llm: LlmConfig,
}

pub struct PipelineConfigV {
    pub ocr_mode: Seq<char>,
    pub output_format: Seq<char>,
    pub llm: LlmConfigV,
}

impl View for PipelineConfig {
    type V = PipelineConfigV;

    open spec fn view(&self) -> PipelineConfigV {
        PipelineConfigV { ocr_mode: self.ocr_mode@, output_format: self.output_format@, llm: self.llm@ }
    }
}

impl Default for PipelineConfig {
    fn default() -> (c: Self)
        ensures
            c.ocr_mode@ == "auto"@,
            c.output_format@ == "markdown"@,
            c.llm.provider@ == "mock"@,
            c.llm.model_name@ == "gpt-4o-mini"@,
            c.llm.base_url@ == "https://api.openai.com/v1"@,
            c.llm.daily_limit == 50000,
    {
        PipelineConfig {
            ocr_mode: from_str("auto"),
            output_format: from_str("markdown"),
            llm: LlmConfig::default(),
        }
    }
}

impl PipelineConfig {
    pub fn duplicate(&self) -> (c: PipelineConfig)
        ensures
            c.ocr_mode@ == self.ocr_mode@,
            c.output_format@ == self.output_format@,
            c.llm.provider@ == self.llm.provider@,
            c.llm.model_name@ == self.llm.model_name@,
            c.llm.base_url@ == self.llm.base_url@,
            c.llm.daily_limit == self.llm.daily_limit,
    {
        PipelineConfig {
            ocr_mode: from_str(self.ocr_mode.as_str()),
            output_format: from_str(self.output_format.as_str()),
            llm: self.llm.duplicate(),
        }
    }
}

} // verus!
