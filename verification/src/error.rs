//! The errors of the pipeline and their messages.
use crate::text::{append_str, from_str};
use vstd::prelude::*;

verus! {

/// An error of the pipeline. The variants that wrap an I/O or serialization
/// failure hold that failure's message.
#[derive(Clone, Debug)]
pub enum Error {
    Io(String),
    Serialization(String),
    Database(String),
    Pdf(String),
    Inference(String),
    Llm(String),
    Pipeline { stage: String, message: String },
    Cancelled,
    General(String),
}

/// The message of an error, as shown to the user.
pub open spec fn error_message(e: Error) -> Seq<char> {
    match e {
        Error::Io(m) => "I/O error: "@ + m@,
        Error::Serialization(m) => "Serialization error: "@ + m@,
        Error::Database(m) => "Database error: "@ + m@,
        Error::Pdf(m) => "PDF processing error: "@ + m@,
        Error::Inference(m) => "Inference/OCR error: "@ + m@,
        Error::Llm(m) => "LLM Service error: "@ + m@,
        Error::Pipeline { stage, message } => "Pipeline error at stage "@ + stage@ + ": "@ + message@,
        Error::Cancelled => "Job cancelled"@,
        Error::General(m) => "General error: "@ + m@,
    }
}

fn prefixed(prefix: &str, m: &String) -> (s: String)
    ensures
        s@ == prefix@ + m@,
{
    let mut s = from_str(prefix);
    append_str(&mut s, m.as_str());
    s
}

impl Error {
    pub fn message(&self) -> (s: String)
        ensures
            s@ == error_message(*self),
    {
        match self {
            Error::Io(m) => prefixed("I/O error: ", m),
            Error::Serialization(m) => prefixed("Serialization error: ", m),
            Error::Database(m) => prefixed("Database error: ", m),
            Error::Pdf(m) => prefixed("PDF processing error: ", m),
            Error::Inference(m) => prefixed("Inference/OCR error: ", m),
            Error::Llm(m) => prefixed("LLM Service error: ", m),
            Error::Pipeline { stage, message } => {
                let mut s = prefixed("Pipeline error at stage ", stage);
                append_str(&mut s, ": ");
                append_str(&mut s, message.as_str());
                s
            },
            Error::Cancelled => from_str("Job cancelled"),
            Error::General(m) => prefixed("General error: ", m),
        }
    }
}

} // verus!
