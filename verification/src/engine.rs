//! Speech recognition: its results and errors, and an engine that only counts samples.

use crate::text::{contents, decimal, decimal_text, described};
use vstd::prelude::*;
use vstd::string::*;

verus! {

/// The model that a CTranslate2 engine loads unless another is chosen.
pub const DEFAULT_MODEL_ID: &'static str = "guillaumekln/faster-whisper-small";

/// Why speech could not be recognized.
#[derive(Debug, PartialEq, Eq)]
pub enum EngineError {
    Decode(String),
}

impl EngineError {
    /// The error in words.
    pub fn message(&self) -> (message: String)
        ensures
            message@ == "decode failed: "@ + self->Decode_0@,
            message@ == described("decode failed: "@, self->Decode_0@),
    {
        match self {
            EngineError::Decode(cause) => String::from("decode failed: ").concat(cause.as_str()),
        }
    }

    /// The error of a model that could not be downloaded.
    pub fn model_download(cause: &str) -> (error: EngineError)
        ensures
            error->Decode_0@ == "model download: "@ + cause@,
            error->Decode_0@ == described("model download: "@, cause@),
    {
        EngineError::Decode(String::from("model download: ").concat(cause))
    }

    /// The error of a model that could not be loaded.
    pub fn model_load(cause: &str) -> (error: EngineError)
        ensures
            error->Decode_0@ == "model load: "@ + cause@,
            error->Decode_0@ == described("model load: "@, cause@),
    {
        EngineError::Decode(String::from("model load: ").concat(cause))
    }
}

/// What an engine recognized.
#[derive(Debug)]
pub struct EngineResult {
    pub text: String,
    pub decode_ms: u64,
    pub lang: String,
}

/// The contents of an [`EngineResult`].
pub struct EngineResultView {
    pub text: Seq<char>,
    pub decode_ms: u64,
    pub lang: Seq<char>,
}

impl View for EngineResult {
    type V = EngineResultView;

    open spec fn view(&self) -> EngineResultView {
        EngineResultView { text: self.text@, decode_ms: self.decode_ms, lang: self.lang@ }
    }
}

impl Clone for EngineResult {
    fn clone(&self) -> (copy: Self)
        ensures
            copy == *self,
    {
        EngineResult {
            text: self.text.clone(),
            decode_ms: self.decode_ms,
            lang: self.lang.clone(),
        }
    }
}

/// The first of a list of segments, or no text if there are none.
pub open spec fn first_segment(segments: Seq<Seq<char>>) -> Seq<char> {
    if segments.len() > 0 {
        segments[0]
    } else {
        Seq::empty()
    }
}

/// The first segment counts in full, whatever segments follow it.
pub proof fn law_first_segment_counts_in_full(segment: Seq<char>, others: Seq<Seq<char>>)
    ensures
        first_segment(seq![segment] + others) == segment,
        first_segment(Seq::empty()).len() == 0,
{
}

/// The result for the segments that a CTranslate2 model generated in a number of milliseconds: the
/// first segment, or no text. The time is kept modulo two to the power of 64.
pub fn ct2_result(segments: &Vec<String>, elapsed_ms: u128) -> (result: EngineResult)
    ensures
        result@ == (EngineResultView {
            text: if segments@.len() > 0 {
                segments@[0]@
            } else {
                Seq::empty()
            },
            decode_ms: (elapsed_ms % 0x1_0000_0000_0000_0000) as u64,
            lang: "en"@,
        }),
        result@.text == first_segment(contents(segments@)),
{
    let text = if segments.len() > 0 {
        segments[0].clone()
    } else {
        String::new()
    };
    let decode_ms = (elapsed_ms % 0x1_0000_0000_0000_0000) as u64;
    EngineResult { text, decode_ms, lang: String::from("en") }
}

/// What is said of a result is what its fields hold.
pub proof fn law_result_view_holds_the_fields(result: EngineResult)
    ensures
        result@.text == result.text@,
        result@.decode_ms == result.decode_ms,
        result@.lang == result.lang@,
{
}

/// How a number of samples is reported.
pub open spec fn sample_report(sample_count: nat) -> Seq<char> {
    "len="@ + decimal(sample_count)
}

/// A report is a label and the numeral of the number.
pub proof fn law_report_gives_the_number(sample_count: nat)
    ensures
        sample_report(sample_count).take(4) == seq!['l', 'e', 'n', '='],
        sample_report(sample_count).skip(4) == decimal(sample_count),
{
    reveal_strlit("len=");
    assert(sample_report(sample_count).take(4) == seq!['l', 'e', 'n', '=']);
    assert(sample_report(sample_count).skip(4) == decimal(sample_count));
}

/// An engine that reports how many samples it was given.
#[derive(Debug)]
pub struct MockEngine;

impl Default for MockEngine {
    fn default() -> (engine: Self)
        ensures
            engine == MockEngine,
    {
        MockEngine
    }
}

impl MockEngine {
    /// "Recognizes" audio, given its number of samples. This always works.
    pub fn decode(&self, sample_count: usize) -> (result: Result<EngineResult, EngineError>)
        ensures
            match result {
                Ok(result) => result@ == (EngineResultView {
                    text: "len="@ + decimal(sample_count as nat),
                    decode_ms: 0,
                    lang: "en"@,
                }),
                Err(_) => false,
            },
            result is Ok && result->Ok_0.text@ == sample_report(sample_count as nat),
    {
        Ok(
            EngineResult {
                text: String::from("len=").concat(decimal_text(sample_count as u64).as_str()),
                decode_ms: 0,
                lang: String::from("en"),
            },
        )
    }
}

} // verus!
