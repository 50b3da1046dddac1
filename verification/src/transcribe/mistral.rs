//! Mistral.
use crate::transcribe;
use crate::transcribe::Part;
use vstd::prelude::*;

verus! {

pub const ENDPOINT: &'static str = "https://api.mistral.ai/v1/audio/transcriptions";

pub const DEFAULT_MODEL: &'static str = "voxtral-mini-latest";

/// What a request to Mistral is made of.
#[derive(Debug, Clone)]
pub struct MistralTranscriber {
    pub api_key: String,
    pub model: &'static str,
}

impl MistralTranscriber {
    pub fn new(api_key: String) -> (t: Self)
        ensures
            t.api_key == api_key,
            t.model@ == DEFAULT_MODEL@,
    {
        MistralTranscriber { api_key, model: DEFAULT_MODEL }
    }

    /// Who this is.
    pub fn name(&self) -> (s: &'static str)
        ensures
            s@ == "mistral"@,
    {
        "mistral"
    }

    /// Every part of the upload, in order. No language is named.
    pub fn form(&self) -> (parts: Vec<Part>)
        ensures
            transcribe::part_views(parts@) == seq![
                transcribe::PartView::Text { field: "model"@, value: self.model@ },
                transcribe::PartView::Audio,
            ],
    {
        let mut parts: Vec<Part> = Vec::new();
        parts.push(Part::Text { field: "model", value: self.model.to_owned() });
        parts.push(Part::Audio);
        assert(transcribe::part_views(parts@) =~= seq![
            transcribe::PartView::Text { field: "model"@, value: self.model@ },
            transcribe::PartView::Audio,
        ]);
        parts
    }
}

} // verus!
