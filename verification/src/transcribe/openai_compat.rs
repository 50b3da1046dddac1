//! OpenAI and Groq: one request shape serves both.
use crate::config;
use crate::transcribe;
use crate::transcribe::Part;
use vstd::prelude::*;

verus! {

/// What a request to OpenAI or to Groq is made of.
#[derive(Debug, Clone)]
pub struct OpenAiCompatTranscriber {
    pub name: &'static str,
    pub endpoint: &'static str,
    pub model: &'static str,
    pub api_key: String,
    /// Free-text hint, built from the custom vocabulary.
    pub prompt: Option<String>,
}

/// A text field.
pub open spec fn text_field(field: Seq<char>, value: Seq<char>) -> transcribe::PartView {
    transcribe::PartView::Text { field, value }
}

/// The upload: the model, then the audio, then the hint where there is one.
pub open spec fn form_of(model: Seq<char>, prompt: Option<Seq<char>>) -> Seq<transcribe::PartView> {
    let first = seq![text_field("model"@, model), transcribe::PartView::Audio];
    match prompt {
        Some(p) => first.push(text_field("prompt"@, p)),
        None => first,
    }
}

impl OpenAiCompatTranscriber {
    pub fn openai(api_key: String, prompt: Option<String>) -> (t: Self)
        ensures
            t.name@ == "openai"@,
            t.endpoint@ == "https://api.openai.com/v1/audio/transcriptions"@,
            t.model@ == "gpt-transcribe"@,
            t.api_key == api_key,
            t.prompt == prompt,
    {
        OpenAiCompatTranscriber {
            name: "openai",
            endpoint: "https://api.openai.com/v1/audio/transcriptions",
            model: "gpt-transcribe",
            api_key,
            prompt,
        }
    }

    pub fn groq(api_key: String, prompt: Option<String>) -> (t: Self)
        ensures
            t.name@ == "groq"@,
            t.endpoint@ == "https://api.groq.com/openai/v1/audio/transcriptions"@,
            t.model@ == "whisper-large-v3-turbo"@,
            t.api_key == api_key,
            t.prompt == prompt,
    {
        OpenAiCompatTranscriber {
            name: "groq",
            endpoint: "https://api.groq.com/openai/v1/audio/transcriptions",
            model: "whisper-large-v3-turbo",
            api_key,
            prompt,
        }
    }

    /// Every part of the upload, in order. No language is named: that leaves the
    /// provider to detect it for each clip.
    pub fn form(&self) -> (parts: Vec<Part>)
        ensures
            transcribe::part_views(parts@) == form_of(
                self.model@,
                config::opt_text(self.prompt),
            ),
    {
        let mut parts: Vec<Part> = Vec::new();
        parts.push(Part::Text { field: "model", value: self.model.to_owned() });
        parts.push(Part::Audio);
        if let Some(prompt) = &self.prompt {
            parts.push(Part::Text { field: "prompt", value: prompt.clone() });
        }
        assert(transcribe::part_views(parts@) =~= form_of(
            self.model@,
            config::opt_text(self.prompt),
        ));
        parts
    }

    /// The text fields of the upload.
    pub fn text_fields(&self) -> (fields: Vec<(&'static str, String)>)
        ensures
            fields@.len() == (if self.prompt is Some {
                2int
            } else {
                1
            }),
            fields@[0].0@ == "model"@ && fields@[0].1@ == self.model@,
            self.prompt matches Some(p) ==> fields@[1].0@ == "prompt"@ && fields@[1].1@ == p@,
    {
        let mut fields: Vec<(&'static str, String)> = Vec::new();
        fields.push(("model", self.model.to_owned()));
        if let Some(prompt) = &self.prompt {
            fields.push(("prompt", prompt.clone()));
        }
        fields
    }
}

/// The model goes first and the recording behind it; a hint goes last, word for word, and
/// without one there is no third part.
pub proof fn law_what_is_uploaded(model: Seq<char>, hint: Seq<char>)
    ensures
        form_of(model, None).len() == 2,
        form_of(model, Some(hint)).len() == 3,
        form_of(model, Some(hint)).take(2) == form_of(model, None),
        form_of(model, None)[0] == (transcribe::PartView::Text { field: "model"@, value: model }),
        form_of(model, None)[1] == transcribe::PartView::Audio,
        form_of(model, Some(hint))[2] == (transcribe::PartView::Text {
            field: "prompt"@,
            value: hint,
        }),
{
    assert(form_of(model, Some(hint)).take(2) =~= form_of(model, None));
}

} // verus!
