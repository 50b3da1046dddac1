//! ElevenLabs.
use crate::transcribe;
use crate::transcribe::Part;
use vstd::prelude::*;

verus! {

pub const ENDPOINT: &'static str = "https://api.elevenlabs.io/v1/speech-to-text";

pub const MODEL: &'static str = "scribe_v2";

/// What a request to ElevenLabs is made of. The key goes into a header of its
/// own, `xi-api-key`.
#[derive(Debug, Clone)]
pub struct ElevenLabsTranscriber {
    pub api_key: String,
}

impl ElevenLabsTranscriber {
    pub fn new(api_key: String) -> (t: Self)
        ensures
            t.api_key == api_key,
    {
        ElevenLabsTranscriber { api_key }
    }

    /// Who this is.
    pub fn name(&self) -> (s: &'static str)
        ensures
            s@ == "elevenlabs"@,
    {
        "elevenlabs"
    }

    /// The text fields of the upload: it asks for what was said, so that sounds
    /// such as laughter are not written down, and names no language.
    pub fn text_fields() -> (fields: Vec<(&'static str, String)>)
        ensures
            fields@.len() == 2,
            fields@[0].0@ == "model_id"@ && fields@[0].1@ == MODEL@,
            fields@[1].0@ == "tag_audio_events"@ && fields@[1].1@ == "false"@,
    {
        let mut fields: Vec<(&'static str, String)> = Vec::new();
        fields.push(("model_id", MODEL.to_owned()));
        fields.push(("tag_audio_events", "false".to_owned()));
        fields
    }

    /// Every part of the upload, in order: the text fields, then the audio.
    pub fn form(&self) -> (parts: Vec<Part>)
        ensures
            transcribe::part_views(parts@) == seq![
                transcribe::PartView::Text { field: "model_id"@, value: MODEL@ },
                transcribe::PartView::Text { field: "tag_audio_events"@, value: "false"@ },
                transcribe::PartView::Audio,
            ],
    {
        let mut parts: Vec<Part> = Vec::new();
        parts.push(Part::Text { field: "model_id", value: MODEL.to_owned() });
        parts.push(Part::Text { field: "tag_audio_events", value: "false".to_owned() });
        parts.push(Part::Audio);
        assert(transcribe::part_views(parts@) =~= seq![
            transcribe::PartView::Text { field: "model_id"@, value: MODEL@ },
            transcribe::PartView::Text { field: "tag_audio_events"@, value: "false"@ },
            transcribe::PartView::Audio,
        ]);
        parts
    }
}

} // verus!
