use draft::transcribe::elevenlabs::{ElevenLabsTranscriber, ENDPOINT};
use draft::transcribe::openai_compat::OpenAiCompatTranscriber;
use draft::transcribe::{vocab_prompt, FallbackTranscriber, Transcriber};
use std::sync::Mutex;


/// Scripted stub Transcriber: pops results off a queue in call order and
/// reports a fixed name, so `FallbackTranscriber`'s routing and
/// attribution can be driven deterministically without a network or a
/// real model.
struct StubTranscriber {
    name: &'static str,
    results: Mutex<std::collections::VecDeque<Result<String, String>>>,
}

impl StubTranscriber {
    fn new(name: &'static str, results: Vec<Result<String, String>>) -> Self {
        Self {
            name,
            results: Mutex::new(results.into_iter().collect()),
        }
    }
}

impl Transcriber<f32> for StubTranscriber {
    fn transcribe(&self, _samples: &Vec<f32>) -> Result<String, String> {
        self.results
            .lock()
            .unwrap()
            .pop_front()
            .unwrap_or_else(|| Err("stub exhausted".to_string()))
    }

    fn name(&self) -> &'static str {
        self.name
    }
}

#[test]
fn fallback_uses_primary_on_success() {
    let primary = StubTranscriber::new("primary", vec![Ok("hello".into())]);
    // Fallback would return different text; it must not be consulted.
    let fallback = StubTranscriber::new("fallback", vec![Ok("degraded".into())]);
    let t = FallbackTranscriber::new(primary, fallback);
    let (text, provider) = t.transcribe_attributed(&vec![]).unwrap();
    assert_eq!(text, "hello");
    assert_eq!(provider, "primary");
}

#[test]
fn fallback_uses_fallback_on_primary_error() {
    let primary = StubTranscriber::new(
        "primary",
        vec![Err("network down".to_string())],
    );
    let fallback = StubTranscriber::new("fallback", vec![Ok("local text".into())]);
    let t = FallbackTranscriber::new(primary, fallback);
    let (text, provider) = t.transcribe_attributed(&vec![]).unwrap();
    assert_eq!(text, "local text");
    assert_eq!(provider, "fallback");
}

#[test]
fn vocab_prompt_joins_and_skips_blanks() {
    let terms: Vec<String> = vec!["Reson8".into(), "   ".into(), "egui".into()];
    assert_eq!(vocab_prompt(&terms).as_deref(), Some("Reson8, egui"));
}

#[test]
fn vocab_prompt_empty_is_none() {
    assert_eq!(vocab_prompt(&vec![]), None);
    assert_eq!(vocab_prompt(&vec!["  ".into()]), None);
}

#[test]
fn vocab_prompt_stays_under_budget() {
    let terms: Vec<String> = (0..200).map(|i| format!("term{i:03}xxxxxxxxxx")).collect();
    let p = vocab_prompt(&terms).unwrap();
    assert!(p.len() <= 600);
    // The first terms made it in untruncated.
    assert!(p.starts_with("term000xxxxxxxxxx, term001xxxxxxxxxx"));
    assert!(!p.ends_with(','));
}


fn openai(prompt: Option<&str>) -> OpenAiCompatTranscriber {
    OpenAiCompatTranscriber::openai("key".into(), prompt.map(str::to_string))
}

fn groq(prompt: Option<&str>) -> OpenAiCompatTranscriber {
    OpenAiCompatTranscriber::groq("key".into(), prompt.map(str::to_string))
}

#[test]
fn openai_requests_gpt_transcribe() {
    let t = openai(None);
    assert_eq!(t.endpoint, "https://api.openai.com/v1/audio/transcriptions");
    assert_eq!(t.text_fields(), [("model", "gpt-transcribe".to_string())]);
}

#[test]
fn openai_carries_the_vocabulary_hint_in_prompt() {
    assert_eq!(
        openai(Some("Draft, Parakeet")).text_fields(),
        [
            ("model", "gpt-transcribe".to_string()),
            ("prompt", "Draft, Parakeet".to_string()),
        ]
    );
}

#[test]
fn groq_requests_whisper_large_v3_turbo() {
    let t = groq(Some("Draft"));
    assert_eq!(
        t.endpoint,
        "https://api.groq.com/openai/v1/audio/transcriptions"
    );
    assert_eq!(
        t.text_fields(),
        [
            ("model", "whisper-large-v3-turbo".to_string()),
            ("prompt", "Draft".to_string()),
        ]
    );
}

#[test]
fn no_language_is_ever_sent() {
    for t in [openai(Some("Draft")), groq(Some("Draft"))] {
        assert!(t
            .text_fields()
            .iter()
            .all(|(field, _)| !field.starts_with("language")));
    }
}


#[test]
fn requests_scribe_v2_with_audio_events_untagged() {
    assert_eq!(ENDPOINT, "https://api.elevenlabs.io/v1/speech-to-text");
    assert_eq!(
        ElevenLabsTranscriber::text_fields(),
        [
            ("model_id", "scribe_v2".to_string()),
            ("tag_audio_events", "false".to_string()),
        ]
    );
}

#[test]
fn nothing_that_tidies_or_pins_the_words_is_sent() {
    for (field, _) in ElevenLabsTranscriber::text_fields() {
        assert!(!field.starts_with("language"));
        assert_ne!(field, "no_verbatim");
        assert_ne!(field, "keyterms");
    }
}

#[test]
fn attributes_to_elevenlabs() {
    let t = ElevenLabsTranscriber::new("key".into());
    assert_eq!(t.name(), "elevenlabs");
}
