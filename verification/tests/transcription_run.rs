use draft::config::{Config, Replacement};
use draft::postprocess::Replacements;
use draft::transcribe::Transcriber;
use draft::transcription_run::{
    conclude, outcome, run, run_samples, DecodeError, RunError, RunOutcome, TooLong,
};


struct StubTranscriber(&'static str);

impl Transcriber<f32> for StubTranscriber {
    fn transcribe(&self, _samples: &Vec<f32>) -> Result<String, String> {
        Ok(self.0.to_owned())
    }
    fn name(&self) -> &'static str {
        "stub"
    }
}

fn cfg() -> Config {
    Config {
        // Voice commands on, to prove a Transcription run ignores them
        // even when a Session would apply them.
        voice_commands: true,
        replacements: vec![Replacement {
            from: "draft".into(),
            to: "Draft".into(),
            ..Default::default()
        }],
        ..Default::default()
    }
}

/// The transcript gets **Replacements** and *not* **Voice commands**: a
/// speaker who says "new paragraph" on tape meant those words.
#[test]
fn applies_replacements_but_not_voice_commands() {
    let out = run_samples(
        &vec![],
        &StubTranscriber("draft new paragraph please"),
        &Replacements::from_config(&cfg()),
    )
    .unwrap();
    assert_eq!(
        out,
        RunOutcome::Delivered("Draft new paragraph please".into())
    );
}

/// Silence is `Empty`, and `Empty` exits 0 — an agent must not retry a
/// file that will never produce words.
#[test]
fn silence_is_empty_and_succeeds() {
    let out = run_samples(
        &vec![],
        &StubTranscriber("   \n "),
        &Replacements::from_config(&cfg()),
    )
    .unwrap();
    assert_eq!(out, RunOutcome::Empty);
    assert_eq!(out.exit_code(), 0);
}

#[test]
fn over_length_exits_2_and_failure_exits_1() {
    let too_long = RunError::TooLong(TooLong { seconds: 1200 });
    assert_eq!(too_long.exit_code(), 2);
    assert_eq!(RunError::Failed("boom".to_string()).exit_code(), 1);
}

/// Only a transcriber that was given samples is asked, and each way to fail says
/// why.
#[test]
fn each_way_to_fail_says_why() {
    let none: Option<StubTranscriber> = None;
    match run(Ok::<Vec<f32>, DecodeError>(vec![]), none, &cfg()) {
        Err(RunError::Failed(m)) => assert_eq!(
            m,
            format!(
                "no transcriber available for provider {} — open Draft's settings and check the \
                 provider and its API key",
                cfg().provider.label()
            )
        ),
        other => panic!("{other:?}"),
    }
    let long: Result<Vec<f32>, DecodeError> = Err(DecodeError::TooLong(TooLong { seconds: 601 }));
    assert!(matches!(
        run(long, Some(StubTranscriber("hi")), &cfg()),
        Err(RunError::TooLong(TooLong { seconds: 601 }))
    ));
    let torn: Result<Vec<f32>, DecodeError> = Err(DecodeError::Unreadable("torn".to_string()));
    match run(torn, Some(StubTranscriber("hi")), &cfg()) {
        Err(RunError::Failed(m)) => assert_eq!(m, "torn"),
        other => panic!("{other:?}"),
    }
    match conclude(Err("down".to_string()), &Replacements::from_config(&cfg())) {
        Err(RunError::Failed(m)) => assert_eq!(m, "transcription failed: down"),
        other => panic!("{other:?}"),
    }
}

#[test]
fn a_run_delivers_the_rewritten_words() {
    let out = run(Ok::<Vec<f32>, DecodeError>(vec![]), Some(StubTranscriber(" a draft \n")), &cfg());
    assert_eq!(out.unwrap(), RunOutcome::Delivered("a Draft".to_string()));
    assert_eq!(RunOutcome::Delivered(String::new()).exit_code(), 0);
}

/// A transcript that the rules leave blank is empty, not delivered.
#[test]
fn a_transcript_that_is_rewritten_to_nothing_is_empty() {
    let blank = Config {
        replacements: vec![Replacement { from: "um".into(), to: " ".into(), ..Default::default() }],
        ..Default::default()
    };
    assert_eq!(outcome("um", &Replacements::from_config(&blank)), RunOutcome::Empty);
}

#[test]
fn errors_say_what_the_user_acts_on() {
    assert_eq!(
        RunError::TooLong(TooLong { seconds: 660 }).message(),
        "the file is 660 seconds long, over the 10 minute limit"
    );
    assert_eq!(RunError::Failed("boom".to_string()).message(), "boom");
}
