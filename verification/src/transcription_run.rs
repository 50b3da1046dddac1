//! A transcription run: a recorded file in, text out. There is no paste and no
//! history, and voice commands are not obeyed: someone on a recording who says
//! "new paragraph" meant those words.
use crate::config;
use crate::config::Config;
use crate::postprocess;
use crate::postprocess::Replacements;
use crate::text;
use crate::text::{decimal, trim};
use crate::transcribe::Transcriber;
use vstd::prelude::*;

verus! {

/// The result of a run.
#[derive(Debug, PartialEq, Eq)]
pub enum RunOutcome {
    /// Text was produced. Never empty or white space only.
    Delivered(String),
    /// There are no words. Silence in, silence out: not an error.
    Empty,
}

/// A file that is longer than the limit, with its length in seconds.
#[derive(Debug, Clone, Copy, PartialEq, Eq, Structural)]
pub struct TooLong {
    pub seconds: u64,
}

/// Why a file could not be decoded.
#[derive(Debug)]
pub enum DecodeError {
    TooLong(TooLong),
    Unreadable(String),
}

/// Why a run came to nothing.
#[derive(Debug)]
pub enum RunError {
    /// The file is longer than the limit.
    TooLong(TooLong),
    /// Anything else: unreadable file, no provider configured, provider error.
    Failed(String),
}

impl RunOutcome {
    /// The process exit code that this outcome earns. Silence is an honest answer.
    pub fn exit_code(&self) -> (code: u8)
        ensures
            code == 0,
    {
        match self {
            RunOutcome::Delivered(_) | RunOutcome::Empty => 0,
        }
    }
}

/// The longest file that a run takes, in minutes.
pub const LIMIT_MINUTES: u64 = 10;

/// What a file over the limit is told.
pub open spec fn too_long_text(seconds: u64) -> Seq<char> {
    "the file is "@ + text::decimal_text(seconds as nat) + " seconds long, over the "@
        + text::decimal_text(LIMIT_MINUTES as nat) + " minute limit"@
}

impl TooLong {
    /// What the user is told.
    pub fn message(&self) -> (s: String)
        ensures
            s@ == too_long_text(self.seconds),
    {
        let mut s = "the file is ".to_owned();
        s.push_str(decimal(self.seconds).as_str());
        s.push_str(" seconds long, over the ");
        s.push_str(decimal(LIMIT_MINUTES).as_str());
        s.push_str(" minute limit");
        s
    }
}

impl RunError {
    /// What the user is told.
    pub fn message(&self) -> (s: String)
        ensures
            s@ == (match self {
                RunError::TooLong(e) => too_long_text(e.seconds),
                RunError::Failed(m) => m@,
            }),
    {
        match self {
            RunError::TooLong(e) => e.message(),
            RunError::Failed(m) => m.clone(),
        }
    }

    /// The process exit code that this error earns.
    pub fn exit_code(&self) -> (code: u8)
        ensures
            code == (match self {
                RunError::Failed(_) => 1u8,
                RunError::TooLong(_) => 2u8,
            }),
    {
        match self {
            RunError::Failed(_) => 1,
            RunError::TooLong(_) => 2,
        }
    }
}

/// The text that a transcript leaves to deliver: trimmed, with the rules applied.
pub open spec fn deliverable(transcript: Seq<char>, rules: Seq<config::RuleView>) -> Seq<char> {
    postprocess::all_replaced(text::trimmed(transcript), rules)
}

/// A transcript has words, before and after the rules.
pub open spec fn has_words(transcript: Seq<char>, rules: Seq<config::RuleView>) -> bool {
    &&& text::trimmed(transcript).len() > 0
    &&& text::trimmed(deliverable(transcript, rules)).len() > 0
}

/// What a transcript amounts to.
pub fn outcome(transcript: &str, replacements: &Replacements) -> (r: RunOutcome)
    ensures
        r is Delivered <==> has_words(transcript@, replacements@),
        r matches RunOutcome::Delivered(s) ==> s@ == deliverable(transcript@, replacements@),
        r matches RunOutcome::Delivered(s) ==> s@ == postprocess::all_replaced(
            text::trimmed(transcript@),
            replacements@,
        ),
{
    let trimmed = trim(transcript);
    if trimmed.as_str().is_empty() {
        return RunOutcome::Empty;
    }
    let out = replacements.apply(trimmed.as_str());
    if trim(out.as_str()).as_str().is_empty() {
        return RunOutcome::Empty;
    }
    RunOutcome::Delivered(out)
}

/// What a run makes of a transcriber's answer.
pub open spec fn concluded(
    answer: Result<String, String>,
    rules: Seq<config::RuleView>,
    r: Result<RunOutcome, RunError>,
) -> bool {
    match answer {
        Err(e) => r matches Err(RunError::Failed(m)) && m@ == "transcription failed: "@ + e@,
        Ok(transcript) => match r {
            Ok(RunOutcome::Delivered(s)) => has_words(transcript@, rules) && s@ == deliverable(
                transcript@,
                rules,
            ),
            Ok(RunOutcome::Empty) => !has_words(transcript@, rules),
            Err(_) => false,
        },
    }
}

/// What a transcriber's answer amounts to.
pub fn conclude(answer: Result<String, String>, replacements: &Replacements) -> (r: Result<
    RunOutcome,
    RunError,
>)
    ensures
        concluded(answer, replacements@, r),
{
    match answer {
        Ok(transcript) => Ok(outcome(transcript.as_str(), replacements)),
        Err(e) => {
            let mut message = "transcription failed: ".to_owned();
            message.push_str(e.as_str());
            Err(RunError::Failed(message))
        },
    }
}

/// The half of a run that needs no file: samples in, outcome out.
pub fn run_samples<S, T: Transcriber<S>>(
    samples: &Vec<S>,
    transcriber: &T,
    replacements: &Replacements,
) -> (r: Result<RunOutcome, RunError>)
    ensures
        exists|answer: Result<String, String>| #[trigger]
            call_ensures(T::transcribe, (transcriber, samples), answer) && concluded(
                answer,
                replacements@,
                r,
            ),
{
    let answer = transcriber.transcribe(samples);
    conclude(answer, replacements)
}

/// What a run without a transcriber says.
pub open spec fn no_transcriber(provider: config::Provider) -> Seq<char> {
    "no transcriber available for provider "@ + config::provider_name(provider)
        + " — open Draft's settings and check the provider and its API key"@
}

/// A whole run. `decoded` is what decoding the file gave, `transcriber` what the
/// settings lead to.
pub fn run<S, T: Transcriber<S>>(
    decoded: Result<Vec<S>, DecodeError>,
    transcriber: Option<T>,
    cfg: &Config,
) -> (r: Result<RunOutcome, RunError>)
    ensures
        match (decoded, transcriber) {
            (Err(DecodeError::TooLong(e)), _) => r matches Err(RunError::TooLong(t)) && t == e,
            (Err(DecodeError::Unreadable(m)), _) => r matches Err(RunError::Failed(f)) && f == m,
            (Ok(_), None) => r matches Err(RunError::Failed(f)) && f@ == no_transcriber(
                cfg.provider,
            ),
            (Ok(samples), Some(t)) => exists|answer: Result<String, String>| #[trigger]
                call_ensures(T::transcribe, (&t, &samples), answer) && concluded(
                    answer,
                    postprocess::active(config::rule_views(cfg.replacements@)),
                    r,
                ),
        },
{
    let samples = match decoded {
        Ok(samples) => samples,
        Err(DecodeError::TooLong(e)) => {
            return Err(RunError::TooLong(e));
        },
        Err(DecodeError::Unreadable(m)) => {
            return Err(RunError::Failed(m));
        },
    };
    match transcriber {
        Some(t) => run_samples(&samples, &t, &Replacements::from_config(cfg)),
        None => {
            let mut message = "no transcriber available for provider ".to_owned();
            message.push_str(cfg.provider.label());
            message.push_str(" — open Draft's settings and check the provider and its API key");
            Err(RunError::Failed(message))
        },
    }
}

/// What is delivered is never empty or white space only.
pub proof fn law_delivered_text_has_words(
    answer: Result<String, String>,
    rules: Seq<config::RuleView>,
    s: String,
)
    requires
        concluded(answer, rules, Ok(RunOutcome::Delivered(s))),
    ensures
        text::trimmed(s@).len() > 0,
{
}

/// Silence is not an error: a transcriber that answers with white space leaves
/// the run empty.
pub proof fn law_silence_is_empty(
    transcript: String,
    rules: Seq<config::RuleView>,
    r: Result<RunOutcome, RunError>,
)
    requires
        text::trimmed(transcript@).len() == 0,
        concluded(Ok(transcript), rules, r),
    ensures
        r == Ok::<RunOutcome, RunError>(RunOutcome::Empty),
{
}

/// What is delivered is what the rules make of the whole transcript, trimmed. It is
/// delivered exactly where there are words, both before and after the rules.
pub proof fn law_the_whole_transcript_is_delivered(
    transcript: String,
    rules: Seq<config::RuleView>,
    s: String,
)
    ensures
        has_words(transcript@, rules) <==> text::trimmed(transcript@).len() > 0 && text::trimmed(
            postprocess::all_replaced(text::trimmed(transcript@), rules),
        ).len() > 0,
        deliverable(transcript@, rules) == postprocess::all_replaced(
            text::trimmed(transcript@),
            rules,
        ),
        concluded(Ok(transcript), rules, Ok(RunOutcome::Delivered(s))) <==> {
            &&& text::trimmed(transcript@).len() > 0
            &&& s@ == postprocess::all_replaced(text::trimmed(transcript@), rules)
            &&& text::trimmed(s@).len() > 0
        },
        concluded(Ok(transcript), rules, Ok(RunOutcome::Empty)) <==> {
            ||| text::trimmed(transcript@).len() == 0
            ||| text::trimmed(
                postprocess::all_replaced(text::trimmed(transcript@), rules),
            ).len() == 0
        },
{
}

/// Without rules, what was said is delivered as it was said: only the white space in front
/// of it and behind it goes.
pub proof fn law_without_rules_only_the_ends_are_trimmed(
    transcript: String,
    lead: Seq<char>,
    said: Seq<char>,
    tail: Seq<char>,
    r: Result<RunOutcome, RunError>,
)
    requires
        transcript@ == lead + said + tail,
        forall|i: int| 0 <= i < lead.len() ==> text::white(#[trigger] lead[i]),
        forall|i: int| 0 <= i < tail.len() ==> text::white(#[trigger] tail[i]),
        said.len() > 0,
        !text::white(said[0]),
        !text::white(said.last()),
        concluded(Ok(transcript), Seq::empty(), r),
    ensures
        r matches Ok(RunOutcome::Delivered(s)) && s@ == said,
        deliverable(transcript@, Seq::empty()) == said,
        has_words(transcript@, Seq::empty()),
{
    text::law_trimming_keeps_what_stands_between(lead, said, tail);
    let e = Seq::<char>::empty();
    text::law_trimming_keeps_what_stands_between(e, said, e);
    assert(e + said + e =~= said);
}

/// One character that is no white space is enough for a transcript to be delivered, where
/// no rule is there to take it out.
pub proof fn law_any_word_is_delivered(
    transcript: String,
    i: int,
    r: Result<RunOutcome, RunError>,
)
    requires
        0 <= i < transcript@.len(),
        !text::white(transcript@[i]),
        concluded(Ok(transcript), Seq::empty(), r),
    ensures
        r matches Ok(RunOutcome::Delivered(s)) && s@ == text::trimmed(transcript@),
{
    let lo = text::law_every_text_has_a_trimmed_middle(transcript@);
}

/// A transcriber's failure is the run's failure, and is told in its own words.
pub proof fn law_a_failure_is_told(
    answer: String,
    rules: Seq<config::RuleView>,
    r: Result<RunOutcome, RunError>,
)
    requires
        concluded(Err(answer), rules, r),
    ensures
        r matches Err(RunError::Failed(m)) && m@ == "transcription failed: "@ + answer@,
{
}

/// A file that is too long is told its length in seconds and the ten minutes it may have.
pub proof fn law_what_a_long_file_is_told(seconds: u64)
    ensures
        too_long_text(seconds) == "the file is "@ + text::decimal_text(seconds as nat)
            + " seconds long, over the "@ + text::decimal_text(10) + " minute limit"@,
{
}

/// Without anybody to transcribe, the user is told which provider it was.
pub proof fn law_a_missing_transcriber_is_named(provider: config::Provider)
    ensures
        text::occurs(no_transcriber(provider), config::provider_name(provider)),
{
    text::law_what_stands_there_is_found(
        "no transcriber available for provider "@,
        config::provider_name(provider),
        " — open Draft's settings and check the provider and its API key"@,
    );
}

} // verus!
