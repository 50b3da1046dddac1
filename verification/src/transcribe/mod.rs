//! Turning speech into text: who does it, what a provider is told, and what its
//! answer amounts to. Sending a request, and running the local model, is up to
//! the caller.
pub mod elevenlabs;
pub mod mistral;
pub mod openai_compat;
pub mod parakeet;
pub mod parakeet_download;
pub mod reson8;
pub mod wav;

use crate::clock::Duration;
use crate::config;
use crate::config::{Config, Provider};
use crate::text;
use crate::text::{byte_len, chars_of, slice_of, string_of, trim};
use vstd::prelude::*;
use vstd::utf8;

verus! {

/// How long a cloud provider may take when it is the only option, in seconds.
pub const DEFAULT_TIMEOUT_SECS: u64 = 60;

/// How long it may take when the local model is standing by, in seconds.
pub const FALLBACK_PRIMARY_TIMEOUT_SECS: u64 = 15;

/// Somebody who turns samples into text.
pub trait Transcriber<S> {
    /// Transcribes 16 kHz mono audio.
    fn transcribe(&self, samples: &Vec<S>) -> Result<String, String>;

    /// Who this is.
    fn name(&self) -> &'static str;

    /// Transcribes and says who produced the text, so that attribution travels
    /// with the result.
    fn transcribe_attributed(&self, samples: &Vec<S>) -> (r: Result<(String, &'static str), String>)
        default_ensures
            exists|first: Result<String, String>, name: &'static str|
                #![trigger call_ensures(Self::transcribe, (self, samples), first), call_ensures(Self::name, (self,), name)]
                call_ensures(Self::transcribe, (self, samples), first) && call_ensures(
                    Self::name,
                    (self,),
                    name,
                ) && r == attributed(first, name),
    {
        let first = self.transcribe(samples);
        let name = self.name();
        attribute(first, name)
    }

    /// Releases any heavy state that has gone unused for at least `timeout`.
    fn unload_if_idle(&self, _timeout: Duration) {
    }
}

/// A result with the name of who produced it.
pub open spec fn attributed(result: Result<String, String>, name: &'static str) -> Result<
    (String, &'static str),
    String,
> {
    match result {
        Ok(text) => Ok((text, name)),
        Err(e) => Err(e),
    }
}

/// Puts the name of who produced it onto a result.
pub fn attribute(result: Result<String, String>, name: &'static str) -> (r: Result<
    (String, &'static str),
    String,
>)
    ensures
        r == attributed(result, name),
{
    match result {
        Ok(text) => Ok((text, name)),
        Err(e) => Err(e),
    }
}

/// Tries one transcriber, and on any error another one, so that a connectivity
/// blip degrades quality instead of losing words.
pub struct FallbackTranscriber<P, F> {
    pub primary: P,
    pub fallback: F,
}

/// `r` is what the two can have made of `samples`: what the primary produced
/// under its own name, and only where that failed what the fallback made of it,
/// under the fallback's name.
pub open spec fn routed<S, P: Transcriber<S>, F: Transcriber<S>>(
    t: FallbackTranscriber<P, F>,
    samples: Vec<S>,
    r: Result<(String, &'static str), String>,
) -> bool {
    exists|first: Result<String, String>| #[trigger]
        call_ensures(P::transcribe, (&t.primary, &samples), first) && match first {
            Ok(_) => exists|name: &'static str| #[trigger]
                call_ensures(P::name, (&t.primary,), name) && r == attributed(first, name),
            Err(_) => exists|second: Result<String, String>, name: &'static str|
                #![trigger call_ensures(F::transcribe, (&t.fallback, &samples), second), call_ensures(F::name, (&t.fallback,), name)]
                call_ensures(F::transcribe, (&t.fallback, &samples), second) && call_ensures(
                    F::name,
                    (&t.fallback,),
                    name,
                ) && r == attributed(second, name),
        }
}

impl<P, F> FallbackTranscriber<P, F> {
    pub fn new(primary: P, fallback: F) -> (t: Self)
        ensures
            t == (FallbackTranscriber { primary, fallback }),
    {
        FallbackTranscriber { primary, fallback }
    }
}

impl<S, P: Transcriber<S>, F: Transcriber<S>> Transcriber<S> for FallbackTranscriber<P, F> {
    fn name(&self) -> (r: &'static str)
        ensures
            call_ensures(P::name, (&self.primary,), r),
    {
        self.primary.name()
    }

    fn transcribe(&self, samples: &Vec<S>) -> (r: Result<String, String>)
        ensures
            exists|whole: Result<(String, &'static str), String>| #[trigger]
                routed::<S, P, F>(*self, *samples, whole) && r == (match whole {
                    Ok(both) => Ok::<String, String>(both.0),
                    Err(e) => Err::<String, String>(e),
                }),
    {
        let whole = self.transcribe_attributed(samples);
        match whole {
            Ok((text, _)) => Ok(text),
            Err(e) => Err(e),
        }
    }

    fn transcribe_attributed(&self, samples: &Vec<S>) -> (r: Result<(String, &'static str), String>)
        ensures
            routed::<S, P, F>(*self, *samples, r),
    {
        let first = self.primary.transcribe(samples);
        match first {
            Ok(_) => {
                let name = self.primary.name();
                attribute(first, name)
            },
            Err(_) => {
                let second = self.fallback.transcribe(samples);
                let name = self.fallback.name();
                attribute(second, name)
            },
        }
    }

    fn unload_if_idle(&self, timeout: Duration) {
        self.primary.unload_if_idle(timeout);
        self.fallback.unload_if_idle(timeout);
    }
}

/// The provider that a dictation goes to, with what it needs.
pub enum Primary {
    Local,
    Mistral { key: String },
    Reson8 { key: String },
    Groq { key: String, prompt: Option<String> },
    Openai { key: String, prompt: Option<String> },
}

/// How a transcriber is to be put together.
pub struct Plan {
    pub primary: Primary,
    /// How long the primary may take, in seconds.
    pub timeout_secs: u64,
    /// Whether the local model stands behind it.
    pub fallback: bool,
}

/// The local model is to stand behind the configured provider.
pub open spec fn falls_back(cfg: Config, model_present: bool) -> bool {
    cfg.fallback_to_local && cfg.provider != Provider::LocalParakeet && model_present
}

/// Whether a primary is the one that the settings ask for: it carries the key,
/// and where the provider takes a hint, the vocabulary.
pub open spec fn is_primary(
    primary: Primary,
    provider: Provider,
    key: Option<String>,
    hint: Option<Seq<char>>,
) -> bool {
    match (primary, provider) {
        (Primary::Local, Provider::LocalParakeet) => true,
        (Primary::Mistral { key: k }, Provider::Mistral) => key == Some(k),
        (Primary::Reson8 { key: k }, Provider::Reson8) => key == Some(k),
        (Primary::Groq { key: k, prompt }, Provider::Groq) => key == Some(k) && config::opt_text(prompt)
            == hint,
        (Primary::Openai { key: k, prompt }, Provider::Openai) => key == Some(k) && config::opt_text(
            prompt,
        ) == hint,
        _ => false,
    }
}

/// There is a way to transcribe: the local model is installed and can be found,
/// or a cloud provider that is supported has its key.
pub open spec fn can_transcribe(
    provider: Provider,
    key: Option<String>,
    model_present: bool,
    model_dir_known: bool,
) -> bool {
    match provider {
        Provider::LocalParakeet => model_present && model_dir_known,
        Provider::Mistral => key is Some,
        Provider::Reson8 => key is Some,
        Provider::Groq => key is Some,
        Provider::Openai => key is Some,
        Provider::Xai => false,
        Provider::Elevenlabs => false,
    }
}

/// Decides how a transcriber is put together. `key` is the key of the configured
/// provider, `model_present` whether the local model's files are there and
/// `model_dir_known` whether their directory could be determined.
pub fn build(
    cfg: &Config,
    key: Option<String>,
    model_present: bool,
    model_dir_known: bool,
) -> (r: Option<Plan>)
    ensures
        r is Some <==> can_transcribe(cfg.provider, key, model_present, model_dir_known),
        r matches Some(plan) ==> {
            &&& is_primary(plan.primary, cfg.provider, key, hint(config::text_views(cfg.vocabulary@)))
            &&& plan.timeout_secs == (if falls_back(*cfg, model_present) {
                FALLBACK_PRIMARY_TIMEOUT_SECS
            } else {
                DEFAULT_TIMEOUT_SECS
            })
            &&& plan.fallback == (falls_back(*cfg, model_present) && model_dir_known)
        },
{
    let fallback_ready = cfg.fallback_to_local && cfg.provider != Provider::LocalParakeet
        && model_present;
    let timeout_secs: u64 = if fallback_ready {
        FALLBACK_PRIMARY_TIMEOUT_SECS
    } else {
        DEFAULT_TIMEOUT_SECS
    };
    let primary = match build_primary(cfg, key, model_present && model_dir_known) {
        Some(primary) => primary,
        None => {
            return None;
        },
    };
    Some(Plan { primary, timeout_secs, fallback: fallback_ready && model_dir_known })
}

fn build_primary(cfg: &Config, key: Option<String>, local_ready: bool) -> (r: Option<Primary>)
    ensures
        r is Some <==> can_transcribe(cfg.provider, key, local_ready, local_ready),
        r matches Some(primary) ==> is_primary(
            primary,
            cfg.provider,
            key,
            hint(config::text_views(cfg.vocabulary@)),
        ),
{
    match cfg.provider {
        Provider::LocalParakeet => {
            if local_ready {
                Some(Primary::Local)
            } else {
                None
            }
        },
        Provider::Mistral => match key {
            Some(key) => Some(Primary::Mistral { key }),
            None => None,
        },
        Provider::Reson8 => match key {
            Some(key) => Some(Primary::Reson8 { key }),
            None => None,
        },
        Provider::Groq => match key {
            Some(key) => Some(Primary::Groq { key, prompt: vocab_prompt(&cfg.vocabulary) }),
            None => None,
        },
        Provider::Openai => match key {
            Some(key) => Some(Primary::Openai { key, prompt: vocab_prompt(&cfg.vocabulary) }),
            None => None,
        },
        Provider::Xai => None,
        Provider::Elevenlabs => None,
    }
}

/// The most that a vocabulary hint may take, in bytes.
pub const MAX_HINT_BYTES: usize = 600;

/// The number of bytes that a text takes.
pub open spec fn bytes(s: Seq<char>) -> int {
    utf8::encode_utf8(s).len() as int
}

/// `joined` with one more term behind it: trimmed, set off by a comma, and left
/// out whole where it is blank or would go over the budget.
pub open spec fn with_term(joined: Seq<char>, term: Seq<char>) -> Seq<char> {
    let t = text::trimmed(term);
    let sep: Seq<char> = if joined.len() == 0 {
        Seq::empty()
    } else {
        ", "@
    };
    if t.len() == 0 || bytes(joined) + sep.len() + bytes(t) > MAX_HINT_BYTES {
        joined
    } else {
        joined + sep + t
    }
}

/// The terms that fit, joined in order.
pub open spec fn joined_terms(terms: Seq<Seq<char>>) -> Seq<char>
    decreases terms.len(),
{
    if terms.len() == 0 {
        Seq::empty()
    } else {
        with_term(joined_terms(terms.drop_last()), terms.last())
    }
}

/// The hint, where there is anything to hint at.
pub open spec fn hint(terms: Seq<Seq<char>>) -> Option<Seq<char>> {
    let joined = joined_terms(terms);
    if joined.len() == 0 {
        None
    } else {
        Some(joined)
    }
}

/// Builds the free-text vocabulary hint for providers that take one. A term that
/// does not fit is left out whole, never cut.
pub fn vocab_prompt(terms: &Vec<String>) -> (r: Option<String>)
    ensures
        config::opt_text(r) == hint(config::text_views(terms@)),
{
    let mut out = String::new();
    let ghost views = config::text_views(terms@);
    let mut i: usize = 0;
    assert(views.take(0) =~= Seq::empty());
    proof {
        reveal_strlit(", ");
    }
    while i < terms.len()
        invariant
            i <= terms@.len(),
            views == config::text_views(terms@),
            out@ == joined_terms(views.take(i as int)),
            bytes(out@) <= MAX_HINT_BYTES,
            ", "@.len() == 2,
            ", "@ == seq![',', ' '],
        decreases terms.len() - i,
    {
        assert(views.take(i + 1).drop_last() =~= views.take(i as int));
        assert(views.take(i + 1).last() == terms@[i as int]@);
        let term = trim(terms[i].as_str());
        let size: usize = byte_len(term.as_str());
        let sep: usize = if out.as_str().is_empty() {
            0
        } else {
            2
        };
        let used: usize = byte_len(out.as_str());
        if !term.as_str().is_empty() && size <= MAX_HINT_BYTES && used + sep + size
            <= MAX_HINT_BYTES {
            let ghost before = out@;
            if sep > 0 {
                out.push_str(", ");
            }
            out.push_str(term.as_str());
            proof {
                if sep > 0 {
                    lemma_bytes_concat(before, ", "@);
                    lemma_bytes_concat(before + ", "@, term@);
                    lemma_ascii_pair();
                } else {
                    lemma_bytes_concat(before, term@);
                    assert(before + Seq::<char>::empty() =~= before);
                }
            }
        }
        i += 1;
    }
    assert(views.take(views.len() as int) =~= views);
    if out.as_str().is_empty() {
        None
    } else {
        Some(out)
    }
}

proof fn lemma_bytes_concat(a: Seq<char>, b: Seq<char>)
    ensures
        bytes(a + b) == bytes(a) + bytes(b),
    decreases a.len(),
{
    if a.len() == 0 {
        assert(a + b =~= b);
    } else {
        lemma_bytes_concat(a.drop_first(), b);
        assert((a + b).drop_first() =~= a.drop_first() + b);
    }
}

proof fn lemma_ascii_pair()
    ensures
        bytes(seq![',', ' ']) == 2,
{
    let s = seq![',', ' '];
    assert(s.drop_first() =~= seq![' ']);
    assert(seq![' '].drop_first() =~= Seq::<char>::empty());
    reveal_with_fuel(utf8::encode_utf8, 3);
}

/// The hint stays within its budget, whatever the terms.
pub proof fn law_hint_stays_under_budget(terms: Seq<Seq<char>>)
    ensures
        bytes(joined_terms(terms)) <= MAX_HINT_BYTES,
    decreases terms.len(),
{
    if terms.len() > 0 {
        let before = joined_terms(terms.drop_last());
        let t = text::trimmed(terms.last());
        law_hint_stays_under_budget(terms.drop_last());
        reveal_strlit(", ");
        assert(", "@ =~= seq![',', ' ']);
        lemma_ascii_pair();
        if before.len() == 0 {
            lemma_bytes_concat(before, t);
            assert(before + Seq::<char>::empty() + t =~= before + t);
        } else {
            lemma_bytes_concat(before, ", "@);
            lemma_bytes_concat(before + ", "@, t);
        }
    }
}

/// A blank term says nothing.
pub proof fn law_blank_terms_are_skipped(joined: Seq<char>, term: Seq<char>)
    requires
        text::trimmed(term).len() == 0,
    ensures
        with_term(joined, term) == joined,
{
}

/// Terms come in order and whole: what is already there stays in front.
pub proof fn law_hint_only_grows(terms: Seq<Seq<char>>, more: Seq<char>)
    ensures
        joined_terms(terms).is_prefix_of(joined_terms(terms.push(more))),
{
    assert(terms.push(more).drop_last() =~= terms);
    let before = joined_terms(terms);
    let after = joined_terms(terms.push(more));
    assert(before =~= after.subrange(0, before.len() as int));
}

/// Every term that is not blank and still fits is in the hint, whole: it stands behind
/// what is there already, set off by a comma and a space unless it is the first.
pub proof fn law_a_term_that_fits_is_added(terms: Seq<Seq<char>>, term: Seq<char>)
    requires
        text::trimmed(term).len() > 0,
        bytes(joined_terms(terms)) + (if joined_terms(terms).len() == 0 {
            0int
        } else {
            2
        }) + bytes(text::trimmed(term)) <= 600,
    ensures
        joined_terms(terms).len() == 0 ==> joined_terms(terms.push(term)) == text::trimmed(term),
        joined_terms(terms).len() > 0 ==> joined_terms(terms.push(term)) == joined_terms(terms)
            + seq![',', ' '] + text::trimmed(term),
        hint(terms.push(term)) == Some(joined_terms(terms.push(term))),
{
    assert(terms.push(term).drop_last() =~= terms);
    reveal_strlit(", ");
    assert(", "@ =~= seq![',', ' ']);
    let joined = joined_terms(terms);
    if joined.len() == 0 {
        assert(joined + Seq::<char>::empty() + text::trimmed(term) =~= text::trimmed(term));
    }
}

/// A term that is blank, or that does not fit any more, leaves the hint as it was.
pub proof fn law_a_term_that_does_not_fit_is_left_out(terms: Seq<Seq<char>>, term: Seq<char>)
    requires
        text::trimmed(term).len() == 0 || bytes(joined_terms(terms)) + (if joined_terms(terms).len()
            == 0 {
            0int
        } else {
            2
        }) + bytes(text::trimmed(term)) > 600,
    ensures
        joined_terms(terms.push(term)) == joined_terms(terms),
        hint(terms.push(term)) == hint(terms),
{
    assert(terms.push(term).drop_last() =~= terms);
    reveal_strlit(", ");
    assert(", "@.len() == 2);
}

/// All the terms that are not blank, trimmed, in order, a comma and a space apart.
pub open spec fn all_terms(terms: Seq<Seq<char>>) -> Seq<char>
    decreases terms.len(),
{
    if terms.len() == 0 {
        Seq::empty()
    } else {
        let before = all_terms(terms.drop_last());
        let term = text::trimmed(terms.last());
        if term.len() == 0 {
            before
        } else if before.len() == 0 {
            term
        } else {
            before + seq![',', ' '] + term
        }
    }
}

/// Where all the terms together fit, the hint is all of them.
pub proof fn law_a_vocabulary_that_fits_is_hinted_whole(terms: Seq<Seq<char>>)
    requires
        bytes(all_terms(terms)) <= 600,
    ensures
        joined_terms(terms) == all_terms(terms),
        hint(terms) == (if all_terms(terms).len() == 0 {
            None
        } else {
            Some(all_terms(terms))
        }),
    decreases terms.len(),
{
    if terms.len() > 0 {
        let rest = terms.drop_last();
        let term = text::trimmed(terms.last());
        let before = all_terms(rest);
        assert(rest.push(terms.last()) =~= terms);
        lemma_ascii_pair();
        if term.len() == 0 {
            law_a_vocabulary_that_fits_is_hinted_whole(rest);
            law_a_term_that_does_not_fit_is_left_out(rest, terms.last());
        } else {
            if before.len() > 0 {
                lemma_bytes_concat(before, seq![',', ' ']);
                lemma_bytes_concat(before + seq![',', ' '], term);
            } else {
                assert(before =~= Seq::empty());
                assert(bytes(before) == 0);
            }
            law_a_vocabulary_that_fits_is_hinted_whole(rest);
            law_a_term_that_fits_is_added(rest, terms.last());
        }
    }
}

/// Clipping keeps the first characters, at most `max` of them and as many as there are up
/// to that.
pub proof fn law_clipping_keeps_the_start(s: Seq<char>, max: int)
    requires
        max >= 0,
    ensures
        clipped(s, max).is_prefix_of(s),
        clipped(s, max).len() == s.len() || clipped(s, max).len() == max,
        clipped(s, max).len() <= max,
        s.len() <= max ==> clipped(s, max) == s,
{
    assert(clipped(s, max) =~= s.subrange(0, clipped(s, max).len() as int));
}

/// Who transcribes: the local model, where it is there and can be found, and a cloud
/// provider that has its key. A provider that this build cannot talk to never does.
pub proof fn law_who_can_transcribe(key: Option<String>, present: bool, known: bool)
    ensures
        can_transcribe(Provider::LocalParakeet, key, present, known) <==> present && known,
        can_transcribe(Provider::Mistral, key, present, known) <==> key is Some,
        can_transcribe(Provider::Reson8, key, present, known) <==> key is Some,
        can_transcribe(Provider::Groq, key, present, known) <==> key is Some,
        can_transcribe(Provider::Openai, key, present, known) <==> key is Some,
        !can_transcribe(Provider::Xai, key, present, known),
        !can_transcribe(Provider::Elevenlabs, key, present, known),
{
}

/// The configured provider is the one that is asked, with the key that is stored for it;
/// only Groq and OpenAI are handed the vocabulary.
pub proof fn law_the_configured_provider_is_asked(
    primary: Primary,
    provider: Provider,
    key: Option<String>,
    hint: Option<Seq<char>>,
)
    requires
        is_primary(primary, provider, key, hint),
    ensures
        match primary {
            Primary::Local => provider == Provider::LocalParakeet,
            Primary::Mistral { key: k } => provider == Provider::Mistral && key == Some(k),
            Primary::Reson8 { key: k } => provider == Provider::Reson8 && key == Some(k),
            Primary::Groq { key: k, prompt } => provider == Provider::Groq && key == Some(k)
                && config::opt_text(prompt) == hint,
            Primary::Openai { key: k, prompt } => provider == Provider::Openai && key == Some(k)
                && config::opt_text(prompt) == hint,
        },
{
}

/// The local model stands behind a cloud provider where the user wants it to and it is
/// there, never behind itself. A provider that has somebody behind it gives up sooner.
pub proof fn law_when_the_local_model_stands_by(cfg: Config, present: bool)
    ensures
        falls_back(cfg, present) <==> cfg.fallback_to_local && present && cfg.provider
            != Provider::LocalParakeet,
        FALLBACK_PRIMARY_TIMEOUT_SECS == 15,
        DEFAULT_TIMEOUT_SECS == 60,
{
}

/// While the primary answers, its text counts, under its own name, and the fallback has no
/// say in it. Where the primary fails, it is the fallback's answer that counts, under the
/// fallback's name, be it a text or an error.
pub proof fn law_the_fallback_speaks_only_for_a_failure<S, P: Transcriber<S>, F: Transcriber<S>>(
    t: FallbackTranscriber<P, F>,
    samples: Vec<S>,
    r: Result<(String, &'static str), String>,
)
    requires
        routed::<S, P, F>(t, samples, r),
    ensures
        (forall|first: Result<String, String>| #[trigger]
            call_ensures(P::transcribe, (&t.primary, &samples), first) ==> first is Ok) ==> {
            &&& r matches Ok(both)
            &&& call_ensures(P::transcribe, (&t.primary, &samples), Ok(both.0))
            &&& call_ensures(P::name, (&t.primary,), both.1)
        },
        (forall|first: Result<String, String>| #[trigger]
            call_ensures(P::transcribe, (&t.primary, &samples), first) ==> first is Err) ==> (
        match r {
            Ok(both) => call_ensures(F::transcribe, (&t.fallback, &samples), Ok(both.0))
                && call_ensures(F::name, (&t.fallback,), both.1),
            Err(e) => call_ensures(F::transcribe, (&t.fallback, &samples), Err(e)),
        }),
{
}

/// Clips a response body for an error message.
pub fn clip_body(body: &str, max_chars: usize) -> (r: String)
    ensures
        r@ == clipped(body@, max_chars as int),
{
    let chars = chars_of(body);
    let n: usize = if chars.len() <= max_chars {
        chars.len()
    } else {
        max_chars
    };
    assert(chars@.subrange(0, n as int) =~= clipped(body@, max_chars as int));
    string_of(&slice_of(&chars, 0, n))
}

/// The first `max` characters of a text.
pub open spec fn clipped(s: Seq<char>, max: int) -> Seq<char> {
    if s.len() <= max {
        s
    } else {
        s.take(max)
    }
}

/// What a provider's answer amounts to: `status` is the status as text,
/// `success` whether it means success, and `parsed` the transcript that the body
/// holds, or why none could be read from it.
pub fn parse_text_response(
    provider: &str,
    status: &str,
    success: bool,
    body: &str,
    parsed: Result<String, String>,
) -> (r: Result<String, String>)
    ensures
        r is Ok <==> success && parsed is Ok,
        r matches Ok(text) ==> parsed == Ok::<String, String>(text),
        r matches Err(e) ==> e@ == (if !success {
            provider@ + " returned "@ + status@ + ": "@ + clipped(body@, 500)
        } else {
            "parse "@ + provider@ + " response: "@ + clipped(body@, 200) + ": "@ + parsed->Err_0@
        }),
{
    if !success {
        let mut e = provider.to_owned();
        e.push_str(" returned ");
        e.push_str(status);
        e.push_str(": ");
        e.push_str(clip_body(body, 500).as_str());
        return Err(e);
    }
    match parsed {
        Ok(text) => Ok(text),
        Err(cause) => {
            let mut e = "parse ".to_owned();
            e.push_str(provider);
            e.push_str(" response: ");
            e.push_str(clip_body(body, 200).as_str());
            e.push_str(": ");
            e.push_str(cause.as_str());
            Err(e)
        },
    }
}

/// One part of an upload.
#[derive(Debug, Clone, PartialEq, Eq)]
pub enum Part {
    /// A text field.
    Text { field: &'static str, value: String },
    /// The recording itself, in the field `file`.
    Audio,
}

/// What a part holds.
pub enum PartView {
    Text { field: Seq<char>, value: Seq<char> },
    Audio,
}

impl View for Part {
    type V = PartView;

    open spec fn view(&self) -> PartView {
        match self {
            Part::Text { field, value } => PartView::Text { field: field@, value: value@ },
            Part::Audio => PartView::Audio,
        }
    }
}

/// What the parts of an upload hold.
pub open spec fn part_views(parts: Seq<Part>) -> Seq<PartView> {
    Seq::new(parts.len(), |i: int| parts[i]@)
}

} // verus!
