//! Where an API key comes from, and what a save writes back. Keys live in the
//! system's keyring; an environment variable overrides one and is never written
//! back.
use crate::config;
use crate::config::Provider;
use crate::text;
use crate::text::{same, trim};
use vstd::prelude::*;

verus! {

/// The service that the keyring files the keys under.
pub const SERVICE: &'static str = "Draft";

/// The keyring slot of a provider's key.
pub open spec fn slot_of(provider: Provider) -> Option<Seq<char>> {
    match provider {
        Provider::Mistral => Some("mistral_api_key"@),
        Provider::Groq => Some("groq_api_key"@),
        Provider::Openai => Some("openai_api_key"@),
        Provider::Xai => Some("xai_api_key"@),
        Provider::Elevenlabs => Some("elevenlabs_api_key"@),
        Provider::Reson8 => Some("reson8_api_key"@),
        Provider::LocalParakeet => None,
    }
}

/// The environment variable that overrides a provider's key.
pub open spec fn variable_of(provider: Provider) -> Option<Seq<char>> {
    match provider {
        Provider::Mistral => Some("MISTRAL_API_KEY"@),
        Provider::Groq => Some("GROQ_API_KEY"@),
        Provider::Openai => Some("OPENAI_API_KEY"@),
        Provider::Xai => Some("XAI_API_KEY"@),
        Provider::Elevenlabs => Some("ELEVENLABS_API_KEY"@),
        Provider::Reson8 => Some("RESON8_API_KEY"@),
        Provider::LocalParakeet => None,
    }
}

/// The keyring slot of a provider's key. The local model needs none.
pub fn slot_name(provider: Provider) -> (r: Option<&'static str>)
    ensures
        match slot_of(provider) {
            Some(name) => r matches Some(s) && s@ == name,
            None => r is None,
        },
{
    match provider {
        Provider::Mistral => Some("mistral_api_key"),
        Provider::Groq => Some("groq_api_key"),
        Provider::Openai => Some("openai_api_key"),
        Provider::Xai => Some("xai_api_key"),
        Provider::Elevenlabs => Some("elevenlabs_api_key"),
        Provider::Reson8 => Some("reson8_api_key"),
        Provider::LocalParakeet => None,
    }
}

/// The environment variable that overrides a provider's key.
pub fn env_var(provider: Provider) -> (r: Option<&'static str>)
    ensures
        match variable_of(provider) {
            Some(name) => r matches Some(s) && s@ == name,
            None => r is None,
        },
{
    match provider {
        Provider::Mistral => Some("MISTRAL_API_KEY"),
        Provider::Groq => Some("GROQ_API_KEY"),
        Provider::Openai => Some("OPENAI_API_KEY"),
        Provider::Xai => Some("XAI_API_KEY"),
        Provider::Elevenlabs => Some("ELEVENLABS_API_KEY"),
        Provider::Reson8 => Some("RESON8_API_KEY"),
        Provider::LocalParakeet => None,
    }
}

/// Where a loaded key came from. A key that the keyring failed to hand over is
/// not "no key".
#[derive(Clone, Copy, Debug, PartialEq, Eq, Structural)]
pub enum KeySource {
    Environment,
    Keyring,
    Absent,
    Unreadable,
}

/// What reading a provider's keyring slot gave.
pub enum Stored {
    /// The slot holds this.
    Held(String),
    /// There is no such entry.
    NoEntry,
    /// The keyring did not answer.
    Failed,
}

/// A text that is nothing but white space.
pub open spec fn blank(s: Seq<char>) -> bool {
    text::trimmed(s).len() == 0
}

fn is_blank(s: &str) -> (r: bool)
    ensures
        r == blank(s@),
{
    trim(s).as_str().is_empty()
}

/// Where a key comes from: the environment where that holds one, else the
/// keyring. The local model has no key.
pub open spec fn source_of(provider: Provider, env: Option<String>, stored: Stored) -> KeySource {
    if provider == Provider::LocalParakeet {
        KeySource::Absent
    } else if env matches Some(v) && !blank(v@) {
        KeySource::Environment
    } else {
        match stored {
            Stored::Held(v) => if blank(v@) {
                KeySource::Absent
            } else {
                KeySource::Keyring
            },
            Stored::NoEntry => KeySource::Absent,
            Stored::Failed => KeySource::Unreadable,
        }
    }
}

/// The key itself, where there is one.
pub open spec fn key_of(provider: Provider, env: Option<String>, stored: Stored) -> Option<String> {
    match source_of(provider, env, stored) {
        KeySource::Environment => env,
        KeySource::Keyring => Some(stored->Held_0),
        _ => None,
    }
}

/// The key of a provider, given what its environment variable and its keyring
/// slot hold.
pub fn load_key(provider: Provider, env: Option<String>, stored: Stored) -> (r: Option<String>)
    ensures
        r == key_of(provider, env, stored),
{
    load_key_with_source(provider, env, stored).0
}

/// The key of a provider and where it came from.
pub fn load_key_with_source(provider: Provider, env: Option<String>, stored: Stored) -> (r: (
    Option<String>,
    KeySource,
))
    ensures
        r.0 == key_of(provider, env, stored),
        r.1 == source_of(provider, env, stored),
{
    if provider == Provider::LocalParakeet {
        return (None, KeySource::Absent);
    }
    if let Some(v) = env {
        if !is_blank(v.as_str()) {
            return (Some(v), KeySource::Environment);
        }
    }
    match stored {
        Stored::Held(v) => {
            if is_blank(v.as_str()) {
                (None, KeySource::Absent)
            } else {
                (Some(v), KeySource::Keyring)
            }
        },
        Stored::NoEntry => (None, KeySource::Absent),
        Stored::Failed => (None, KeySource::Unreadable),
    }
}

/// What a save does to one keyring slot.
#[derive(Clone, Debug, PartialEq, Eq)]
pub enum KeyWrite {
    Store(String),
    Delete,
}

/// What a write holds.
pub enum WriteView {
    Store(Seq<char>),
    Delete,
}

impl View for KeyWrite {
    type V = WriteView;

    open spec fn view(&self) -> WriteView {
        match self {
            KeyWrite::Store(s) => WriteView::Store(s@),
            KeyWrite::Delete => WriteView::Delete,
        }
    }
}

/// Where a key stands once a write has landed.
pub open spec fn left_by(write: WriteView) -> KeySource {
    match write {
        WriteView::Store(_) => KeySource::Keyring,
        WriteView::Delete => KeySource::Absent,
    }
}

impl KeyWrite {
    /// Where the key stands once this write has landed.
    pub fn leaves(&self) -> (r: KeySource)
        ensures
            r == left_by(self@),
    {
        match self {
            KeyWrite::Store(_) => KeySource::Keyring,
            KeyWrite::Delete => KeySource::Absent,
        }
    }
}

/// The write that a save owes a key: only an edit is written, and only a key
/// that came from the keyring is ever deleted.
pub open spec fn owed(
    baseline: Seq<char>,
    current: Seq<char>,
    source: KeySource,
) -> Option<WriteView> {
    if current == baseline {
        None
    } else if !blank(current) {
        Some(WriteView::Store(current))
    } else if source == KeySource::Keyring {
        Some(WriteView::Delete)
    } else {
        None
    }
}

/// Which write, if any, a save owes one key: `baseline` is what was loaded or
/// last saved, `current` what is there now.
pub fn key_write(baseline: &str, current: &str, source: KeySource) -> (r: Option<KeyWrite>)
    ensures
        match owed(baseline@, current@, source) {
            Some(w) => r matches Some(k) && k@ == w,
            None => r is None,
        },
{
    if same(current, baseline) {
        return None;
    }
    if !is_blank(current) {
        return Some(KeyWrite::Store(current.to_owned()));
    }
    if source == KeySource::Keyring {
        Some(KeyWrite::Delete)
    } else {
        None
    }
}

/// A provider has a slot exactly where it has an environment variable: all but
/// the local model.
pub proof fn law_every_cloud_provider_has_a_slot(provider: Provider)
    ensures
        slot_of(provider) is Some <==> provider != Provider::LocalParakeet,
        variable_of(provider) is Some <==> provider != Provider::LocalParakeet,
{
}

/// An unedited key is never written, wherever it came from.
pub proof fn law_unedited_keys_are_never_written(key: Seq<char>, source: KeySource)
    ensures
        owed(key, key, source) is None,
{
}

/// Only a key that came from the keyring is ever deleted.
pub proof fn law_only_stored_keys_are_deleted(
    baseline: Seq<char>,
    current: Seq<char>,
    source: KeySource,
)
    requires
        owed(baseline, current, source) == Some(WriteView::Delete),
    ensures
        source == KeySource::Keyring,
        blank(current),
{
}

/// A typed key is stored whatever was there before.
pub proof fn law_typed_keys_are_stored(
    baseline: Seq<char>,
    current: Seq<char>,
    source: KeySource,
)
    requires
        current != baseline,
        !blank(current),
    ensures
        owed(baseline, current, source) == Some(WriteView::Store(current)),
{
}

/// A save settles: once its write has landed, saving the same text again owes
/// nothing.
pub proof fn law_a_save_settles(baseline: Seq<char>, current: Seq<char>, source: KeySource)
    requires
        owed(baseline, current, source) is Some,
    ensures
        owed(current, current, left_by(owed(baseline, current, source).unwrap())) is None,
{
}

/// A loaded key is never blank, and there is one exactly where its source says.
pub proof fn law_loaded_keys_are_not_blank(
    provider: Provider,
    env: Option<String>,
    stored: Stored,
)
    ensures
        key_of(provider, env, stored) is Some <==> (source_of(provider, env, stored)
            == KeySource::Environment || source_of(provider, env, stored) == KeySource::Keyring),
        key_of(provider, env, stored) matches Some(k) ==> !blank(k@),
{
}

/// Where a key comes from. A cloud provider's key is the one in the environment, whatever
/// the keyring holds, unless that is blank; then it is the one in the keyring. It is
/// handed over as it was found. The local model has none, whatever lies around.
pub proof fn law_the_environment_overrides_the_keyring(
    provider: Provider,
    env: Option<String>,
    stored: Stored,
)
    ensures
        ({
            let source = source_of(provider, env, stored);
            let key = key_of(provider, env, stored);
            let overridden = env matches Some(v) && text::trimmed(v@).len() > 0;
            let held = stored matches Stored::Held(v) && text::trimmed(v@).len() > 0;
            &&& provider == Provider::LocalParakeet ==> source == KeySource::Absent && key is None
            &&& provider != Provider::LocalParakeet && overridden ==> source
                == KeySource::Environment && key == env
            &&& provider != Provider::LocalParakeet && !overridden && held ==> source
                == KeySource::Keyring && key == Some(stored->Held_0)
            &&& provider != Provider::LocalParakeet && !overridden && stored is Failed ==> source
                == KeySource::Unreadable && key is None
            &&& provider != Provider::LocalParakeet && !overridden && !held && !(stored is Failed)
                ==> source == KeySource::Absent && key is None
        }),
{
}

/// Clearing a key deletes it from the keyring if it came from there. A key that came from
/// anywhere else is left alone: there is nothing of the user's to delete.
pub proof fn law_a_cleared_key_is_deleted(
    baseline: Seq<char>,
    current: Seq<char>,
    source: KeySource,
)
    requires
        current != baseline,
        text::trimmed(current).len() == 0,
    ensures
        owed(baseline, current, source) == (match source {
            KeySource::Keyring => Some(WriteView::Delete),
            KeySource::Environment => None,
            KeySource::Absent => None,
            KeySource::Unreadable => None,
        }),
{
}

/// A stored key is in the keyring, and a deleted one is nowhere.
pub proof fn law_where_a_write_leaves_the_key(key: Seq<char>)
    ensures
        left_by(WriteView::Store(key)) == KeySource::Keyring,
        left_by(WriteView::Delete) == KeySource::Absent,
{
}

/// The small letter for a capital one, and every other character as it is.
pub open spec fn small(c: char) -> char {
    if 'A' <= c <= 'Z' {
        (c as int + 32) as char
    } else {
        c
    }
}

/// `a` reads like `b` in small letters.
pub open spec fn reads_small(a: Seq<char>, b: Seq<char>) -> bool {
    a.len() == b.len() && forall|i: int| 0 <= i < a.len() ==> #[trigger] a[i] == small(b[i])
}

/// The slot and the variable of a provider are named after it: the slot is its name in the
/// code, in small letters, with `_api_key` behind it, and the variable is the slot in
/// capitals.
pub proof fn law_keys_are_named_after_their_provider(provider: Provider)
    requires
        provider != Provider::LocalParakeet,
    ensures
        slot_of(provider) matches Some(slot) && variable_of(provider) matches Some(variable) && {
            &&& reads_small(slot, variable)
            &&& slot.len() == config::provider_code(provider).len() + 8
            &&& reads_small(
                slot.take(config::provider_code(provider).len() as int),
                config::provider_code(provider),
            )
            &&& slot.skip(config::provider_code(provider).len() as int) == "_api_key"@
        },
{
    reveal_strlit("_api_key");
    match provider {
        Provider::Mistral => {
            reveal_strlit("mistral_api_key");
            reveal_strlit("MISTRAL_API_KEY");
            reveal_strlit("Mistral");
        },
        Provider::Groq => {
            reveal_strlit("groq_api_key");
            reveal_strlit("GROQ_API_KEY");
            reveal_strlit("Groq");
        },
        Provider::Openai => {
            reveal_strlit("openai_api_key");
            reveal_strlit("OPENAI_API_KEY");
            reveal_strlit("Openai");
        },
        Provider::Xai => {
            reveal_strlit("xai_api_key");
            reveal_strlit("XAI_API_KEY");
            reveal_strlit("Xai");
        },
        Provider::Elevenlabs => {
            reveal_strlit("elevenlabs_api_key");
            reveal_strlit("ELEVENLABS_API_KEY");
            reveal_strlit("Elevenlabs");
        },
        Provider::Reson8 => {
            reveal_strlit("reson8_api_key");
            reveal_strlit("RESON8_API_KEY");
            reveal_strlit("Reson8");
        },
        Provider::LocalParakeet => {},
    }
    let slot = slot_of(provider)->0;
    let n = config::provider_code(provider).len() as int;
    assert(slot.skip(n) =~= "_api_key"@);
}

} // verus!
