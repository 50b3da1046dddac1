//! The settings window without its widgets: what it shows, what is unsaved, what
//! a save writes, and what its dialogs do.
pub mod download;

use crate::config;
use crate::config::{Activation, Config, Provider, Replacement};
use crate::secrets;
use crate::secrets::{key_write, slot_name, KeySource, KeyWrite};
use crate::text;
use crate::text::{
    chars_of, contains, decimal, same, split_on, string_of, to_lowercase, trim,
};
use vstd::prelude::*;

verus! {

/// How many providers there are.
pub const PROVIDER_COUNT: usize = 7;

/// The provider at `i`, in the order in which they are offered.
pub open spec fn nth_provider(i: int) -> Provider {
    if i == 0 {
        Provider::LocalParakeet
    } else if i == 1 {
        Provider::Mistral
    } else if i == 2 {
        Provider::Groq
    } else if i == 3 {
        Provider::Openai
    } else if i == 4 {
        Provider::Xai
    } else if i == 5 {
        Provider::Elevenlabs
    } else {
        Provider::Reson8
    }
}

/// The provider at `i`, in the order in which they are offered.
pub fn provider_at(i: usize) -> (p: Provider)
    requires
        i < PROVIDER_COUNT,
    ensures
        p == nth_provider(i as int),
{
    if i == 0 {
        Provider::LocalParakeet
    } else if i == 1 {
        Provider::Mistral
    } else if i == 2 {
        Provider::Groq
    } else if i == 3 {
        Provider::Openai
    } else if i == 4 {
        Provider::Xai
    } else if i == 5 {
        Provider::Elevenlabs
    } else {
        Provider::Reson8
    }
}

/// A section of the window.
#[derive(Clone, Copy, Debug, PartialEq, Eq, Structural)]
pub enum Tab {
    Recording,
    Transcription,
    Replacements,
    Output,
    History,
    System,
}

/// How many sections there are.
pub const TAB_COUNT: usize = 6;

impl Tab {
    /// The section at `i`, from the top.
    pub fn at(i: usize) -> (t: Tab)
        requires
            i < TAB_COUNT,
        ensures
            t == (if i == 0 {
                Tab::Recording
            } else if i == 1 {
                Tab::Transcription
            } else if i == 2 {
                Tab::Replacements
            } else if i == 3 {
                Tab::Output
            } else if i == 4 {
                Tab::History
            } else {
                Tab::System
            }),
    {
        if i == 0 {
            Tab::Recording
        } else if i == 1 {
            Tab::Transcription
        } else if i == 2 {
            Tab::Replacements
        } else if i == 3 {
            Tab::Output
        } else if i == 4 {
            Tab::History
        } else {
            Tab::System
        }
    }

    pub fn label(self) -> (s: &'static str)
        ensures
            s@ == (match self {
                Tab::Recording => "Recording"@,
                Tab::Transcription => "Transcription"@,
                Tab::Replacements => "Replacements"@,
                Tab::Output => "Output"@,
                Tab::History => "History"@,
                Tab::System => "System"@,
            }),
    {
        match self {
            Tab::Recording => "Recording",
            Tab::Transcription => "Transcription",
            Tab::Replacements => "Replacements",
            Tab::Output => "Output",
            Tab::History => "History",
            Tab::System => "System",
        }
    }

    pub fn subtitle(self) -> (s: &'static str)
        ensures
            s@ == (match self {
                Tab::Recording => "How Draft listens for your voice."@,
                Tab::Transcription => "Where your speech becomes text."@,
                Tab::Replacements => "Fix misheard words and expand shorthand before pasting."@,
                Tab::Output => "How the transcript reaches your cursor."@,
                Tab::History => "Recent transcripts — recover anything a paste missed."@,
                Tab::System => "Startup and app behaviour."@,
            }),
    {
        match self {
            Tab::Recording => "How Draft listens for your voice.",
            Tab::Transcription => "Where your speech becomes text.",
            Tab::Replacements => "Fix misheard words and expand shorthand before pasting.",
            Tab::Output => "How the transcript reaches your cursor.",
            Tab::History => "Recent transcripts — recover anything a paste missed.",
            Tab::System => "Startup and app behaviour.",
        }
    }
}

/// The API keys that the window holds.
#[derive(Debug, Clone, PartialEq, Eq)]
pub struct ProviderKeys {
    pub mistral: String,
    pub groq: String,
    pub openai: String,
    pub xai: String,
    pub elevenlabs: String,
    pub reson8: String,
}

impl ProviderKeys {
    /// The key of a provider; the local model has none.
    pub open spec fn key(&self, p: Provider) -> Seq<char> {
        match p {
            Provider::Mistral => self.mistral@,
            Provider::Groq => self.groq@,
            Provider::Openai => self.openai@,
            Provider::Xai => self.xai@,
            Provider::Elevenlabs => self.elevenlabs@,
            Provider::Reson8 => self.reson8@,
            Provider::LocalParakeet => Seq::empty(),
        }
    }

    /// Two windows hold the same keys.
    pub open spec fn agrees(&self, other: &ProviderKeys) -> bool {
        forall|p: Provider| #[trigger] self.key(p) == other.key(p)
    }

    /// No keys at all.
    pub fn none() -> (k: Self)
        ensures
            forall|p: Provider| #[trigger] k.key(p) == Seq::<char>::empty(),
    {
        ProviderKeys {
            mistral: String::new(),
            groq: String::new(),
            openai: String::new(),
            xai: String::new(),
            elevenlabs: String::new(),
            reson8: String::new(),
        }
    }

    pub fn get(&self, p: Provider) -> (s: &str)
        ensures
            s@ == self.key(p),
    {
        match p {
            Provider::Mistral => self.mistral.as_str(),
            Provider::Groq => self.groq.as_str(),
            Provider::Openai => self.openai.as_str(),
            Provider::Xai => self.xai.as_str(),
            Provider::Elevenlabs => self.elevenlabs.as_str(),
            Provider::Reson8 => self.reson8.as_str(),
            Provider::LocalParakeet => {
                proof {
                    reveal_strlit("");
                    assert(""@ =~= Seq::<char>::empty());
                }
                ""
            },
        }
    }

    /// Where a key is kept; the local model has no such place.
    pub fn get_mut(&mut self, p: Provider) -> (r: Option<&mut String>)
        ensures
            match r {
                Some(slot) => p != Provider::LocalParakeet && slot@ == old(self).key(p)
                    && forall|q: Provider| #[trigger]
                    final(self).key(q) == (if q == p {
                        final(slot)@
                    } else {
                        old(self).key(q)
                    }),
                None => p == Provider::LocalParakeet && *final(self) == *old(self),
            },
    {
        match p {
            Provider::Mistral => Some(&mut self.mistral),
            Provider::Groq => Some(&mut self.groq),
            Provider::Openai => Some(&mut self.openai),
            Provider::Xai => Some(&mut self.xai),
            Provider::Elevenlabs => Some(&mut self.elevenlabs),
            Provider::Reson8 => Some(&mut self.reson8),
            Provider::LocalParakeet => None,
        }
    }

    /// Stores a key. The local model has nowhere to put one.
    pub fn set(&mut self, p: Provider, v: String)
        ensures
            forall|q: Provider| #[trigger]
                final(self).key(q) == (if q == p && p != Provider::LocalParakeet {
                    v@
                } else {
                    old(self).key(q)
                }),
    {
        if let Some(slot) = self.get_mut(p) {
            *slot = v;
        }
    }

    /// Whether two windows hold the same keys.
    pub fn same_as(&self, other: &ProviderKeys) -> (r: bool)
        ensures
            r == self.agrees(other),
    {
        let r = same(self.mistral.as_str(), other.mistral.as_str()) && same(
            self.groq.as_str(),
            other.groq.as_str(),
        ) && same(self.openai.as_str(), other.openai.as_str()) && same(
            self.xai.as_str(),
            other.xai.as_str(),
        ) && same(
            self.elevenlabs.as_str(),
            other.elevenlabs.as_str(),
        ) && same(self.reson8.as_str(), other.reson8.as_str());
        proof {
            if self.agrees(other) {
                assert(self.key(Provider::Mistral) == other.key(Provider::Mistral));
                assert(self.key(Provider::Groq) == other.key(Provider::Groq));
                assert(self.key(Provider::Openai) == other.key(Provider::Openai));
                assert(self.key(Provider::Xai) == other.key(Provider::Xai));
                assert(self.key(Provider::Elevenlabs) == other.key(Provider::Elevenlabs));
                assert(self.key(Provider::Reson8) == other.key(Provider::Reson8));
            }
        }
        r
    }

    fn copy(&self) -> (k: Self)
        ensures
            forall|p: Provider| #[trigger] k.key(p) == self.key(p),
    {
        ProviderKeys {
            mistral: self.mistral.clone(),
            groq: self.groq.clone(),
            openai: self.openai.clone(),
            xai: self.xai.clone(),
            elevenlabs: self.elevenlabs.clone(),
            reson8: self.reson8.clone(),
        }
    }
}

/// Where each key came from.
#[derive(Debug, Clone, Copy, PartialEq, Eq, Structural)]
pub struct KeySources {
    pub mistral: KeySource,
    pub groq: KeySource,
    pub openai: KeySource,
    pub xai: KeySource,
    pub elevenlabs: KeySource,
    pub reson8: KeySource,
}

impl KeySources {
    /// Where the key of a provider came from.
    pub open spec fn source(&self, p: Provider) -> KeySource {
        match p {
            Provider::Mistral => self.mistral,
            Provider::Groq => self.groq,
            Provider::Openai => self.openai,
            Provider::Xai => self.xai,
            Provider::Elevenlabs => self.elevenlabs,
            Provider::Reson8 => self.reson8,
            Provider::LocalParakeet => KeySource::Absent,
        }
    }

    /// No key came from anywhere.
    pub fn absent() -> (s: Self)
        ensures
            forall|p: Provider| #[trigger] s.source(p) == KeySource::Absent,
    {
        KeySources {
            mistral: KeySource::Absent,
            groq: KeySource::Absent,
            openai: KeySource::Absent,
            xai: KeySource::Absent,
            elevenlabs: KeySource::Absent,
            reson8: KeySource::Absent,
        }
    }

    pub fn get(&self, p: Provider) -> (s: KeySource)
        ensures
            s == self.source(p),
    {
        match p {
            Provider::Mistral => self.mistral,
            Provider::Groq => self.groq,
            Provider::Openai => self.openai,
            Provider::Xai => self.xai,
            Provider::Elevenlabs => self.elevenlabs,
            Provider::Reson8 => self.reson8,
            Provider::LocalParakeet => KeySource::Absent,
        }
    }

    pub fn set(&mut self, p: Provider, s: KeySource)
        ensures
            forall|q: Provider| #[trigger]
                final(self).source(q) == (if q == p && p != Provider::LocalParakeet {
                    s
                } else {
                    old(self).source(q)
                }),
    {
        match p {
            Provider::Mistral => {
                self.mistral = s;
            },
            Provider::Groq => {
                self.groq = s;
            },
            Provider::Openai => {
                self.openai = s;
            },
            Provider::Xai => {
                self.xai = s;
            },
            Provider::Elevenlabs => {
                self.elevenlabs = s;
            },
            Provider::Reson8 => {
                self.reson8 = s;
            },
            Provider::LocalParakeet => {},
        }
    }
}

/// What was there when the window opened or was last saved.
#[derive(Debug)]
pub struct Snapshot {
    pub cfg: Config,
    pub keys: ProviderKeys,
    pub autostart_enabled: bool,
}

/// One thing that a save does.
#[derive(Debug, Clone, PartialEq, Eq)]
pub enum SaveStep {
    /// Write the settings.
    Config,
    /// Write or delete a key.
    Key { provider: Provider, write: KeyWrite },
    /// Switch starting with the system on or off.
    Autostart { enabled: bool },
}

/// What a step holds.
pub enum StepView {
    Config,
    Key { provider: Provider, write: secrets::WriteView },
    Autostart { enabled: bool },
}

impl View for SaveStep {
    type V = StepView;

    open spec fn view(&self) -> StepView {
        match self {
            SaveStep::Config => StepView::Config,
            SaveStep::Key { provider, write } => StepView::Key {
                provider: *provider,
                write: write@,
            },
            SaveStep::Autostart { enabled } => StepView::Autostart { enabled: *enabled },
        }
    }
}

/// What the steps of a save hold.
pub open spec fn step_views(steps: Seq<SaveStep>) -> Seq<StepView> {
    Seq::new(steps.len(), |i: int| steps[i]@)
}

/// The write that a save owes one provider's key.
pub open spec fn owed_to(
    before: ProviderKeys,
    now: ProviderKeys,
    sources: KeySources,
    p: Provider,
) -> Option<secrets::WriteView> {
    if secrets::slot_of(p) is Some {
        secrets::owed(before.key(p), now.key(p), sources.source(p))
    } else {
        None
    }
}

/// The key writes that a save owes the first `n` providers, in order.
pub open spec fn key_steps(
    before: ProviderKeys,
    now: ProviderKeys,
    sources: KeySources,
    n: int,
) -> Seq<StepView>
    decreases n,
{
    if n <= 0 {
        Seq::empty()
    } else {
        let p = nth_provider(n - 1);
        match owed_to(before, now, sources, p) {
            Some(write) => key_steps(before, now, sources, n - 1).push(
                StepView::Key { provider: p, write },
            ),
            None => key_steps(before, now, sources, n - 1),
        }
    }
}

/// The editor of one API key. It never shows a stored key: it starts empty.
#[derive(Debug)]
pub struct KeyDialog {
    pub provider: Provider,
    pub buffer: String,
    pub reveal: bool,
}

/// What the user did in the key editor.
#[derive(Debug, Clone, Copy, PartialEq, Eq, Structural)]
pub enum KeyAct {
    Nothing,
    Commit,
    Remove,
    Cancel,
}

/// What the key editor shows.
pub struct KeyDialogView {
    pub title: String,
    pub prompt: &'static str,
    /// A key is there to be removed.
    pub can_remove: bool,
    /// Something is typed that can be saved.
    pub can_commit: bool,
    /// What the button says that shows or hides what is typed.
    pub eye: &'static str,
}

/// What the user did in the dialog that confirms clearing the history.
#[derive(Debug, Clone, Copy, PartialEq, Eq, Structural)]
pub enum ClearAct {
    Nothing,
    Confirm,
    Cancel,
}

/// What Escape does.
#[derive(Debug, Clone, Copy, PartialEq, Eq, Structural)]
pub enum EscapeAct {
    CloseKeyDialog,
    CloseConfirmation,
    CloseWindow,
}

/// What the bar at the bottom says.
#[derive(Debug, PartialEq, Eq)]
pub enum FooterNote {
    Error(String),
    Note(String),
    Unsaved,
    Nothing,
}

/// The settings window's state.
#[derive(Debug)]
pub struct SettingsApp {
    pub tab: Tab,
    pub cfg: Config,
    pub keys: ProviderKeys,
    pub sources: KeySources,
    pub autostart_enabled: bool,
    pub key_dialog: Option<KeyDialog>,
    pub baseline: Snapshot,
    pub save_status: Option<(bool, String)>,
    /// Whether the dialog that confirms clearing the history is open.
    pub confirm_clear_history: bool,
}

impl SettingsApp {
    /// Nothing differs from what was there when the window opened or was last
    /// saved.
    pub open spec fn unchanged(&self) -> bool {
        &&& self.cfg@ == self.baseline.cfg@
        &&& self.keys.agrees(&self.baseline.keys)
        &&& self.autostart_enabled == self.baseline.autostart_enabled
    }

    pub fn current_snapshot(&self) -> (s: Snapshot)
        ensures
            s.cfg@ == self.cfg@,
            forall|p: Provider| #[trigger] s.keys.key(p) == self.keys.key(p),
            s.autostart_enabled == self.autostart_enabled,
    {
        Snapshot {
            cfg: self.cfg.clone(),
            keys: self.keys.copy(),
            autostart_enabled: self.autostart_enabled,
        }
    }

    /// Whether there is anything to save.
    pub fn is_dirty(&self) -> (r: bool)
        ensures
            r == !self.unchanged(),
    {
        !(self.cfg.same_as(&self.baseline.cfg) && self.keys.same_as(&self.baseline.keys)
            && self.autostart_enabled == self.baseline.autostart_enabled)
    }

    /// What a save does, in order: the settings, the keys that were edited, and
    /// starting with the system. A step that fails ends it.
    pub fn save(&self) -> (steps: Vec<SaveStep>)
        ensures
            step_views(steps@) == seq![StepView::Config] + key_steps(
                self.baseline.keys,
                self.keys,
                self.sources,
                PROVIDER_COUNT as int,
            ) + seq![StepView::Autostart { enabled: self.autostart_enabled }],
    {
        let mut steps: Vec<SaveStep> = Vec::new();
        steps.push(SaveStep::Config);
        let ghost first = seq![StepView::Config];
        assert(step_views(steps@) =~= first + key_steps(
            self.baseline.keys,
            self.keys,
            self.sources,
            0,
        ));
        let mut i: usize = 0;
        while i < PROVIDER_COUNT
            invariant
                i <= PROVIDER_COUNT,
                step_views(steps@) == first + key_steps(
                    self.baseline.keys,
                    self.keys,
                    self.sources,
                    i as int,
                ),
            decreases PROVIDER_COUNT - i,
        {
            let p = provider_at(i);
            let ghost before = step_views(steps@);
            if slot_name(p).is_some() {
                let owed = key_write(self.baseline.keys.get(p), self.keys.get(p), self.sources.get(p));
                if let Some(write) = owed {
                    let ghost w = write@;
                    steps.push(SaveStep::Key { provider: p, write });
                    assert(step_views(steps@) =~= before.push(
                        StepView::Key { provider: p, write: w },
                    ));
                    assert(before.push(StepView::Key { provider: p, write: w }) =~= first
                        + key_steps(
                        self.baseline.keys,
                        self.keys,
                        self.sources,
                        i as int,
                    ).push(StepView::Key { provider: p, write: w }));
                }
            }
            i += 1;
        }
        let ghost before = step_views(steps@);
        steps.push(SaveStep::Autostart { enabled: self.autostart_enabled });
        assert(step_views(steps@) =~= before + seq![
            StepView::Autostart { enabled: self.autostart_enabled },
        ]);
        steps
    }

    /// A key write of a save has landed.
    pub fn key_landed(&mut self, provider: Provider, write: &KeyWrite)
        ensures
            forall|q: Provider| #[trigger]
                final(self).sources.source(q) == (if q == provider && provider
                    != Provider::LocalParakeet {
                    secrets::left_by(write@)
                } else {
                    old(self).sources.source(q)
                }),
            *final(self) == (SettingsApp { sources: final(self).sources, ..*old(self) }),
    {
        let mut sources = self.sources;
        sources.set(provider, write.leaves());
        self.sources = sources;
    }

    /// Every step of a save has succeeded.
    pub fn saved(&mut self)
        ensures
            final(self).unchanged(),
            final(self).save_status matches Some(s) && s.0 && s.1@
                == "Saved. Applies when this window closes."@,
            *final(self) == (SettingsApp {
                baseline: final(self).baseline,
                save_status: final(self).save_status,
                ..*old(self)
            }),
    {
        self.baseline = self.current_snapshot();
        self.save_status = Some((true, "Saved. Applies when this window closes.".to_owned()));
    }

    /// A step of a save has failed: what was there before stays unsaved.
    pub fn save_failed(&mut self, step: &SaveStep, error: &str)
        ensures
            final(self).save_status matches Some(s) && !s.0 && s.1@ == failure_text(step@, error@),
            *final(self) == (SettingsApp { save_status: final(self).save_status, ..*old(self) }),
    {
        let mut message = match step {
            SaveStep::Config => "Config save failed: ".to_owned(),
            SaveStep::Key { provider, .. } => {
                let mut m = "Keyring save failed (".to_owned();
                m.push_str(provider.code());
                m.push_str("): ");
                m
            },
            SaveStep::Autostart { .. } => "Autostart toggle failed: ".to_owned(),
        };
        message.push_str(error);
        self.save_status = Some((false, message));
    }

    /// Whether the save shortcut saves: only where something is unsaved and no
    /// dialog is open.
    pub fn shortcut_saves(&self) -> (r: bool)
        ensures
            r == (self.key_dialog is None && !self.confirm_clear_history && !self.unchanged()),
    {
        self.key_dialog.is_none() && !self.confirm_clear_history && self.is_dirty()
    }

    /// Escape closes an open dialog first, then the window.
    pub fn escape(&mut self) -> (act: EscapeAct)
        ensures
            act == escape_of(*old(self)),
            *final(self) == escaped(*old(self)),
    {
        if self.key_dialog.is_some() {
            self.key_dialog = None;
            EscapeAct::CloseKeyDialog
        } else if self.confirm_clear_history {
            self.confirm_clear_history = false;
            EscapeAct::CloseConfirmation
        } else {
            EscapeAct::CloseWindow
        }
    }

    /// What the bar at the bottom says: a failure always, a success only while
    /// nothing is unsaved.
    pub fn footer_note(&self) -> (n: FooterNote)
        ensures
            match self.save_status {
                Some((false, msg)) => n == FooterNote::Error(msg),
                Some((true, msg)) => n == (if self.unchanged() {
                    FooterNote::Note(msg)
                } else {
                    FooterNote::Unsaved
                }),
                None => n == (if self.unchanged() {
                    FooterNote::Nothing
                } else {
                    FooterNote::Unsaved
                }),
            },
    {
        let dirty = self.is_dirty();
        match &self.save_status {
            Some((false, msg)) => FooterNote::Error(msg.clone()),
            Some((true, msg)) => {
                if dirty {
                    FooterNote::Unsaved
                } else {
                    FooterNote::Note(msg.clone())
                }
            },
            None => {
                if dirty {
                    FooterNote::Unsaved
                } else {
                    FooterNote::Nothing
                }
            },
        }
    }

    /// Whether a provider has a key.
    pub fn has_key(&self, p: Provider) -> (r: bool)
        ensures
            r == !secrets::blank(self.keys.key(p)),
    {
        !trim(self.keys.get(p)).as_str().is_empty()
    }

    /// Opens the key editor of the configured provider, empty.
    pub fn open_key_dialog(&mut self)
        ensures
            final(self).key_dialog matches Some(d) && d.provider == old(self).cfg.provider
                && d.buffer@.len() == 0 && !d.reveal,
            *final(self) == (SettingsApp { key_dialog: final(self).key_dialog, ..*old(self) }),
    {
        self.key_dialog = Some(
            KeyDialog { provider: self.cfg.provider, buffer: String::new(), reveal: false },
        );
    }

    /// What the key editor shows, where it is open.
    pub fn key_dialog_view(&self) -> (v: Option<KeyDialogView>)
        ensures
            match self.key_dialog {
                Some(d) => v matches Some(w) && w.title@ == config::provider_name(d.provider)
                    + " API key"@ && w.can_remove == !secrets::blank(self.keys.key(d.provider))
                    && w.can_commit == !secrets::blank(d.buffer@) && w.prompt@ == (
                if w.can_remove {
                    "A key is already saved. Enter a new one to replace it."@
                } else {
                    "Paste your key. It is stored in Windows Credential Manager."@
                }) && w.eye@ == (if d.reveal {
                    "Hide"@
                } else {
                    "Show"@
                }),
                None => v is None,
            },
    {
        match &self.key_dialog {
            Some(d) => {
                let can_remove = self.has_key(d.provider);
                let can_commit = !trim(d.buffer.as_str()).as_str().is_empty();
                let mut title = d.provider.label().to_owned();
                title.push_str(" API key");
                Some(
                    KeyDialogView {
                        title,
                        prompt: if can_remove {
                            "A key is already saved. Enter a new one to replace it."
                        } else {
                            "Paste your key. It is stored in Windows Credential Manager."
                        },
                        can_remove,
                        can_commit,
                        eye: if d.reveal {
                            "Hide"
                        } else {
                            "Show"
                        },
                    },
                )
            },
            None => None,
        }
    }

    /// Takes what the user did in the key editor. A click outside of it cancels,
    /// and only a key that is not blank can be committed.
    pub fn key_dialog_act(&mut self, act: KeyAct, clicked_outside: bool)
        ensures
            ({
                let closes = closes_editor(old(self).key_dialog, act, clicked_outside);
                &&& final(self).key_dialog == (if closes {
                    None
                } else {
                    old(self).key_dialog
                })
                &&& forall|q: Provider| #[trigger]
                    final(self).keys.key(q) == edited_key(
                        old(self).keys.key(q),
                        old(self).key_dialog,
                        act,
                        q,
                    )
                &&& *final(self) == (SettingsApp {
                    keys: final(self).keys,
                    key_dialog: final(self).key_dialog,
                    ..*old(self)
                })
            }),
    {
        let (provider, buffer) = match &self.key_dialog {
            Some(d) => (d.provider, d.buffer.clone()),
            None => {
                return ;
            },
        };
        match act {
            KeyAct::Commit => {
                if !trim(buffer.as_str()).as_str().is_empty() {
                    self.keys.set(provider, buffer);
                    self.key_dialog = None;
                } else if clicked_outside {
                    self.key_dialog = None;
                }
            },
            KeyAct::Remove => {
                self.keys.set(provider, String::new());
                self.key_dialog = None;
            },
            KeyAct::Cancel => {
                self.key_dialog = None;
            },
            KeyAct::Nothing => {
                if clicked_outside {
                    self.key_dialog = None;
                }
            },
        }
    }

    /// Takes what the user did in the dialog that confirms clearing the history,
    /// and says whether to clear it. A click outside of it backs out.
    pub fn confirm_clear_act(&mut self, act: ClearAct, clicked_outside: bool) -> (clears: bool)
        ensures
            clears == clears_history(*old(self), act),
            *final(self) == clear_answered(*old(self), act, clicked_outside),
    {
        if !self.confirm_clear_history {
            return false;
        }
        match act {
            ClearAct::Confirm => {
                self.confirm_clear_history = false;
                true
            },
            ClearAct::Cancel => {
                self.confirm_clear_history = false;
                false
            },
            ClearAct::Nothing => {
                if clicked_outside {
                    self.confirm_clear_history = false;
                }
                false
            },
        }
    }

    /// Asks before the history is cleared.
    pub fn ask_to_clear(&mut self)
        ensures
            *final(self) == (SettingsApp { confirm_clear_history: true, ..*old(self) }),
    {
        self.confirm_clear_history = true;
    }

    /// A transcript was copied.
    pub fn copied(&mut self)
        ensures
            final(self).save_status matches Some(s) && s.0 && s.1@ == "Copied to clipboard."@,
            *final(self) == (SettingsApp { save_status: final(self).save_status, ..*old(self) }),
    {
        self.save_status = Some((true, "Copied to clipboard.".to_owned()));
    }

    /// Adds an empty find/replace rule at the end.
    pub fn add_rule(&mut self)
        ensures
            config::rule_views(final(self).cfg.replacements@) == config::rule_views(
                old(self).cfg.replacements@,
            ).push(config::fresh_rule()),
            *final(self) == (SettingsApp {
                cfg: Config { replacements: final(self).cfg.replacements, ..old(self).cfg },
                ..*old(self)
            }),
    {
        let ghost before = self.cfg.replacements@;
        self.cfg.replacements.push(Replacement::default());
        assert(config::rule_views(self.cfg.replacements@) =~= config::rule_views(before).push(
            config::fresh_rule(),
        ));
    }

    /// Takes out the find/replace rule at `i`.
    pub fn remove_rule(&mut self, i: usize)
        requires
            i < old(self).cfg.replacements@.len(),
        ensures
            final(self).cfg.replacements@ == old(self).cfg.replacements@.remove(i as int),
            *final(self) == (SettingsApp {
                cfg: Config { replacements: final(self).cfg.replacements, ..old(self).cfg },
                ..*old(self)
            }),
    {
        self.cfg.replacements.remove(i);
    }

    /// Takes the vocabulary from the text that the user edits, one term a line.
    pub fn edit_vocabulary(&mut self, buffer: &str)
        ensures
            config::text_views(final(self).cfg.vocabulary@) == vocabulary_of(buffer@),
            *final(self) == (SettingsApp {
                cfg: Config { vocabulary: final(self).cfg.vocabulary, ..old(self).cfg },
                ..*old(self)
            }),
    {
        self.cfg.vocabulary = parse_vocabulary(buffer);
    }

    /// Whether the double-press lock is offered: only where holding the key
    /// records.
    pub fn offers_lock(&self) -> (r: bool)
        ensures
            r == (self.cfg.activation == Activation::Hold),
    {
        self.cfg.activation == Activation::Hold
    }

    /// Whether the configured provider needs a key.
    pub fn offers_key(&self) -> (r: bool)
        ensures
            r == secrets::slot_of(self.cfg.provider) is Some,
    {
        slot_name(self.cfg.provider).is_some()
    }

    /// Clearing the history has succeeded, or failed with `error`.
    pub fn history_cleared(&mut self, error: Option<&str>)
        ensures
            match error {
                Some(e) => final(self).save_status matches Some(s) && !s.0 && s.1@
                    == "Couldn't clear history: "@ + e@,
                None => final(self).save_status matches Some(s) && s.0 && s.1@
                    == "History cleared."@,
            },
            *final(self) == (SettingsApp { save_status: final(self).save_status, ..*old(self) }),
    {
        self.save_status = match error {
            Some(e) => {
                let mut message = "Couldn't clear history: ".to_owned();
                message.push_str(e);
                Some((false, message))
            },
            None => Some((true, "History cleared.".to_owned())),
        };
    }
}

/// What a failed step of a save says.
pub open spec fn failure_text(step: StepView, error: Seq<char>) -> Seq<char> {
    match step {
        StepView::Config => "Config save failed: "@ + error,
        StepView::Key { provider, .. } => "Keyring save failed ("@ + config::provider_code(provider)
            + "): "@ + error,
        StepView::Autostart { .. } => "Autostart toggle failed: "@ + error,
    }
}

/// What Escape closes: an open dialog first, then the window.
pub open spec fn escape_of(app: SettingsApp) -> EscapeAct {
    if app.key_dialog is Some {
        EscapeAct::CloseKeyDialog
    } else if app.confirm_clear_history {
        EscapeAct::CloseConfirmation
    } else {
        EscapeAct::CloseWindow
    }
}

/// The window once Escape was pressed.
pub open spec fn escaped(app: SettingsApp) -> SettingsApp {
    match escape_of(app) {
        EscapeAct::CloseKeyDialog => SettingsApp { key_dialog: None, ..app },
        EscapeAct::CloseConfirmation => SettingsApp { confirm_clear_history: false, ..app },
        EscapeAct::CloseWindow => app,
    }
}

/// What the user did in the confirmation clears the history.
pub open spec fn clears_history(app: SettingsApp, act: ClearAct) -> bool {
    app.confirm_clear_history && act == ClearAct::Confirm
}

/// The window behind what the user did in the confirmation.
pub open spec fn clear_answered(
    app: SettingsApp,
    act: ClearAct,
    clicked_outside: bool,
) -> SettingsApp {
    SettingsApp {
        confirm_clear_history: app.confirm_clear_history && act == ClearAct::Nothing
            && !clicked_outside,
        ..app
    }
}

/// The key editor closes.
pub open spec fn closes_editor(
    dialog: Option<KeyDialog>,
    act: KeyAct,
    clicked_outside: bool,
) -> bool {
    match act {
        KeyAct::Nothing => clicked_outside,
        KeyAct::Commit => clicked_outside || (dialog matches Some(d) && !secrets::blank(d.buffer@)),
        KeyAct::Remove => true,
        KeyAct::Cancel => true,
    }
}

/// The key of a provider behind what the user did in the key editor.
pub open spec fn edited_key(
    key: Seq<char>,
    dialog: Option<KeyDialog>,
    act: KeyAct,
    p: Provider,
) -> Seq<char> {
    match dialog {
        Some(d) => if d.provider != p || p == Provider::LocalParakeet {
            key
        } else if act == KeyAct::Commit && !secrets::blank(d.buffer@) {
            d.buffer@
        } else if act == KeyAct::Remove {
            Seq::empty()
        } else {
            key
        },
        None => key,
    }
}

/// One saved transcript.
#[derive(Debug, Clone, PartialEq, Eq)]
pub struct Entry {
    /// When it was produced, in seconds since the epoch.
    pub ts: i64,
    pub text: String,
    pub provider: String,
}

/// A text and a provider in lower case, as they are searched.
pub struct Lowered {
    pub text: String,
    pub provider: String,
}

/// An entry matches a search: an empty one matches everything, another one stands
/// in the text or in the provider.
pub open spec fn found(text: Seq<char>, provider: Seq<char>, needle: Seq<char>) -> bool {
    needle.len() == 0 || text::occurs(text, needle) || text::occurs(provider, needle)
}

/// The entries among the first `n` that match, the newest first.
pub open spec fn matching(lowered: Seq<Lowered>, needle: Seq<char>, n: int) -> Seq<usize>
    decreases n,
{
    if n <= 0 {
        Seq::empty()
    } else if found(lowered[n - 1].text@, lowered[n - 1].provider@, needle) {
        seq![(n - 1) as usize] + matching(lowered, needle, n - 1)
    } else {
        matching(lowered, needle, n - 1)
    }
}

/// Which entries to show, the newest first: `lowered` are the entries in lower
/// case, oldest first, `needle` what is searched for.
pub fn filter_lowered(lowered: &Vec<Lowered>, needle: &str) -> (shown: Vec<usize>)
    ensures
        shown@ == matching(lowered@, needle@, lowered@.len() as int),
{
    let mut shown: Vec<usize> = Vec::new();
    let mut n: usize = lowered.len();
    let ghost all = matching(lowered@, needle@, lowered@.len() as int);
    assert(shown@ + all =~= all);
    while n > 0
        invariant
            n <= lowered@.len(),
            shown@ + matching(lowered@, needle@, n as int) == all,
        decreases n,
    {
        let ghost before = shown@;
        let ghost k = n as int;
        let e = &lowered[n - 1];
        if needle.is_empty() || contains(e.text.as_str(), needle) || contains(
            e.provider.as_str(),
            needle,
        ) {
            shown.push(n - 1);
            assert(before + (seq![(k - 1) as usize] + matching(lowered@, needle@, k - 1))
                =~= shown@ + matching(lowered@, needle@, k - 1));
        }
        n -= 1;
    }
    assert(shown@ + matching(lowered@, needle@, 0) =~= shown@);
    shown
}

/// The entry at `i` matches the search that the user typed, whatever the case and
/// whatever white space stands around it.
pub open spec fn entry_found(e: Entry, filter: Seq<char>) -> bool {
    found(
        text::lowercase(e.text@),
        text::lowercase(e.provider@),
        text::lowercase(text::trimmed(filter)),
    )
}

/// The entries among the first `n` that match what the user typed, the newest
/// first.
pub open spec fn visible(entries: Seq<Entry>, filter: Seq<char>, n: int) -> Seq<usize>
    decreases n,
{
    if n <= 0 {
        Seq::empty()
    } else if entry_found(entries[n - 1], filter) {
        seq![(n - 1) as usize] + visible(entries, filter, n - 1)
    } else {
        visible(entries, filter, n - 1)
    }
}

/// Which entries to show for what the user typed, the newest first.
pub fn filter_history(entries: &Vec<Entry>, filter: &str) -> (shown: Vec<usize>)
    ensures
        shown@ == visible(entries@, filter@, entries@.len() as int),
{
    let needle = to_lowercase(trim(filter).as_str());
    let mut lowered: Vec<Lowered> = Vec::new();
    let mut i: usize = 0;
    while i < entries.len()
        invariant
            i <= entries@.len(),
            lowered@.len() == i,
            forall|k: int|
                0 <= k < i ==> (#[trigger] lowered@[k]).text@ == text::lowercase(entries@[k].text@)
                    && lowered@[k].provider@ == text::lowercase(entries@[k].provider@),
        decreases entries.len() - i,
    {
        lowered.push(
            Lowered {
                text: to_lowercase(entries[i].text.as_str()),
                provider: to_lowercase(entries[i].provider.as_str()),
            },
        );
        i += 1;
    }
    proof {
        lemma_same_entries(entries@, lowered@, filter@, entries@.len() as int);
    }
    filter_lowered(&lowered, needle.as_str())
}

proof fn lemma_same_entries(entries: Seq<Entry>, lowered: Seq<Lowered>, filter: Seq<char>, n: int)
    requires
        0 <= n <= entries.len() == lowered.len(),
        forall|k: int|
            0 <= k < entries.len() ==> (#[trigger] lowered[k]).text@ == text::lowercase(
                entries[k].text@,
            ) && lowered[k].provider@ == text::lowercase(entries[k].provider@),
    ensures
        matching(lowered, text::lowercase(text::trimmed(filter)), n) == visible(entries, filter, n),
    decreases n,
{
    if n > 0 {
        lemma_same_entries(entries, lowered, filter, n - 1);
        assert(lowered[n - 1].text@ == text::lowercase(entries[n - 1].text@));
    }
}

/// Every entry that matches is shown and no other, and a newer one stands before
/// an older one.
pub proof fn law_history_shows_what_matches(entries: Seq<Entry>, filter: Seq<char>, n: int)
    requires
        0 <= n <= entries.len() <= usize::MAX,
    ensures
        forall|k: int|
            #![trigger entries[k]]
            0 <= k < n ==> (entry_found(entries[k], filter) <==> visible(
                entries,
                filter,
                n,
            ).contains(k as usize)),
        forall|i: int, j: int|
            0 <= i < j < visible(entries, filter, n).len() ==> #[trigger] visible(
                entries,
                filter,
                n,
            )[i] > #[trigger] visible(entries, filter, n)[j],
        forall|i: int|
            0 <= i < visible(entries, filter, n).len() ==> #[trigger] visible(
                entries,
                filter,
                n,
            )[i] < n,
    decreases n,
{
    if n > 0 {
        law_history_shows_what_matches(entries, filter, n - 1);
        let rest = visible(entries, filter, n - 1);
        let all = visible(entries, filter, n);
        if entry_found(entries[n - 1], filter) {
            assert(all[0] == n - 1);
            assert forall|k: int| #![trigger entries[k]] 0 <= k < n implies (entry_found(
                entries[k],
                filter,
            ) <==> all.contains(k as usize)) by {
                if k < n - 1 {
                    if rest.contains(k as usize) {
                        let i = choose|i: int| 0 <= i < rest.len() && rest[i] == k as usize;
                        assert(all[i + 1] == k as usize);
                    }
                    if all.contains(k as usize) {
                        let i = choose|i: int| 0 <= i < all.len() && all[i] == k as usize;
                        assert(i > 0);
                        assert(rest[i - 1] == k as usize);
                    }
                }
            }
            assert forall|i: int, j: int| 0 <= i < j < all.len() implies #[trigger] all[i]
                > #[trigger] all[j] by {
                assert(all[j] == rest[j - 1]);
                if i > 0 {
                    assert(all[i] == rest[i - 1]);
                }
            }
        } else {
            assert forall|k: int| #![trigger entries[k]] 0 <= k < n implies (entry_found(
                entries[k],
                filter,
            ) <==> all.contains(k as usize)) by {
                if k == n - 1 && rest.contains(k as usize) {
                    let i = choose|i: int| 0 <= i < rest.len() && rest[i] == k as usize;
                    assert(rest[i] < n - 1);
                }
            }
        }
    }
}

/// What the history's heading says about `count` transcripts.
pub open spec fn summary_text(count: nat) -> Seq<char> {
    if count == 0 {
        "Nothing recorded yet."@
    } else if count == 1 {
        "1 transcript."@
    } else {
        text::decimal_text(count) + " transcripts (newest first)."@
    }
}

/// A line of the history.
pub struct HistoryRow {
    pub text: String,
    /// When and by which provider it was produced.
    pub caption: String,
}

/// The lines of the history show these entries, at `now`.
pub open spec fn shows(rows: Seq<HistoryRow>, entries: Seq<Entry>, shown: Seq<usize>, now: int) -> bool {
    &&& rows.len() == shown.len()
    &&& forall|i: int|
        0 <= i < rows.len() ==> (#[trigger] rows[i]).text@ == entries[shown[i] as int].text@
            && rows[i].caption@ == ago(now - entries[shown[i] as int].ts) + " · "@
            + entries[shown[i] as int].provider@
}

/// The lines of the history for what the user typed, the newest first.
pub fn history_rows(entries: &Vec<Entry>, filter: &str, now: i64) -> (rows: Vec<HistoryRow>)
    ensures
        shows(
            rows@,
            entries@,
            visible(entries@, filter@, entries@.len() as int),
            now as int,
        ),
{
    let shown = filter_history(entries, filter);
    let count: usize = entries.len();
    proof {
        law_history_shows_what_matches(entries@, filter@, count as int);
    }
    let mut rows: Vec<HistoryRow> = Vec::new();
    let mut i: usize = 0;
    while i < shown.len()
        invariant
            i <= shown@.len(),
            shown@ == visible(entries@, filter@, entries@.len() as int),
            forall|k: int| 0 <= k < shown@.len() ==> #[trigger] shown@[k] < entries@.len(),
            shows(rows@, entries@, shown@.take(i as int), now as int),
        decreases shown.len() - i,
    {
        let e = &entries[shown[i]];
        let mut caption = relative_time(now, e.ts);
        caption.push_str(" · ");
        caption.push_str(e.provider.as_str());
        rows.push(HistoryRow { text: e.text.clone(), caption });
        i += 1;
    }
    assert(shown@.take(i as int) =~= shown@);
    rows
}

/// The history's heading.
pub fn history_summary(count: usize) -> (s: String)
    ensures
        s@ == summary_text(count as nat),
{
    if count == 0 {
        return "Nothing recorded yet.".to_owned();
    }
    if count == 1 {
        return "1 transcript.".to_owned();
    }
    let mut s = decimal(count as u64);
    s.push_str(" transcripts (newest first).");
    s
}

/// What the dialog says that confirms deleting `count` transcripts.
pub open spec fn clear_text(count: nat) -> Seq<char> {
    if count == 1 {
        "This permanently deletes the 1 saved transcript. You won't be able to recover it."@
    } else {
        "This permanently deletes all "@ + text::decimal_text(count)
            + " saved transcripts. You won't be able to recover them."@
    }
}

/// What the dialog says that confirms clearing the history.
pub fn clear_message(count: usize) -> (s: String)
    ensures
        s@ == clear_text(count as nat),
{
    if count == 1 {
        return "This permanently deletes the 1 saved transcript. You won't be able to recover it.".to_owned();
    }
    let mut s = "This permanently deletes all ".to_owned();
    s.push_str(decimal(count as u64).as_str());
    s.push_str(" saved transcripts. You won't be able to recover them.");
    s
}

/// A moment `secs` seconds ago, roughly.
pub open spec fn ago(secs: int) -> Seq<char> {
    if secs < 60 {
        "just now"@
    } else if secs < 3600 {
        text::decimal_text((secs / 60) as nat) + "m ago"@
    } else if secs < 86_400 {
        text::decimal_text((secs / 3600) as nat) + "h ago"@
    } else {
        text::decimal_text((secs / 86_400) as nat) + "d ago"@
    }
}

/// How long ago `ts` was at `now`, both in seconds since the epoch. What lies
/// ahead is just now.
pub fn relative_time(now: i64, ts: i64) -> (s: String)
    ensures
        s@ == ago(now - ts),
{
    let span: i128 = now as i128 - ts as i128;
    let secs: u64 = if span < 0 {
        0
    } else {
        span as u64
    };
    if secs < 60 {
        "just now".to_owned()
    } else if secs < 3600 {
        let mut s = decimal(secs / 60);
        s.push_str("m ago");
        s
    } else if secs < 86_400 {
        let mut s = decimal(secs / 3600);
        s.push_str("h ago");
        s
    } else {
        let mut s = decimal(secs / 86_400);
        s.push_str("d ago");
        s
    }
}

/// The terms among the first `n` lines: trimmed, blank ones left out.
pub open spec fn terms_of(lines: Seq<Seq<char>>, n: int) -> Seq<Seq<char>>
    decreases n,
{
    if n <= 0 {
        Seq::empty()
    } else {
        let t = text::trimmed(lines[n - 1]);
        if t.len() > 0 {
            terms_of(lines, n - 1).push(t)
        } else {
            terms_of(lines, n - 1)
        }
    }
}

/// The vocabulary that a text holds, one term a line.
pub open spec fn vocabulary_of(s: Seq<char>) -> Seq<Seq<char>> {
    terms_of(text::parts(s, '\n'), text::parts(s, '\n').len() as int)
}

/// Reads the vocabulary from the text that the user edits, one term a line.
pub fn parse_vocabulary(buffer: &str) -> (terms: Vec<String>)
    ensures
        config::text_views(terms@) == vocabulary_of(buffer@),
{
    let chars = chars_of(buffer);
    let lines = split_on(&chars, '\n');
    let ghost ps = text::parts(buffer@, '\n');
    let mut terms: Vec<String> = Vec::new();
    let mut i: usize = 0;
    assert(config::text_views(terms@) =~= terms_of(ps, 0));
    while i < lines.len()
        invariant
            i <= lines@.len(),
            ps == text::parts(buffer@, '\n'),
            lines@.len() == ps.len(),
            forall|k: int| 0 <= k < lines@.len() ==> (#[trigger] lines@[k])@ == ps[k],
            config::text_views(terms@) == terms_of(ps, i as int),
        decreases lines.len() - i,
    {
        let ghost before = config::text_views(terms@);
        let line = string_of(&lines[i]);
        assert(line@ == ps[i as int]);
        let term = trim(line.as_str());
        if !term.as_str().is_empty() {
            let ghost t = term@;
            terms.push(term);
            assert(config::text_views(terms@) =~= before.push(t));
        }
        i += 1;
    }
    terms
}

/// A text with one term a line.
pub open spec fn lines_of(terms: Seq<Seq<char>>) -> Seq<char>
    decreases terms.len(),
{
    if terms.len() == 0 {
        Seq::empty()
    } else if terms.len() == 1 {
        terms[0]
    } else {
        lines_of(terms.drop_last()) + seq!['\n'] + terms.last()
    }
}

/// The text in which the user edits the vocabulary, one term a line.
pub fn vocabulary_text(terms: &Vec<String>) -> (s: String)
    ensures
        s@ == lines_of(config::text_views(terms@)),
{
    let ghost views = config::text_views(terms@);
    let mut s = String::new();
    let mut i: usize = 0;
    assert(views.take(0) =~= Seq::<Seq<char>>::empty());
    while i < terms.len()
        invariant
            i <= terms@.len(),
            views == config::text_views(terms@),
            s@ == lines_of(views.take(i as int)),
        decreases terms.len() - i,
    {
        let ghost before = views.take(i as int);
        if i > 0 {
            s.push('\n');
        }
        s.push_str(terms[i].as_str());
        i += 1;
        proof {
            let now = views.take(i as int);
            assert(now.drop_last() =~= before);
            assert(now.last() == terms@[i - 1]@);
            if i > 1 {
                assert(s@ =~= lines_of(before) + seq!['\n'] + now.last());
            } else {
                assert(s@ =~= now[0]);
            }
        }
    }
    assert(views.take(i as int) =~= views);
    s
}

/// A term survives being edited as a line: it has no line break and no white
/// space around it, and it is not empty.
pub open spec fn plain_term(t: Seq<char>) -> bool {
    t.len() > 0 && text::trimmed(t) == t && !t.contains('\n')
}

/// Splitting what stands in front of a line break and a line without one.
proof fn lemma_parts_append(s: Seq<char>, t: Seq<char>)
    requires
        !t.contains('\n'),
    ensures
        text::parts(s + seq!['\n'] + t, '\n') == text::parts(s, '\n').push(t),
    decreases t.len(),
{
    let whole = s + seq!['\n'] + t;
    if t.len() == 0 {
        assert(whole.drop_last() =~= s);
        assert(whole.last() == '\n');
        assert(t =~= Seq::<char>::empty());
    } else {
        assert forall|c: char| t.drop_last().contains(c) implies t.contains(c) by {
            let i = choose|i: int| 0 <= i < t.drop_last().len() && t.drop_last()[i] == c;
            assert(t[i] == c);
        }
        lemma_parts_append(s, t.drop_last());
        assert(whole.drop_last() =~= s + seq!['\n'] + t.drop_last());
        assert(whole.last() == t.last());
        assert(t.contains(t.last()));
        let front = text::parts(s, '\n').push(t.drop_last());
        assert(front.drop_last() =~= text::parts(s, '\n'));
        assert(t.drop_last().push(t.last()) =~= t);
        assert(text::parts(whole, '\n') =~= text::parts(s, '\n').push(t));
    }
}

/// A text without a line break is one line.
proof fn lemma_one_line(t: Seq<char>)
    requires
        !t.contains('\n'),
    ensures
        text::parts(t, '\n') == seq![t],
    decreases t.len(),
{
    if t.len() > 0 {
        assert forall|c: char| t.drop_last().contains(c) implies t.contains(c) by {
            let i = choose|i: int| 0 <= i < t.drop_last().len() && t.drop_last()[i] == c;
            assert(t[i] == c);
        }
        lemma_one_line(t.drop_last());
        assert(t.contains(t.last()));
        assert(t.drop_last().push(t.last()) =~= t);
        assert(text::parts(t, '\n') =~= seq![t]);
    } else {
        assert(t =~= Seq::<char>::empty());
    }
}

proof fn lemma_lines_are_parts(terms: Seq<Seq<char>>)
    requires
        terms.len() > 0,
        forall|i: int| 0 <= i < terms.len() ==> plain_term(#[trigger] terms[i]),
    ensures
        text::parts(lines_of(terms), '\n') == terms,
    decreases terms.len(),
{
    if terms.len() == 1 {
        lemma_one_line(terms[0]);
        assert(seq![terms[0]] =~= terms);
    } else {
        assert forall|i: int| 0 <= i < terms.drop_last().len() implies plain_term(
            #[trigger] terms.drop_last()[i],
        ) by {
            assert(plain_term(terms[i]));
        }
        lemma_lines_are_parts(terms.drop_last());
        assert(plain_term(terms[terms.len() - 1]));
        lemma_parts_append(lines_of(terms.drop_last()), terms.last());
        assert(terms.drop_last().push(terms.last()) =~= terms);
    }
}

proof fn lemma_plain_terms(terms: Seq<Seq<char>>, n: int)
    requires
        0 <= n <= terms.len(),
        forall|i: int| 0 <= i < terms.len() ==> plain_term(#[trigger] terms[i]),
    ensures
        terms_of(terms, n) == terms.take(n),
    decreases n,
{
    if n > 0 {
        lemma_plain_terms(terms, n - 1);
        assert(plain_term(terms[n - 1]));
        assert(terms.take(n) =~= terms.take(n - 1).push(terms[n - 1]));
    } else {
        assert(terms.take(0) =~= Seq::<Seq<char>>::empty());
    }
}

/// What an edit takes from the text holds no term that is blank or has white space
/// around it.
pub proof fn law_edited_terms_are_trimmed(s: Seq<char>, i: int)
    requires
        0 <= i < vocabulary_of(s).len(),
    ensures
        vocabulary_of(s)[i].len() > 0,
        exists|line: Seq<char>| vocabulary_of(s)[i] == #[trigger] text::trimmed(line),
{
    lemma_terms_come_from_lines(text::parts(s, '\n'), text::parts(s, '\n').len() as int, i);
}

proof fn lemma_terms_come_from_lines(lines: Seq<Seq<char>>, n: int, i: int)
    requires
        0 <= n <= lines.len(),
        0 <= i < terms_of(lines, n).len(),
    ensures
        terms_of(lines, n)[i].len() > 0,
        exists|line: Seq<char>| terms_of(lines, n)[i] == #[trigger] text::trimmed(line),
    decreases n,
{
    let t = text::trimmed(lines[n - 1]);
    if t.len() > 0 && i == terms_of(lines, n).len() - 1 {
        assert(terms_of(lines, n)[i] == text::trimmed(lines[n - 1]));
    } else {
        lemma_terms_come_from_lines(lines, n - 1, i);
    }
}

/// Opening the vocabulary and reading it back unedited keeps every term.
pub proof fn law_vocabulary_survives_editing(terms: Seq<Seq<char>>)
    requires
        forall|i: int| 0 <= i < terms.len() ==> plain_term(#[trigger] terms[i]),
    ensures
        vocabulary_of(lines_of(terms)) == terms,
{
    if terms.len() == 0 {
        let nothing = Seq::<char>::empty();
        lemma_one_line(nothing);
        assert(terms_of(seq![nothing], 0) =~= Seq::<Seq<char>>::empty());
        assert(text::trimmed(nothing).len() == 0);
        assert(terms_of(seq![nothing], 1) =~= terms);
    } else {
        lemma_lines_are_parts(terms);
        lemma_plain_terms(terms, terms.len() as int);
        assert(terms.take(terms.len() as int) =~= terms);
    }
}

/// What a microphone is called in the list: the system's default, or its name.
pub open spec fn device_name(device: Option<Seq<char>>) -> Seq<char> {
    match device {
        Some(name) => name,
        None => "System default"@,
    }
}

/// What is recorded from.
pub fn device_label(device: &Option<String>) -> (s: &str)
    ensures
        s@ == device_name(config::opt_text(*device)),
{
    match device {
        Some(name) => name.as_str(),
        None => "System default",
    }
}

/// A save that succeeded leaves nothing to save: nothing is unsaved, and no key is
/// owed a write.
pub proof fn law_a_save_leaves_nothing_to_do(app: SettingsApp, sources: KeySources)
    requires
        app.unchanged(),
    ensures
        key_steps(app.baseline.keys, app.keys, sources, PROVIDER_COUNT as int) == Seq::<
            StepView,
        >::empty(),
{
    lemma_no_steps(app, sources, PROVIDER_COUNT as int);
}

proof fn lemma_no_steps(app: SettingsApp, sources: KeySources, n: int)
    requires
        app.unchanged(),
        n >= 0,
    ensures
        key_steps(app.baseline.keys, app.keys, sources, n) == Seq::<StepView>::empty(),
    decreases n,
{
    if n > 0 {
        lemma_no_steps(app, sources, n - 1);
        let p = nth_provider(n - 1);
        assert(app.keys.key(p) == app.baseline.keys.key(p));
        secrets::law_unedited_keys_are_never_written(app.keys.key(p), sources.source(p));
    }
}

/// A save writes the key of a provider only where it was edited.
pub proof fn law_only_edited_keys_are_written(
    before: ProviderKeys,
    now: ProviderKeys,
    sources: KeySources,
    n: int,
    i: int,
)
    requires
        0 <= n,
        0 <= i < key_steps(before, now, sources, n).len(),
    ensures
        key_steps(before, now, sources, n)[i] matches StepView::Key { provider, .. }
            && before.key(provider) != now.key(provider),
    decreases n,
{
    let p = nth_provider(n - 1);
    match owed_to(before, now, sources, p) {
        Some(write) => {
            if i < key_steps(before, now, sources, n).len() - 1 {
                law_only_edited_keys_are_written(before, now, sources, n - 1, i);
            } else {
                if before.key(p) == now.key(p) {
                    secrets::law_unedited_keys_are_never_written(now.key(p), sources.source(p));
                }
            }
        },
        None => {
            law_only_edited_keys_are_written(before, now, sources, n - 1, i);
        },
    }
}

/// Neither Escape nor cancelling nor a click outside of a dialog edits a key or clears
/// the history: the dialog closes, and everything else stays as it is.
pub proof fn law_backing_out_changes_nothing(app: SettingsApp, p: Provider)
    ensures
        edited_key(app.keys.key(p), app.key_dialog, KeyAct::Nothing, p) == app.keys.key(p),
        edited_key(app.keys.key(p), app.key_dialog, KeyAct::Cancel, p) == app.keys.key(p),
        closes_editor(app.key_dialog, KeyAct::Nothing, true),
        closes_editor(app.key_dialog, KeyAct::Cancel, false),
        !clears_history(app, ClearAct::Nothing),
        !clears_history(app, ClearAct::Cancel),
        clear_answered(app, ClearAct::Nothing, true) == (SettingsApp {
            confirm_clear_history: false,
            ..app
        }),
        clear_answered(app, ClearAct::Cancel, false) == (SettingsApp {
            confirm_clear_history: false,
            ..app
        }),
        escaped(app) == (SettingsApp {
            key_dialog: None,
            confirm_clear_history: app.key_dialog is Some && app.confirm_clear_history,
            ..app
        }),
        escape_of(app) is CloseWindow <==> app.key_dialog is None && !app.confirm_clear_history,
{
}

/// Every provider is offered, and each of them once; the local model comes first.
pub proof fn law_every_provider_is_offered_once(p: Provider, i: int, j: int)
    requires
        0 <= i < 7,
        0 <= j < 7,
    ensures
        nth_provider(i) == nth_provider(j) <==> i == j,
        nth_provider(0) == Provider::LocalParakeet,
        exists|k: int| 0 <= k < 7 && #[trigger] nth_provider(k) == p,
{
    let k: int = match p {
        Provider::LocalParakeet => 0,
        Provider::Mistral => 1,
        Provider::Groq => 2,
        Provider::Openai => 3,
        Provider::Xai => 4,
        Provider::Elevenlabs => 5,
        Provider::Reson8 => 6,
    };
    assert(nth_provider(k) == p);
}

/// Each provider has the key that is kept under its name, and two windows agree only where
/// all six keys are the same.
pub proof fn law_each_provider_has_its_own_key(a: ProviderKeys, b: ProviderKeys)
    ensures
        a.key(Provider::Mistral) == a.mistral@,
        a.key(Provider::Groq) == a.groq@,
        a.key(Provider::Openai) == a.openai@,
        a.key(Provider::Xai) == a.xai@,
        a.key(Provider::Elevenlabs) == a.elevenlabs@,
        a.key(Provider::Reson8) == a.reson8@,
        a.key(Provider::LocalParakeet).len() == 0,
        a.agrees(&b) <==> a.mistral@ == b.mistral@ && a.groq@ == b.groq@ && a.openai@ == b.openai@
            && a.xai@ == b.xai@ && a.elevenlabs@ == b.elevenlabs@ && a.reson8@ == b.reson8@,
{
    if a.agrees(&b) {
        assert(a.key(Provider::Mistral) == b.key(Provider::Mistral));
        assert(a.key(Provider::Groq) == b.key(Provider::Groq));
        assert(a.key(Provider::Openai) == b.key(Provider::Openai));
        assert(a.key(Provider::Xai) == b.key(Provider::Xai));
        assert(a.key(Provider::Elevenlabs) == b.key(Provider::Elevenlabs));
        assert(a.key(Provider::Reson8) == b.key(Provider::Reson8));
    }
}

/// Each key came from where it is noted under its provider's name.
pub proof fn law_each_provider_has_its_own_source(s: KeySources)
    ensures
        s.source(Provider::Mistral) == s.mistral,
        s.source(Provider::Groq) == s.groq,
        s.source(Provider::Openai) == s.openai,
        s.source(Provider::Xai) == s.xai,
        s.source(Provider::Elevenlabs) == s.elevenlabs,
        s.source(Provider::Reson8) == s.reson8,
        s.source(Provider::LocalParakeet) == KeySource::Absent,
{
}

/// Anything that differs is unsaved: a setting, a key, or starting with the system.
pub proof fn law_anything_that_differs_is_unsaved(app: SettingsApp, p: Provider)
    ensures
        app.cfg@ != app.baseline.cfg@ ==> !app.unchanged(),
        app.keys.key(p) != app.baseline.keys.key(p) ==> !app.unchanged(),
        app.autostart_enabled != app.baseline.autostart_enabled ==> !app.unchanged(),
        app.cfg@ == app.baseline.cfg@ && app.keys.agrees(&app.baseline.keys)
            && app.autostart_enabled == app.baseline.autostart_enabled ==> app.unchanged(),
{
}

/// Every key that was edited is written by a save: a typed one is stored as it was typed,
/// and a cleared one is deleted where it was in the keyring.
pub proof fn law_every_edited_key_is_written(
    before: ProviderKeys,
    now: ProviderKeys,
    sources: KeySources,
    i: int,
)
    requires
        0 < i < 7,
        now.key(nth_provider(i)) != before.key(nth_provider(i)),
    ensures
        ({
            let p = nth_provider(i);
            let steps = key_steps(before, now, sources, 7);
            &&& text::trimmed(now.key(p)).len() > 0 ==> steps.contains(
                StepView::Key { provider: p, write: secrets::WriteView::Store(now.key(p)) },
            )
            &&& text::trimmed(now.key(p)).len() == 0 && sources.source(p) == KeySource::Keyring
                ==> steps.contains(
                StepView::Key { provider: p, write: secrets::WriteView::Delete },
            )
        }),
{
    let p = nth_provider(i);
    if let Some(write) = owed_to(before, now, sources, p) {
        lemma_owed_is_done(before, now, sources, i, 7, write);
    }
}

proof fn lemma_owed_is_done(
    before: ProviderKeys,
    now: ProviderKeys,
    sources: KeySources,
    i: int,
    n: int,
    write: secrets::WriteView,
)
    requires
        0 <= i < n,
        owed_to(before, now, sources, nth_provider(i)) == Some(write),
    ensures
        key_steps(before, now, sources, n).contains(
            StepView::Key { provider: nth_provider(i), write },
        ),
    decreases n,
{
    let step = StepView::Key { provider: nth_provider(i), write };
    let all = key_steps(before, now, sources, n);
    if i == n - 1 {
        assert(all.last() == step);
    } else {
        lemma_owed_is_done(before, now, sources, i, n - 1, write);
        let fewer = key_steps(before, now, sources, n - 1);
        let k = choose|k: int| 0 <= k < fewer.len() && fewer[k] == step;
        assert(all[k] == step);
    }
}

/// The key editor edits one key: committing stores what was typed, as it was typed, unless
/// it is blank; removing empties it; and no other provider's key changes.
pub proof fn law_the_editor_edits_one_key(
    key: Seq<char>,
    dialog: KeyDialog,
    act: KeyAct,
    other: Provider,
    outside: bool,
)
    requires
        dialog.provider != Provider::LocalParakeet,
        other != dialog.provider,
    ensures
        ({
            let typed = text::trimmed(dialog.buffer@).len() > 0;
            let p = dialog.provider;
            &&& typed ==> edited_key(key, Some(dialog), KeyAct::Commit, p) == dialog.buffer@
            &&& !typed ==> edited_key(key, Some(dialog), KeyAct::Commit, p) == key
            &&& edited_key(key, Some(dialog), KeyAct::Remove, p).len() == 0
            &&& edited_key(key, Some(dialog), act, other) == key
            &&& edited_key(key, None, act, p) == key
            &&& closes_editor(Some(dialog), KeyAct::Commit, outside) <==> typed || outside
            &&& closes_editor(Some(dialog), KeyAct::Remove, outside)
            &&& closes_editor(Some(dialog), KeyAct::Cancel, outside)
            &&& closes_editor(Some(dialog), KeyAct::Nothing, outside) <==> outside
        }),
{
}

/// The history is cleared only by confirming the open question, and then it is.
pub proof fn law_only_confirming_clears(app: SettingsApp, act: ClearAct, outside: bool)
    ensures
        clears_history(app, act) <==> app.confirm_clear_history && act == ClearAct::Confirm,
        clear_answered(app, act, outside).confirm_clear_history <==> app.confirm_clear_history
            && act == ClearAct::Nothing && !outside,
        clear_answered(app, act, outside) == (SettingsApp {
            confirm_clear_history: clear_answered(app, act, outside).confirm_clear_history,
            ..app
        }),
{
}

/// A search finds what stands in the text or in the provider's name, wherever it stands,
/// and nothing else; an empty one finds everything.
pub proof fn law_what_a_search_finds(
    before: Seq<char>,
    needle: Seq<char>,
    after: Seq<char>,
    other: Seq<char>,
)
    ensures
        found(before + needle + after, other, needle),
        found(other, before + needle + after, needle),
        found(before, after, Seq::empty()),
        needle.len() > 0 && !text::occurs(before, needle) && !text::occurs(after, needle)
            ==> !found(before, after, needle),
{
    text::law_what_stands_there_is_found(before, needle, after);
}

/// White space around a search does not count, and neither does its case, nor that of
/// what is searched.
pub proof fn law_a_search_is_trimmed_and_lowered(
    e: Entry,
    lead: Seq<char>,
    typed: Seq<char>,
    tail: Seq<char>,
)
    requires
        forall|i: int| 0 <= i < lead.len() ==> text::white(#[trigger] lead[i]),
        forall|i: int| 0 <= i < tail.len() ==> text::white(#[trigger] tail[i]),
        typed.len() > 0,
        !text::white(typed[0]),
        !text::white(typed.last()),
    ensures
        entry_found(e, lead + typed + tail) <==> {
            ||| text::lowercase(typed).len() == 0
            ||| text::occurs(text::lowercase(e.text@), text::lowercase(typed))
            ||| text::occurs(text::lowercase(e.provider@), text::lowercase(typed))
        },
{
    text::law_trimming_keeps_what_stands_between(lead, typed, tail);
}

/// Of entries that are already in lower case too, every one that matches is shown and no
/// other, the newest first.
pub proof fn law_a_search_shows_what_matches(lowered: Seq<Lowered>, needle: Seq<char>, n: int)
    requires
        0 <= n <= lowered.len() <= usize::MAX,
    ensures
        forall|k: int|
            #![trigger lowered[k]]
            0 <= k < n ==> (found(lowered[k].text@, lowered[k].provider@, needle) <==> matching(
                lowered,
                needle,
                n,
            ).contains(k as usize)),
        forall|i: int, j: int|
            0 <= i < j < matching(lowered, needle, n).len() ==> #[trigger] matching(
                lowered,
                needle,
                n,
            )[i] > #[trigger] matching(lowered, needle, n)[j],
        forall|i: int|
            0 <= i < matching(lowered, needle, n).len() ==> #[trigger] matching(
                lowered,
                needle,
                n,
            )[i] < n,
    decreases n,
{
    if n > 0 {
        law_a_search_shows_what_matches(lowered, needle, n - 1);
        let rest = matching(lowered, needle, n - 1);
        let all = matching(lowered, needle, n);
        let hit = found(lowered[n - 1].text@, lowered[n - 1].provider@, needle);
        if hit {
            assert(all[0] == n - 1);
            assert forall|i: int, j: int| 0 <= i < j < all.len() implies #[trigger] all[i]
                > #[trigger] all[j] by {
                assert(all[j] == rest[j - 1]);
                if i > 0 {
                    assert(all[i] == rest[i - 1]);
                }
            }
        }
        assert forall|k: int| #![trigger lowered[k]] 0 <= k < n implies (found(
            lowered[k].text@,
            lowered[k].provider@,
            needle,
        ) <==> all.contains(k as usize)) by {
            if k < n - 1 {
                if rest.contains(k as usize) {
                    let i = choose|i: int| 0 <= i < rest.len() && rest[i] == k as usize;
                    assert(all[if hit {
                        i + 1
                    } else {
                        i
                    }] == k as usize);
                }
                if all.contains(k as usize) {
                    let i = choose|i: int| 0 <= i < all.len() && all[i] == k as usize;
                    assert(rest[if hit {
                        i - 1
                    } else {
                        i
                    }] == k as usize);
                }
            } else if !hit && all.contains(k as usize) {
                let i = choose|i: int| 0 <= i < rest.len() && rest[i] == k as usize;
                assert(rest[i] < n - 1);
            }
        }
    }
}

/// How long ago: less than a minute, and anything ahead, is just now; then whole minutes up
/// to an hour, whole hours up to a day, and whole days from then on.
pub proof fn law_how_long_ago(secs: int, n: nat)
    ensures
        secs < 60 ==> ago(secs) == "just now"@,
        60 <= secs < 3600 && n * 60 <= secs < (n + 1) * 60 ==> ago(secs) == text::decimal_text(n)
            + "m ago"@,
        3600 <= secs < 86_400 && n * 3600 <= secs < (n + 1) * 3600 ==> ago(secs)
            == text::decimal_text(n) + "h ago"@,
        86_400 <= secs && n * 86_400 <= secs < (n + 1) * 86_400 ==> ago(secs) == text::decimal_text(
            n,
        ) + "d ago"@,
{
    if 60 <= secs && n * 60 <= secs < (n + 1) * 60 {
        assert(secs / 60 == n);
    }
    if 3600 <= secs && n * 3600 <= secs < (n + 1) * 3600 {
        assert(secs / 3600 == n);
    }
    if 86_400 <= secs && n * 86_400 <= secs < (n + 1) * 86_400 {
        assert(secs / 86_400 == n);
    }
}

/// The heading counts the transcripts and says that the newest comes first, where there is
/// an order to tell; the question before deleting them counts them too.
pub proof fn law_transcripts_are_counted(count: nat)
    requires
        count > 1,
    ensures
        summary_text(count) == text::decimal_text(count) + " transcripts (newest first)."@,
        summary_text(1) == "1 transcript."@,
        summary_text(0) == "Nothing recorded yet."@,
        clear_text(count) == "This permanently deletes all "@ + text::decimal_text(count)
            + " saved transcripts. You won't be able to recover them."@,
        clear_text(0) == "This permanently deletes all "@ + text::decimal_text(0)
            + " saved transcripts. You won't be able to recover them."@,
        clear_text(1)
            == "This permanently deletes the 1 saved transcript. You won't be able to recover it."@,
{
}

/// A vocabulary is read line by line: a break parts the terms before it from those behind
/// it, and a line is one term, whatever it holds, trimmed, or none where it is blank.
pub proof fn law_every_line_is_a_term(s: Seq<char>, t: Seq<char>)
    ensures
        vocabulary_of(s.push('\n') + t) == vocabulary_of(s) + vocabulary_of(t),
        !s.contains('\n') && text::trimmed(s).len() > 0 ==> vocabulary_of(s) == seq![
            text::trimmed(s),
        ],
        !s.contains('\n') && text::trimmed(s).len() == 0 ==> vocabulary_of(s).len() == 0,
{
    text::law_a_separator_parts_a_text(s, '\n', t);
    let (a, b) = (text::parts(s, '\n'), text::parts(t, '\n'));
    lemma_terms_join(a, b, b.len() as int);
    if !s.contains('\n') {
        assert(terms_of(seq![s], 0) =~= Seq::<Seq<char>>::empty());
        assert(seq![s][0] == s);
        if text::trimmed(s).len() > 0 {
            assert(terms_of(seq![s], 1) =~= seq![text::trimmed(s)]);
        }
    }
}

proof fn lemma_terms_join(a: Seq<Seq<char>>, b: Seq<Seq<char>>, n: int)
    requires
        0 <= n <= b.len(),
    ensures
        terms_of(a + b, a.len() + n) == terms_of(a, a.len() as int) + terms_of(b, n),
    decreases n,
{
    if n == 0 {
        lemma_terms_of_front(a, b, a.len() as int);
        assert(terms_of(a, a.len() as int) + terms_of(b, 0) =~= terms_of(a, a.len() as int));
    } else {
        lemma_terms_join(a, b, n - 1);
        assert((a + b)[a.len() + n - 1] == b[n - 1]);
        assert(terms_of(a + b, a.len() + n) =~= terms_of(a, a.len() as int) + terms_of(b, n));
    }
}

proof fn lemma_terms_of_front(a: Seq<Seq<char>>, b: Seq<Seq<char>>, n: int)
    requires
        0 <= n <= a.len(),
    ensures
        terms_of(a + b, n) == terms_of(a, n),
    decreases n,
{
    if n > 0 {
        lemma_terms_of_front(a, b, n - 1);
        assert((a + b)[n - 1] == a[n - 1]);
    }
}

/// A failed step of a save says what failed and why.
pub proof fn law_a_failed_step_says_why(
    provider: Provider,
    write: secrets::WriteView,
    enabled: bool,
    error: Seq<char>,
)
    ensures
        failure_text(StepView::Config, error) == "Config save failed: "@ + error,
        failure_text(StepView::Key { provider, write }, error) == "Keyring save failed ("@
            + config::provider_code(provider) + "): "@ + error,
        failure_text(StepView::Autostart { enabled }, error) == "Autostart toggle failed: "@
            + error,
{
}

/// A microphone goes by its own name, and the system's choice by that.
pub proof fn law_what_a_microphone_is_called(name: Seq<char>)
    ensures
        device_name(Some(name)) == name,
        device_name(None) == "System default"@,
{
}

/// A line of the history is the transcript itself, with when it was produced and by whom.
pub proof fn law_a_line_tells_when_and_who(
    rows: Seq<HistoryRow>,
    entries: Seq<Entry>,
    shown: Seq<usize>,
    now: int,
    i: int,
)
    requires
        shows(rows, entries, shown, now),
        0 <= i < shown.len(),
    ensures
        rows.len() == shown.len(),
        rows[i].text@ == entries[shown[i] as int].text@,
        rows[i].caption@ == ago(now - entries[shown[i] as int].ts) + " · "@
            + entries[shown[i] as int].provider@,
{
}

/// Each term stands on a line of its own, with a single line break between two of them and
/// none at either end.
pub proof fn law_each_term_has_its_own_line(terms: Seq<Seq<char>>, term: Seq<char>)
    ensures
        lines_of(Seq::empty()).len() == 0,
        lines_of(seq![term]) == term,
        terms.len() > 0 ==> lines_of(terms.push(term)) == lines_of(terms).push('\n') + term,
{
    assert(terms.push(term).drop_last() =~= terms);
    assert(lines_of(terms) + seq!['\n'] + term =~= lines_of(terms).push('\n') + term);
}

} // verus!
