//! What the user has set.
use crate::text::same;
use vstd::prelude::*;

verus! {

/// What turns speech into text: the on-device model, or a cloud service.
#[derive(Clone, Copy, Debug, PartialEq, Eq, Structural)]
pub enum Provider {
    LocalParakeet,
    Mistral,
    Groq,
    Openai,
    Xai,
    Elevenlabs,
    Reson8,
}

/// The provider's name as the user reads it.
pub open spec fn provider_name(provider: Provider) -> Seq<char> {
    match provider {
        Provider::LocalParakeet => "Local (Parakeet)"@,
        Provider::Mistral => "Mistral (Voxtral)"@,
        Provider::Groq => "Groq"@,
        Provider::Openai => "OpenAI"@,
        Provider::Xai => "xAI"@,
        Provider::Elevenlabs => "ElevenLabs"@,
        Provider::Reson8 => "Reson8"@,
    }
}

/// The provider's name in the code.
pub open spec fn provider_code(provider: Provider) -> Seq<char> {
    match provider {
        Provider::LocalParakeet => "LocalParakeet"@,
        Provider::Mistral => "Mistral"@,
        Provider::Groq => "Groq"@,
        Provider::Openai => "Openai"@,
        Provider::Xai => "Xai"@,
        Provider::Elevenlabs => "Elevenlabs"@,
        Provider::Reson8 => "Reson8"@,
    }
}

impl Provider {
    /// The provider's name in the code, as `Debug` prints it.
    pub fn code(self) -> (s: &'static str)
        ensures
            s@ == provider_code(self),
    {
        match self {
            Provider::LocalParakeet => "LocalParakeet",
            Provider::Mistral => "Mistral",
            Provider::Groq => "Groq",
            Provider::Openai => "Openai",
            Provider::Xai => "Xai",
            Provider::Elevenlabs => "Elevenlabs",
            Provider::Reson8 => "Reson8",
        }
    }

    /// The provider's name as the user reads it.
    pub fn label(self) -> (s: &'static str)
        ensures
            s@ == provider_name(self),
    {
        match self {
            Provider::LocalParakeet => "Local (Parakeet)",
            Provider::Mistral => "Mistral (Voxtral)",
            Provider::Groq => "Groq",
            Provider::Openai => "OpenAI",
            Provider::Xai => "xAI",
            Provider::Elevenlabs => "ElevenLabs",
            Provider::Reson8 => "Reson8",
        }
    }
}

/// One find/replace rule.
#[derive(Debug)]
pub struct Replacement {
    pub from: String,
    pub to: String,
    /// Only where the match is not part of a longer word.
    pub whole_word: bool,
    pub case_sensitive: bool,
    pub enabled: bool,
}

/// What a rule holds.
pub struct RuleView {
    pub from: Seq<char>,
    pub to: Seq<char>,
    pub whole_word: bool,
    pub case_sensitive: bool,
    pub enabled: bool,
}

impl View for Replacement {
    type V = RuleView;

    open spec fn view(&self) -> RuleView {
        RuleView {
            from: self.from@,
            to: self.to@,
            whole_word: self.whole_word,
            case_sensitive: self.case_sensitive,
            enabled: self.enabled,
        }
    }
}

/// What the rules of a sequence hold.
pub open spec fn rule_views(rules: Seq<Replacement>) -> Seq<RuleView> {
    Seq::new(rules.len(), |i: int| rules[i]@)
}

impl Clone for Replacement {
    fn clone(&self) -> (r: Self)
        ensures
            r@ == self@,
    {
        Replacement {
            from: self.from.clone(),
            to: self.to.clone(),
            whole_word: self.whole_word,
            case_sensitive: self.case_sensitive,
            enabled: self.enabled,
        }
    }
}

/// A rule to fill in.
pub open spec fn fresh_rule() -> RuleView {
    RuleView {
        from: Seq::empty(),
        to: Seq::empty(),
        whole_word: false,
        case_sensitive: false,
        enabled: true,
    }
}

impl Default for Replacement {
    /// A rule to fill in: switched on, with nothing to find yet.
    fn default() -> (r: Self)
        ensures
            r@ == fresh_rule(),
    {
        Replacement {
            from: String::new(),
            to: String::new(),
            whole_word: false,
            case_sensitive: false,
            enabled: true,
        }
    }
}

/// What the hotkey does.
#[derive(Clone, Copy, Debug, PartialEq, Eq, Structural)]
pub enum Activation {
    Hold,
    Toggle,
}

/// How a transcript reaches the cursor.
#[derive(Clone, Copy, Debug, PartialEq, Eq, Structural)]
pub enum PasteMode {
    Clipboard,
    Unicode,
}

/// Everything that the user can set.
#[derive(Debug)]
pub struct Config {
    pub hotkey: String,
    pub activation: Activation,
    /// Whether a second press right behind the first locks a recording.
    pub double_press_lock: bool,
    /// Whether the second hotkey, for instructions, is in use.
    pub push_to_command: bool,
    pub command_hotkey: String,
    /// The microphone, or the system's own choice.
    pub input_device: Option<String>,
    pub provider: Provider,
    /// Whether a cloud provider that fails hands over to the local model.
    pub fallback_to_local: bool,
    /// Words that providers which take a hint should expect.
    pub vocabulary: Vec<String>,
    /// Find/replace rules, in the order in which they apply.
    pub replacements: Vec<Replacement>,
    /// Whether phrases such as "new line" are obeyed.
    pub voice_commands: bool,
    pub paste_mode: PasteMode,
    pub append_trailing_space: bool,
    pub restore_clipboard: bool,
}

/// What the settings hold.
pub struct ConfigView {
    pub hotkey: Seq<char>,
    pub activation: Activation,
    pub double_press_lock: bool,
    pub push_to_command: bool,
    pub command_hotkey: Seq<char>,
    pub input_device: Option<Seq<char>>,
    pub provider: Provider,
    pub fallback_to_local: bool,
    pub vocabulary: Seq<Seq<char>>,
    pub replacements: Seq<RuleView>,
    pub voice_commands: bool,
    pub paste_mode: PasteMode,
    pub append_trailing_space: bool,
    pub restore_clipboard: bool,
}

/// The text of an optional string.
pub open spec fn opt_text(s: Option<String>) -> Option<Seq<char>> {
    match s {
        Some(s) => Some(s@),
        None => None,
    }
}

/// The texts of a sequence of strings.
pub open spec fn text_views(texts: Seq<String>) -> Seq<Seq<char>> {
    Seq::new(texts.len(), |i: int| texts[i]@)
}

impl View for Config {
    type V = ConfigView;

    open spec fn view(&self) -> ConfigView {
        ConfigView {
            hotkey: self.hotkey@,
            activation: self.activation,
            double_press_lock: self.double_press_lock,
            push_to_command: self.push_to_command,
            command_hotkey: self.command_hotkey@,
            input_device: opt_text(self.input_device),
            provider: self.provider,
            fallback_to_local: self.fallback_to_local,
            vocabulary: text_views(self.vocabulary@),
            replacements: rule_views(self.replacements@),
            voice_commands: self.voice_commands,
            paste_mode: self.paste_mode,
            append_trailing_space: self.append_trailing_space,
            restore_clipboard: self.restore_clipboard,
        }
    }
}

impl Default for Config {
    /// The on-device model, and nothing customized.
    fn default() -> (c: Self)
        ensures
            c@ == (ConfigView {
                hotkey: "Ctrl+Backslash"@,
                activation: Activation::Hold,
                double_press_lock: false,
                push_to_command: false,
                command_hotkey: "Ctrl+Shift+Backslash"@,
                input_device: None,
                provider: Provider::LocalParakeet,
                fallback_to_local: true,
                vocabulary: Seq::empty(),
                replacements: Seq::empty(),
                voice_commands: true,
                paste_mode: PasteMode::Clipboard,
                append_trailing_space: false,
                restore_clipboard: true,
            }),
    {
        let c = Config {
            hotkey: "Ctrl+Backslash".to_owned(),
            activation: Activation::Hold,
            double_press_lock: false,
            push_to_command: false,
            command_hotkey: "Ctrl+Shift+Backslash".to_owned(),
            input_device: None,
            provider: Provider::LocalParakeet,
            fallback_to_local: true,
            vocabulary: Vec::new(),
            replacements: Vec::new(),
            voice_commands: true,
            paste_mode: PasteMode::Clipboard,
            append_trailing_space: false,
            restore_clipboard: true,
        };
        assert(c@.vocabulary =~= Seq::empty());
        assert(c@.replacements =~= Seq::empty());
        c
    }
}

/// Copies a list of texts.
pub fn clone_texts(texts: &Vec<String>) -> (r: Vec<String>)
    ensures
        text_views(r@) == text_views(texts@),
{
    let mut out: Vec<String> = Vec::new();
    let mut i: usize = 0;
    while i < texts.len()
        invariant
            i <= texts@.len(),
            text_views(out@) == text_views(texts@).take(i as int),
        decreases texts.len() - i,
    {
        let ghost before = text_views(out@);
        out.push(texts[i].clone());
        assert(text_views(out@) =~= before.push(texts@[i as int]@));
        assert(text_views(texts@).take(i + 1) =~= before.push(texts@[i as int]@));
        i += 1;
    }
    assert(text_views(texts@).take(texts@.len() as int) =~= text_views(texts@));
    out
}

/// Copies a list of rules.
pub fn clone_rules(rules: &Vec<Replacement>) -> (r: Vec<Replacement>)
    ensures
        rule_views(r@) == rule_views(rules@),
{
    let mut out: Vec<Replacement> = Vec::new();
    let mut i: usize = 0;
    while i < rules.len()
        invariant
            i <= rules@.len(),
            rule_views(out@) == rule_views(rules@).take(i as int),
        decreases rules.len() - i,
    {
        let ghost before = rule_views(out@);
        out.push(rules[i].clone());
        assert(rule_views(out@) =~= before.push(rules@[i as int]@));
        assert(rule_views(rules@).take(i + 1) =~= before.push(rules@[i as int]@));
        i += 1;
    }
    assert(rule_views(rules@).take(rules@.len() as int) =~= rule_views(rules@));
    out
}

impl Clone for Config {
    fn clone(&self) -> (r: Self)
        ensures
            r@ == self@,
    {
        Config {
            hotkey: self.hotkey.clone(),
            activation: self.activation,
            double_press_lock: self.double_press_lock,
            push_to_command: self.push_to_command,
            command_hotkey: self.command_hotkey.clone(),
            input_device: match &self.input_device {
                Some(s) => Some(s.clone()),
                None => None,
            },
            provider: self.provider,
            fallback_to_local: self.fallback_to_local,
            vocabulary: clone_texts(&self.vocabulary),
            replacements: clone_rules(&self.replacements),
            voice_commands: self.voice_commands,
            paste_mode: self.paste_mode,
            append_trailing_space: self.append_trailing_space,
            restore_clipboard: self.restore_clipboard,
        }
    }
}

fn same_texts(a: &Vec<String>, b: &Vec<String>) -> (r: bool)
    ensures
        r == (text_views(a@) == text_views(b@)),
{
    if a.len() != b.len() {
        assert(text_views(a@).len() != text_views(b@).len());
        return false;
    }
    let mut i: usize = 0;
    while i < a.len()
        invariant
            i <= a@.len(),
            a@.len() == b@.len(),
            forall|k: int| 0 <= k < i ==> (#[trigger] a@[k])@ == b@[k]@,
        decreases a.len() - i,
    {
        if !same(a[i].as_str(), b[i].as_str()) {
            assert(text_views(a@)[i as int] != text_views(b@)[i as int]);
            return false;
        }
        i += 1;
    }
    assert(text_views(a@) =~= text_views(b@));
    true
}

impl Replacement {
    /// Whether two rules hold the same.
    pub fn same_as(&self, other: &Replacement) -> (r: bool)
        ensures
            r == (self@ == other@),
    {
        same(self.from.as_str(), other.from.as_str()) && same(self.to.as_str(), other.to.as_str())
            && self.whole_word == other.whole_word && self.case_sensitive == other.case_sensitive
            && self.enabled == other.enabled
    }
}

fn same_rules(a: &Vec<Replacement>, b: &Vec<Replacement>) -> (r: bool)
    ensures
        r == (rule_views(a@) == rule_views(b@)),
{
    if a.len() != b.len() {
        assert(rule_views(a@).len() != rule_views(b@).len());
        return false;
    }
    let mut i: usize = 0;
    while i < a.len()
        invariant
            i <= a@.len(),
            a@.len() == b@.len(),
            forall|k: int| 0 <= k < i ==> (#[trigger] a@[k])@ == b@[k]@,
        decreases a.len() - i,
    {
        if !a[i].same_as(&b[i]) {
            assert(rule_views(a@)[i as int] != rule_views(b@)[i as int]);
            return false;
        }
        i += 1;
    }
    assert(rule_views(a@) =~= rule_views(b@));
    true
}

fn same_option(a: &Option<String>, b: &Option<String>) -> (r: bool)
    ensures
        r == (opt_text(*a) == opt_text(*b)),
{
    match (a, b) {
        (Some(x), Some(y)) => same(x.as_str(), y.as_str()),
        (None, None) => true,
        _ => false,
    }
}

impl Config {
    /// Whether two settings hold the same.
    pub fn same_as(&self, other: &Config) -> (r: bool)
        ensures
            r == (self@ == other@),
    {
        same(self.hotkey.as_str(), other.hotkey.as_str()) && self.activation == other.activation
            && self.double_press_lock == other.double_press_lock && self.push_to_command
            == other.push_to_command && same(
            self.command_hotkey.as_str(),
            other.command_hotkey.as_str(),
        ) && same_option(&self.input_device, &other.input_device) && self.provider
            == other.provider && self.fallback_to_local == other.fallback_to_local && same_texts(
            &self.vocabulary,
            &other.vocabulary,
        ) && same_rules(&self.replacements, &other.replacements) && self.voice_commands
            == other.voice_commands && self.paste_mode == other.paste_mode
            && self.append_trailing_space == other.append_trailing_space && self.restore_clipboard
            == other.restore_clipboard
    }
}

/// No two providers go by the same name, neither to the user nor in the code.
pub proof fn law_providers_have_names_of_their_own(p: Provider, q: Provider)
    ensures
        provider_name(p) == provider_name(q) ==> p == q,
        provider_code(p) == provider_code(q) ==> p == q,
{
    reveal_strlit("Local (Parakeet)");
    reveal_strlit("Mistral (Voxtral)");
    reveal_strlit("Groq");
    reveal_strlit("OpenAI");
    reveal_strlit("xAI");
    reveal_strlit("ElevenLabs");
    reveal_strlit("Reson8");
    reveal_strlit("LocalParakeet");
    reveal_strlit("Mistral");
    reveal_strlit("Openai");
    reveal_strlit("Xai");
    reveal_strlit("Elevenlabs");
    assert("Local (Parakeet)"@.len() == 16 && "Mistral (Voxtral)"@.len() == 17);
    assert("Groq"@.len() == 4 && "OpenAI"@.len() == 6 && "xAI"@.len() == 3);
    assert("ElevenLabs"@.len() == 10 && "Reson8"@.len() == 6);
    assert("LocalParakeet"@.len() == 13 && "Mistral"@.len() == 7);
    assert("Openai"@.len() == 6 && "Xai"@.len() == 3 && "Elevenlabs"@.len() == 10);
    assert("OpenAI"@[0] == 'O' && "Reson8"@[0] == 'R' && "Openai"@[0] == 'O');
}

/// Two settings hold the same only where every one of them is the same.
pub proof fn law_every_setting_counts(a: ConfigView, b: ConfigView)
    ensures
        a == b <==> a.hotkey == b.hotkey && a.activation == b.activation && a.double_press_lock
            == b.double_press_lock && a.push_to_command == b.push_to_command && a.command_hotkey
            == b.command_hotkey && a.input_device == b.input_device && a.provider == b.provider
            && a.fallback_to_local == b.fallback_to_local && a.vocabulary == b.vocabulary
            && a.replacements == b.replacements && a.voice_commands == b.voice_commands
            && a.paste_mode == b.paste_mode && a.append_trailing_space == b.append_trailing_space
            && a.restore_clipboard == b.restore_clipboard,
{
}

} // verus!
