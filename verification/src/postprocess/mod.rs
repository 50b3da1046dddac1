//! The stages a raw transcript passes through between transcription and paste.
//!
//!   transcribe -> find/replace -> voice commands -> paste
//!
//! Replacements correct vocabulary, so they hold of a dictation and of a
//! recorded file alike. Voice commands are spoken instructions, so they belong
//! to a dictation only: a recorded speaker who says "new paragraph" is not
//! addressing this program.
pub mod commands;
pub mod replace;

use crate::config;
use crate::config::{Config, Replacement};
use vstd::prelude::*;

verus! {

/// The rules that can do something: switched on, with something to find.
pub open spec fn active(rules: Seq<config::RuleView>) -> Seq<config::RuleView>
    decreases rules.len(),
{
    if rules.len() == 0 {
        Seq::empty()
    } else {
        let before = active(rules.drop_last());
        if rules.last().enabled && rules.last().from.len() > 0 {
            before.push(rules.last())
        } else {
            before
        }
    }
}

/// The text once every rule of `rules` has been applied, in order.
pub open spec fn all_replaced(s: Seq<char>, rules: Seq<config::RuleView>) -> Seq<char>
    decreases rules.len(),
{
    if rules.len() == 0 {
        s
    } else {
        replace::replaced(all_replaced(s, rules.drop_last()), rules.last())
    }
}

/// The user's find/replace rules, in order. Applied to any transcript whatever
/// produced it.
#[derive(Debug)]
pub struct Replacements {
    rules: Vec<Replacement>,
}

impl View for Replacements {
    type V = Seq<config::RuleView>;

    closed spec fn view(&self) -> Seq<config::RuleView> {
        config::rule_views(self.rules@)
    }
}

impl Clone for Replacements {
    fn clone(&self) -> (r: Self)
        ensures
            r@ == self@,
    {
        Replacements { rules: config::clone_rules(&self.rules) }
    }
}

impl Replacements {
    /// Keeps the rules that can do something.
    pub fn from_config(cfg: &Config) -> (r: Self)
        ensures
            r@ == active(config::rule_views(cfg.replacements@)),
    {
        let mut rules: Vec<Replacement> = Vec::new();
        let ghost all = config::rule_views(cfg.replacements@);
        let mut i: usize = 0;
        assert(config::rule_views(rules@) =~= active(all.take(0)));
        while i < cfg.replacements.len()
            invariant
                i <= cfg.replacements@.len(),
                all == config::rule_views(cfg.replacements@),
                config::rule_views(rules@) == active(all.take(i as int)),
            decreases cfg.replacements.len() - i,
        {
            let rule = &cfg.replacements[i];
            assert(all.take(i + 1).drop_last() =~= all.take(i as int));
            assert(all.take(i + 1).last() == rule@);
            if rule.enabled && !rule.from.as_str().is_empty() {
                let ghost kept = config::rule_views(rules@);
                rules.push(rule.clone());
                assert(config::rule_views(rules@) =~= kept.push(rule@));
            }
            i += 1;
        }
        assert(all.take(all.len() as int) =~= all);
        Replacements { rules }
    }

    /// True when there is nothing to substitute.
    pub fn is_empty(&self) -> (r: bool)
        ensures
            r == (self@.len() == 0),
    {
        self.rules.len() == 0
    }

    /// Applies every rule, each to what the one before it left.
    pub fn apply(&self, text: &str) -> (r: String)
        ensures
            r@ == all_replaced(text@, self@),
    {
        let mut out = text.to_owned();
        let ghost all = config::rule_views(self.rules@);
        let mut i: usize = 0;
        assert(all.take(0) =~= Seq::empty());
        while i < self.rules.len()
            invariant
                i <= self.rules@.len(),
                all == config::rule_views(self.rules@),
                out@ == all_replaced(text@, all.take(i as int)),
            decreases self.rules.len() - i,
        {
            assert(all.take(i + 1).drop_last() =~= all.take(i as int));
            assert(all.take(i + 1).last() == self.rules@[i as int]@);
            out = replace::apply_replacement(out.as_str(), &self.rules[i]);
            i += 1;
        }
        assert(all.take(all.len() as int) =~= all);
        out
    }
}

/// Spoken instructions turned into their effect: a stage of a dictation only.
#[derive(Debug, Clone, Copy)]
pub struct VoiceCommands;

impl VoiceCommands {
    /// `None` when the user has voice commands turned off.
    pub fn from_config(cfg: &Config) -> (r: Option<Self>)
        ensures
            r is Some <==> cfg.voice_commands,
    {
        if cfg.voice_commands {
            Some(VoiceCommands)
        } else {
            None
        }
    }

    /// Obeys the commands spoken in `text`.
    pub fn apply(&self, text: &str) -> (r: String)
        ensures
            r@ == commands::formatted(commands::tokens(text@)),
    {
        commands::apply_commands(text)
    }
}

/// What a pipeline with these parts makes of a transcript. Replacements run
/// first, so that what the commands see is the corrected text.
pub open spec fn processed(
    s: Seq<char>,
    rules: Seq<config::RuleView>,
    voice_commands: bool,
) -> Seq<char> {
    let corrected = all_replaced(s, rules);
    if voice_commands {
        commands::formatted(commands::tokens(corrected))
    } else {
        corrected
    }
}

/// The ordered transforms applied to a dictation's transcript before it is
/// pasted.
#[derive(Debug)]
pub struct Pipeline {
    replacements: Replacements,
    voice_commands: Option<VoiceCommands>,
}

impl Pipeline {
    /// The rules that this pipeline applies.
    pub closed spec fn rules(&self) -> Seq<config::RuleView> {
        self.replacements@
    }

    /// Whether this pipeline obeys voice commands.
    pub closed spec fn obeys_commands(&self) -> bool {
        self.voice_commands is Some
    }

    /// Everything a dictation is entitled to, read off the settings.
    pub fn for_session(cfg: &Config) -> (p: Self)
        ensures
            p.rules() == active(config::rule_views(cfg.replacements@)),
            p.obeys_commands() == cfg.voice_commands,
    {
        Pipeline {
            replacements: Replacements::from_config(cfg),
            voice_commands: VoiceCommands::from_config(cfg),
        }
    }

    /// True when the pipeline would leave every text as it is.
    pub fn is_noop(&self) -> (r: bool)
        ensures
            r == (self.rules().len() == 0 && !self.obeys_commands()),
    {
        self.replacements.is_empty() && self.voice_commands.is_none()
    }

    /// Runs every stage in order and returns the transformed text.
    pub fn apply(&self, text: &str) -> (r: String)
        ensures
            r@ == processed(text@, self.rules(), self.obeys_commands()),
    {
        let out = self.replacements.apply(text);
        match &self.voice_commands {
            Some(vc) => vc.apply(out.as_str()),
            None => out,
        }
    }
}

impl Clone for Pipeline {
    fn clone(&self) -> (p: Self)
        ensures
            p.rules() == self.rules(),
            p.obeys_commands() == self.obeys_commands(),
    {
        Pipeline { replacements: self.replacements.clone(), voice_commands: self.voice_commands }
    }
}

/// A pipeline with no rules and no commands changes nothing.
pub proof fn law_noop_changes_nothing(s: Seq<char>)
    ensures
        processed(s, Seq::empty(), false) == s,
{
}

/// A rule that is switched off, or that finds nothing, does not run: taking it
/// out of the settings leaves the rules that run as they were.
pub proof fn law_idle_rules_do_not_run(
    before: Seq<config::RuleView>,
    rule: config::RuleView,
    after: Seq<config::RuleView>,
)
    requires
        !rule.enabled || rule.from.len() == 0,
    ensures
        active(before.push(rule) + after) == active(before + after),
    decreases after.len(),
{
    if after.len() == 0 {
        assert(before.push(rule) + after =~= before.push(rule));
        assert(before + after =~= before);
        assert(before.push(rule).drop_last() =~= before);
    } else {
        law_idle_rules_do_not_run(before, rule, after.drop_last());
        assert((before.push(rule) + after).drop_last() =~= before.push(rule)
            + after.drop_last());
        assert((before + after).drop_last() =~= before + after.drop_last());
    }
}

/// Rules apply in order: those of two lists, one list behind the other, act as
/// the second list on what the first one left.
pub proof fn law_rules_apply_in_order(
    s: Seq<char>,
    first: Seq<config::RuleView>,
    second: Seq<config::RuleView>,
)
    ensures
        all_replaced(s, first + second) == all_replaced(all_replaced(s, first), second),
    decreases second.len(),
{
    if second.len() == 0 {
        assert(first + second =~= first);
    } else {
        law_rules_apply_in_order(s, first, second.drop_last());
        assert((first + second).drop_last() =~= first + second.drop_last());
    }
}

/// The rules that run are those that are switched on and have something to find, all of
/// them and in the order of the settings, whatever else they ask for.
pub proof fn law_every_rule_that_can_act_runs(
    before: Seq<config::RuleView>,
    rule: config::RuleView,
    after: Seq<config::RuleView>,
)
    ensures
        rule.enabled && rule.from.len() > 0 ==> active(before.push(rule) + after) == active(
            before,
        ).push(rule) + active(after),
        !(rule.enabled && rule.from.len() > 0) ==> active(before.push(rule) + after) == active(
            before,
        ) + active(after),
    decreases after.len(),
{
    if after.len() == 0 {
        assert(before.push(rule) + after =~= before.push(rule));
        assert(before.push(rule).drop_last() =~= before);
        assert(active(before).push(rule) + active(after) =~= active(before).push(rule));
        assert(active(before) + active(after) =~= active(before));
    } else {
        law_every_rule_that_can_act_runs(before, rule, after.drop_last());
        let all = before.push(rule) + after;
        assert(all.drop_last() =~= before.push(rule) + after.drop_last());
        assert(all.last() == after.last());
        let ran = if rule.enabled && rule.from.len() > 0 {
            active(before).push(rule)
        } else {
            active(before)
        };
        assert(active(all.drop_last()) == ran + active(after.drop_last()));
        assert((ran + active(after.drop_last())).push(after.last()) =~= ran + active(
            after.drop_last(),
        ).push(after.last()));
    }
}

/// One rule alone does to a text what replacing its matches does, and none at all leaves
/// the text as it is.
pub proof fn law_one_rule_alone(s: Seq<char>, rule: config::RuleView)
    ensures
        all_replaced(s, Seq::empty()) == s,
        all_replaced(s, seq![rule]) == replace::replaced(s, rule),
{
    assert(seq![rule].drop_last() =~= Seq::empty());
    assert(all_replaced(s, Seq::<config::RuleView>::empty()) == s);
}

/// A dictation's commands are obeyed in the corrected text, not before: what the rules
/// put in can speak a command. With the commands switched off, the text is what the rules
/// leave.
pub proof fn law_commands_run_on_the_corrected_text(s: Seq<char>, rules: Seq<config::RuleView>)
    ensures
        processed(s, rules, true) == commands::formatted(
            commands::tokens(all_replaced(s, rules)),
        ),
        processed(s, rules, false) == all_replaced(s, rules),
{
}

/// A rule that has yet to be filled in is switched on and asks for nothing in particular,
/// but does not run.
pub proof fn law_a_fresh_rule_waits(s: Seq<char>)
    ensures
        active(seq![config::fresh_rule()]).len() == 0,
        config::fresh_rule().enabled,
        !config::fresh_rule().whole_word,
        !config::fresh_rule().case_sensitive,
        config::fresh_rule().to.len() == 0,
{
    assert(seq![config::fresh_rule()].drop_last() =~= Seq::empty());
    assert(active(Seq::empty()).len() == 0);
}

} // verus!
