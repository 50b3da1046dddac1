use draft::config::{Config, Replacement};
use draft::postprocess::commands::{apply_commands, format_tokens, tokenize};
use draft::postprocess::replace::{apply_replacement, replace_marked};
use draft::postprocess::{Pipeline, Replacements, VoiceCommands};


fn cfg_with(voice_commands: bool) -> Config {
    Config {
        voice_commands,
        replacements: vec![Replacement {
            from: "draft".into(),
            to: "Draft".into(),
            ..Default::default()
        }],
        ..Default::default()
    }
}

/// A **Session** gets both stages, in order.
#[test]
fn session_pipeline_applies_replacements_then_voice_commands() {
    let out = Pipeline::for_session(&cfg_with(true)).apply("draft new paragraph done");
    assert_eq!(out, "Draft\n\nDone");
}

/// A **Transcription run** composes replacements alone: a recorded speaker
/// saying "new paragraph" is describing, not instructing.
#[test]
fn replacements_alone_leave_command_phrases_as_text() {
    let out = Replacements::from_config(&cfg_with(true)).apply("draft new paragraph done");
    assert_eq!(out, "Draft new paragraph done");
}

#[test]
fn voice_commands_are_none_when_the_user_turns_them_off() {
    assert!(VoiceCommands::from_config(&cfg_with(false)).is_none());
    let out = Pipeline::for_session(&cfg_with(false)).apply("draft new paragraph done");
    assert_eq!(out, "Draft new paragraph done");
}


#[test]
fn new_line_breaks_and_eats_comma() {
    assert_eq!(
        apply_commands("first point, new line, second point"),
        "first point\nsecond point"
    );
}

#[test]
fn new_line_keeps_terminal_punctuation() {
    assert_eq!(
        apply_commands("First sentence. New line. Second sentence."),
        "First sentence.\nSecond sentence."
    );
}

#[test]
fn new_paragraph_double_break_and_capitalizes() {
    assert_eq!(
        apply_commands("intro, new paragraph, the body starts here"),
        "intro\n\nThe body starts here"
    );
}

#[test]
fn scratch_that_removes_previous_segment() {
    assert_eq!(
        apply_commands("Send the report tomorrow. Scratch that. Send it today."),
        "Send it today."
    );
}

#[test]
fn scratch_that_stops_at_line_break() {
    assert_eq!(
        apply_commands("first point, new line, second point, scratch that"),
        "first point"
    );
}

#[test]
fn scratch_that_alone_empties() {
    assert_eq!(apply_commands("scratch that"), "");
}

#[test]
fn all_caps_uppercases_next_word() {
    assert_eq!(apply_commands("ship the all caps draft today"), "ship the DRAFT today");
}

#[test]
fn all_caps_keeps_punctuation() {
    assert_eq!(apply_commands("it is urgent, all caps urgent."), "it is urgent, URGENT.");
}

#[test]
fn all_caps_at_end_is_dropped() {
    assert_eq!(apply_commands("nothing follows all caps"), "nothing follows");
}

#[test]
fn command_is_case_insensitive() {
    assert_eq!(apply_commands("one New Line two"), "one\ntwo");
}

#[test]
fn punctuated_inner_word_does_not_fire() {
    assert_eq!(
        apply_commands("something brand new. Line two starts"),
        "something brand new. Line two starts"
    );
}

#[test]
fn leading_break_is_suppressed() {
    assert_eq!(apply_commands("new line hello"), "hello");
}

#[test]
fn consecutive_breaks_accumulate() {
    assert_eq!(apply_commands("a new line new line b"), "a\n\nb");
}

#[test]
fn plain_text_is_untouched() {
    assert_eq!(
        apply_commands("just a normal sentence, nothing else."),
        "just a normal sentence, nothing else."
    );
}


fn rule(from: &str, to: &str, whole_word: bool, case_sensitive: bool) -> Replacement {
    Replacement {
        from: from.into(),
        to: to.into(),
        whole_word,
        case_sensitive,
        enabled: true,
    }
}

#[test]
fn plain_substring_replace() {
    let r = rule("teh", "the", false, false);
    assert_eq!(apply_replacement("teh cat", &r), "the cat");
}

#[test]
fn case_insensitive_matches_but_inserts_verbatim() {
    let r = rule("github", "GitHub", false, false);
    assert_eq!(
        apply_replacement("i use Github daily", &r),
        "i use GitHub daily"
    );
}

#[test]
fn case_sensitive_respects_case() {
    let r = rule("api", "API", true, true);
    // "API" already cased shouldn't be touched; "api" should.
    assert_eq!(
        apply_replacement("the api and the API", &r),
        "the API and the API"
    );
}

#[test]
fn whole_word_does_not_fire_mid_word() {
    let r = rule("a row", "arrow", true, false);
    assert_eq!(
        apply_replacement("draw a row of arrows", &r),
        "draw arrow of arrows"
    );
}

#[test]
fn whole_word_boundary_at_string_edges() {
    let r = rule("cat", "dog", true, false);
    assert_eq!(apply_replacement("cat", &r), "dog");
    assert_eq!(apply_replacement("category", &r), "category");
}

#[test]
fn snippet_expansion_phrase() {
    let r = rule("my email", "me@example.com", false, false);
    assert_eq!(
        apply_replacement("send it to my email please", &r),
        "send it to me@example.com please"
    );
}

#[test]
fn replacement_is_not_rescanned() {
    // "a" -> "aa" must not loop forever or cascade into the new text.
    let r = rule("a", "aa", false, false);
    assert_eq!(apply_replacement("a b a", &r), "aa b aa");
}

#[test]
fn empty_from_is_noop() {
    let r = rule("", "x", false, false);
    assert_eq!(apply_replacement("unchanged", &r), "unchanged");
}

#[test]
fn delete_via_empty_to() {
    let r = rule("um ", "", false, false);
    assert_eq!(apply_replacement("um well um yes", &r), "well yes");
}

#[test]
fn unicode_haystack_is_safe() {
    let r = rule("cafe", "café", false, false);
    assert_eq!(
        apply_replacement("a cafe in Zürich", &r),
        "a café in Zürich"
    );
}

/// A rule that is switched off is not among the rules.
#[test]
fn disabled_rules_are_left_out() {
    let mut off = rule("a", "b", false, false);
    off.enabled = false;
    let cfg = Config { replacements: vec![off], voice_commands: false, ..Default::default() };
    assert!(Replacements::from_config(&cfg).is_empty());
    assert!(Pipeline::for_session(&cfg).is_noop());
    assert_eq!(Pipeline::for_session(&cfg).apply("a"), "a");
    let cfg = Config { voice_commands: true, ..Default::default() };
    assert!(!Pipeline::for_session(&cfg).is_noop());
}

/// Rules run in order, and each works on what the one before it made.
#[test]
fn rules_feed_one_another() {
    let cfg = Config {
        replacements: vec![rule("one", "two", true, false), rule("two", "three", true, false)],
        ..Default::default()
    };
    assert_eq!(Replacements::from_config(&cfg).apply("one two"), "three three");
}

/// What is upper-cased or compared goes by every letter's own case, and a word's
/// edge by letters and digits of every script.
#[test]
fn letters_outside_of_ascii_have_words_and_cases() {
    assert_eq!(apply_commands("all caps straße"), "STRASSE");
    assert_eq!(apply_commands("a. new paragraph éclair"), "a.\n\nÉclair");
    assert_eq!(apply_replacement("éa a", &rule("a", "b", true, false)), "éa b");
}

/// Upper case and capital letters are only taken where a command asks for them.
#[test]
fn tokens_keep_what_was_said() {
    let toks = tokenize("  Hello,  world ");
    assert_eq!(toks.len(), 2);
    assert_eq!((toks[0].raw.as_str(), toks[0].core.as_str()), ("Hello,", "hello"));
    assert_eq!((toks[0].upper.as_str(), toks[1].capital.as_str()), ("HELLO,", "World"));
    assert_eq!(format_tokens(&toks), "Hello, world");
}

/// Only the marked characters can begin or end a word.
#[test]
fn marks_decide_where_words_end() {
    let hay: Vec<char> = "a-a".chars().collect();
    let r = rule("a", "b", true, false);
    assert_eq!(replace_marked(&hay, &vec![true, false, true], &r), "b-b");
    assert_eq!(replace_marked(&hay, &vec![true, true, true], &r), "a-a");
}

/// "Scratch that" takes back exactly the segment said last; the sentence before it is
/// what it is alone.
#[test]
fn scratch_that_keeps_the_sentence_before() {
    for before in ["Call me at five.", "Is it there? It is!", ""] {
        for segment in ["no make it six", "No, make it six.", "six"] {
            let said = format!("{before} {segment} scratch that");
            assert_eq!(apply_commands(&said), apply_commands(before), "{said}");
        }
    }
}

/// White space comes out as single spaces and line breaks, with nothing at either end.
#[test]
fn the_text_is_tidy() {
    for said in [
        "  one \t two\u{a0}three  ",
        "one, new line two new paragraph three",
        "new line one new line scratch that",
        "one. two scratch that new paragraph new line",
        "one all caps two new line",
        "a,, new line scratch that b new line",
    ] {
        let out = apply_commands(said);
        assert_eq!(out.trim(), out, "{said:?}");
        for pair in ["  ", " \n", "\n "] {
            assert!(!out.contains(pair), "{said:?} gave {out:?}");
        }
    }
}

/// A copy does what it was copied from does.
#[test]
fn a_copy_does_the_same() {
    for on in [true, false] {
        let pipeline = Pipeline::for_session(&cfg_with(on));
        let text = "draft new paragraph done";
        assert_eq!(pipeline.clone().apply(text), pipeline.apply(text));
    }
    let rules = Replacements::from_config(&cfg_with(true));
    assert_eq!(rules.clone().apply("a draft"), "a Draft");
}
