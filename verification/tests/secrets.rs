use draft::config::Provider;
use draft::secrets::{
    env_var, key_write, load_key, load_key_with_source, slot_name, KeySource, KeyWrite, Stored,
};


#[test]
fn an_unedited_key_is_never_written() {
    for source in [
        KeySource::Environment,
        KeySource::Keyring,
        KeySource::Absent,
        KeySource::Unreadable,
    ] {
        assert_eq!(key_write("k", "k", source), None, "{source:?}");
        assert_eq!(key_write("", "", source), None, "{source:?}");
    }
}

#[test]
fn an_environment_key_is_not_written_by_an_unrelated_save() {
    assert_eq!(
        key_write("env-key", "env-key", KeySource::Environment),
        None
    );
}

#[test]
fn a_key_that_failed_to_load_is_not_deleted_by_an_unrelated_save() {
    assert_eq!(key_write("", "", KeySource::Unreadable), None);
}

#[test]
fn clearing_a_stored_key_deletes_it() {
    assert_eq!(
        key_write("stored", "", KeySource::Keyring),
        Some(KeyWrite::Delete)
    );
}

#[test]
fn clearing_an_environment_key_leaves_the_keyring_alone() {
    // What was shown came from the environment; the keyring slot behind it
    // was never shown, so it is not the user's to clear from here.
    assert_eq!(key_write("env-key", "", KeySource::Environment), None);
}

#[test]
fn a_typed_key_is_stored_whatever_was_there() {
    for source in [
        KeySource::Environment,
        KeySource::Keyring,
        KeySource::Absent,
        KeySource::Unreadable,
    ] {
        let base = if source == KeySource::Absent || source == KeySource::Unreadable {
            ""
        } else {
            "old"
        };
        assert_eq!(
            key_write(base, "new", source),
            Some(KeyWrite::Store("new".into())),
            "{source:?}"
        );
    }
}

#[test]
fn a_whitespace_only_edit_is_a_clear() {
    assert_eq!(
        key_write("stored", "  ", KeySource::Keyring),
        Some(KeyWrite::Delete)
    );
    assert_eq!(key_write("", "  ", KeySource::Absent), None);
}

/// The environment comes first, then what is stored; a blank value is none.
#[test]
fn keys_are_loaded_from_the_first_place_that_has_one() {
    let held = || Stored::Held("stored".to_string());
    assert_eq!(
        load_key_with_source(Provider::Groq, Some("env".to_string()), held()),
        (Some("env".to_string()), KeySource::Environment)
    );
    assert_eq!(
        load_key_with_source(Provider::Groq, Some("  ".to_string()), held()),
        (Some("stored".to_string()), KeySource::Keyring)
    );
    assert_eq!(
        load_key_with_source(Provider::Groq, None, Stored::NoEntry),
        (None, KeySource::Absent)
    );
    assert_eq!(
        load_key_with_source(Provider::Groq, None, Stored::Failed),
        (None, KeySource::Unreadable)
    );
    assert_eq!(load_key(Provider::Groq, None, held()), Some("stored".to_string()));
    assert_eq!(load_key(Provider::LocalParakeet, None, Stored::NoEntry), None);
}

/// Every cloud provider has a slot and a variable, and the local model has none.
#[test]
fn only_the_local_model_has_no_key() {
    for p in [
        Provider::Mistral,
        Provider::Groq,
        Provider::Openai,
        Provider::Xai,
        Provider::Elevenlabs,
        Provider::Reson8,
    ] {
        assert!(slot_name(p).is_some() && env_var(p).is_some(), "{p:?}");
    }
    assert_eq!(slot_name(Provider::LocalParakeet), None);
    assert_eq!(env_var(Provider::LocalParakeet), None);
}

/// A write that landed says where the key comes from then.
#[test]
fn a_write_settles_where_the_key_comes_from() {
    assert_eq!(KeyWrite::Store("k".to_string()).leaves(), KeySource::Keyring);
    assert_eq!(KeyWrite::Delete.leaves(), KeySource::Absent);
    assert_eq!(key_write("new", "new", KeyWrite::Store("new".to_string()).leaves()), None);
}
