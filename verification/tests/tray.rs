use draft::config::Provider;
use draft::tray::{icon_rgba, tooltip, Status, ICON_SIZE};


fn status() -> Status {
    Status {
        hotkey: "Ctrl+Backslash".into(),
        provider: Provider::LocalParakeet,
        update: None,
        has_history: false,
    }
}

#[test]
fn tooltip_names_the_hotkey_and_the_active_provider() {
    let t = tooltip(&status());
    assert!(t.contains("Ctrl+Backslash"), "{t}");
    assert!(t.contains("Local (Parakeet)"), "{t}");
}

#[test]
fn tooltip_follows_the_configured_provider() {
    let t = tooltip(&Status {
        provider: Provider::Groq,
        ..status()
    });
    assert!(t.contains("Groq"), "{t}");
    assert!(!t.contains("Parakeet"), "{t}");
}

#[test]
fn tooltip_says_nothing_about_updates_when_none_is_known() {
    let t = tooltip(&status());
    assert!(!t.to_lowercase().contains("update"), "{t}");
    assert_eq!(t.lines().count(), 1, "{t}");
}

#[test]
fn tooltip_mentions_an_available_update_with_its_version() {
    let t = tooltip(&Status {
        update: Some("9.9.9".into()),
        ..status()
    });
    assert!(t.contains("9.9.9"), "{t}");
    assert!(t.to_lowercase().contains("update"), "{t}");
    // The provider line survives — the update is an addition, not a swap.
    assert!(t.contains("Local (Parakeet)"), "{t}");
}

#[test]
fn tooltips_are_exact() {
    assert_eq!(tooltip(&status()), "Draft — Ctrl+Backslash · Local (Parakeet)");
    assert_eq!(
        tooltip(&Status { update: Some("2.0".into()), ..status() }),
        "Draft — Ctrl+Backslash · Local (Parakeet)\nUpdate available: 2.0"
    );
}

/// The icon has four bytes for each of its pixels.
#[test]
fn the_icon_is_square() {
    let rgba = icon_rgba();
    assert_eq!(rgba.len(), ICON_SIZE * ICON_SIZE * 4);
    let pixel = |x: usize, y: usize| rgba[(y * ICON_SIZE + x) * 4..][..4].to_vec();
    assert_eq!(pixel(8, 8), vec![20, 20, 20, 255]);
    assert_eq!(pixel(0, 0), vec![0, 0, 0, 0]);
    assert_eq!(pixel(8, 1), vec![20, 20, 20, 255]);
    assert_eq!(pixel(8, 0), vec![0, 0, 0, 0]);
}
