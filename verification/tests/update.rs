use draft::update::{news, newer_than, parse_version, Release};

fn release(tag: &str) -> Release {
    Release {
        tag_name: tag.to_string(),
        html_url: "https://example.com".to_string(),
        prerelease: false,
        draft: false,
    }
}

/// Versions compare component by component, and a missing one is zero.
#[test]
fn versions_compare_by_component() {
    assert!(newer_than("1.10.0", "1.9.9"));
    assert!(newer_than("2", "1.99"));
    assert!(!newer_than("1.2", "1.2.0"));
    assert!(!newer_than("1.2.0", "1.2"));
    assert!(newer_than("1.2.0.1", "1.2"));
    assert!(!newer_than("1.2", "1.3"));
}

/// What is no 32-bit number is skipped.
#[test]
fn components_that_are_no_numbers_are_skipped() {
    assert_eq!(parse_version("1.x.3"), vec![1, 3]);
    assert_eq!(parse_version("+1.4294967295.4294967296"), vec![1, 4294967295]);
    assert_eq!(parse_version(""), Vec::<u32>::new());
    assert_eq!(parse_version("1.2-beta"), vec![1]);
}

/// Only a newer release that is out and meant for everybody is news.
#[test]
fn only_a_newer_public_release_is_news() {
    let info = news(release("v1.3.0"), "1.2.9").unwrap();
    assert_eq!(info.latest_version, "1.3.0");
    assert_eq!(info.url, "https://example.com");
    assert!(news(release("v1.2.9"), "1.2.9").is_none());
    assert!(news(Release { prerelease: true, ..release("v9.0") }, "1.0").is_none());
    assert!(news(Release { draft: true, ..release("v9.0") }, "1.0").is_none());
}
