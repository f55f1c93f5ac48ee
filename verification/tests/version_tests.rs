use pluckrs::text::parse_pane_height;
use pluckrs::version::{
    extract_version_token, normalize_version, supports_popup, version_from_banner, Version,
};

#[test]
fn two_part_version_normalizes_to_three_parts() {
    assert_eq!(normalize_version("3.2"), "3.2.0");
}

#[test]
fn three_part_version_is_left_alone() {
    assert_eq!(normalize_version("3.2.1"), "3.2.1");
}

#[test]
fn plain_number_is_left_alone() {
    assert_eq!(normalize_version("3"), "3");
}

#[test]
fn banner_token_is_extracted() {
    assert_eq!(extract_version_token("tmux 3.3a\n"), "3.3");
    assert_eq!(extract_version_token("tmux 2.9\n"), "2.9");
    assert_eq!(extract_version_token("something else"), "something else");
}

#[test]
fn banner_parses_to_version() {
    assert_eq!(
        version_from_banner("tmux 3.2\n"),
        Some(Version { major: 3, minor: 2, patch: 0 })
    );
    assert_eq!(
        version_from_banner("tmux 2.9a\n"),
        Some(Version { major: 2, minor: 9, patch: 0 })
    );
    assert_eq!(version_from_banner("tmux next-3.4"), None);
}

#[test]
fn popup_support_follows_the_cutoff() {
    assert!(supports_popup(&Version { major: 3, minor: 2, patch: 0 }));
    assert!(supports_popup(&Version { major: 4, minor: 0, patch: 0 }));
    assert!(supports_popup(&Version { major: 3, minor: 2, patch: 1 }));
    assert!(!supports_popup(&Version { major: 3, minor: 1, patch: 9 }));
    assert!(!supports_popup(&Version { major: 2, minor: 9, patch: 9 }));
}

#[test]
fn version_ordering_is_lexicographic() {
    let a = Version { major: 1, minor: 2, patch: 3 };
    assert!(a.at_least(&Version { major: 1, minor: 2, patch: 3 }));
    assert!(a.at_least(&Version { major: 1, minor: 1, patch: 9 }));
    assert!(!a.at_least(&Version { major: 1, minor: 3, patch: 0 }));
    assert!(!a.at_least(&Version { major: 2, minor: 0, patch: 0 }));
}

#[test]
fn pane_height_parses_trimmed_decimal_output() {
    assert_eq!(parse_pane_height("42\n"), Some(42));
    assert_eq!(parse_pane_height(" 17 "), Some(17));
    assert_eq!(parse_pane_height("0"), Some(0));
    assert_eq!(parse_pane_height("65535"), Some(65535));
}

#[test]
fn pane_height_rejects_bad_output() {
    assert_eq!(parse_pane_height("65536"), None);
    assert_eq!(parse_pane_height("abc"), None);
    assert_eq!(parse_pane_height(""), None);
    assert_eq!(parse_pane_height("-3"), None);
    assert_eq!(parse_pane_height("4 2"), None);
}
