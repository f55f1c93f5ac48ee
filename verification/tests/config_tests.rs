use pluckrs::config::{
    config_path_from_home_dir, default_backward_history, default_clipboard_tool, default_copy_key,
    default_filter_key, default_insert_key, default_min_length, default_popup_height,
    default_popup_width, Config, General, Keybinds, Platform,
};

fn sample_config(order: Vec<String>, regexes: Vec<(String, String)>) -> Config {
    Config {
        general: General {
            backward_history: default_backward_history(),
            min_length: 5,
            clip_tool: "pbcopy".to_string(),
            regex_order: order,
            popup_width: default_popup_width(),
            popup_height: default_popup_height(),
        },
        keybinds: Keybinds {
            insert: default_insert_key(),
            copy: default_copy_key(),
            filter: default_filter_key(),
        },
        regexes,
    }
}

#[test]
fn config_path_is_built_correctly() {
    let dummy_home_dir = "/Users/my_home";
    let built_config_path = config_path_from_home_dir(dummy_home_dir);
    assert_eq!(built_config_path, "/Users/my_home/.config/pluckrs/config.toml");
}

#[test]
fn defaults_match_the_documented_values() {
    assert_eq!(default_backward_history(), 10000);
    assert_eq!(default_min_length(), 10);
    assert_eq!(default_popup_width(), "60%");
    assert_eq!(default_popup_height(), "90%");
    assert_eq!(default_insert_key(), "tab");
    assert_eq!(default_copy_key(), "enter");
    assert_eq!(default_filter_key(), "ctrl-f");
}

#[test]
fn clipboard_defaults_follow_the_platform() {
    assert_eq!(default_clipboard_tool(&Platform::MacOs), "pbcopy");
    assert_eq!(default_clipboard_tool(&Platform::LinuxWayland), "wl-copy");
    assert_eq!(
        default_clipboard_tool(&Platform::LinuxX11),
        "xclip -i -selection clipboard >/dev/null"
    );
}

#[test]
fn a_complete_config_is_valid() {
    let cfg = sample_config(
        vec!["path".to_string(), "url".to_string()],
        vec![
            ("path".to_string(), "^(/[a-z]+)+".to_string()),
            ("url".to_string(), "https?://[a-z.]+".to_string()),
        ],
    );
    assert!(cfg.is_valid());
}

#[test]
fn a_mode_without_a_pattern_is_invalid() {
    let cfg = sample_config(
        vec!["path".to_string(), "url".to_string()],
        vec![("path".to_string(), "^(/[a-z]+)+".to_string())],
    );
    assert!(!cfg.is_valid());
}

#[test]
fn duplicate_mode_names_are_invalid() {
    let cfg = sample_config(
        vec!["path".to_string()],
        vec![
            ("path".to_string(), "a+".to_string()),
            ("path".to_string(), "b+".to_string()),
        ],
    );
    assert!(!cfg.is_valid());
}

#[test]
fn pattern_lookup_finds_the_configured_pattern() {
    let cfg = sample_config(
        vec!["path".to_string()],
        vec![
            ("path".to_string(), "a+".to_string()),
            ("url".to_string(), "b+".to_string()),
        ],
    );
    assert_eq!(cfg.pattern_for(&"url".to_string()), Some(&"b+".to_string()));
    assert_eq!(cfg.pattern_for(&"missing".to_string()), None);
}
