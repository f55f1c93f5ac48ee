use pluckrs::config::{Config, General, Keybinds};
use pluckrs::session::{build_fzf_args, parse_fzf_output, FzfOutcome, Session, SetupError,
    StepOutcome};

const CAPTURE: &str = "/usr/bin\n/usr/bin\nsee https://a.com and https://b.com\n";

fn two_mode_config() -> Config {
    Config {
        general: General {
            backward_history: 10000,
            min_length: 5,
            clip_tool: "pbcopy".to_string(),
            regex_order: vec!["path".to_string(), "url".to_string()],
            popup_width: "60%".to_string(),
            popup_height: "90%".to_string(),
        },
        keybinds: Keybinds {
            insert: "tab".to_string(),
            copy: "enter".to_string(),
            filter: "ctrl-f".to_string(),
        },
        regexes: vec![
            ("path".to_string(), r"^(/[\w.-]+)+".to_string()),
            ("url".to_string(), r"https?://[\w./-]+".to_string()),
        ],
    }
}

fn start_session() -> Session {
    Session::init(&two_mode_config(), CAPTURE).expect("setup should succeed")
}

#[test]
fn three_output_lines_recover_the_full_triple() {
    match parse_fzf_output(0, "que\nenter\n/usr/bin\n") {
        FzfOutcome::Keyed { query, key, selection } => {
            assert_eq!(query, "que");
            assert_eq!(key, "enter");
            assert_eq!(selection, "/usr/bin");
        }
        _ => panic!("expected a key press"),
    }
    match parse_fzf_output(1, "que\nenter\nsel\n") {
        FzfOutcome::Keyed { query, key, selection } => {
            assert_eq!((query, key, selection), ("que".into(), "enter".into(), "sel".into()));
        }
        _ => panic!("expected a key press"),
    }
}

#[test]
fn two_output_lines_with_exit_zero_mean_no_query() {
    match parse_fzf_output(0, "tab\n/home/user/file.txt") {
        FzfOutcome::Keyed { query, key, selection } => {
            assert_eq!(query, "");
            assert_eq!(key, "tab");
            assert_eq!(selection, "/home/user/file.txt");
        }
        _ => panic!("expected a key press"),
    }
}

#[test]
fn two_output_lines_with_exit_one_mean_no_selection() {
    match parse_fzf_output(1, "que\nctrl-f") {
        FzfOutcome::Keyed { query, key, selection } => {
            assert_eq!(query, "que");
            assert_eq!(key, "ctrl-f");
            assert_eq!(selection, "");
        }
        _ => panic!("expected a key press"),
    }
}

#[test]
fn one_output_line_is_just_the_key() {
    for code in [0, 1] {
        match parse_fzf_output(code, "enter") {
            FzfOutcome::Keyed { query, key, selection } => {
                assert_eq!(query, "");
                assert_eq!(key, "enter");
                assert_eq!(selection, "");
            }
            _ => panic!("expected a key press"),
        }
    }
}

#[test]
fn exit_codes_for_cancel_and_error_win_over_any_output() {
    for out in ["", "a", "a\nb", "a\nb\nc"] {
        assert!(matches!(parse_fzf_output(130, out), FzfOutcome::Cancelled));
        assert!(matches!(parse_fzf_output(2, out), FzfOutcome::Fatal));
    }
}

#[test]
fn initial_state_uses_the_first_mode() {
    let s = start_session();
    assert_eq!(s.mode_position(), 0);
    assert_eq!(s.mode_total(), 2);
    assert_eq!(s.current_mode_name().as_str(), "path");
    assert_eq!(s.current_query().as_str(), "");
    assert_eq!(s.candidate_text().as_str(), "/usr/bin");
}

#[test]
fn filter_key_cycles_the_mode_and_recomputes_candidates() {
    let mut s = start_session();
    let out = s.step(1, "que\nctrl-f");
    assert!(matches!(out, StepOutcome::Continue));
    assert_eq!(s.mode_position(), 1);
    assert_eq!(s.current_mode_name().as_str(), "url");
    assert_eq!(s.current_query().as_str(), "que");
    assert_eq!(s.candidate_text().as_str(), "https://a.com\nhttps://b.com");
}

#[test]
fn cycling_once_per_mode_returns_to_the_start() {
    let mut s = start_session();
    let n = s.mode_total();
    for _ in 0..n {
        let out = s.step(1, "\nctrl-f");
        assert!(matches!(out, StepOutcome::Continue));
    }
    assert_eq!(s.mode_position(), 0);
    assert_eq!(s.candidate_text().as_str(), "/usr/bin");
}

#[test]
fn cancel_exit_code_ends_the_session_without_effects() {
    let mut s = start_session();
    let before_mode = s.mode_position();
    let before_text = s.candidate_text().clone();
    let out = s.step(130, "que\nenter\n/usr/bin");
    assert!(matches!(out, StepOutcome::Cancelled));
    assert_eq!(s.mode_position(), before_mode);
    assert_eq!(s.candidate_text(), &before_text);
    assert_eq!(s.current_query().as_str(), "");
}

#[test]
fn fatal_exit_code_ends_the_session() {
    let mut s = start_session();
    let out = s.step(2, "whatever");
    assert!(matches!(out, StepOutcome::Fatal));
}

#[test]
fn insert_key_yields_the_selection_with_empty_query() {
    let mut s = start_session();
    let out = s.step(0, "tab\n/home/user/file.txt");
    match out {
        StepOutcome::Insert(text) => assert_eq!(text, "/home/user/file.txt"),
        _ => panic!("expected an insert outcome"),
    }
    assert_eq!(s.current_query().as_str(), "");
}

#[test]
fn copy_key_yields_the_selection() {
    let mut s = start_session();
    let out = s.step(0, "que\nenter\n/usr/bin");
    match out {
        StepOutcome::Copy(text) => assert_eq!(text, "/usr/bin"),
        _ => panic!("expected a copy outcome"),
    }
}

#[test]
fn escape_key_cancels() {
    let mut s = start_session();
    let out = s.step(1, "que\nesc");
    assert!(matches!(out, StepOutcome::Cancelled));
}

#[test]
fn output_without_a_key_cancels() {
    let mut s = start_session();
    let out = s.step(1, "");
    assert!(matches!(out, StepOutcome::Cancelled));
    assert_eq!(s.mode_position(), 0);
}

#[test]
fn unbound_key_keeps_the_session_going() {
    let mut s = start_session();
    let out = s.step(0, "que\nctrl-g\n/usr/bin");
    assert!(matches!(out, StepOutcome::Continue));
    assert_eq!(s.mode_position(), 0);
    assert_eq!(s.current_query().as_str(), "que");
}

#[test]
fn empty_mode_order_is_a_setup_error() {
    let mut cfg = two_mode_config();
    cfg.general.regex_order = vec![];
    match Session::init(&cfg, CAPTURE) {
        Err(SetupError::EmptyModeOrder) => {}
        _ => panic!("expected the empty-mode-order error"),
    }
}

#[test]
fn invalid_pattern_is_a_setup_error() {
    let mut cfg = two_mode_config();
    cfg.regexes[0].1 = "(".to_string();
    match Session::init(&cfg, CAPTURE) {
        Err(SetupError::BadPattern(mode)) => assert_eq!(mode, "path"),
        _ => panic!("expected the bad-pattern error"),
    }
}

#[test]
fn setup_errors_describe_themselves() {
    assert_eq!(
        SetupError::EmptyModeOrder.message(),
        "the configured mode order is empty"
    );
    assert_eq!(
        SetupError::BadPattern("path".to_string()).message(),
        "invalid pattern for mode path"
    );
}

#[test]
fn fzf_arguments_carry_keys_query_and_header() {
    let keys = Keybinds {
        insert: "tab".to_string(),
        copy: "enter".to_string(),
        filter: "ctrl-f".to_string(),
    };
    let args = build_fzf_args("que", "path", &keys);
    assert_eq!(args.len(), 5);
    assert_eq!(args[0], "--expect=ctrl-f,enter,tab");
    assert_eq!(args[1], "--expect=ctrl-g,esc");
    assert_eq!(args[2], "--print-query");
    assert_eq!(args[3], "--query=que");
    assert_eq!(
        args[4],
        "--header=\x1b[0;32mPLUCKRS\x1b[0m | mode: \x1b[0;32m[path]\x1b[0m | Toggle filter: ctrl-f | Copy: enter | Insert: tab"
    );
}
