use the_dot::dot::decimal_string;
use the_dot::text::is_whitespace;
use the_dot::{
    read_ini_suffix, resolve_worship_suffix_with_source, worship_suffix, worship_suffix_source,
    Dot, SuffixInputs, SuffixSource, DEFAULT_SUFFIX,
};

fn inputs(env: Option<&str>, cwd: Option<&str>, home: Option<&str>) -> SuffixInputs {
    SuffixInputs {
        env: env.map(|s| s.to_string()),
        cwd_file: cwd.map(|s| s.to_string()),
        home_file: home.map(|s| s.to_string()),
    }
}

#[test]
fn env_value_is_trimmed_and_wins() {
    let r = resolve_worship_suffix_with_source(&inputs(
        Some("  FROM ENV \t"),
        Some("[dot]\nworship_suffix = CWD\n"),
        Some("[dot]\nworship_suffix = HOME\n"),
    ));
    assert_eq!(r.value, "FROM ENV");
    assert_eq!(r.source, SuffixSource::Env);
}

#[test]
fn blank_env_falls_through_to_cwd() {
    let r = resolve_worship_suffix_with_source(&inputs(
        Some(" \t "),
        Some("[dot]\nworship_suffix = CWD\n"),
        Some("[dot]\nworship_suffix = HOME\n"),
    ));
    assert_eq!(r.value, "CWD");
    assert_eq!(r.source, SuffixSource::Cwd);
    assert_eq!(r.source.label(), "./.dot.ini");
}

#[test]
fn cwd_without_value_falls_through_to_home() {
    let r = resolve_worship_suffix_with_source(&inputs(
        None,
        Some("[dot]\nworship_suffix =   \n"),
        Some("[dot]\nworship_suffix = HOME\n"),
    ));
    assert_eq!(r.value, "HOME");
    assert_eq!(r.source, SuffixSource::Home);
}

#[test]
fn nothing_gives_default() {
    let i = inputs(Some(""), Some("[other]\nworship_suffix = X\n"), Some("# only a comment\n"));
    assert_eq!(worship_suffix(&i), DEFAULT_SUFFIX);
    assert_eq!(worship_suffix(&i), "BECAUSE I WORSHIP THE DOT");
    assert_eq!(worship_suffix_source(&i), "default");
}

#[test]
fn section_and_key_are_case_insensitive() {
    assert_eq!(
        read_ini_suffix("[  DoT ]\nWORSHIP_Suffix=Loud Value\n"),
        Some("Loud Value".to_string())
    );
}

#[test]
fn first_value_wins_and_later_sections_reset() {
    assert_eq!(
        read_ini_suffix("[dot]\nworship_suffix = FIRST\nworship_suffix = SECOND\n"),
        Some("FIRST".to_string())
    );
    assert_eq!(read_ini_suffix("[dot]\n[other]\nworship_suffix = NO\n"), None);
}

#[test]
fn blank_value_does_not_stop_the_scan() {
    assert_eq!(
        read_ini_suffix("[dot]\nworship_suffix =\nworship_suffix = LATER\n"),
        Some("LATER".to_string())
    );
}

#[test]
fn value_keeps_text_after_first_equals() {
    assert_eq!(read_ini_suffix("[dot]\nworship_suffix = a = b\n"), Some("a = b".to_string()));
}

#[test]
fn key_outside_any_section_is_ignored() {
    assert_eq!(read_ini_suffix("worship_suffix = TOP\n"), None);
    assert_eq!(read_ini_suffix(""), None);
}

#[test]
fn crlf_lines_and_missing_final_newline() {
    assert_eq!(
        read_ini_suffix("[dot]\r\n  worship_suffix = WINDOWS  \r\n"),
        Some("WINDOWS".to_string())
    );
    assert_eq!(read_ini_suffix("[dot]\nworship_suffix = END"), Some("END".to_string()));
}

#[test]
fn comment_lines_inside_section() {
    assert_eq!(
        read_ini_suffix("[dot]\n# worship_suffix = HIDDEN\n  ; x = y\nworship_suffix = SHOWN\n"),
        Some("SHOWN".to_string())
    );
}

#[test]
fn comment_line_inserted_anywhere() {
    let plain = "[dot]\nworship_suffix = V\n";
    let with_comment = "[dot]\n  # note\nworship_suffix = V\n";
    let with_blank = "\n\n[dot]\n\t\nworship_suffix = V\n";
    assert_eq!(read_ini_suffix(plain), read_ini_suffix(with_comment));
    assert_eq!(read_ini_suffix(plain), read_ini_suffix(with_blank));
}

#[test]
fn matches_examples() {
    assert!(the_dot::text::matches("fix BECAUSE I WORSHIP THE DOT", "BECAUSE I WORSHIP THE DOT"));
    assert!(!the_dot::text::matches("oops", "BECAUSE I WORSHIP THE DOT"));
    assert!(the_dot::text::matches("text SUFFIX   ", "SUFFIX"));
}

#[test]
fn matches_edge_cases() {
    assert!(!the_dot::text::matches("FIX", "SUFFIX"));
    assert!(!the_dot::text::matches("a suffix", "SUFFIX"));
    assert!(the_dot::text::matches("SUFFIX\n\u{3000}", "SUFFIX"));
    assert!(the_dot::text::matches("anything", ""));
    assert!(!the_dot::text::matches("SUFFIX X", "SUFFIX"));
}

#[test]
fn trailing_whitespace_law_example() {
    assert_eq!(
        the_dot::text::matches("msg DOT", "DOT"),
        the_dot::text::matches("msg DOT \t\n", "DOT")
    );
    assert_eq!(
        the_dot::text::matches("msg", "DOT"),
        the_dot::text::matches("msg  ", "DOT")
    );
}

#[test]
fn validate_uses_resolved_suffix() {
    let d = Dot::new();
    let i = inputs(Some("BECAUSE I HONOR THE DOT"), None, None);
    assert!(d.validate_commit("Commit BECAUSE I HONOR THE DOT", &i));
    assert!(!d.validate_commit("Commit BECAUSE I WORSHIP THE DOT", &i));
}

#[test]
fn three_worships_count_up() {
    let mut d = Dot::new();
    assert_eq!(d.worship("Ann"), "Ann now worships THE DOT (Total worshippers: 1)");
    assert_eq!(d.worship(""), "Anonymous now worships THE DOT (Total worshippers: 2)");
    assert_eq!(d.worship("Cy"), "Cy now worships THE DOT (Total worshippers: 3)");
}

#[test]
fn decimal_formatting() {
    assert_eq!(decimal_string(0), "0");
    assert_eq!(decimal_string(7), "7");
    assert_eq!(decimal_string(10), "10");
    assert_eq!(decimal_string(12345), "12345");
    assert_eq!(decimal_string(usize::MAX), usize::MAX.to_string());
}

#[test]
fn whitespace_classes() {
    assert!(is_whitespace(' '));
    assert!(is_whitespace('\t'));
    assert!(is_whitespace('\u{85}'));
    assert!(is_whitespace('\u{2009}'));
    assert!(!is_whitespace('x'));
    assert!(!is_whitespace('\u{200B}'));
    for c in ['\u{0}', ' ', 'a', '\u{a0}', '\u{1680}', '\u{180e}', '\u{2028}', '\u{feff}'] {
        assert_eq!(is_whitespace(c), c.is_whitespace());
    }
}

#[test]
fn tenets_in_order() {
    let t = Dot::new().tenets();
    assert_eq!(t[0], "Work in new branches");
    assert_eq!(t[6], "Worship THE DOT");
}
