use uv_ffi::command::{link_mode_name, parse_link_mode, try_parse_ffi_install, LinkMode};
use uv_ffi::text::{contains_str, split_words, str_equal, strip_prefix};

#[test]
fn parses_plain_install() {
    let opts = try_parse_ffi_install("pip install rich==14.3.2").unwrap();
    assert_eq!(opts.packages, vec!["rich==14.3.2".to_string()]);
    assert_eq!(opts.python, None);
    assert!(!opts.reinstall);
    assert_eq!(opts.index_url, None);
    assert_eq!(opts.extra_index_url, None);
    assert_eq!(opts.link_mode, None);
    assert!(!opts.quiet);
    assert_eq!(opts.target, None);
}

#[test]
fn parses_target_install() {
    let opts = try_parse_ffi_install("pip install --target /tmp/bubble rich").unwrap();
    assert_eq!(opts.packages, vec!["rich".to_string()]);
    assert_eq!(opts.target, Some("/tmp/bubble".to_string()));
    let opts = try_parse_ffi_install("pip install rich --target").unwrap();
    assert_eq!(opts.target, None);
}

#[test]
fn parses_readme_command() {
    let opts = try_parse_ffi_install(
        "pip install --python /usr/bin/python3 --link-mode symlink rich==14.3.3",
    )
    .unwrap();
    assert_eq!(opts.packages, vec!["rich==14.3.3".to_string()]);
    assert_eq!(opts.python, Some("/usr/bin/python3".to_string()));
    assert_eq!(opts.link_mode, Some(LinkMode::Symlink));
}

#[test]
fn parses_every_known_flag() {
    let opts = try_parse_ffi_install(
        "pip install -q --reinstall -i https://a.example/simple --extra-index-url https://b.example/simple --cache-dir /tmp/c --link-mode copy numpy pandas",
    )
    .unwrap();
    assert_eq!(opts.packages, vec!["numpy".to_string(), "pandas".to_string()]);
    assert!(opts.quiet);
    assert!(opts.reinstall);
    assert_eq!(opts.index_url, Some("https://a.example/simple".to_string()));
    assert_eq!(opts.extra_index_url, Some("https://b.example/simple".to_string()));
    assert_eq!(opts.link_mode, Some(LinkMode::Copy));
    assert_eq!(opts.python, None);
}

#[test]
fn long_flag_spellings() {
    let opts = try_parse_ffi_install(
        "pip install --quiet --force-reinstall --index-url u1 --link-mode hardlink x",
    )
    .unwrap();
    assert!(opts.quiet);
    assert!(opts.reinstall);
    assert_eq!(opts.index_url, Some("u1".to_string()));
    assert_eq!(opts.link_mode, Some(LinkMode::Hardlink));
}

#[test]
fn unknown_flag_falls_back() {
    assert!(try_parse_ffi_install("pip install --upgrade rich").is_none());
    assert!(try_parse_ffi_install("pip install rich -U").is_none());
}

#[test]
fn other_commands_fall_back() {
    assert!(try_parse_ffi_install("pip freeze").is_none());
    assert!(try_parse_ffi_install("pip uninstall rich").is_none());
    assert!(try_parse_ffi_install("pip  install rich").is_none());
    assert!(try_parse_ffi_install("pip install").is_none());
    assert!(try_parse_ffi_install("").is_none());
}

#[test]
fn no_package_falls_back() {
    assert!(try_parse_ffi_install("pip install ").is_none());
    assert!(try_parse_ffi_install("pip install -q --python py").is_none());
}

#[test]
fn flag_value_is_next_token_whatever_it_is() {
    let opts = try_parse_ffi_install("pip install rich --python -q").unwrap();
    assert_eq!(opts.python, Some("-q".to_string()));
    assert!(!opts.quiet);
}

#[test]
fn missing_value_unsets() {
    let opts = try_parse_ffi_install("pip install --python a rich --python").unwrap();
    assert_eq!(opts.python, None);
    let opts = try_parse_ffi_install("pip install --link-mode copy rich --link-mode").unwrap();
    assert_eq!(opts.link_mode, None);
}

#[test]
fn unknown_link_mode_value_is_none() {
    let opts = try_parse_ffi_install("pip install --link-mode reflink rich").unwrap();
    assert_eq!(opts.link_mode, None);
    assert_eq!(opts.packages, vec!["rich".to_string()]);
}

#[test]
fn cache_dir_skips_its_value() {
    let opts = try_parse_ffi_install("pip install --cache-dir --upgrade rich").unwrap();
    assert_eq!(opts.packages, vec!["rich".to_string()]);
}

#[test]
fn later_values_override() {
    let opts = try_parse_ffi_install("pip install --python a --python b x").unwrap();
    assert_eq!(opts.python, Some("b".to_string()));
}

#[test]
fn unicode_whitespace_separates() {
    let opts = try_parse_ffi_install("pip install a\u{3000}b\tc\u{a0}d").unwrap();
    assert_eq!(
        opts.packages,
        vec!["a".to_string(), "b".to_string(), "c".to_string(), "d".to_string()]
    );
}

#[test]
fn link_mode_names_round_trip() {
    for mode in [LinkMode::Symlink, LinkMode::Hardlink, LinkMode::Clone, LinkMode::Copy] {
        let name = link_mode_name(mode);
        assert_eq!(parse_link_mode(&name), Some(mode));
    }
    assert_eq!(link_mode_name(LinkMode::Clone), "clone");
    assert_eq!(parse_link_mode("Symlink"), None);
}

#[test]
fn split_words_matches_std() {
    let samples = [
        "",
        "   ",
        "a",
        " a ",
        "a  b\tc\n",
        "\u{85}x\u{2000}y\u{200a}z\u{2028}w\u{2029}v\u{202f}u\u{205f}t\u{3000}s\u{1680}r\u{b}q\u{c}p\rEND",
        "é ü  ß",
        "x\u{200b}y",
    ];
    for s in samples {
        let got: Vec<&str> = split_words(s);
        let want: Vec<&str> = s.split_whitespace().collect();
        assert_eq!(got, want, "{s:?}");
    }
}

#[test]
fn string_helpers() {
    assert!(str_equal("abc", "abc"));
    assert!(!str_equal("abc", "abd"));
    assert!(!str_equal("abc", "ab"));
    assert_eq!(strip_prefix("pip install x", "pip install "), Some("x"));
    assert_eq!(strip_prefix("pip", "pip install "), None);
    assert!(contains_str("pip install -q x", " -q"));
    assert!(contains_str("a -q", " -q"));
    assert!(!contains_str("a-q", " -q"));
    assert!(contains_str("", ""));
}
