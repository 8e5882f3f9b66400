use leaf_markdown::cli::{
    is_valid_fuzzy_query, parse_auto_complete_value, parse_cli, parse_fuzzy_query,
    parse_history_list_spec, parse_theme_name, parse_width_value, usage_text, version_text, ArgFacts,
    AutoCompleteMode, CliOptions, ConfigAction, HistoryAction,
};
use leaf_markdown::diagram_model::MermaidOptions;
use leaf_markdown::settings::{
    append_config_warning, effective_file_history_length, is_valid_tab_title_length,
    max_filename_len_for_prefix, read_stdin_limited, resolve_code_line_numbers,
    resolve_configured_width, resolve_mermaid_options, resolve_spacing, resolve_tab_title_length_n, stdin_read_limit,
    tab_title_n_to_max_filename_len,
};

/// A finite spacing from 0 to 500, as the bits of the `f64`.
fn spacing(s: &str) -> Option<u64> {
    s.trim()
        .parse::<f64>()
        .ok()
        .filter(|v| v.is_finite() && *v >= 0.0 && *v <= 500.0)
        .map(f64::to_bits)
}

fn inline_spec(s: &str) -> bool {
    let format = s.split(':').next().unwrap_or("");
    matches!(format, "ansi" | "plain") || s.parse::<usize>().is_ok()
}

fn facts(args: &[String]) -> Vec<ArgFacts> {
    args.iter()
        .map(|a| {
            let after = a.split_once('=').map(|(_, v)| v.to_string());
            ArgFacts {
                spacing: spacing(a),
                spacing_after_eq: after.as_deref().and_then(spacing),
                inline_spec: inline_spec(a),
                inline_error: None,
                inline_error_after_eq: None,
            }
        })
        .collect()
}

fn parse(args: &[&str]) -> Result<CliOptions, String> {
    let args: Vec<String> = args.iter().map(|s| s.to_string()).collect();
    parse_cli(&args, &facts(&args))
}

#[test]
fn spacing_cli_validation_and_full_mode() {
    let options = parse(&[
        "leaf",
        "--node-spacing=8",
        "--rank-spacing",
        "15",
        "--edge-spacing",
        "8",
    ])
    .unwrap();
    assert_eq!(
        (options.node_spacing, options.rank_spacing, options.edge_spacing),
        (Some(8.0f64.to_bits()), Some(15.0f64.to_bits()), Some(8.0f64.to_bits()))
    );
    for invalid in ["NaN", "inf", "-1", "501", "", "wat"] {
        assert!(parse(&["leaf", "--node-spacing", invalid]).is_err(), "{invalid}");
    }
    assert!(parse(&["leaf", "--mermaid-full"]).is_err());
    assert!(parse(&["leaf", "--inline", "--mermaid-full"]).unwrap().mermaid_full);
}

#[test]
fn cli_spacing_errors_name_the_flag_and_value() {
    assert_eq!(
        parse(&["leaf", "--rank-spacing=wat"]).err().unwrap(),
        "--rank-spacing: expected a finite number from 0 to 500, got 'wat'"
    );
    assert_eq!(
        parse(&["leaf", "--edge-spacing"]).err().unwrap(),
        "Missing value for --edge-spacing"
    );
}

#[test]
fn cli_files_flags_and_values() {
    let o = parse(&["leaf", "-w", "--theme", "  dark ", "--editor=vim", "notes.md"]).unwrap();
    assert!(o.watch);
    assert_eq!(o.theme.as_deref(), Some("dark"));
    assert_eq!(o.editor.as_deref(), Some("vim"));
    assert_eq!(o.file_arg.as_deref(), Some("notes.md"));
    assert_eq!(parse(&["leaf", "a.md", "b.md"]).err().unwrap(), "Too many file arguments");
    assert_eq!(parse(&["leaf", "--bogus"]).err().unwrap(), "Unknown flag: --bogus");
    let o = parse(&["leaf", "--", "-dash.md"]).unwrap();
    assert_eq!(o.file_arg.as_deref(), Some("-dash.md"));
    assert_eq!(parse(&["leaf", "--theme="]).err().unwrap(), "Missing value for --theme");
    assert_eq!(parse(&["leaf", "--width", "10"]).err().unwrap(), "Width must be at least 20");
    assert_eq!(parse(&["leaf", "--width=abc"]).err().unwrap(), "Invalid width: abc");
    assert_eq!(parse(&["leaf", "--width", " 40 "]).unwrap().width, Some(40));
}

#[test]
fn cli_optional_values_and_standalone_actions() {
    let o = parse(&["leaf", "--fuzzy", "kw"]).unwrap();
    assert!(o.fuzzy);
    assert_eq!(o.fuzzy_query.as_deref(), Some("kw"));
    let o = parse(&["leaf", "--fuzzy", "--watch"]).unwrap();
    assert!(o.fuzzy && o.watch && o.fuzzy_query.is_none());
    assert!(parse(&["leaf", "--fuzzy=bad/char"]).is_err());
    assert_eq!(parse(&["leaf", "--config", "reset"]).unwrap().config, Some(ConfigAction::Reset));
    assert_eq!(parse(&["leaf", "--config"]).unwrap().config, Some(ConfigAction::Open));
    assert_eq!(
        parse(&["leaf", "-H", "list:3"]).unwrap().history,
        Some(HistoryAction::List { count: Some(3) })
    );
    assert_eq!(parse(&["leaf", "--history"]).unwrap().history, Some(HistoryAction::Picker));
    assert_eq!(
        parse(&["leaf", "--update", "--watch"]).err().unwrap(),
        "--update must be used on its own"
    );
    assert_eq!(
        parse(&["leaf", "--history", "--config"]).err().unwrap(),
        "--config must be used on its own"
    );
    let o = parse(&["leaf", "--auto-complete", "zsh:dump"]).unwrap();
    let ac = o.auto_complete.unwrap();
    assert_eq!(ac.shell.as_deref(), Some("zsh"));
    assert_eq!(ac.mode, AutoCompleteMode::Dump);
    assert_eq!(
        parse(&["leaf", "--inline", "--watch"]).err().unwrap(),
        "--inline cannot be combined with --watch"
    );
    assert_eq!(
        parse(&["leaf", "--fuzzy", "--picker"]).err().unwrap(),
        "--fuzzy cannot be combined with --picker"
    );
    assert_eq!(
        parse(&["leaf", "-l", "file.md"]).err().unwrap(),
        "--last cannot be combined with a file argument"
    );
    let o = parse(&["leaf", "--inline", "ansi:60", "README.md"]).unwrap();
    assert_eq!(o.inline, Some(Some("ansi:60".to_string())));
    assert_eq!(o.file_arg.as_deref(), Some("README.md"));
    let o = parse(&["leaf", "--inline", "README.md"]).unwrap();
    assert_eq!(o.inline, Some(None));
    assert_eq!(o.file_arg.as_deref(), Some("README.md"));
    let o = parse(&["leaf", "-h", "-V"]).unwrap();
    assert!(o.print_help && o.print_version);
}

#[test]
fn cli_inline_spec_errors_come_from_the_spec_parser() {
    let args: Vec<String> = ["leaf", "--inline", "ansi:x"].iter().map(|s| s.to_string()).collect();
    let mut f = facts(&args);
    f[2].inline_error = Some("Invalid inline width: x".to_string());
    assert_eq!(parse_cli(&args, &f).err().unwrap(), "Invalid inline width: x");
}

#[test]
fn cli_value_parsers() {
    assert!(is_valid_fuzzy_query("abc_1.2-x"));
    assert!(!is_valid_fuzzy_query(""));
    assert!(!is_valid_fuzzy_query("0123456789abcdef"));
    assert!(!is_valid_fuzzy_query("a b"));
    assert_eq!(
        parse_fuzzy_query("a b".to_string()).err().unwrap(),
        "--fuzzy: invalid value 'a b'\n       allowed: [A-Za-z0-9._-], max 15 chars"
    );
    assert_eq!(parse_theme_name("  x ").unwrap(), "x");
    assert_eq!(parse_theme_name("   ").err().unwrap(), "Missing value for --theme");
    let ac = parse_auto_complete_value("remove").unwrap();
    assert!(ac.shell.is_none() && ac.mode == AutoCompleteMode::Remove);
    let ac = parse_auto_complete_value("fish").unwrap();
    assert_eq!(ac.shell.as_deref(), Some("fish"));
    assert_eq!(ac.mode, AutoCompleteMode::Install);
    assert_eq!(
        parse_auto_complete_value("tcsh").err().unwrap(),
        "Unknown shell: 'tcsh'. Expected: bash, zsh, fish, powershell, nushell"
    );
    assert_eq!(
        parse_auto_complete_value("bash:zip").err().unwrap(),
        "Invalid argument for --auto-complete: 'bash:zip'. Expected: bash, zsh, fish, powershell, nushell, dump, remove, SHELL:dump, or SHELL:remove"
    );
    assert_eq!(parse_history_list_spec("list").unwrap(), HistoryAction::List { count: None });
    assert_eq!(parse_history_list_spec("7").unwrap(), HistoryAction::List { count: Some(7) });
    assert_eq!(parse_history_list_spec("+7").unwrap(), HistoryAction::List { count: Some(7) });
    assert_eq!(
        parse_history_list_spec("list:0").err().unwrap(),
        "--history: invalid value 'list:0'\n        expected: edit, remove, list[:<n>], with n positive"
    );
    assert_eq!(parse_width_value("20").unwrap(), 20);
    assert!(parse_width_value("18446744073709551616").is_err());
    assert!(usage_text().starts_with("Usage:  leaf [OPTIONS]"));
    assert!(usage_text().contains("\n  -h, --help                   Show this help message and exit\n"));
    assert_eq!(version_text(), "leaf 0.1.0");
}

#[test]
fn stdin_is_limited_and_decoded() {
    assert_eq!(stdin_read_limit(10).unwrap(), 11);
    assert_eq!(read_stdin_limited(b"# Hi".to_vec(), 10).unwrap(), "# Hi");
    assert_eq!(
        read_stdin_limited(vec![b'a'; 11], 10).err().unwrap(),
        "stdin exceeds the maximum supported size of 10 bytes"
    );
    assert_eq!(read_stdin_limited(vec![0xff], 10).err().unwrap(), "stdin is not valid UTF-8");
}

#[test]
fn settings_precedence_and_limits() {
    assert_eq!(resolve_configured_width(Some(30), Some("50".into()), Some(60)), Some(30));
    assert_eq!(resolve_configured_width(None, Some("50".into()), Some(60)), Some(50));
    assert_eq!(resolve_configured_width(None, Some("10".into()), Some(5)), Some(20));
    assert_eq!(resolve_configured_width(None, None, None), None);
    assert!(!resolve_code_line_numbers(Some("0".into()), Some(true)));
    assert!(resolve_code_line_numbers(Some("1".into()), Some(false)));
    assert!(!resolve_code_line_numbers(Some("yes".into()), Some(false)));
    assert!(resolve_code_line_numbers(None, None));
    assert!(is_valid_tab_title_length(-1));
    assert!(is_valid_tab_title_length(20));
    assert!(!is_valid_tab_title_length(19));
    assert_eq!(resolve_tab_title_length_n(Some("30".into()), Some(40)), Some(30));
    assert_eq!(resolve_tab_title_length_n(Some("5".into()), Some(40)), Some(40));
    assert_eq!(resolve_tab_title_length_n(None, None), Some(-1));
    assert_eq!(resolve_tab_title_length_n(None, Some(3)), None);
    assert_eq!(max_filename_len_for_prefix(20, 6), Some(14));
    assert_eq!(max_filename_len_for_prefix(-1, 6), None);
    assert_eq!(tab_title_n_to_max_filename_len(26), Some(20));
    assert_eq!(effective_file_history_length(80), (Some(50), Some(80)));
    assert_eq!(effective_file_history_length(10), (Some(10), None));
    assert_eq!(effective_file_history_length(0), (None, None));
    let mut warning = None;
    append_config_warning(&mut warning, None);
    assert!(warning.is_none());
    append_config_warning(&mut warning, Some("a".into()));
    append_config_warning(&mut warning, Some("b".into()));
    assert_eq!(warning.as_deref(), Some("a; b"));
}

#[test]
fn spacing_fields_resolve_cli_then_env_then_config_then_default() {
    let b = |v: f64| Some(v.to_bits());
    assert_eq!(resolve_spacing(b(8.0), b(9.0), b(10.0), 50f64.to_bits()), 8f64.to_bits());
    assert_eq!(resolve_spacing(None, b(9.0), b(10.0), 50f64.to_bits()), 9f64.to_bits());
    assert_eq!(resolve_spacing(None, None, b(10.0), 50f64.to_bits()), 10f64.to_bits());
    assert_eq!(resolve_spacing(None, None, None, 50f64.to_bits()), 50f64.to_bits());
    let o = resolve_mermaid_options((b(8.0), None, None), (None, b(15.0), None), (None, None, None));
    assert_eq!(f64::from_bits(o.node_spacing_bits), 8.0);
    assert_eq!(f64::from_bits(o.rank_spacing_bits), 15.0);
    assert_eq!(f64::from_bits(o.edge_spacing_bits), 20.0);
}

#[test]
fn spacing_resolution_is_per_field_and_lenient() {
    // Configuration: node-spacing=8, rank-spacing=15.5, edge-spacing='bad'.
    let config = (spacing("8"), spacing("15.5"), None);
    let result = resolve_mermaid_options((None, spacing("30"), None), (spacing("9"), spacing("NaN"), None), config);
    assert_eq!(
        (
            f64::from_bits(result.node_spacing_bits),
            f64::from_bits(result.rank_spacing_bits),
            f64::from_bits(result.edge_spacing_bits)
        ),
        (9.0, 30.0, 20.0)
    );
    // Configuration: node-spacing=nan, rank-spacing=-1, edge-spacing=501.
    let config = (spacing("nan"), spacing("-1"), spacing("501"));
    assert_eq!(config, (None, None, None));
    assert_eq!(resolve_mermaid_options((None, None, None), (None, None, None), config), MermaidOptions::configured_default());
    let compact = MermaidOptions::compact();
    assert_eq!(
        (
            f64::from_bits(compact.node_spacing_bits),
            f64::from_bits(compact.rank_spacing_bits),
            f64::from_bits(compact.edge_spacing_bits)
        ),
        (8.0, 15.0, 8.0)
    );
}

#[test]
fn accepted_option_sets_keep_the_combination_rules() {
    let o = parse(&["leaf", "--inline", "plain", "--mermaid-full"]).unwrap();
    assert!(o.mermaid_full && o.inline.is_some() && !o.watch && !o.picker && !o.fuzzy);
    assert_eq!(parse(&["leaf", "--mermaid-full"]).unwrap_err(), "--mermaid-full requires --inline");
    assert!(parse(&["leaf", "--mermaid-full", "--help"]).unwrap().print_help);
    assert_eq!(parse(&["leaf", "--inline", "--watch"]).unwrap_err(), "--inline cannot be combined with --watch");
    assert_eq!(parse(&["leaf", "--last", "a.md"]).unwrap_err(), "--last cannot be combined with a file argument");
    assert_eq!(parse(&["leaf", "--update", "--watch"]).unwrap_err(), "--update must be used on its own");
    let u = parse(&["leaf", "--update"]).unwrap();
    assert!(u.update && !u.watch && u.file_arg.is_none() && u.config.is_none());
    let l = parse(&["leaf", "--last"]).unwrap();
    assert!(l.last && l.file_arg.is_none() && !l.picker && !l.fuzzy);
}
