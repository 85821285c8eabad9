use rusty_wire::tui_cli::{parse_band_config_arg, tui_help_text, TuiCommand};

#[test]
fn parse_band_config_accepts_explicit_path() {
    let args = vec!["--bands-config".to_string(), "./profiles/bands.toml".to_string()];
    let parsed = parse_band_config_arg(&args).expect("flag should parse");
    assert_eq!(
        parsed,
        TuiCommand::Run { bands_config: Some("./profiles/bands.toml".to_string()) }
    );
}

#[test]
fn parse_band_config_rejects_missing_path() {
    let args = vec!["--bands-config".to_string()];
    let err = parse_band_config_arg(&args).expect_err("missing value should fail");
    assert!(err.contains("requires a path"));
}

#[test]
fn parse_band_config_rejects_unknown_flag() {
    let args = vec!["--wat".to_string()];
    let err = parse_band_config_arg(&args).expect_err("unknown flag should fail");
    assert!(err.contains("unknown TUI argument"));
    assert_eq!(err, "unknown TUI argument '--wat'. Supported: --bands-config <path>");
}

#[test]
fn no_arguments_start_without_alternate_file() {
    assert_eq!(parse_band_config_arg(&[]), Ok(TuiCommand::Run { bands_config: None }));
}

#[test]
fn help_flag_asks_for_help() {
    assert_eq!(parse_band_config_arg(&["-h".to_string()]), Ok(TuiCommand::ShowHelp));
    assert_eq!(
        parse_band_config_arg(&["--bands-config".to_string(), "a.toml".to_string(), "--help".to_string()]),
        Ok(TuiCommand::ShowHelp)
    );
    assert!(tui_help_text().starts_with("Rusty Wire TUI\n\nUsage:"));
}

#[test]
fn last_bands_config_counts() {
    let args: Vec<String> = ["--bands-config", "a.toml", "--bands-config", "b.toml"]
        .iter()
        .map(|s| s.to_string())
        .collect();
    assert_eq!(
        parse_band_config_arg(&args),
        Ok(TuiCommand::Run { bands_config: Some("b.toml".to_string()) })
    );
}
