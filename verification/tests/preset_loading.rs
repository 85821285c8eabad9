use rusty_wire::band_presets::{
    load_named_presets, load_preset_selection, normalize_preset_tokens, BandPresetFile,
};

const PATH: &str = "/home/op/.config/rusty-wire/bands.toml";

fn file(entries: &[(&str, &[&str])]) -> BandPresetFile {
    BandPresetFile {
        presets: Some(
            entries
                .iter()
                .map(|(name, tokens)| {
                    (
                        name.to_string(),
                        tokens.iter().map(|t| t.to_string()).collect::<Vec<String>>(),
                    )
                })
                .collect(),
        ),
    }
}

#[test]
fn load_preset_selection_reads_known_preset() {
    let f = file(&[("portable", &["40m", "20m", "15m", "10m"])]);
    let result = load_preset_selection(&f, PATH, "portable").expect("preset should load");
    assert_eq!(result, "40m,20m,15m,10m");
}

#[test]
fn load_preset_selection_supports_case_insensitive_lookup() {
    let f = file(&[("PortableDX", &["80m-10m"])]);
    let result = load_preset_selection(&f, PATH, "portabledx").expect("preset should load");
    assert_eq!(result, "80m-10m");
}

#[test]
fn load_preset_selection_rejects_unknown_preset() {
    let f = file(&[("portable", &["40m", "20m"])]);
    let err = load_preset_selection(&f, PATH, "unknown").expect_err("unknown preset should fail");
    assert!(err.contains("Available presets"));
}

#[test]
fn load_named_presets_returns_sorted_normalized_entries() {
    let f = file(&[("zulu", &["40m", "20m"]), ("Alpha", &[" 80m-10m "])]);
    let presets = load_named_presets(&f, PATH).expect("named presets should load");
    assert_eq!(
        presets,
        vec![
            ("Alpha".to_string(), "80m-10m".to_string()),
            ("zulu".to_string(), "40m,20m".to_string()),
        ]
    );
}

// ---------------------------------------------------------------------------
// Further cases
// ---------------------------------------------------------------------------

#[test]
fn file_without_preset_table_is_an_error() {
    let f = BandPresetFile { presets: None };
    let expected = format!("bands config '{PATH}' does not define a [presets] table");
    assert_eq!(load_preset_selection(&f, PATH, "portable"), Err(expected.clone()));
    assert_eq!(load_named_presets(&f, PATH), Err(expected));
}

#[test]
fn empty_preset_name_is_an_error() {
    let f = file(&[("portable", &["40m"])]);
    assert_eq!(
        load_preset_selection(&f, PATH, "   "),
        Err("preset name cannot be empty".to_string())
    );
}

#[test]
fn exact_name_wins_over_case_insensitive_match() {
    let f = file(&[("dx", &["20m"]), ("DX", &["40m"])]);
    assert_eq!(load_preset_selection(&f, PATH, "DX"), Ok("40m".to_string()));
    assert_eq!(load_preset_selection(&f, PATH, " dx "), Ok("20m".to_string()));
    assert_eq!(load_preset_selection(&f, PATH, "Dx"), Ok("20m".to_string()));
}

#[test]
fn unknown_preset_lists_names_in_ascending_order() {
    let f = file(&[("zulu", &["40m"]), ("Alpha", &["20m"]), ("mike", &["15m"])]);
    assert_eq!(
        load_preset_selection(&f, PATH, "x"),
        Err(format!(
            "unknown preset 'x' in '{PATH}'. Available presets: Alpha, mike, zulu"
        ))
    );
}

#[test]
fn preset_token_errors_name_the_preset() {
    let name = "portable";
    assert_eq!(
        normalize_preset_tokens(&[], name, PATH),
        Err(format!("preset 'portable' in '{PATH}' has no band entries"))
    );
    assert_eq!(
        normalize_preset_tokens(&[" ".to_string(), String::new()], name, PATH),
        Err(format!("preset 'portable' in '{PATH}' has only empty band entries"))
    );
    assert_eq!(
        normalize_preset_tokens(&[" 40m".to_string(), "".to_string(), "20m ".to_string()], name, PATH),
        Ok("40m,20m".to_string())
    );
}

#[test]
fn named_presets_fail_on_an_empty_preset() {
    let f = file(&[("ok", &["40m"]), ("empty", &[])]);
    assert_eq!(
        load_named_presets(&f, PATH),
        Err(format!("preset 'empty' in '{PATH}' has no band entries"))
    );
}
