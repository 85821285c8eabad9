use rusty_wire::app::{
    band_label_for_index, parse_band_selection, recommended_transformer_ratio_fallback_message,
    AntennaModel, CalcMode, ExportFormat, UnitSystem,
};
use rusty_wire::app::parse_single_band_token;
use rusty_wire::bands::{ITURegion, ALL_REGIONS, BAND_COUNT};
use rusty_wire::calculations::{GroundClass, TransformerRatio};
use rusty_wire::cli::{band_source, BandSource};
use rusty_wire::cli::{
    antenna_height_prompt_text, antenna_model_prompt_text, antenna_summary, bands_csv,
    export_summary,
    calc_mode_prompt_text, prompt_antenna_height_with_default,
    display_units_prompt_text, ground_class_prompt_text, itu_region_prompt_text,
    mode_option_name, parse_export_choices, prompt_antenna_model_with_default,
    prompt_calc_mode_with_default, prompt_display_units_with_default,
    prompt_ground_class_with_default, prompt_itu_region, prompt_transformer_ratio_with_default,
    shell_quote, transformer_ratio_prompt_text, units_summary, CliTransformerSelection,
};

#[test]
fn prompt_antenna_model_accepts_inverted_v_alias() {
    let model = prompt_antenna_model_with_default("invv\n", None);
    assert_eq!(model, Some(AntennaModel::InvertedVDipole));
}

#[test]
fn cli_transformer_selection_recommended_resolves_by_mode_and_antenna() {
    assert_eq!(
        CliTransformerSelection::Recommended.resolve(CalcMode::Resonant, None),
        TransformerRatio::R1To1
    );
    assert_eq!(
        CliTransformerSelection::Recommended.resolve(CalcMode::NonResonant, None),
        TransformerRatio::R1To9
    );
    assert_eq!(
        CliTransformerSelection::Recommended
            .resolve(CalcMode::Resonant, Some(AntennaModel::EndFedHalfWave)),
        TransformerRatio::R1To56
    );
}

#[test]
fn prompt_transformer_ratio_accepts_recommended_keyword() {
    let (ratio, _) = prompt_transformer_ratio_with_default(
        "recommended\n",
        CalcMode::Resonant,
        Some(AntennaModel::EndFedHalfWave),
        None,
    );
    assert_eq!(ratio, TransformerRatio::R1To56);
}

#[test]
fn prompt_transformer_ratio_invalid_value_falls_back_to_recommended_with_message() {
    let (ratio, message) =
        prompt_transformer_ratio_with_default("1:13\n", CalcMode::NonResonant, None, None);

    assert_eq!(ratio, TransformerRatio::R1To9);
    let rendered = message.expect("an unknown ratio gets a message");
    assert!(rendered.contains(&recommended_transformer_ratio_fallback_message(
        CalcMode::NonResonant,
        None,
    )));
}

#[test]
fn parse_band_selection_supports_band_names_and_ranges() {
    let parsed = parse_band_selection("10m-15m,30m,60m-80m", ITURegion::Region1)
        .expect("expected valid named/range selection");

    assert_eq!(parsed, vec![10, 9, 8, 5, 3, 2]);
}

#[test]
fn parse_band_selection_rejects_numeric_indices() {
    let err = parse_band_selection("4,6,10", ITURegion::Region1).unwrap_err();
    assert!(err.message().contains("unknown band"));
}

#[test]
fn parse_band_selection_rejects_unknown_band_name() {
    let err = parse_band_selection("banana", ITURegion::Region1).unwrap_err();
    assert!(err.message().contains("unknown band"));
}

#[test]
fn prompt_calc_mode_empty_with_non_resonant_default_returns_non_resonant() {
    let mode = prompt_calc_mode_with_default("\n", Some(CalcMode::NonResonant));

    assert_eq!(mode, CalcMode::NonResonant);
    let rendered = calc_mode_prompt_text(Some(CalcMode::NonResonant)).concat();
    assert!(rendered.contains("[2]: "));
}

#[test]
fn prompt_calc_mode_unknown_input_falls_back_to_resonant() {
    let mode = prompt_calc_mode_with_default("xyz\n", None);
    assert_eq!(mode, CalcMode::Resonant);
}

#[test]
fn prompt_ground_class_poor_is_accepted() {
    let gc = prompt_ground_class_with_default("poor\n", None);
    assert_eq!(gc, GroundClass::Poor);
}

#[test]
fn prompt_ground_class_average_is_accepted() {
    let gc = prompt_ground_class_with_default("average\n", None);
    assert_eq!(gc, GroundClass::Average);
}

#[test]
fn prompt_ground_class_unknown_input_falls_back_to_default() {
    let gc = prompt_ground_class_with_default("swamp\n", Some(GroundClass::Poor));
    assert_eq!(gc, GroundClass::Poor);
}

#[test]
fn prompt_display_units_empty_uses_default_value() {
    let units =
        prompt_display_units_with_default("\n", UnitSystem::Both, Some(UnitSystem::Metric));

    assert_eq!(units, UnitSystem::Metric);
    let rendered = display_units_prompt_text(Some(UnitSystem::Metric));
    assert!(rendered.contains("Select display units (m/ft/both) [m]: "));
}

#[test]
fn prompt_display_units_accepts_both_keyword() {
    let units = prompt_display_units_with_default("both\n", UnitSystem::Metric, None);
    assert_eq!(units, UnitSystem::Both);
}

#[test]
fn prompt_display_units_unknown_input_falls_back_to_auto_units() {
    let units = prompt_display_units_with_default("yards\n", UnitSystem::Imperial, None);
    assert_eq!(units, UnitSystem::Imperial);
}

#[test]
fn prompt_itu_region_accepts_region_three() {
    let (region, _) = prompt_itu_region("3\n");
    assert_eq!(region, ITURegion::Region3);
}

#[test]
fn prompt_itu_region_invalid_input_falls_back_to_default() {
    let (region, message) = prompt_itu_region("9\n");

    assert_eq!(region, ITURegion::Region1);
    let rendered = message.expect("an unknown region gets a message");
    assert!(rendered.contains("Invalid region. Using default Region 1."));
}

#[test]
fn prompt_antenna_model_accepts_trap_short_alias() {
    let model = prompt_antenna_model_with_default("t\n", None);
    assert_eq!(model, Some(AntennaModel::TrapDipole));
}

#[test]
fn prompt_antenna_model_accepts_trap_word_alias() {
    let model = prompt_antenna_model_with_default("trap\n", None);
    assert_eq!(model, Some(AntennaModel::TrapDipole));
}

#[test]
fn prompt_antenna_model_unknown_input_falls_back_to_default() {
    let model = prompt_antenna_model_with_default("yagi\n", Some(AntennaModel::Dipole));
    assert_eq!(model, Some(AntennaModel::Dipole));
}

#[test]
fn print_equivalent_cli_call_uses_band_labels() {
    assert_eq!(bands_csv(&[4, 6, 10], ITURegion::Region1), "40m,20m,10m");
}

#[test]
fn interactive_export_prompt_rejects_unknown_format() {
    assert_eq!(
        parse_export_choices("yaml\n"),
        Err("unknown format 'yaml'; skipping export.".to_string())
    );
}

#[test]
fn interactive_export_prompt_requires_at_least_one_format_when_only_commas() {
    assert_eq!(
        parse_export_choices(" , , \n"),
        Err("--export requires at least one format; skipping export.".to_string())
    );
}

#[test]
fn interactive_export_prompt_none_returns_empty_without_errors() {
    assert_eq!(parse_export_choices("none\n"), Ok(vec![]));
    assert_eq!(parse_export_choices("\n"), Ok(vec![]));
}

#[test]
fn interactive_export_prompt_deduplicates_alias_formats_in_input_order() {
    assert_eq!(
        parse_export_choices("md,text,markdown,txt,text\n"),
        Ok(vec![ExportFormat::Markdown, ExportFormat::Txt])
    );
    assert_eq!(
        parse_export_choices("CSV, json\n"),
        Ok(vec![ExportFormat::Csv, ExportFormat::Json])
    );
}

#[test]
fn interactive_export_prompt_mixed_valid_and_invalid_formats_aborts_export() {
    assert_eq!(
        parse_export_choices("csv,yaml\n"),
        Err("unknown format 'yaml'; skipping export.".to_string())
    );
}

// ---------------------------------------------------------------------------
// Further cases
// ---------------------------------------------------------------------------

#[test]
fn prompt_texts_show_defaults() {
    assert_eq!(
        calc_mode_prompt_text(None).concat(),
        "\nCalculation mode:\n  1) Resonant (default)\n  2) Non-resonant\nSelect calculation mode (1-2) [1]: "
    );
    assert!(antenna_model_prompt_text(Some(AntennaModel::EndFedHalfWave))
        .concat()
        .ends_with("Select antenna model (d/e/l/v/o/t) [e]: "));
    assert_eq!(
        ground_class_prompt_text(Some(GroundClass::Good)),
        "Ground class (poor/average/good) [good]: "
    );
    assert_eq!(
        transformer_ratio_prompt_text(Some("1:49")),
        "Enter transformer ratio (e.g. 1:9, recommended) [1:49]: "
    );
    assert_eq!(
        transformer_ratio_prompt_text(None),
        "Enter transformer ratio (e.g. 1:9, recommended) [recommended]: "
    );
    assert_eq!(display_units_prompt_text(None), "Select display units (m/ft/both) [both]: ");
    assert_eq!(
        itu_region_prompt_text().concat(),
        "\nITU Regions:\n  1) Region Europe, Africa, Middle East (default)\n  2) Region Americas\n  3) Region Asia-Pacific\nSelect region (1/2/3, Enter for 1): "
    );
}

#[test]
fn blank_answers_keep_defaults() {
    assert_eq!(prompt_calc_mode_with_default("", None), CalcMode::Resonant);
    assert_eq!(
        prompt_antenna_model_with_default("  \n", Some(AntennaModel::FullWaveLoop)),
        Some(AntennaModel::FullWaveLoop)
    );
    assert_eq!(prompt_antenna_model_with_default("\n", None), None);
    assert_eq!(prompt_ground_class_with_default("\n", None), GroundClass::Average);
    assert_eq!(
        prompt_transformer_ratio_with_default("\n", CalcMode::Resonant, None, Some("1:49")),
        (TransformerRatio::R1To49, None)
    );
    assert_eq!(
        prompt_display_units_with_default("\n", UnitSystem::Imperial, None),
        UnitSystem::Imperial
    );
    assert_eq!(prompt_itu_region("\n"), (ITURegion::Region1, None));
}

#[test]
fn ground_class_answer_ignores_case() {
    assert_eq!(prompt_ground_class_with_default("GOOD\n", None), GroundClass::Good);
}

#[test]
fn summaries_use_option_names() {
    assert_eq!(antenna_summary(None), "all models");
    assert_eq!(antenna_summary(Some(AntennaModel::HybridMultiSection)), "hybrid-multi");
    assert_eq!(units_summary(UnitSystem::Imperial), "ft");
    assert_eq!(mode_option_name(CalcMode::NonResonant), "non-resonant");
    for m in [CalcMode::Resonant, CalcMode::NonResonant] {
        assert_eq!(CalcMode::parse(mode_option_name(m)), Ok(m));
    }
    for u in [UnitSystem::Metric, UnitSystem::Imperial, UnitSystem::Both] {
        assert_eq!(UnitSystem::parse(units_summary(u)), Ok(u));
    }
    assert_eq!(
        AntennaModel::parse(antenna_summary(Some(AntennaModel::TrapDipole))),
        Ok(AntennaModel::TrapDipole)
    );
    assert_eq!(
        ExportFormat::parse(ExportFormat::Html.as_str()),
        Ok(ExportFormat::Html)
    );
    assert_eq!(ITURegion::parse(ITURegion::Region2.short_name()), Ok(ITURegion::Region2));
}

#[test]
fn fixed_transformer_selection_keeps_its_ratio() {
    assert_eq!(
        CliTransformerSelection::R1To4.resolve(CalcMode::NonResonant, None),
        TransformerRatio::R1To4
    );
}

#[test]
fn shell_quote_leaves_safe_words_and_quotes_the_rest() {
    assert_eq!(shell_quote("results/out-1.csv"), "results/out-1.csv");
    assert_eq!(shell_quote("40m,20m"), "'40m,20m'");
    assert_eq!(shell_quote("my file.csv"), "'my file.csv'");
    assert_eq!(shell_quote("it's"), "'it'\\''s'");
    assert_eq!(shell_quote(""), "''");
}

#[test]
fn band_labels_select_their_bands() {
    let csv = bands_csv(&[11, 2, 17], ITURegion::Region2);
    assert_eq!(csv, "120m,80m,25m");
    assert_eq!(parse_band_selection(&csv, ITURegion::Region2), Ok(vec![11, 2, 17]));
    assert_eq!(band_label_for_index(21, ITURegion::Region3), "13m");
}

#[test]
fn every_band_label_resolves_to_its_band() {
    for region in ALL_REGIONS {
        let all: Vec<usize> = (1..=BAND_COUNT).collect();
        for &index in &all {
            let label = band_label_for_index(index, region);
            assert_eq!(parse_single_band_token(&label, region), Ok(index));
        }
        assert_eq!(parse_band_selection(&bands_csv(&all, region), region), Ok(all.clone()));
    }
}

#[test]
fn prompt_antenna_height_valid_seven_is_accepted() {
    assert_eq!(prompt_antenna_height_with_default("7\n", None), 7);
}

#[test]
fn prompt_antenna_height_invalid_input_falls_back_to_default() {
    assert_eq!(prompt_antenna_height_with_default("rooftop\n", Some(10)), 10);
    assert_eq!(prompt_antenna_height_with_default("\n", Some(12)), 12);
    assert_eq!(prompt_antenna_height_with_default("11\n", None), 10);
}

#[test]
fn antenna_height_prompt_shows_default() {
    assert_eq!(antenna_height_prompt_text(None), "Antenna height in meters (7/10/12) [10]: ");
    assert_eq!(antenna_height_prompt_text(Some(12)), "Antenna height in meters (7/10/12) [12]: ");
}

#[test]
fn export_summary_names_the_files() {
    assert_eq!(export_summary(&[], None, &[]), "none");
    assert_eq!(
        export_summary(&[ExportFormat::Csv], None, &["results.csv".to_string()]),
        "csv -> results.csv"
    );
    assert_eq!(
        export_summary(&[ExportFormat::Csv], Some("out.csv"), &["results.csv".to_string()]),
        "csv -> out.csv"
    );
    let names = vec!["results.csv".to_string(), "results.json".to_string()];
    assert_eq!(
        export_summary(&[ExportFormat::Csv, ExportFormat::Json], None, &names),
        "csv -> results.csv, json -> results.json"
    );
    assert_eq!(
        export_summary(&[ExportFormat::Csv, ExportFormat::Json], Some("x"), &names),
        "csv -> results.csv, json -> results.json (--output ignored for multiple formats)"
    );
}

#[test]
fn shell_quote_examples() {
    assert_eq!(shell_quote("non-resonant"), "non-resonant");
    assert_eq!(shell_quote("1:1"), "'1:1'");
    assert_eq!(shell_quote("a b"), "'a b'");
}

#[test]
fn bands_and_preset_exclude_each_other() {
    assert_eq!(
        band_source(Some("40m"), Some("dx")),
        Err("--bands and --bands-preset are mutually exclusive; use one or the other.".to_string())
    );
    assert_eq!(band_source(Some("40m"), None), Ok(BandSource::Selection("40m".to_string())));
    assert_eq!(band_source(None, Some("dx")), Ok(BandSource::Preset("dx".to_string())));
    assert_eq!(band_source(None, None), Ok(BandSource::DefaultSet));
}
