use rusty_wire::app::{
    antenna_model_summary_label, band_label_for_index, band_listing_display_lines,
    band_listing_view, default_band_selection, non_resonant_recommendation_heading,
    non_resonant_recommendation_unavailable_message, overview_heading, parse_band_selection,
    recommended_transformer_ratio, recommended_transformer_ratio_fallback_message,
    resonant_compromise_narrative, results_section_layout, skipped_band_details,
    skipped_band_warning, transformer_mismatch_warning, transformer_ratio_explanation, AntennaModel,
    AppError, CalcMode, ExportFormat, UnitSystem, DEFAULT_BAND_SELECTION,
};
use rusty_wire::app::{band_figures, partition_band_selection, BandFigure};
use rusty_wire::bands::ITURegion;
use rusty_wire::calculations::TransformerRatio;

// ---------------------------------------------------------------------------
// Application vocabulary (first copy of the application module's tests)
// ---------------------------------------------------------------------------

#[test]
fn app_calc_mode_enum_values() {
    let resonant = CalcMode::Resonant;
    let non_resonant = CalcMode::NonResonant;

    assert!(resonant == CalcMode::Resonant);
    assert!(non_resonant == CalcMode::NonResonant);
    assert!(resonant != non_resonant);
}

#[test]
fn app_export_format_as_str() {
    assert_eq!(ExportFormat::Csv.as_str(), "csv");
    assert_eq!(ExportFormat::Json.as_str(), "json");
    assert_eq!(ExportFormat::Markdown.as_str(), "markdown");
    assert_eq!(ExportFormat::Txt.as_str(), "txt");
}

#[test]
fn app_unit_system_enum_values() {
    let metric = UnitSystem::Metric;
    let imperial = UnitSystem::Imperial;
    let both = UnitSystem::Both;

    assert!(metric == UnitSystem::Metric);
    assert!(imperial == UnitSystem::Imperial);
    assert!(both == UnitSystem::Both);
}

#[test]
fn app_recommended_transformer_ratio_defaults_by_mode() {
    assert_eq!(
        recommended_transformer_ratio(CalcMode::Resonant, None),
        TransformerRatio::R1To1
    );
    assert_eq!(
        recommended_transformer_ratio(CalcMode::NonResonant, None),
        TransformerRatio::R1To9
    );
}

#[test]
fn app_recommended_transformer_ratio_matches_antenna_model() {
    assert_eq!(
        recommended_transformer_ratio(CalcMode::Resonant, Some(AntennaModel::Dipole)),
        TransformerRatio::R1To1
    );
    assert_eq!(
        recommended_transformer_ratio(CalcMode::Resonant, Some(AntennaModel::InvertedVDipole)),
        TransformerRatio::R1To1
    );
    assert_eq!(
        recommended_transformer_ratio(CalcMode::Resonant, Some(AntennaModel::FullWaveLoop)),
        TransformerRatio::R1To1
    );
    assert_eq!(
        recommended_transformer_ratio(CalcMode::Resonant, Some(AntennaModel::EndFedHalfWave)),
        TransformerRatio::R1To56
    );
    assert_eq!(
        recommended_transformer_ratio(CalcMode::Resonant, Some(AntennaModel::OffCenterFedDipole)),
        TransformerRatio::R1To4
    );
}

#[test]
fn app_recommended_transformer_ratio_fallback_message_is_stable() {
    let msg = recommended_transformer_ratio_fallback_message(
        CalcMode::Resonant,
        Some(AntennaModel::EndFedHalfWave),
    );
    assert_eq!(msg, "Unknown ratio. Using recommended 1:56.");
}

#[test]
fn app_parse_band_selection_supports_names_and_ranges() {
    let parsed = parse_band_selection("40m,20m,17m-12m", ITURegion::Region1)
        .expect("expected band selection to parse");

    assert_eq!(parsed, vec![4, 6, 7, 8, 9]);
}

#[test]
fn app_parse_band_selection_rejects_unknown_names() {
    let err = parse_band_selection("40m,foobar", ITURegion::Region1)
        .expect_err("expected unknown band selection to fail");

    assert!(err.message().contains("unknown band 'foobar'"));
}

#[test]
fn app_band_label_for_index_returns_short_name() {
    assert_eq!(band_label_for_index(4, ITURegion::Region1), "40m");
    assert_eq!(band_label_for_index(11, ITURegion::Region1), "120m");
}

#[test]
fn app_non_resonant_recommendation_messages_are_stable() {
    assert_eq!(
        non_resonant_recommendation_heading(),
        "Best non-resonant wire length for selected bands:"
    );
    assert_eq!(
        non_resonant_recommendation_unavailable_message(),
        "No non-resonant recommendation available for the current selection."
    );
}

#[test]
fn app_transformer_ratio_explanation_efhw_returns_correct_ratio_and_reason() {
    let expl =
        transformer_ratio_explanation(CalcMode::Resonant, Some(AntennaModel::EndFedHalfWave));
    assert_eq!(expl.ratio, TransformerRatio::R1To56);
    assert!(expl.reason.contains("49") || expl.reason.contains("56"));
}

#[test]
fn app_transformer_ratio_explanation_resonant_no_model_uses_1to1() {
    let expl = transformer_ratio_explanation(CalcMode::Resonant, None);
    assert_eq!(expl.ratio, TransformerRatio::R1To1);
    assert!(!expl.reason.is_empty());
}

#[test]
fn app_transformer_ratio_explanation_non_resonant_no_model_uses_1to9() {
    let expl = transformer_ratio_explanation(CalcMode::NonResonant, None);
    assert_eq!(expl.ratio, TransformerRatio::R1To9);
    assert!(expl.reason.contains("1:9"));
}

#[test]
fn app_band_listing_view_region1_has_rows() {
    let view = band_listing_view(ITURegion::Region1);
    assert!(!view.rows.is_empty());
    assert_eq!(view.region_short_name, "1");
    assert!(view.region_long_name.contains("Europe"));
}

#[test]
fn app_band_listing_display_lines_contains_band_name() {
    let view = band_listing_view(ITURegion::Region1);
    let lines = band_listing_display_lines(&view);
    let combined = lines.join("\n");
    assert!(combined.contains("40m"), "expected 40m in band listing");
    assert!(combined.contains("Region 1"), "expected region header");
}

#[test]
fn app_band_listing_row_indices_are_one_based() {
    let view = band_listing_view(ITURegion::Region1);
    assert_eq!(view.rows[0].index, 1);
    for (i, row) in view.rows.iter().enumerate() {
        assert_eq!(row.index, i + 1);
    }
}

// ---------------------------------------------------------------------------
// Second copy of the application module's tests
// ---------------------------------------------------------------------------

#[test]
fn mod_calc_mode_enum_values() {
    let resonant = CalcMode::Resonant;
    let non_resonant = CalcMode::NonResonant;

    assert!(resonant == CalcMode::Resonant);
    assert!(non_resonant == CalcMode::NonResonant);
    assert!(resonant != non_resonant);
}

#[test]
fn mod_export_format_as_str() {
    assert_eq!(ExportFormat::Csv.as_str(), "csv");
    assert_eq!(ExportFormat::Json.as_str(), "json");
    assert_eq!(ExportFormat::Markdown.as_str(), "markdown");
    assert_eq!(ExportFormat::Txt.as_str(), "txt");
}

#[test]
fn mod_unit_system_enum_values() {
    let metric = UnitSystem::Metric;
    let imperial = UnitSystem::Imperial;
    let both = UnitSystem::Both;

    assert!(metric == UnitSystem::Metric);
    assert!(imperial == UnitSystem::Imperial);
    assert!(both == UnitSystem::Both);
}

#[test]
fn mod_recommended_transformer_ratio_defaults_by_mode() {
    assert_eq!(
        recommended_transformer_ratio(CalcMode::Resonant, None),
        TransformerRatio::R1To1
    );
    assert_eq!(
        recommended_transformer_ratio(CalcMode::NonResonant, None),
        TransformerRatio::R1To9
    );
}

#[test]
fn mod_recommended_transformer_ratio_matches_antenna_model() {
    assert_eq!(
        recommended_transformer_ratio(CalcMode::Resonant, Some(AntennaModel::Dipole)),
        TransformerRatio::R1To1
    );
    assert_eq!(
        recommended_transformer_ratio(CalcMode::Resonant, Some(AntennaModel::InvertedVDipole)),
        TransformerRatio::R1To1
    );
    assert_eq!(
        recommended_transformer_ratio(CalcMode::Resonant, Some(AntennaModel::FullWaveLoop)),
        TransformerRatio::R1To1
    );
    assert_eq!(
        recommended_transformer_ratio(CalcMode::Resonant, Some(AntennaModel::EndFedHalfWave)),
        TransformerRatio::R1To56
    );
    assert_eq!(
        recommended_transformer_ratio(CalcMode::Resonant, Some(AntennaModel::OffCenterFedDipole)),
        TransformerRatio::R1To4
    );
}

#[test]
fn mod_recommended_transformer_ratio_fallback_message_is_stable() {
    let msg = recommended_transformer_ratio_fallback_message(
        CalcMode::Resonant,
        Some(AntennaModel::EndFedHalfWave),
    );
    assert_eq!(msg, "Unknown ratio. Using recommended 1:56.");
}

#[test]
fn mod_parse_band_selection_supports_names_and_ranges() {
    let parsed = parse_band_selection("40m,20m,17m-12m", ITURegion::Region1)
        .expect("expected band selection to parse");

    assert_eq!(parsed, vec![4, 6, 7, 8, 9]);
}

#[test]
fn mod_parse_band_selection_rejects_unknown_names() {
    let err = parse_band_selection("40m,foobar", ITURegion::Region1)
        .expect_err("expected unknown band selection to fail");

    assert!(err.message().contains("unknown band 'foobar'"));
}

#[test]
fn mod_band_label_for_index_returns_short_name() {
    assert_eq!(band_label_for_index(4, ITURegion::Region1), "40m");
    assert_eq!(band_label_for_index(11, ITURegion::Region1), "120m");
}

#[test]
fn mod_non_resonant_recommendation_messages_are_stable() {
    assert_eq!(
        non_resonant_recommendation_heading(),
        "Best non-resonant wire length for selected bands:"
    );
    assert_eq!(
        non_resonant_recommendation_unavailable_message(),
        "No non-resonant recommendation available for the current selection."
    );
}

#[test]
fn mod_transformer_ratio_explanation_efhw_returns_correct_ratio_and_reason() {
    let expl =
        transformer_ratio_explanation(CalcMode::Resonant, Some(AntennaModel::EndFedHalfWave));
    assert_eq!(expl.ratio, TransformerRatio::R1To56);
    assert!(expl.reason.contains("49") || expl.reason.contains("56"));
}

#[test]
fn transformer_ratio_explanation_hybrid_multi_section_returns_1to1() {
    let expl = transformer_ratio_explanation(
        CalcMode::Resonant,
        Some(AntennaModel::HybridMultiSection),
    );
    assert_eq!(expl.ratio, TransformerRatio::R1To1);
    assert!(expl.reason.contains("1:1"));
}

#[test]
fn mod_transformer_ratio_explanation_resonant_no_model_uses_1to1() {
    let expl = transformer_ratio_explanation(CalcMode::Resonant, None);
    assert_eq!(expl.ratio, TransformerRatio::R1To1);
    assert!(!expl.reason.is_empty());
}

#[test]
fn mod_transformer_ratio_explanation_non_resonant_no_model_uses_1to9() {
    let expl = transformer_ratio_explanation(CalcMode::NonResonant, None);
    assert_eq!(expl.ratio, TransformerRatio::R1To9);
    assert!(expl.reason.contains("1:9"));
}

#[test]
fn mod_band_listing_view_region1_has_rows() {
    let view = band_listing_view(ITURegion::Region1);
    assert!(!view.rows.is_empty());
    assert_eq!(view.region_short_name, "1");
    assert!(view.region_long_name.contains("Europe"));
}

#[test]
fn mod_band_listing_display_lines_contains_band_name() {
    let view = band_listing_view(ITURegion::Region1);
    let lines = band_listing_display_lines(&view);
    let combined = lines.join("\n");
    assert!(combined.contains("40m"), "expected 40m in band listing");
    assert!(combined.contains("Region 1"), "expected region header");
}

#[test]
fn mod_band_listing_row_indices_are_one_based() {
    let view = band_listing_view(ITURegion::Region1);
    assert_eq!(view.rows[0].index, 1);
    for (i, row) in view.rows.iter().enumerate() {
        assert_eq!(row.index, i + 1);
    }
}

// ---------------------------------------------------------------------------
// Transformer explanations per antenna model
// ---------------------------------------------------------------------------

#[test]
fn transformer_ratio_explanation_dipole_returns_1to1() {
    let expl = transformer_ratio_explanation(CalcMode::Resonant, Some(AntennaModel::Dipole));
    assert_eq!(expl.ratio, TransformerRatio::R1To1);
    assert!(expl.reason.contains("50"));
    assert!(expl.reason.contains("1:1"));
}

#[test]
fn transformer_ratio_explanation_inverted_v_returns_1to1() {
    let expl =
        transformer_ratio_explanation(CalcMode::Resonant, Some(AntennaModel::InvertedVDipole));
    assert_eq!(expl.ratio, TransformerRatio::R1To1);
    assert!(expl.reason.contains("50"));
    assert!(expl.reason.contains("1:1"));
}

#[test]
fn transformer_ratio_explanation_trap_dipole_returns_1to1() {
    let expl = transformer_ratio_explanation(CalcMode::Resonant, Some(AntennaModel::TrapDipole));
    assert_eq!(expl.ratio, TransformerRatio::R1To1);
    assert!(expl.reason.contains("Trap"));
    assert!(expl.reason.contains("1:1"));
}

#[test]
fn transformer_ratio_explanation_full_wave_loop_returns_1to1() {
    let expl = transformer_ratio_explanation(CalcMode::Resonant, Some(AntennaModel::FullWaveLoop));
    assert_eq!(expl.ratio, TransformerRatio::R1To1);
    assert!(expl.reason.contains("100"));
    assert!(expl.reason.contains("choke"));
}

#[test]
fn transformer_ratio_explanation_ocfd_returns_1to4() {
    let expl = transformer_ratio_explanation(
        CalcMode::Resonant,
        Some(AntennaModel::OffCenterFedDipole),
    );
    assert_eq!(expl.ratio, TransformerRatio::R1To4);
    assert!(expl.reason.contains("200"));
    assert!(expl.reason.contains("1:4"));
}

// ---------------------------------------------------------------------------
// Further cases
// ---------------------------------------------------------------------------

#[test]
fn explanation_ratio_equals_recommendation_for_every_model() {
    let models = [
        None,
        Some(AntennaModel::Dipole),
        Some(AntennaModel::InvertedVDipole),
        Some(AntennaModel::EndFedHalfWave),
        Some(AntennaModel::FullWaveLoop),
        Some(AntennaModel::OffCenterFedDipole),
        Some(AntennaModel::TrapDipole),
        Some(AntennaModel::HybridMultiSection),
    ];
    for mode in [CalcMode::Resonant, CalcMode::NonResonant] {
        for model in models {
            assert_eq!(
                transformer_ratio_explanation(mode, model).ratio,
                recommended_transformer_ratio(mode, model)
            );
        }
    }
}

#[test]
fn non_resonant_mode_recommends_one_to_nine_for_plain_wire() {
    assert_eq!(
        recommended_transformer_ratio(CalcMode::NonResonant, None),
        TransformerRatio::R1To9
    );
    assert_eq!(
        recommended_transformer_ratio_fallback_message(CalcMode::NonResonant, None),
        "Unknown ratio. Using recommended 1:9."
    );
}

#[test]
fn mode_and_format_names_parse() {
    assert_eq!(CalcMode::parse("resonant"), Ok(CalcMode::Resonant));
    assert_eq!(CalcMode::parse("NON-RESONANT"), Ok(CalcMode::NonResonant));
    assert!(CalcMode::parse("sideways").is_err());
    assert_eq!(ExportFormat::parse("md"), Ok(ExportFormat::Markdown));
    assert_eq!(ExportFormat::parse("yml"), Ok(ExportFormat::Yaml));
    assert!(ExportFormat::parse("pdf").is_err());
    assert_eq!(UnitSystem::parse("imperial"), Ok(UnitSystem::Imperial));
    assert!(UnitSystem::parse("yards").is_err());
    assert_eq!(AntennaModel::parse("invv"), Ok(AntennaModel::InvertedVDipole));
    assert_eq!(AntennaModel::parse("multi-section"), Ok(AntennaModel::HybridMultiSection));
    assert!(AntennaModel::parse("yagi").is_err());
}

#[test]
fn parse_errors_carry_their_messages() {
    let err = CalcMode::parse("sideways").unwrap_err();
    assert_eq!(
        err.message(),
        "Invalid calculation mode: 'sideways' (must be 'resonant' or 'non-resonant')"
    );
    assert_eq!(
        AppError::EmptyBandSelection.message(),
        "empty selection; provide at least one band name."
    );
    assert_eq!(
        AppError::AllBandsSkipped.message(),
        "no valid bands for the selected ITU region"
    );
}

#[test]
fn empty_band_selection_is_an_error() {
    assert_eq!(
        parse_band_selection(" , ", ITURegion::Region1),
        Err(AppError::EmptyBandSelection)
    );
}

#[test]
fn band_selection_deduplicates_in_first_seen_order() {
    assert_eq!(
        parse_band_selection("20m,40m,20m,40m-30m", ITURegion::Region2),
        Ok(vec![6, 4, 5])
    );
    assert_eq!(
        parse_band_selection("12m-17m", ITURegion::Region1),
        Ok(vec![9, 8, 7])
    );
}

#[test]
fn default_band_selection_matches_constant() {
    assert_eq!(default_band_selection(), DEFAULT_BAND_SELECTION.to_vec());
}

#[test]
fn unknown_band_index_label_is_the_number() {
    assert_eq!(band_label_for_index(0, ITURegion::Region1), "0");
    assert_eq!(band_label_for_index(99, ITURegion::Region3), "99");
}

#[test]
fn skipped_bands_are_reported_in_order() {
    assert_eq!(skipped_band_warning(&[]), None);
    assert_eq!(
        skipped_band_warning(&[100, 0]),
        Some(
            "Warning: the following band selections were invalid and skipped: 100, 0"
                .to_string()
        )
    );
    let details = skipped_band_details(&[7, 3]);
    assert_eq!(details.len(), 2);
    assert_eq!(details[0].band_index, 7);
    assert_eq!(details[1].band_index, 3);
    assert_eq!(details[0].reason, "not available in the selected ITU region");
}

#[test]
fn mismatch_warning_only_for_a_different_ratio() {
    assert!(transformer_mismatch_warning(CalcMode::Resonant, None, TransformerRatio::R1To1).is_none());
    let w = transformer_mismatch_warning(
        CalcMode::Resonant,
        Some(AntennaModel::EndFedHalfWave),
        TransformerRatio::R1To9,
    )
    .expect("a different ratio gets a warning");
    assert!(w.message().contains("1:56"));
}

#[test]
fn section_layout_follows_mode_and_model() {
    let resonant = results_section_layout(CalcMode::Resonant, None);
    assert!(resonant.show_resonant_points);
    assert!(!resonant.show_non_resonant_recommendation);
    let non_resonant = results_section_layout(CalcMode::NonResonant, None);
    assert!(!non_resonant.show_resonant_points);
    assert!(non_resonant.show_non_resonant_recommendation);
}

#[test]
fn headings_and_labels() {
    assert_eq!(antenna_model_summary_label(None), "all");
    assert!(!overview_heading(CalcMode::Resonant).is_empty());
    let narrative = resonant_compromise_narrative(Some(AntennaModel::EndFedHalfWave));
    assert!(!narrative.heading.is_empty());
    assert_eq!(narrative.empty_message, "(none available in this window)");
}

#[test]
fn selection_splits_into_calculated_and_skipped_bands() {
    let (kept, skipped) = partition_band_selection(&[4, 0, 22, 6, 100], ITURegion::Region2);
    let kept_indices: Vec<usize> = kept.iter().map(|(i, _)| *i).collect();
    assert_eq!(kept_indices, vec![4, 6]);
    assert_eq!(kept[0].1.name, "40m");
    assert_eq!(kept[0].1.freq_high_hz, 7_300_000);
    assert_eq!(skipped, vec![0, 22, 100]);
}

#[test]
fn band_figures_follow_the_antenna_model() {
    assert_eq!(
        band_figures(Some(AntennaModel::Dipole)),
        vec![BandFigure::HalfWave, BandFigure::FullWave, BandFigure::QuarterWave]
    );
    assert_eq!(band_figures(Some(AntennaModel::EndFedHalfWave)), vec![BandFigure::EndFedHalfWave]);
    assert_eq!(
        band_figures(Some(AntennaModel::HybridMultiSection)),
        vec![BandFigure::HybridTotal, BandFigure::HybridSide, BandFigure::HybridSections]
    );
    let all = band_figures(None);
    assert_eq!(all.len(), 16);
    assert_eq!(all[15], BandFigure::HybridSectionsPerSide);
}

#[test]
fn every_reason_names_its_ratio() {
    let models = [
        None,
        Some(AntennaModel::Dipole),
        Some(AntennaModel::InvertedVDipole),
        Some(AntennaModel::EndFedHalfWave),
        Some(AntennaModel::FullWaveLoop),
        Some(AntennaModel::OffCenterFedDipole),
        Some(AntennaModel::TrapDipole),
        Some(AntennaModel::HybridMultiSection),
    ];
    for mode in [CalcMode::Resonant, CalcMode::NonResonant] {
        for model in models {
            let expl = transformer_ratio_explanation(mode, model);
            assert!(expl.reason.contains(expl.ratio.as_label()));
        }
    }
}

#[test]
fn blank_tokens_only_make_an_empty_selection() {
    assert_eq!(
        parse_band_selection(" ,\t, ", ITURegion::Region1),
        Err(AppError::EmptyBandSelection)
    );
    assert_eq!(parse_band_selection(" , 40m ,", ITURegion::Region1), Ok(vec![4]));
    assert!(matches!(
        parse_band_selection(",banana,", ITURegion::Region1),
        Err(AppError::InvalidBandSelection(_))
    ));
}
