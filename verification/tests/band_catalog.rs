use rusty_wire::bands::{
    get_band_by_index_for_region, get_bands_for_region, BandType, ITURegion, ALL_REGIONS,
    BAND_COUNT,
};
use rusty_wire::calculations::{GroundClass, TransformerRatio};

#[test]
fn itu_region_display() {
    assert_eq!(ITURegion::Region1.short_name(), "1");
    assert_eq!(ITURegion::Region2.short_name(), "2");
    assert_eq!(ITURegion::Region3.short_name(), "3");

    assert_eq!(ITURegion::Region1.long_name(), "Europe, Africa, Middle East");
    assert_eq!(ITURegion::Region2.long_name(), "Americas");
    assert_eq!(ITURegion::Region3.long_name(), "Asia-Pacific");
}

#[test]
fn band_type_display() {
    assert_eq!(BandType::HF.to_display_string(), "HF");
    assert_eq!(BandType::MF.to_display_string(), "MF");
}

#[test]
fn all_regions_constant() {
    assert_eq!(ALL_REGIONS.len(), 3);
    assert_eq!(ALL_REGIONS[0], ITURegion::Region1);
    assert_eq!(ALL_REGIONS[1], ITURegion::Region2);
    assert_eq!(ALL_REGIONS[2], ITURegion::Region3);
}

#[test]
fn transformer_ratio_labels() {
    assert_eq!(TransformerRatio::R1To1.as_label(), "1:1");
    assert_eq!(TransformerRatio::R1To2.as_label(), "1:2");
    assert_eq!(TransformerRatio::R1To16.as_label(), "1:16");
}

#[test]
fn transformer_ratio_parse_colon_format() {
    assert_eq!(TransformerRatio::parse("1:1"), Some(TransformerRatio::R1To1));
    assert_eq!(TransformerRatio::parse("1:2"), Some(TransformerRatio::R1To2));
    assert_eq!(TransformerRatio::parse("1:64"), Some(TransformerRatio::R1To64));
}

#[test]
fn transformer_ratio_parse_numeric_format() {
    assert_eq!(TransformerRatio::parse("1"), Some(TransformerRatio::R1To1));
    assert_eq!(TransformerRatio::parse("4"), Some(TransformerRatio::R1To4));
    assert_eq!(TransformerRatio::parse("64"), Some(TransformerRatio::R1To64));
}

#[test]
fn transformer_ratio_parse_invalid() {
    assert_eq!(TransformerRatio::parse("invalid"), None);
    assert_eq!(TransformerRatio::parse("1:3"), None);
    assert_eq!(TransformerRatio::parse("99"), None);
}

// ---------------------------------------------------------------------------
// Further cases
// ---------------------------------------------------------------------------

#[test]
fn every_ratio_label_parses_back() {
    let all = [
        TransformerRatio::R1To1,
        TransformerRatio::R1To2,
        TransformerRatio::R1To4,
        TransformerRatio::R1To5,
        TransformerRatio::R1To6,
        TransformerRatio::R1To9,
        TransformerRatio::R1To16,
        TransformerRatio::R1To49,
        TransformerRatio::R1To56,
        TransformerRatio::R1To64,
    ];
    for r in all {
        assert_eq!(TransformerRatio::parse(r.as_label()), Some(r));
        assert_eq!(TransformerRatio::parse(&format!("  {}\n", r.as_label())), Some(r));
    }
}

#[test]
fn ratio_impedance_factor() {
    assert_eq!(TransformerRatio::R1To1.impedance_ratio(), 1);
    assert_eq!(TransformerRatio::R1To49.impedance_ratio(), 49);
    assert_eq!(TransformerRatio::R1To64.impedance_ratio(), 64);
}

#[test]
fn ratio_parse_error_names_the_input() {
    assert_eq!(
        TransformerRatio::parse_or_error("1:3"),
        Err("Invalid transformer ratio '1:3'. Must be one of: 1:1, 1:2, 1:4, 1:5, 1:6, 1:9, 1:16, 1:49, 1:56, 1:64".to_string())
    );
    assert_eq!("1:9".parse::<TransformerRatio>(), Ok(TransformerRatio::R1To9));
}

#[test]
fn ground_class_labels() {
    assert_eq!(GroundClass::Poor.as_label(), "poor");
    assert_eq!(GroundClass::Average.as_label(), "average");
    assert_eq!(GroundClass::Good.as_label(), "good");
}

#[test]
fn region_display_and_parse() {
    assert_eq!(ITURegion::Region2.to_display_string(), "Region 2 (Americas)");
    assert_eq!(ITURegion::parse(" 3 "), Ok(ITURegion::Region3));
    assert_eq!(
        ITURegion::parse("4"),
        Err("Invalid ITU region '4'. Must be 1, 2, or 3.".to_string())
    );
}

#[test]
fn region_listing_holds_every_catalog_band_in_order() {
    for region in ALL_REGIONS {
        let bands = get_bands_for_region(region);
        assert_eq!(bands.len(), BAND_COUNT);
        for (k, (index, _)) in bands.iter().enumerate() {
            assert_eq!(*index, k);
        }
    }
}

#[test]
fn band_edges_follow_the_region() {
    let r1 = get_band_by_index_for_region(3, ITURegion::Region1).expect("40m exists");
    let r2 = get_band_by_index_for_region(3, ITURegion::Region2).expect("40m exists");
    assert_eq!(r1.freq_high_hz, 7_200_000);
    assert_eq!(r2.freq_high_hz, 7_300_000);
    assert_eq!(r1.freq_center_hz, 7_100_000);
    assert!(get_band_by_index_for_region(BAND_COUNT, ITURegion::Region1).is_none());
}

#[test]
fn band_display_text() {
    let b = get_band_by_index_for_region(3, ITURegion::Region1).expect("40m exists");
    assert_eq!(b.to_display_string(), "40m [HF] (7.0-7.2 MHz)");
    let top = get_band_by_index_for_region(0, ITURegion::Region1).expect("160m exists");
    assert_eq!(top.to_display_string(), "160m [HF] (1.8-2.0 MHz)");
    let sw = get_band_by_index_for_region(10, ITURegion::Region1).expect("120m exists");
    assert_eq!(sw.to_display_string(), "120m SW (2.3-2.495 MHz) [MF] (2.3-2.495 MHz)");
}

#[test]
fn band_listing_rows_keep_one_decimal() {
    let view = rusty_wire::app::band_listing_view(ITURegion::Region1);
    assert_eq!(view.rows[3].index, 4);
    assert_eq!(view.rows[3].display, "40m [HF] (7.0-7.2 MHz)");
    assert_eq!(view.rows[0].display, "160m [HF] (1.8-2.0 MHz)");
}

#[test]
fn every_ratio_factor_parses_back() {
    for r in [
        TransformerRatio::R1To1,
        TransformerRatio::R1To9,
        TransformerRatio::R1To16,
        TransformerRatio::R1To56,
        TransformerRatio::R1To64,
    ] {
        assert_eq!(TransformerRatio::parse(&r.impedance_ratio().to_string()), Some(r));
        assert_eq!(TransformerRatio::parse(&format!(" {} ", r.impedance_ratio())), Some(r));
    }
}
