//! Application-layer vocabulary: calculation modes, antenna models, unit and
//! export choices, the application error, transformer recommendations and
//! the mode/model-dependent texts of the results views.
use crate::bands::{self, Band, ITURegion};
use crate::calculations::{self, TransformerRatio};
use crate::text;
use vstd::prelude::*;

pub mod advise;
pub mod band_select;

pub use advise::{transformer_ratio_explanation, TransformerRatioExplanation};
pub use band_select::{
    band_label_for_index, band_listing_display_lines, band_listing_view, parse_band_selection,
    parse_single_band_token, BandListingRow, BandListingView,
};

verus! {

/// Errors of the application layer that carry no measurement.
#[derive(Debug, Clone, PartialEq, Eq)]
pub enum AppError {
    MixedWireWindowUnits,
    InvalidCalcMode(String),
    InvalidExportFormat(String),
    InvalidUnitSystem(String),
    InvalidAntennaModel(String),
    InvalidBandSelection(String),
    EmptyBandSelection,
    AllBandsSkipped,
}

/// An `AppError` with its texts as character sequences.
pub enum AppErrorView {
    MixedWireWindowUnits,
    InvalidCalcMode(Seq<char>),
    InvalidExportFormat(Seq<char>),
    InvalidUnitSystem(Seq<char>),
    InvalidAntennaModel(Seq<char>),
    InvalidBandSelection(Seq<char>),
    EmptyBandSelection,
    AllBandsSkipped,
}

impl View for AppError {
    type V = AppErrorView;

    open spec fn view(&self) -> AppErrorView {
        match self {
            AppError::MixedWireWindowUnits => AppErrorView::MixedWireWindowUnits,
            AppError::InvalidCalcMode(s) => AppErrorView::InvalidCalcMode(s@),
            AppError::InvalidExportFormat(s) => AppErrorView::InvalidExportFormat(s@),
            AppError::InvalidUnitSystem(s) => AppErrorView::InvalidUnitSystem(s@),
            AppError::InvalidAntennaModel(s) => AppErrorView::InvalidAntennaModel(s@),
            AppError::InvalidBandSelection(s) => AppErrorView::InvalidBandSelection(s@),
            AppError::EmptyBandSelection => AppErrorView::EmptyBandSelection,
            AppError::AllBandsSkipped => AppErrorView::AllBandsSkipped,
        }
    }
}

/// The message of an error, as it is shown to the user.
pub open spec fn error_message(e: AppErrorView) -> Seq<char> {
    match e {
        AppErrorView::MixedWireWindowUnits => "cannot mix meter and feet constraints; choose one unit system"@,
        AppErrorView::InvalidCalcMode(s) => "Invalid calculation mode: "@ + s,
        AppErrorView::InvalidExportFormat(s) => "Invalid export format: "@ + s,
        AppErrorView::InvalidUnitSystem(s) => "Invalid unit system: "@ + s,
        AppErrorView::InvalidAntennaModel(s) => "Invalid antenna model: "@ + s,
        AppErrorView::InvalidBandSelection(s) => "Invalid band selection: "@ + s,
        AppErrorView::EmptyBandSelection => "empty selection; provide at least one band name."@,
        AppErrorView::AllBandsSkipped => "no valid bands for the selected ITU region"@,
    }
}

impl AppError {
    /// The message shown to the user for this error.
    pub fn message(&self) -> (s: String)
        ensures
            s@ == error_message(self@),
    {
        let mut v: Vec<char> = Vec::new();
        match self {
            AppError::MixedWireWindowUnits => text::push_str(
                &mut v,
                "cannot mix meter and feet constraints; choose one unit system",
            ),
            AppError::InvalidCalcMode(s) => {
                text::push_str(&mut v, "Invalid calculation mode: ");
                text::push_str(&mut v, s.as_str());
            },
            AppError::InvalidExportFormat(s) => {
                text::push_str(&mut v, "Invalid export format: ");
                text::push_str(&mut v, s.as_str());
            },
            AppError::InvalidUnitSystem(s) => {
                text::push_str(&mut v, "Invalid unit system: ");
                text::push_str(&mut v, s.as_str());
            },
            AppError::InvalidAntennaModel(s) => {
                text::push_str(&mut v, "Invalid antenna model: ");
                text::push_str(&mut v, s.as_str());
            },
            AppError::InvalidBandSelection(s) => {
                text::push_str(&mut v, "Invalid band selection: ");
                text::push_str(&mut v, s.as_str());
            },
            AppError::EmptyBandSelection => text::push_str(
                &mut v,
                "empty selection; provide at least one band name.",
            ),
            AppError::AllBandsSkipped => text::push_str(
                &mut v,
                "no valid bands for the selected ITU region",
            ),
        }
        text::string_of(&v)
    }
}

/// The bands calculated when a selection is left empty (1-based catalog
/// indices).
pub const DEFAULT_BAND_SELECTION: [usize; 7] = [4, 5, 6, 7, 8, 9, 10];

/// The default band selection as a sequence.
pub open spec fn default_selection_spec() -> Seq<usize> {
    seq![4usize, 5, 6, 7, 8, 9, 10]
}

/// The bands calculated when a selection is left empty.
pub fn default_band_selection() -> (v: Vec<usize>)
    ensures
        v@ == default_selection_spec(),
{
    let mut v: Vec<usize> = Vec::new();
    let mut i: usize = 4;
    while i <= 10
        invariant
            4 <= i <= 11,
            v@.len() == i - 4,
            forall|k: int| 0 <= k < v@.len() ==> #[trigger] v@[k] == k + 4,
        decreases 11 - i,
    {
        v.push(i);
        i = i + 1;
    }
    assert(v@ =~= default_selection_spec());
    v
}

// ---------------------------------------------------------------------------
// Shared enums
// ---------------------------------------------------------------------------

/// Resonant lengths, or a non-resonant random-wire search.
#[derive(Debug, Clone, Copy, PartialEq, Eq, Structural)]
pub enum CalcMode {
    Resonant,
    NonResonant,
}

/// Export file formats.
#[derive(Debug, Clone, Copy, PartialEq, Eq, Structural)]
pub enum ExportFormat {
    Csv,
    Html,
    Json,
    Markdown,
    Nec,
    Txt,
    Yaml,
}

/// Display unit systems.
#[derive(Debug, Clone, Copy, PartialEq, Eq, Structural)]
pub enum UnitSystem {
    Metric,
    Imperial,
    Both,
}

/// Antenna models.
#[derive(Debug, Clone, Copy, PartialEq, Eq, Structural)]
pub enum AntennaModel {
    Dipole,
    InvertedVDipole,
    EndFedHalfWave,
    FullWaveLoop,
    OffCenterFedDipole,
    TrapDipole,
    HybridMultiSection,
}

/// What parsing a calculation mode gives back (ASCII case ignored).
pub open spec fn parse_calc_mode_spec(s: Seq<char>) -> Option<CalcMode> {
    let k = text::lower(s);
    if k == "resonant"@ {
        Some(CalcMode::Resonant)
    } else if k == "non-resonant"@ || k == "nonresonant"@ || k == "non_resonant"@ {
        Some(CalcMode::NonResonant)
    } else {
        None
    }
}

/// The name of an export format, as used for files and options.
pub open spec fn export_name(f: ExportFormat) -> Seq<char> {
    match f {
        ExportFormat::Csv => "csv"@,
        ExportFormat::Html => "html"@,
        ExportFormat::Json => "json"@,
        ExportFormat::Markdown => "markdown"@,
        ExportFormat::Nec => "nec"@,
        ExportFormat::Txt => "txt"@,
        ExportFormat::Yaml => "yaml"@,
    }
}

/// What parsing an export format gives back (ASCII case ignored).
pub open spec fn parse_export_spec(s: Seq<char>) -> Option<ExportFormat> {
    let k = text::lower(s);
    if k == "csv"@ {
        Some(ExportFormat::Csv)
    } else if k == "html"@ || k == "htm"@ {
        Some(ExportFormat::Html)
    } else if k == "json"@ {
        Some(ExportFormat::Json)
    } else if k == "markdown"@ || k == "md"@ {
        Some(ExportFormat::Markdown)
    } else if k == "nec"@ {
        Some(ExportFormat::Nec)
    } else if k == "txt"@ || k == "text"@ {
        Some(ExportFormat::Txt)
    } else if k == "yaml"@ || k == "yml"@ {
        Some(ExportFormat::Yaml)
    } else {
        None
    }
}

/// What parsing a unit system gives back (ASCII case ignored).
pub open spec fn parse_units_spec(s: Seq<char>) -> Option<UnitSystem> {
    let k = text::lower(s);
    if k == "m"@ || k == "metric"@ {
        Some(UnitSystem::Metric)
    } else if k == "ft"@ || k == "imperial"@ {
        Some(UnitSystem::Imperial)
    } else if k == "both"@ {
        Some(UnitSystem::Both)
    } else {
        None
    }
}

/// What parsing an antenna model gives back (ASCII case ignored).
pub open spec fn parse_antenna_spec(s: Seq<char>) -> Option<AntennaModel> {
    let k = text::lower(s);
    if k == "dipole"@ {
        Some(AntennaModel::Dipole)
    } else if k == "inverted-v"@ || k == "inv-v"@ || k == "invertedv"@ || k == "invv"@ {
        Some(AntennaModel::InvertedVDipole)
    } else if k == "efhw"@ || k == "end-fed"@ || k == "end-fed-half-wave"@ {
        Some(AntennaModel::EndFedHalfWave)
    } else if k == "loop"@ || k == "full-wave-loop"@ {
        Some(AntennaModel::FullWaveLoop)
    } else if k == "ocfd"@ || k == "off-center-fed"@ || k == "off-center-fed-dipole"@ {
        Some(AntennaModel::OffCenterFedDipole)
    } else if k == "trap-dipole"@ || k == "trap"@ || k == "trapdipole"@ {
        Some(AntennaModel::TrapDipole)
    } else if k == "hybrid"@ || k == "hybrid-multi"@ || k == "hybrid-multi-section"@ || k
        == "multi-section"@ || k == "multi-section-dipole"@ || k == "multisection"@ {
        Some(AntennaModel::HybridMultiSection)
    } else {
        None
    }
}

fn quoted_with(s: &str, tail: &str) -> (r: String)
    ensures
        r@ == "'"@ + s@ + tail@,
{
    let mut v: Vec<char> = Vec::new();
    text::push_str(&mut v, "'");
    text::push_str(&mut v, s);
    text::push_str(&mut v, tail);
    text::string_of(&v)
}

impl CalcMode {
    /// Parses "resonant" or "non-resonant" (also "nonresonant", "non_resonant").
    pub fn parse(s: &str) -> (r: Result<CalcMode, AppError>)
        ensures
            r matches Ok(m) ==> parse_calc_mode_spec(s@) == Some(m),
            r matches Err(e) ==> parse_calc_mode_spec(s@) is None && e@ == AppErrorView::InvalidCalcMode(
                "'"@ + s@ + "' (must be 'resonant' or 'non-resonant')"@,
            ),
    {
        let k = text::lower_chars(&text::chars_of(s));
        if text::chars_eq_str(&k, "resonant") {
            Ok(CalcMode::Resonant)
        } else if text::chars_eq_str(&k, "non-resonant") || text::chars_eq_str(&k, "nonresonant")
            || text::chars_eq_str(&k, "non_resonant") {
            Ok(CalcMode::NonResonant)
        } else {
            Err(AppError::InvalidCalcMode(quoted_with(s, "' (must be 'resonant' or 'non-resonant')")))
        }
    }
}

impl ExportFormat {
    /// The format's name ("csv", "html", "json", "markdown", "nec", "txt", "yaml").
    pub fn as_str(self) -> (s: &'static str)
        ensures
            s@ == export_name(self),
    {
        match self {
            ExportFormat::Csv => "csv",
            ExportFormat::Html => "html",
            ExportFormat::Json => "json",
            ExportFormat::Markdown => "markdown",
            ExportFormat::Nec => "nec",
            ExportFormat::Txt => "txt",
            ExportFormat::Yaml => "yaml",
        }
    }

    /// Parses a format name or alias ("htm", "md", "text", "yml").
    pub fn parse(s: &str) -> (r: Result<ExportFormat, AppError>)
        ensures
            r matches Ok(f) ==> parse_export_spec(s@) == Some(f),
            r matches Err(e) ==> parse_export_spec(s@) is None && e@
                == AppErrorView::InvalidExportFormat(
                "'"@ + s@
                    + "' (must be 'csv', 'html', 'json', 'markdown', 'nec', 'txt', or 'yaml')"@,
            ),
    {
        let k = text::lower_chars(&text::chars_of(s));
        if text::chars_eq_str(&k, "csv") {
            Ok(ExportFormat::Csv)
        } else if text::chars_eq_str(&k, "html") || text::chars_eq_str(&k, "htm") {
            Ok(ExportFormat::Html)
        } else if text::chars_eq_str(&k, "json") {
            Ok(ExportFormat::Json)
        } else if text::chars_eq_str(&k, "markdown") || text::chars_eq_str(&k, "md") {
            Ok(ExportFormat::Markdown)
        } else if text::chars_eq_str(&k, "nec") {
            Ok(ExportFormat::Nec)
        } else if text::chars_eq_str(&k, "txt") || text::chars_eq_str(&k, "text") {
            Ok(ExportFormat::Txt)
        } else if text::chars_eq_str(&k, "yaml") || text::chars_eq_str(&k, "yml") {
            Ok(ExportFormat::Yaml)
        } else {
            Err(
                AppError::InvalidExportFormat(
                    quoted_with(
                        s,
                        "' (must be 'csv', 'html', 'json', 'markdown', 'nec', 'txt', or 'yaml')",
                    ),
                ),
            )
        }
    }
}

impl UnitSystem {
    /// Parses "m"/"metric", "ft"/"imperial" or "both".
    pub fn parse(s: &str) -> (r: Result<UnitSystem, AppError>)
        ensures
            r matches Ok(u) ==> parse_units_spec(s@) == Some(u),
            r matches Err(e) ==> parse_units_spec(s@) is None && e@ == AppErrorView::InvalidUnitSystem(
                "'"@ + s@ + "' (must be 'm', 'ft', or 'both')"@,
            ),
    {
        let k = text::lower_chars(&text::chars_of(s));
        if text::chars_eq_str(&k, "m") || text::chars_eq_str(&k, "metric") {
            Ok(UnitSystem::Metric)
        } else if text::chars_eq_str(&k, "ft") || text::chars_eq_str(&k, "imperial") {
            Ok(UnitSystem::Imperial)
        } else if text::chars_eq_str(&k, "both") {
            Ok(UnitSystem::Both)
        } else {
            Err(AppError::InvalidUnitSystem(quoted_with(s, "' (must be 'm', 'ft', or 'both')")))
        }
    }
}

impl AntennaModel {
    /// Parses an antenna model name or one of its aliases.
    pub fn parse(s: &str) -> (r: Result<AntennaModel, AppError>)
        ensures
            r matches Ok(m) ==> parse_antenna_spec(s@) == Some(m),
            r matches Err(e) ==> parse_antenna_spec(s@) is None && e@
                == AppErrorView::InvalidAntennaModel(
                "'"@ + s@
                    + "' (must be 'dipole', 'inverted-v', 'efhw', 'loop', 'ocfd', 'trap-dipole', or 'hybrid-multi')"@,
            ),
    {
        let k = text::lower_chars(&text::chars_of(s));
        if text::chars_eq_str(&k, "dipole") {
            Ok(AntennaModel::Dipole)
        } else if text::chars_eq_str(&k, "inverted-v") || text::chars_eq_str(&k, "inv-v")
            || text::chars_eq_str(&k, "invertedv") || text::chars_eq_str(&k, "invv") {
            Ok(AntennaModel::InvertedVDipole)
        } else if text::chars_eq_str(&k, "efhw") || text::chars_eq_str(&k, "end-fed")
            || text::chars_eq_str(&k, "end-fed-half-wave") {
            Ok(AntennaModel::EndFedHalfWave)
        } else if text::chars_eq_str(&k, "loop") || text::chars_eq_str(&k, "full-wave-loop") {
            Ok(AntennaModel::FullWaveLoop)
        } else if text::chars_eq_str(&k, "ocfd") || text::chars_eq_str(&k, "off-center-fed")
            || text::chars_eq_str(&k, "off-center-fed-dipole") {
            Ok(AntennaModel::OffCenterFedDipole)
        } else if text::chars_eq_str(&k, "trap-dipole") || text::chars_eq_str(&k, "trap")
            || text::chars_eq_str(&k, "trapdipole") {
            Ok(AntennaModel::TrapDipole)
        } else if text::chars_eq_str(&k, "hybrid") || text::chars_eq_str(&k, "hybrid-multi")
            || text::chars_eq_str(&k, "hybrid-multi-section") || text::chars_eq_str(
            &k,
            "multi-section",
        ) || text::chars_eq_str(&k, "multi-section-dipole") || text::chars_eq_str(
            &k,
            "multisection",
        ) {
            Ok(AntennaModel::HybridMultiSection)
        } else {
            Err(
                AppError::InvalidAntennaModel(
                    quoted_with(
                        s,
                        "' (must be 'dipole', 'inverted-v', 'efhw', 'loop', 'ocfd', 'trap-dipole', or 'hybrid-multi')",
                    ),
                ),
            )
        }
    }
}

impl std::str::FromStr for CalcMode {
    type Err = AppError;

    fn from_str(s: &str) -> (r: Result<Self, Self::Err>)
        ensures
            r matches Ok(m) ==> parse_calc_mode_spec(s@) == Some(m),
            r matches Err(e) ==> parse_calc_mode_spec(s@) is None && e@ == AppErrorView::InvalidCalcMode(
                "'"@ + s@ + "' (must be 'resonant' or 'non-resonant')"@,
            ),
    {
        CalcMode::parse(s)
    }
}

impl std::str::FromStr for ExportFormat {
    type Err = AppError;

    fn from_str(s: &str) -> (r: Result<Self, Self::Err>)
        ensures
            r matches Ok(f) ==> parse_export_spec(s@) == Some(f),
            r matches Err(e) ==> parse_export_spec(s@) is None && e@ == AppErrorView::InvalidExportFormat(
                "'"@ + s@ + "' (must be 'csv', 'html', 'json', 'markdown', 'nec', 'txt', or 'yaml')"@,
            ),
    {
        ExportFormat::parse(s)
    }
}

impl std::str::FromStr for UnitSystem {
    type Err = AppError;

    fn from_str(s: &str) -> (r: Result<Self, Self::Err>)
        ensures
            r matches Ok(u) ==> parse_units_spec(s@) == Some(u),
            r matches Err(e) ==> parse_units_spec(s@) is None && e@ == AppErrorView::InvalidUnitSystem(
                "'"@ + s@ + "' (must be 'm', 'ft', or 'both')"@,
            ),
    {
        UnitSystem::parse(s)
    }
}

impl std::str::FromStr for AntennaModel {
    type Err = AppError;

    fn from_str(s: &str) -> (r: Result<Self, Self::Err>)
        ensures
            r matches Ok(m) ==> parse_antenna_spec(s@) == Some(m),
            r matches Err(e) ==> parse_antenna_spec(s@) is None && e@ == AppErrorView::InvalidAntennaModel(
                "'"@ + s@ + "' (must be 'dipole', 'inverted-v', 'efhw', 'loop', 'ocfd', 'trap-dipole', or 'hybrid-multi')"@,
            ),
    {
        AntennaModel::parse(s)
    }
}

// ---------------------------------------------------------------------------
// Transformer recommendation
// ---------------------------------------------------------------------------

/// The transformer ratio recommended for a mode and antenna model: 1:1 for
/// centre-fed dipoles and loops, 1:56 for EFHW, 1:4 for OCFD; without a model
/// 1:1 in resonant and 1:9 in non-resonant mode.
pub open spec fn recommended_ratio(mode: CalcMode, model: Option<AntennaModel>) -> TransformerRatio {
    match model {
        Some(AntennaModel::Dipole) | Some(AntennaModel::InvertedVDipole) | Some(
            AntennaModel::TrapDipole,
        ) | Some(AntennaModel::HybridMultiSection) | Some(AntennaModel::FullWaveLoop) => {
            TransformerRatio::R1To1
        },
        Some(AntennaModel::EndFedHalfWave) => TransformerRatio::R1To56,
        Some(AntennaModel::OffCenterFedDipole) => TransformerRatio::R1To4,
        None => match mode {
            CalcMode::Resonant => TransformerRatio::R1To1,
            CalcMode::NonResonant => TransformerRatio::R1To9,
        },
    }
}

/// The transformer ratio recommended for a mode and antenna model.
pub fn recommended_transformer_ratio(mode: CalcMode, antenna_model: Option<AntennaModel>) -> (r:
    TransformerRatio)
    ensures
        r == recommended_ratio(mode, antenna_model),
{
    match antenna_model {
        Some(AntennaModel::Dipole) | Some(AntennaModel::InvertedVDipole) | Some(
            AntennaModel::TrapDipole,
        ) | Some(AntennaModel::HybridMultiSection) | Some(AntennaModel::FullWaveLoop) => {
            TransformerRatio::R1To1
        },
        Some(AntennaModel::EndFedHalfWave) => TransformerRatio::R1To56,
        Some(AntennaModel::OffCenterFedDipole) => TransformerRatio::R1To4,
        None => match mode {
            CalcMode::Resonant => TransformerRatio::R1To1,
            CalcMode::NonResonant => TransformerRatio::R1To9,
        },
    }
}

/// The message shown when an unknown ratio falls back to the recommendation.
pub open spec fn fallback_message(mode: CalcMode, model: Option<AntennaModel>) -> Seq<char> {
    "Unknown ratio. Using recommended "@ + calculations::ratio_label(recommended_ratio(mode, model))
        + "."@
}

/// "Unknown ratio. Using recommended 1:N." for the recommended ratio.
pub fn recommended_transformer_ratio_fallback_message(
    mode: CalcMode,
    antenna_model: Option<AntennaModel>,
) -> (s: String)
    ensures
        s@ == fallback_message(mode, antenna_model),
{
    let explanation = transformer_ratio_explanation(mode, antenna_model);
    let mut v: Vec<char> = Vec::new();
    text::push_str(&mut v, "Unknown ratio. Using recommended ");
    text::push_str(&mut v, explanation.ratio.as_label());
    text::push_str(&mut v, ".");
    text::string_of(&v)
}

/// Raised when the configured transformer ratio differs from the one
/// recommended for the antenna model.
#[derive(Debug, Clone, Copy, PartialEq, Eq, Structural)]
pub struct TransformerMismatchWarning {
    /// The ratio the user has configured.
    pub configured: TransformerRatio,
    /// The ratio recommended for the active antenna model and mode.
    pub recommended: TransformerRatio,
}

/// The text of a mismatch warning.
pub open spec fn mismatch_text(w: TransformerMismatchWarning) -> Seq<char> {
    "Transformer set to "@ + calculations::ratio_label(w.configured) + " but "@
        + calculations::ratio_label(w.recommended)
        + " is recommended for this antenna model."@
}

impl TransformerMismatchWarning {
    /// One-sentence description of the mismatch.
    pub fn message(&self) -> (s: String)
        ensures
            s@ == mismatch_text(*self),
    {
        let mut v: Vec<char> = Vec::new();
        text::push_str(&mut v, "Transformer set to ");
        text::push_str(&mut v, self.configured.as_label());
        text::push_str(&mut v, " but ");
        text::push_str(&mut v, self.recommended.as_label());
        text::push_str(&mut v, " is recommended for this antenna model.");
        text::string_of(&v)
    }
}

/// The mismatch warning for a configured ratio: present exactly when it
/// differs from the recommendation for the mode and model.
pub fn transformer_mismatch_warning(
    mode: CalcMode,
    antenna_model: Option<AntennaModel>,
    configured: TransformerRatio,
) -> (w: Option<TransformerMismatchWarning>)
    ensures
        configured == recommended_ratio(mode, antenna_model) ==> w is None,
        configured != recommended_ratio(mode, antenna_model) ==> w == Some(
            TransformerMismatchWarning {
                configured,
                recommended: recommended_ratio(mode, antenna_model),
            },
        ),
{
    let expl = transformer_ratio_explanation(mode, antenna_model);
    if configured != expl.ratio {
        Some(TransformerMismatchWarning { configured, recommended: expl.ratio })
    } else {
        None
    }
}

// ---------------------------------------------------------------------------
// Results-view texts that depend on mode and antenna model only
// ---------------------------------------------------------------------------

/// Heading of the non-resonant recommendation section.
pub fn non_resonant_recommendation_heading() -> (s: &'static str)
    ensures
        s@ == "Best non-resonant wire length for selected bands:"@,
{
    "Best non-resonant wire length for selected bands:"
}

/// Message shown when no non-resonant recommendation exists.
pub fn non_resonant_recommendation_unavailable_message() -> (s: &'static str)
    ensures
        s@ == "No non-resonant recommendation available for the current selection."@,
{
    "No non-resonant recommendation available for the current selection."
}

/// Which result sections are shown.
#[derive(Debug, Clone, Copy, PartialEq, Eq, Structural)]
pub struct ResultsSectionLayout {
    pub show_resonant_points: bool,
    pub show_resonant_compromises: bool,
    pub show_non_resonant_recommendation: bool,
}

/// The sections shown for a mode and antenna model: resonant points for
/// resonant dipole-family runs, compromises in resonant mode, the random-wire
/// recommendation in non-resonant mode.
pub fn results_section_layout(mode: CalcMode, antenna_model: Option<AntennaModel>) -> (l:
    ResultsSectionLayout)
    ensures
        l.show_resonant_points == (mode == CalcMode::Resonant && (antenna_model is None
            || antenna_model == Some(AntennaModel::Dipole) || antenna_model == Some(
            AntennaModel::InvertedVDipole,
        ))),
        l.show_resonant_compromises == (mode == CalcMode::Resonant),
        l.show_non_resonant_recommendation == (mode == CalcMode::NonResonant),
{
    let show_resonant_points = match (mode, antenna_model) {
        (CalcMode::Resonant, None) => true,
        (CalcMode::Resonant, Some(AntennaModel::Dipole)) => true,
        (CalcMode::Resonant, Some(AntennaModel::InvertedVDipole)) => true,
        _ => false,
    };
    ResultsSectionLayout {
        show_resonant_points,
        show_resonant_compromises: mode == CalcMode::Resonant,
        show_non_resonant_recommendation: mode == CalcMode::NonResonant,
    }
}

/// The label of an antenna model in the run summary ("all" without a model).
pub open spec fn summary_model_label(model: Option<AntennaModel>) -> Seq<char> {
    match model {
        None => "all"@,
        Some(AntennaModel::Dipole) => "dipole"@,
        Some(AntennaModel::InvertedVDipole) => "inverted-v dipole"@,
        Some(AntennaModel::EndFedHalfWave) => "end-fed half-wave"@,
        Some(AntennaModel::FullWaveLoop) => "full-wave loop"@,
        Some(AntennaModel::OffCenterFedDipole) => "off-center-fed dipole"@,
        Some(AntennaModel::TrapDipole) => "trap dipole"@,
        Some(AntennaModel::HybridMultiSection) => "hybrid multi-section dipole"@,
    }
}

/// The label of an antenna model in the run summary.
pub fn antenna_model_summary_label(antenna_model: Option<AntennaModel>) -> (s: &'static str)
    ensures
        s@ == summary_model_label(antenna_model),
{
    match antenna_model {
        None => "all",
        Some(AntennaModel::Dipole) => "dipole",
        Some(AntennaModel::InvertedVDipole) => "inverted-v dipole",
        Some(AntennaModel::EndFedHalfWave) => "end-fed half-wave",
        Some(AntennaModel::FullWaveLoop) => "full-wave loop",
        Some(AntennaModel::OffCenterFedDipole) => "off-center-fed dipole",
        Some(AntennaModel::TrapDipole) => "trap dipole",
        Some(AntennaModel::HybridMultiSection) => "hybrid multi-section dipole",
    }
}

/// The overview heading of a run.
pub fn overview_heading(mode: CalcMode) -> (s: &'static str)
    ensures
        mode == CalcMode::Resonant ==> s@ == "Resonant Overview:"@,
        mode == CalcMode::NonResonant ==> s@ == "Non-resonant Overview (band context):"@,
{
    match mode {
        CalcMode::Resonant => "Resonant Overview:",
        CalcMode::NonResonant => "Non-resonant Overview (band context):",
    }
}

/// Heading, notes and empty-list text of the resonant compromise section.
#[derive(Debug, Clone)]
pub struct ResonantCompromiseNarrative {
    pub heading: &'static str,
    pub notes: Vec<&'static str>,
    pub empty_message: &'static str,
}

/// The compromise section heading for an antenna model.
pub open spec fn compromise_heading(model: Option<AntennaModel>) -> Seq<char> {
    match model {
        Some(AntennaModel::InvertedVDipole) => "Closest combined compromises to resonant points (inverted-V guidance):"@,
        Some(AntennaModel::EndFedHalfWave) => "Closest combined compromises to resonant points (tuner-assisted EFHW guidance):"@,
        Some(AntennaModel::FullWaveLoop) => "Closest combined compromises to resonant points (tuner-assisted loop guidance):"@,
        Some(AntennaModel::OffCenterFedDipole) => "Closest combined compromises to resonant points (tuner-assisted OCFD guidance):"@,
        Some(AntennaModel::TrapDipole) => "Closest combined compromises to resonant points (trap dipole guidance):"@,
        Some(AntennaModel::HybridMultiSection) => "Closest combined compromises to resonant points (hybrid multi-section guidance):"@,
        _ => "Closest combined compromises to resonant points:"@,
    }
}

/// The compromise section notes for an antenna model, in order.
pub open spec fn compromise_notes(model: Option<AntennaModel>) -> Seq<Seq<char>> {
    let tuner: Seq<Seq<char>> = if model == Some(AntennaModel::EndFedHalfWave) || model == Some(
        AntennaModel::FullWaveLoop,
    ) || model == Some(AntennaModel::OffCenterFedDipole) {
        seq![
            "Note: These are dipole-derived compromise lengths shown as tuner-assisted starting points."@,
        ]
    } else {
        Seq::empty()
    };
    let inv_v: Seq<Seq<char>> = if model == Some(AntennaModel::InvertedVDipole) {
        seq![
            "Inverted-V mode: each compromise line shows a total wire length; per-leg and span estimates are listed directly below."@,
        ]
    } else {
        Seq::empty()
    };
    let ocfd: Seq<Seq<char>> = if model == Some(AntennaModel::OffCenterFedDipole) {
        seq![
            "OCFD mode: each compromise line shows a total wire length; leg splits are listed directly below."@,
        ]
    } else {
        Seq::empty()
    };
    let trap: Seq<Seq<char>> = if model == Some(AntennaModel::TrapDipole) {
        seq![
            "Trap mode: each compromise line is total tip-to-tip wire; each element is half that value."@,
            "Trap frequency/components: tune each trap near the upper-band resonance (for example, around 14 MHz for 40m/20m or around 7 MHz for 80m/40m) and target high unloaded Q with low-loss capacitors."@,
            "Physical placement: start with traps positioned at the upper-band element endpoint and trim symmetrically from both outer ends."@,
            "Common pairings: 40m/20m and 80m/40m are the most practical starting configurations for two-trap builds."@,
        ]
    } else {
        Seq::empty()
    };
    let hybrid: Seq<Seq<char>> = if model == Some(AntennaModel::HybridMultiSection) {
        seq![
            "Hybrid multi-section mode: each element side is split into 3 contiguous sections using the configured planning ratio."@,
            "Use these as cut-sheet starting values; trim symmetrically from outer sections during final tuning."@,
        ]
    } else {
        Seq::empty()
    };
    tuner + inv_v + ocfd + trap + hybrid
}

/// Heading, notes and empty-list text of the resonant compromise section for
/// an antenna model.
pub fn resonant_compromise_narrative(antenna_model: Option<AntennaModel>) -> (n:
    ResonantCompromiseNarrative)
    ensures
        n.heading@ == compromise_heading(antenna_model),
        n.notes@.map_values(|s: &'static str| s@) == compromise_notes(antenna_model),
        n.empty_message@ == "(none available in this window)"@,
{
    let heading = match antenna_model {
        Some(AntennaModel::InvertedVDipole) => "Closest combined compromises to resonant points (inverted-V guidance):",
        Some(AntennaModel::EndFedHalfWave) => "Closest combined compromises to resonant points (tuner-assisted EFHW guidance):",
        Some(AntennaModel::FullWaveLoop) => "Closest combined compromises to resonant points (tuner-assisted loop guidance):",
        Some(AntennaModel::OffCenterFedDipole) => "Closest combined compromises to resonant points (tuner-assisted OCFD guidance):",
        Some(AntennaModel::TrapDipole) => "Closest combined compromises to resonant points (trap dipole guidance):",
        Some(AntennaModel::HybridMultiSection) => "Closest combined compromises to resonant points (hybrid multi-section guidance):",
        _ => "Closest combined compromises to resonant points:",
    };
    let mut notes: Vec<&'static str> = Vec::new();
    if antenna_model == Some(AntennaModel::EndFedHalfWave) || antenna_model == Some(
        AntennaModel::FullWaveLoop,
    ) || antenna_model == Some(AntennaModel::OffCenterFedDipole) {
        notes.push(
            "Note: These are dipole-derived compromise lengths shown as tuner-assisted starting points.",
        );
    }
    if antenna_model == Some(AntennaModel::InvertedVDipole) {
        notes.push(
            "Inverted-V mode: each compromise line shows a total wire length; per-leg and span estimates are listed directly below.",
        );
    }
    if antenna_model == Some(AntennaModel::OffCenterFedDipole) {
        notes.push(
            "OCFD mode: each compromise line shows a total wire length; leg splits are listed directly below.",
        );
    }
    if antenna_model == Some(AntennaModel::TrapDipole) {
        notes.push(
            "Trap mode: each compromise line is total tip-to-tip wire; each element is half that value.",
        );
        notes.push(
            "Trap frequency/components: tune each trap near the upper-band resonance (for example, around 14 MHz for 40m/20m or around 7 MHz for 80m/40m) and target high unloaded Q with low-loss capacitors.",
        );
        notes.push(
            "Physical placement: start with traps positioned at the upper-band element endpoint and trim symmetrically from both outer ends.",
        );
        notes.push(
            "Common pairings: 40m/20m and 80m/40m are the most practical starting configurations for two-trap builds.",
        );
    }
    if antenna_model == Some(AntennaModel::HybridMultiSection) {
        notes.push(
            "Hybrid multi-section mode: each element side is split into 3 contiguous sections using the configured planning ratio.",
        );
        notes.push(
            "Use these as cut-sheet starting values; trim symmetrically from outer sections during final tuning.",
        );
    }
    assert(notes@.map_values(|s: &'static str| s@) =~= compromise_notes(antenna_model));
    ResonantCompromiseNarrative { heading, notes, empty_message: "(none available in this window)" }
}

/// A band excluded from a run, with the reason.
#[derive(Debug, Clone, Copy, PartialEq, Eq)]
pub struct SkippedBandDetail {
    /// 1-based band index that was excluded from the run.
    pub band_index: usize,
    /// Why the band was skipped.
    pub reason: &'static str,
}

/// One length figure shown under a band in the results.
#[derive(Debug, Clone, Copy, PartialEq, Eq, Structural)]
pub enum BandFigure {
    HalfWave,
    FullWave,
    QuarterWave,
    EndFedHalfWave,
    InvertedVTotal,
    InvertedVLeg,
    InvertedVSpan90,
    InvertedVSpan120,
    LoopCircumference,
    LoopSquareSide,
    Ocfd33,
    Ocfd20,
    TrapTotal,
    TrapElement,
    HybridTotal,
    HybridSide,
    HybridSections,
    HybridSectionsPerSide,
}

/// The figures shown under each band for an antenna model, in order: the
/// model's own lengths, or every model's without one.
pub open spec fn band_figures_spec(model: Option<AntennaModel>) -> Seq<BandFigure> {
    match model {
        Some(AntennaModel::Dipole) => seq![
            BandFigure::HalfWave,
            BandFigure::FullWave,
            BandFigure::QuarterWave,
        ],
        Some(AntennaModel::EndFedHalfWave) => seq![BandFigure::EndFedHalfWave],
        Some(AntennaModel::InvertedVDipole) => seq![
            BandFigure::InvertedVTotal,
            BandFigure::InvertedVLeg,
            BandFigure::InvertedVSpan90,
            BandFigure::InvertedVSpan120,
        ],
        Some(AntennaModel::FullWaveLoop) => seq![
            BandFigure::LoopCircumference,
            BandFigure::LoopSquareSide,
        ],
        Some(AntennaModel::OffCenterFedDipole) => seq![BandFigure::Ocfd33, BandFigure::Ocfd20],
        Some(AntennaModel::TrapDipole) => seq![BandFigure::TrapTotal, BandFigure::TrapElement],
        Some(AntennaModel::HybridMultiSection) => seq![
            BandFigure::HybridTotal,
            BandFigure::HybridSide,
            BandFigure::HybridSections,
        ],
        None => seq![
            BandFigure::HalfWave,
            BandFigure::FullWave,
            BandFigure::QuarterWave,
            BandFigure::EndFedHalfWave,
            BandFigure::InvertedVTotal,
            BandFigure::InvertedVLeg,
            BandFigure::InvertedVSpan90,
            BandFigure::InvertedVSpan120,
            BandFigure::LoopCircumference,
            BandFigure::LoopSquareSide,
            BandFigure::Ocfd33,
            BandFigure::Ocfd20,
            BandFigure::TrapTotal,
            BandFigure::TrapElement,
            BandFigure::HybridTotal,
            BandFigure::HybridSectionsPerSide,
        ],
    }
}

/// The antenna model a length figure describes.
pub open spec fn figure_model(f: BandFigure) -> AntennaModel {
    match f {
        BandFigure::HalfWave | BandFigure::FullWave | BandFigure::QuarterWave => AntennaModel::Dipole,
        BandFigure::EndFedHalfWave => AntennaModel::EndFedHalfWave,
        BandFigure::InvertedVTotal
        | BandFigure::InvertedVLeg
        | BandFigure::InvertedVSpan90
        | BandFigure::InvertedVSpan120 => AntennaModel::InvertedVDipole,
        BandFigure::LoopCircumference | BandFigure::LoopSquareSide => AntennaModel::FullWaveLoop,
        BandFigure::Ocfd33 | BandFigure::Ocfd20 => AntennaModel::OffCenterFedDipole,
        BandFigure::TrapTotal | BandFigure::TrapElement => AntennaModel::TrapDipole,
        BandFigure::HybridTotal
        | BandFigure::HybridSide
        | BandFigure::HybridSections
        | BandFigure::HybridSectionsPerSide => AntennaModel::HybridMultiSection,
    }
}

/// For one antenna model the figures shown are exactly that model's own
/// (the per-side section count only stands in the all-models summary); with
/// no model every model's figures are shown but the hybrid side length and
/// section count; no figure is shown twice.
pub proof fn lemma_figures_belong_to_model(model: Option<AntennaModel>, f: BandFigure)
    ensures
        band_figures_spec(model).no_duplicates(),
        model is Some ==> (band_figures_spec(model).contains(f) <==> (figure_model(f)
            == model->0 && f != BandFigure::HybridSectionsPerSide)),
        model is None ==> (band_figures_spec(model).contains(f) <==> (f != BandFigure::HybridSide
            && f != BandFigure::HybridSections)),
{
    let s = band_figures_spec(model);
    match model {
        Some(AntennaModel::Dipole) => {
            if f == BandFigure::HalfWave {
                assert(s[0] == f);
            }
            if f == BandFigure::FullWave {
                assert(s[1] == f);
            }
            if f == BandFigure::QuarterWave {
                assert(s[2] == f);
            }
        },
        Some(AntennaModel::EndFedHalfWave) => {
            if f == BandFigure::EndFedHalfWave {
                assert(s[0] == f);
            }
        },
        Some(AntennaModel::InvertedVDipole) => {
            if f == BandFigure::InvertedVTotal {
                assert(s[0] == f);
            }
            if f == BandFigure::InvertedVLeg {
                assert(s[1] == f);
            }
            if f == BandFigure::InvertedVSpan90 {
                assert(s[2] == f);
            }
            if f == BandFigure::InvertedVSpan120 {
                assert(s[3] == f);
            }
        },
        Some(AntennaModel::FullWaveLoop) => {
            if f == BandFigure::LoopCircumference {
                assert(s[0] == f);
            }
            if f == BandFigure::LoopSquareSide {
                assert(s[1] == f);
            }
        },
        Some(AntennaModel::OffCenterFedDipole) => {
            if f == BandFigure::Ocfd33 {
                assert(s[0] == f);
            }
            if f == BandFigure::Ocfd20 {
                assert(s[1] == f);
            }
        },
        Some(AntennaModel::TrapDipole) => {
            if f == BandFigure::TrapTotal {
                assert(s[0] == f);
            }
            if f == BandFigure::TrapElement {
                assert(s[1] == f);
            }
        },
        Some(AntennaModel::HybridMultiSection) => {
            if f == BandFigure::HybridTotal {
                assert(s[0] == f);
            }
            if f == BandFigure::HybridSide {
                assert(s[1] == f);
            }
            if f == BandFigure::HybridSections {
                assert(s[2] == f);
            }
        },
        None => {},
    }
}

/// The figures shown under each band for an antenna model.
pub fn band_figures(antenna_model: Option<AntennaModel>) -> (v: Vec<BandFigure>)
    ensures
        v@ == band_figures_spec(antenna_model),
{
    let mut v: Vec<BandFigure> = Vec::new();
    match antenna_model {
        Some(AntennaModel::Dipole) => {
            v.push(BandFigure::HalfWave);
            v.push(BandFigure::FullWave);
            v.push(BandFigure::QuarterWave);
        },
        Some(AntennaModel::EndFedHalfWave) => {
            v.push(BandFigure::EndFedHalfWave);
        },
        Some(AntennaModel::InvertedVDipole) => {
            v.push(BandFigure::InvertedVTotal);
            v.push(BandFigure::InvertedVLeg);
            v.push(BandFigure::InvertedVSpan90);
            v.push(BandFigure::InvertedVSpan120);
        },
        Some(AntennaModel::FullWaveLoop) => {
            v.push(BandFigure::LoopCircumference);
            v.push(BandFigure::LoopSquareSide);
        },
        Some(AntennaModel::OffCenterFedDipole) => {
            v.push(BandFigure::Ocfd33);
            v.push(BandFigure::Ocfd20);
        },
        Some(AntennaModel::TrapDipole) => {
            v.push(BandFigure::TrapTotal);
            v.push(BandFigure::TrapElement);
        },
        Some(AntennaModel::HybridMultiSection) => {
            v.push(BandFigure::HybridTotal);
            v.push(BandFigure::HybridSide);
            v.push(BandFigure::HybridSections);
        },
        None => {
            v.push(BandFigure::HalfWave);
            v.push(BandFigure::FullWave);
            v.push(BandFigure::QuarterWave);
            v.push(BandFigure::EndFedHalfWave);
            v.push(BandFigure::InvertedVTotal);
            v.push(BandFigure::InvertedVLeg);
            v.push(BandFigure::InvertedVSpan90);
            v.push(BandFigure::InvertedVSpan120);
            v.push(BandFigure::LoopCircumference);
            v.push(BandFigure::LoopSquareSide);
            v.push(BandFigure::Ocfd33);
            v.push(BandFigure::Ocfd20);
            v.push(BandFigure::TrapTotal);
            v.push(BandFigure::TrapElement);
            v.push(BandFigure::HybridTotal);
            v.push(BandFigure::HybridSectionsPerSide);
        },
    }
    assert(v@ =~= band_figures_spec(antenna_model));
    v
}

/// The band a 1-based index names in a region: none for index 0, an index
/// past the catalog, or a band the region does not have.
pub open spec fn band_of_index(index: usize, region: ITURegion) -> Option<Band> {
    if 1 <= index <= bands::BAND_COUNT && bands::catalog(index - 1).regions.has(region) {
        Some(bands::band_in_region(bands::catalog(index - 1), index - 1, region))
    } else {
        None
    }
}

/// The selected indices that name a band, each with that band, in order.
pub open spec fn kept_bands(indices: Seq<usize>, region: ITURegion) -> Seq<(usize, Band)>
    decreases indices.len(),
{
    if indices.len() == 0 {
        Seq::empty()
    } else {
        let prev = kept_bands(indices.drop_last(), region);
        match band_of_index(indices.last(), region) {
            Some(b) => prev.push((indices.last(), b)),
            None => prev,
        }
    }
}

/// The selected indices that name no band, in order.
pub open spec fn skipped_indices(indices: Seq<usize>, region: ITURegion) -> Seq<usize>
    decreases indices.len(),
{
    if indices.len() == 0 {
        Seq::empty()
    } else {
        let prev = skipped_indices(indices.drop_last(), region);
        match band_of_index(indices.last(), region) {
            Some(_) => prev,
            None => prev.push(indices.last()),
        }
    }
}

/// Splits a selection of 1-based band indices into the bands calculated
/// (each with its index, as seen in the region) and the indices skipped:
/// index 0, indices past the catalog, and bands the region does not have.
pub fn partition_band_selection(indices: &[usize], region: ITURegion) -> (r: (
    Vec<(usize, Band)>,
    Vec<usize>,
))
    ensures
        r.0@ == kept_bands(indices@, region),
        r.1@ == skipped_indices(indices@, region),
{
    let mut kept: Vec<(usize, Band)> = Vec::new();
    let mut skipped: Vec<usize> = Vec::new();
    let n = indices.len();
    let mut i: usize = 0;
    while i < n
        invariant
            i <= n,
            n == indices@.len(),
            kept@ == kept_bands(indices@.subrange(0, i as int), region),
            skipped@ == skipped_indices(indices@.subrange(0, i as int), region),
        decreases n - i,
    {
        let idx = indices[i];
        proof {
            let post = indices@.subrange(0, i + 1);
            assert(post.drop_last() =~= indices@.subrange(0, i as int));
            assert(post.last() == idx);
        }
        let band = if idx == 0 {
            None
        } else {
            bands::get_band_by_index_for_region(idx - 1, region)
        };
        match band {
            Some(b) => kept.push((idx, b)),
            None => skipped.push(idx),
        }
        i = i + 1;
    }
    assert(indices@.subrange(0, n as int) =~= indices@);
    (kept, skipped)
}

/// A run's selection is split without loss: each index is either calculated
/// or skipped. An index that the region's band listing shows (1 to
/// `BAND_COUNT`) is calculated, with the band the listing shows at it and in
/// the order given; index 0 and indices past the catalog are skipped.
pub proof fn lemma_partition_follows_listing(indices: Seq<usize>, region: ITURegion)
    ensures
        kept_bands(indices, region).len() + skipped_indices(indices, region).len()
            == indices.len(),
        (forall|k: int| 0 <= k < indices.len() ==> 1 <= #[trigger] indices[k] <= bands::BAND_COUNT)
            ==> skipped_indices(indices, region).len() == 0 && kept_bands(indices, region).len()
            == indices.len() && forall|k: int|
            0 <= k < indices.len() ==> #[trigger] kept_bands(indices, region)[k] == (
                indices[k],
                bands::region_bands(region)[indices[k] - 1].1,
            ),
        forall|k: int|
            0 <= k < indices.len() && (indices[k] == 0 || indices[k] > bands::BAND_COUNT)
                ==> skipped_indices(indices, region).contains(#[trigger] indices[k]),
    decreases indices.len(),
{
    bands::lemma_region_bands(region);
    if indices.len() > 0 {
        let p = indices.drop_last();
        let last = indices.last();
        lemma_partition_follows_listing(p, region);
        if 1 <= last <= bands::BAND_COUNT {
            bands::lemma_catalog_all_regions(last - 1, region);
        }
        if forall|k: int| 0 <= k < indices.len() ==> 1 <= #[trigger] indices[k] <= bands::BAND_COUNT {
            assert forall|k: int| 0 <= k < p.len() implies 1 <= #[trigger] p[k] <= bands::BAND_COUNT by {
                assert(p[k] == indices[k]);
            }
            assert(1 <= indices[indices.len() - 1] <= bands::BAND_COUNT);
        }
        let sk = skipped_indices(indices, region);
        assert forall|k: int|
            0 <= k < indices.len() && (indices[k] == 0 || indices[k] > bands::BAND_COUNT)
                implies sk.contains(#[trigger] indices[k]) by {
            if k < p.len() {
                assert(p[k] == indices[k]);
                let j = choose|j: int| 0 <= j < skipped_indices(p, region).len()
                    && skipped_indices(p, region)[j] == p[k];
                assert(sk[j] == indices[k]);
            } else {
                assert(sk[sk.len() - 1] == indices[k]);
            }
        }
    }
}

/// A band selection parsed from text is calculated whole: no index of it is
/// skipped, in any region.
pub proof fn lemma_parsed_selection_calculated_whole(s: Seq<char>, region: ITURegion)
    ensures
        band_select::parse_selection_spec(s, region) matches Ok(v) ==> (skipped_indices(
            v,
            region,
        ).len() == 0 && kept_bands(v, region).len() == v.len()),
{
    band_select::lemma_selection_unique_and_in_catalog(s, region);
    if let Ok(v) = band_select::parse_selection_spec(s, region) {
        lemma_partition_follows_listing(v, region);
    }
}

/// One detail per skipped band index, in order, each with the region reason.
pub fn skipped_band_details(skipped_band_indices: &[usize]) -> (v: Vec<SkippedBandDetail>)
    ensures
        v@.len() == skipped_band_indices@.len(),
        forall|i: int|
            0 <= i < v@.len() ==> (#[trigger] v@[i]).band_index == skipped_band_indices@[i]
                && v@[i].reason@ == "not available in the selected ITU region"@,
{
    let mut v: Vec<SkippedBandDetail> = Vec::new();
    let n = skipped_band_indices.len();
    let mut i: usize = 0;
    while i < n
        invariant
            i <= n,
            n == skipped_band_indices@.len(),
            v@.len() == i,
            forall|k: int|
                0 <= k < i ==> (#[trigger] v@[k]).band_index == skipped_band_indices@[k]
                    && v@[k].reason@ == "not available in the selected ITU region"@,
        decreases n - i,
    {
        v.push(
            SkippedBandDetail {
                band_index: skipped_band_indices[i],
                reason: "not available in the selected ITU region",
            },
        );
        i = i + 1;
    }
    v
}

/// The warning line listing skipped band indices, or `None` when none was skipped.
pub fn skipped_band_warning(skipped_band_indices: &[usize]) -> (w: Option<String>)
    ensures
        skipped_band_indices@.len() == 0 ==> w is None,
        skipped_band_indices@.len() > 0 ==> (w matches Some(s) && s@
            == "Warning: the following band selections were invalid and skipped: "@ + text::join(
            skipped_band_indices@.map_values(|i: usize| text::decimal(i as nat)),
            ", "@,
        )),
{
    let details = skipped_band_details(skipped_band_indices);
    if details.len() == 0 {
        return None;
    }
    let mut parts: Vec<Vec<char>> = Vec::new();
    let n = details.len();
    let mut i: usize = 0;
    while i < n
        invariant
            i <= n,
            n == details@.len(),
            n == skipped_band_indices@.len(),
            forall|k: int|
                0 <= k < n ==> (#[trigger] details@[k]).band_index == skipped_band_indices@[k],
            parts@.len() == i,
            forall|k: int|
                0 <= k < i ==> (#[trigger] parts@[k])@ == text::decimal(
                    skipped_band_indices@[k] as nat,
                ),
        decreases n - i,
    {
        parts.push(text::decimal_chars(details[i].band_index as u64));
        i = i + 1;
    }
    let sep = text::chars_of(", ");
    let joined = text::join_chars(&parts, &sep);
    let mut v: Vec<char> = Vec::new();
    text::push_str(&mut v, "Warning: the following band selections were invalid and skipped: ");
    text::push_all(&mut v, &joined);
    assert(parts@.map_values(|p: Vec<char>| p@) =~= skipped_band_indices@.map_values(
        |i: usize| text::decimal(i as nat),
    ));
    Some(text::string_of(&v))
}

/// The library's recommendation is what the explanation states: the
/// explanation's ratio is the recommended one, and the fallback message
/// names it.
pub proof fn lemma_explanation_matches_recommendation(mode: CalcMode, model: Option<AntennaModel>)
    ensures
        advise::explanation_spec(mode, model).0 == recommended_ratio(mode, model),
        fallback_message(mode, model) == "Unknown ratio. Using recommended "@
            + calculations::ratio_label(advise::explanation_spec(mode, model).0) + "."@,
{
}

} // verus!
