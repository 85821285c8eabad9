//! Command-line front-end logic: transformer selection, run summaries,
//! shell quoting of the equivalent command line, and the texts and
//! decisions of the interactive prompts.
use crate::app::{self, AntennaModel, CalcMode, ExportFormat, UnitSystem};
use crate::bands::{self, ITURegion};
use crate::calculations::{self, GroundClass, TransformerRatio};
use crate::text;
use vstd::prelude::*;

pub mod interactive;

verus! {

// ---------------------------------------------------------------------------
// Transformer selection
// ---------------------------------------------------------------------------

/// A transformer choice on the command line: the recommendation, or a
/// fixed ratio.
#[derive(Debug, Clone, Copy, PartialEq, Eq, Structural)]
pub enum CliTransformerSelection {
    Recommended,
    R1To1,
    R1To2,
    R1To4,
    R1To5,
    R1To6,
    R1To9,
    R1To16,
    R1To49,
    R1To56,
    R1To64,
}

/// The ratio a selection stands for.
pub open spec fn resolve_spec(
    sel: CliTransformerSelection,
    mode: CalcMode,
    model: Option<AntennaModel>,
) -> TransformerRatio {
    match sel {
        CliTransformerSelection::Recommended => app::recommended_ratio(mode, model),
        CliTransformerSelection::R1To1 => TransformerRatio::R1To1,
        CliTransformerSelection::R1To2 => TransformerRatio::R1To2,
        CliTransformerSelection::R1To4 => TransformerRatio::R1To4,
        CliTransformerSelection::R1To5 => TransformerRatio::R1To5,
        CliTransformerSelection::R1To6 => TransformerRatio::R1To6,
        CliTransformerSelection::R1To9 => TransformerRatio::R1To9,
        CliTransformerSelection::R1To16 => TransformerRatio::R1To16,
        CliTransformerSelection::R1To49 => TransformerRatio::R1To49,
        CliTransformerSelection::R1To56 => TransformerRatio::R1To56,
        CliTransformerSelection::R1To64 => TransformerRatio::R1To64,
    }
}

impl CliTransformerSelection {
    /// The ratio this selection stands for under a mode and antenna model.
    pub fn resolve(self, mode: CalcMode, antenna_model: Option<AntennaModel>) -> (r:
        TransformerRatio)
        ensures
            r == resolve_spec(self, mode, antenna_model),
    {
        match self {
            CliTransformerSelection::Recommended => app::recommended_transformer_ratio(
                mode,
                antenna_model,
            ),
            CliTransformerSelection::R1To1 => TransformerRatio::R1To1,
            CliTransformerSelection::R1To2 => TransformerRatio::R1To2,
            CliTransformerSelection::R1To4 => TransformerRatio::R1To4,
            CliTransformerSelection::R1To5 => TransformerRatio::R1To5,
            CliTransformerSelection::R1To6 => TransformerRatio::R1To6,
            CliTransformerSelection::R1To9 => TransformerRatio::R1To9,
            CliTransformerSelection::R1To16 => TransformerRatio::R1To16,
            CliTransformerSelection::R1To49 => TransformerRatio::R1To49,
            CliTransformerSelection::R1To56 => TransformerRatio::R1To56,
            CliTransformerSelection::R1To64 => TransformerRatio::R1To64,
        }
    }
}

/// The value by which a selection is chosen with `--transformer`.
pub open spec fn selection_name(sel: CliTransformerSelection) -> Seq<char> {
    match sel {
        CliTransformerSelection::Recommended => "recommended"@,
        CliTransformerSelection::R1To1 => "1:1"@,
        CliTransformerSelection::R1To2 => "1:2"@,
        CliTransformerSelection::R1To4 => "1:4"@,
        CliTransformerSelection::R1To5 => "1:5"@,
        CliTransformerSelection::R1To6 => "1:6"@,
        CliTransformerSelection::R1To9 => "1:9"@,
        CliTransformerSelection::R1To16 => "1:16"@,
        CliTransformerSelection::R1To49 => "1:49"@,
        CliTransformerSelection::R1To56 => "1:56"@,
        CliTransformerSelection::R1To64 => "1:64"@,
    }
}

/// A fixed selection resolves to the ratio it is named by (its label, which
/// the ratio parser reads back), whatever the mode and antenna model; only
/// the recommendation depends on them.
pub proof fn lemma_selection_resolves_to_its_name(
    sel: CliTransformerSelection,
    mode: CalcMode,
    model: Option<AntennaModel>,
    other_mode: CalcMode,
    other_model: Option<AntennaModel>,
)
    ensures
        sel != CliTransformerSelection::Recommended ==> calculations::ratio_label(
            resolve_spec(sel, mode, model),
        ) == selection_name(sel),
        sel != CliTransformerSelection::Recommended ==> calculations::parse_ratio_spec(
            selection_name(sel),
        ) == Some(resolve_spec(sel, mode, model)),
        sel != CliTransformerSelection::Recommended ==> resolve_spec(sel, mode, model)
            == resolve_spec(sel, other_mode, other_model),
        sel == CliTransformerSelection::Recommended ==> resolve_spec(sel, mode, model)
            == app::recommended_ratio(mode, model),
{
    calculations::lemma_parse_label_round_trip(resolve_spec(sel, mode, model));
}

// ---------------------------------------------------------------------------
// Run summaries
// ---------------------------------------------------------------------------

/// The option name of an antenna model ("all models" without one).
pub open spec fn antenna_summary_spec(model: Option<AntennaModel>) -> Seq<char> {
    match model {
        Some(AntennaModel::Dipole) => "dipole"@,
        Some(AntennaModel::InvertedVDipole) => "inverted-v"@,
        Some(AntennaModel::EndFedHalfWave) => "efhw"@,
        Some(AntennaModel::FullWaveLoop) => "loop"@,
        Some(AntennaModel::OffCenterFedDipole) => "ocfd"@,
        Some(AntennaModel::TrapDipole) => "trap-dipole"@,
        Some(AntennaModel::HybridMultiSection) => "hybrid-multi"@,
        None => "all models"@,
    }
}

/// The option name of an antenna model, as the resolved-run summary and
/// the equivalent command line write it.
pub fn antenna_summary(antenna_model: Option<AntennaModel>) -> (s: &'static str)
    ensures
        s@ == antenna_summary_spec(antenna_model),
{
    match antenna_model {
        Some(AntennaModel::Dipole) => "dipole",
        Some(AntennaModel::InvertedVDipole) => "inverted-v",
        Some(AntennaModel::EndFedHalfWave) => "efhw",
        Some(AntennaModel::FullWaveLoop) => "loop",
        Some(AntennaModel::OffCenterFedDipole) => "ocfd",
        Some(AntennaModel::TrapDipole) => "trap-dipole",
        Some(AntennaModel::HybridMultiSection) => "hybrid-multi",
        None => "all models",
    }
}

/// The option name of a unit system.
pub open spec fn units_summary_spec(u: UnitSystem) -> Seq<char> {
    match u {
        UnitSystem::Metric => "m"@,
        UnitSystem::Imperial => "ft"@,
        UnitSystem::Both => "both"@,
    }
}

/// The option name of a unit system ("m", "ft" or "both").
pub fn units_summary(units: UnitSystem) -> (s: &'static str)
    ensures
        s@ == units_summary_spec(units),
{
    match units {
        UnitSystem::Metric => "m",
        UnitSystem::Imperial => "ft",
        UnitSystem::Both => "both",
    }
}

/// The option name of a calculation mode.
pub open spec fn mode_option_spec(m: CalcMode) -> Seq<char> {
    match m {
        CalcMode::Resonant => "resonant"@,
        CalcMode::NonResonant => "non-resonant"@,
    }
}

/// The option name of a calculation mode ("resonant" or "non-resonant").
pub fn mode_option_name(mode: CalcMode) -> (s: &'static str)
    ensures
        s@ == mode_option_spec(mode),
{
    match mode {
        CalcMode::Resonant => "resonant",
        CalcMode::NonResonant => "non-resonant",
    }
}

proof fn lemma_mode_name_round_trip(mode: CalcMode)
    ensures
        app::parse_calc_mode_spec(mode_option_spec(mode)) == Some(mode),
{
    reveal_strlit("resonant");
    reveal_strlit("non-resonant");
    text::lemma_lower_fixed(mode_option_spec(mode));
}

proof fn lemma_antenna_name_round_trip(model: AntennaModel)
    ensures
        app::parse_antenna_spec(antenna_summary_spec(Some(model))) == Some(model),
{
    reveal_strlit("dipole");
    reveal_strlit("inverted-v");
    reveal_strlit("inv-v");
    reveal_strlit("invertedv");
    reveal_strlit("invv");
    reveal_strlit("efhw");
    reveal_strlit("end-fed");
    reveal_strlit("end-fed-half-wave");
    reveal_strlit("loop");
    reveal_strlit("full-wave-loop");
    reveal_strlit("ocfd");
    reveal_strlit("off-center-fed");
    reveal_strlit("off-center-fed-dipole");
    reveal_strlit("trap-dipole");
    reveal_strlit("trap");
    reveal_strlit("trapdipole");
    reveal_strlit("hybrid");
    reveal_strlit("hybrid-multi");
    reveal_strlit("hybrid-multi-section");
    reveal_strlit("multi-section");
    reveal_strlit("multi-section-dipole");
    reveal_strlit("multisection");
    let k = antenna_summary_spec(Some(model));
    text::lemma_lower_fixed(k);
    match model {
        AntennaModel::Dipole => {},
        AntennaModel::InvertedVDipole => {},
        AntennaModel::EndFedHalfWave => {
            assert(k[0] != "invv"@[0]);
        },
        AntennaModel::FullWaveLoop => {
            assert(k[0] != "invv"@[0] && k[0] != "efhw"@[0]);
        },
        AntennaModel::OffCenterFedDipole => {
            assert(k[0] != "invv"@[0] && k[0] != "efhw"@[0] && k[0] != "loop"@[0]);
        },
        AntennaModel::TrapDipole => {},
        AntennaModel::HybridMultiSection => {},
    }
}

proof fn lemma_units_name_round_trip(units: UnitSystem)
    ensures
        app::parse_units_spec(units_summary_spec(units)) == Some(units),
{
    reveal_strlit("m");
    reveal_strlit("metric");
    reveal_strlit("ft");
    reveal_strlit("imperial");
    reveal_strlit("both");
    text::lemma_lower_fixed(units_summary_spec(units));
}

proof fn lemma_export_name_round_trip(format: ExportFormat)
    ensures
        app::parse_export_spec(app::export_name(format)) == Some(format),
{
    reveal_strlit("csv");
    reveal_strlit("html");
    reveal_strlit("htm");
    reveal_strlit("json");
    reveal_strlit("markdown");
    reveal_strlit("md");
    reveal_strlit("nec");
    reveal_strlit("txt");
    reveal_strlit("text");
    reveal_strlit("yaml");
    reveal_strlit("yml");
    let k = app::export_name(format);
    text::lemma_lower_fixed(k);
    match format {
        ExportFormat::Csv => {},
        ExportFormat::Html => {},
        ExportFormat::Json => {
            assert(k[0] != "html"@[0]);
        },
        ExportFormat::Markdown => {},
        ExportFormat::Nec => {
            assert(k[0] != "csv"@[0] && k[0] != "htm"@[0]);
        },
        ExportFormat::Txt => {
            assert(k[0] != "csv"@[0] && k[0] != "htm"@[0] && k[0] != "nec"@[0]);
        },
        ExportFormat::Yaml => {
            assert(k[0] != "html"@[0] && k[0] != "json"@[0] && k[0] != "text"@[0]);
        },
    }
}

/// Every option name that the run summary and the equivalent command line
/// write is read back to the value it was written for.
pub proof fn lemma_option_names_round_trip(
    mode: CalcMode,
    model: AntennaModel,
    units: UnitSystem,
    format: ExportFormat,
    region: ITURegion,
)
    ensures
        app::parse_calc_mode_spec(mode_option_spec(mode)) == Some(mode),
        app::parse_antenna_spec(antenna_summary_spec(Some(model))) == Some(model),
        app::parse_units_spec(units_summary_spec(units)) == Some(units),
        app::parse_export_spec(app::export_name(format)) == Some(format),
        bands::parse_region_spec(bands::region_short(region)) == Some(region),
{
    lemma_mode_name_round_trip(mode);
    lemma_antenna_name_round_trip(model);
    lemma_units_name_round_trip(units);
    lemma_export_name_round_trip(format);
    reveal_strlit("1");
    reveal_strlit("2");
    reveal_strlit("3");
    let r = bands::region_short(region);
    assert(!text::is_ws(r[0]));
    assert(text::trim_start(r) == r);
    assert(text::trim_end(r.drop_last()) == r.drop_last());
    assert(text::trim(r) == r);
}

/// The selected bands as short labels joined with ','.
pub open spec fn bands_csv_spec(indices: Seq<usize>, region: ITURegion) -> Seq<char> {
    text::join(
        indices.map_values(|i: usize| app::band_select::label_spec(i, region)),
        ","@,
    )
}

/// The `--bands` value of the equivalent command line reads back to the
/// selection it was written for, when that selection names each band once
/// and only bands of the catalog.
pub proof fn lemma_bands_csv_round_trip(indices: Seq<usize>, region: ITURegion)
    requires
        indices.len() > 0,
        indices.no_duplicates(),
        forall|k: int| 0 <= k < indices.len() ==> 1 <= #[trigger] indices[k] <= bands::BAND_COUNT,
    ensures
        app::band_select::parse_selection_spec(bands_csv_spec(indices, region), region) == Ok::<
            Seq<usize>,
            app::AppErrorView,
        >(indices),
{
    reveal_strlit(",");
    assert(","@ =~= seq![',']);
    app::band_select::lemma_band_labels_round_trip(indices, region);
}

/// The selected bands as short labels joined with ',' (the `--bands`
/// value of the equivalent command line).
pub fn bands_csv(indices: &[usize], region: ITURegion) -> (s: String)
    ensures
        s@ == bands_csv_spec(indices@, region),
{
    let mut parts: Vec<Vec<char>> = Vec::new();
    let n = indices.len();
    let mut i: usize = 0;
    while i < n
        invariant
            i <= n,
            n == indices@.len(),
            parts@.len() == i,
            forall|k: int|
                0 <= k < i ==> (#[trigger] parts@[k])@ == app::band_select::label_spec(
                    indices@[k],
                    region,
                ),
        decreases n - i,
    {
        let label = app::band_label_for_index(indices[i], region);
        parts.push(text::chars_of(label.as_str()));
        i = i + 1;
    }
    let sep = text::chars_of(",");
    let joined = text::join_chars(&parts, &sep);
    assert(parts@.map_values(|p: Vec<char>| p@) =~= indices@.map_values(
        |i: usize| app::band_select::label_spec(i, region),
    ));
    text::string_of(&joined)
}

/// One "format -> file" entry of the export summary.
pub open spec fn export_entry(f: ExportFormat, name: Seq<char>) -> Seq<char> {
    app::export_name(f) + " -> "@ + name
}

/// The export part of the run summary: "none"; for one format the file it
/// goes to (the given output, else its default name); for several formats
/// each with its default name, noting that a given output is ignored.
/// `default_names[i]` is the default file name of `formats[i]`.
pub open spec fn export_summary_spec(
    formats: Seq<ExportFormat>,
    single_output: Option<Seq<char>>,
    default_names: Seq<Seq<char>>,
) -> Seq<char> {
    if formats.len() == 0 {
        "none"@
    } else if formats.len() == 1 {
        export_entry(
            formats[0],
            match single_output {
                Some(o) => o,
                None => default_names[0],
            },
        )
    } else {
        let outputs = text::join(
            Seq::new(formats.len(), |i: int| export_entry(formats[i], default_names[i])),
            ", "@,
        );
        if single_output is Some {
            outputs + " (--output ignored for multiple formats)"@
        } else {
            outputs
        }
    }
}

/// The export part of the run summary (see `export_summary_spec`);
/// `default_names[i]` is the default file name of `export_formats[i]`.
pub fn export_summary(
    export_formats: &[ExportFormat],
    single_output: Option<&str>,
    default_names: &[String],
) -> (s: String)
    requires
        export_formats@.len() == default_names@.len(),
    ensures
        s@ == export_summary_spec(
            export_formats@,
            match single_output {
                Some(o) => Some(o@),
                None => None,
            },
            default_names@.map_values(|n: String| n@),
        ),
{
    let ghost names = default_names@.map_values(|n: String| n@);
    let n = export_formats.len();
    if n == 0 {
        return String::from_str("none");
    }
    if n == 1 {
        let mut v: Vec<char> = Vec::new();
        text::push_str(&mut v, export_formats[0].as_str());
        text::push_str(&mut v, " -> ");
        match single_output {
            Some(o) => text::push_str(&mut v, o),
            None => text::push_str(&mut v, default_names[0].as_str()),
        }
        assert(names[0] == default_names@[0]@);
        return text::string_of(&v);
    }
    let ghost entries = Seq::new(n as nat, |i: int| export_entry(export_formats@[i], names[i]));
    let mut parts: Vec<Vec<char>> = Vec::new();
    let mut i: usize = 0;
    while i < n
        invariant
            i <= n,
            n == export_formats@.len(),
            n == default_names@.len(),
            names == default_names@.map_values(|n: String| n@),
            entries == Seq::new(n as nat, |i: int| export_entry(export_formats@[i], names[i])),
            parts@.len() == i,
            forall|k: int| 0 <= k < i ==> (#[trigger] parts@[k])@ == entries[k],
        decreases n - i,
    {
        let mut e: Vec<char> = Vec::new();
        text::push_str(&mut e, export_formats[i].as_str());
        text::push_str(&mut e, " -> ");
        text::push_str(&mut e, default_names[i].as_str());
        assert(e@ == entries[i as int]);
        parts.push(e);
        i = i + 1;
    }
    let sep = text::chars_of(", ");
    let mut joined = text::join_chars(&parts, &sep);
    assert(parts@.map_values(|p: Vec<char>| p@) =~= entries);
    if single_output.is_some() {
        text::push_str(&mut joined, " (--output ignored for multiple formats)");
    }
    text::string_of(&joined)
}

/// Where the bands of a run come from.
#[derive(Debug, Clone, PartialEq, Eq)]
pub enum BandSource {
    /// A band selection text given with `--bands`.
    Selection(String),
    /// A named preset given with `--bands-preset`.
    Preset(String),
    /// Neither was given: the default band set.
    DefaultSet,
}

/// The message for giving both `--bands` and `--bands-preset`.
pub open spec fn band_source_conflict() -> Seq<char> {
    "--bands and --bands-preset are mutually exclusive; use one or the other."@
}

/// Where the bands come from, given the `--bands` and `--bands-preset`
/// values: the two exclude each other.
pub fn band_source(bands: Option<&str>, preset: Option<&str>) -> (r: Result<BandSource, String>)
    ensures
        match (bands, preset) {
            (Some(_), Some(_)) => r matches Err(m) && m@ == band_source_conflict(),
            (Some(b), None) => r matches Ok(BandSource::Selection(x)) && x@ == b@,
            (None, Some(p)) => r matches Ok(BandSource::Preset(x)) && x@ == p@,
            (None, None) => r matches Ok(BandSource::DefaultSet),
        },
{
    match (bands, preset) {
        (Some(_), Some(_)) => Err(
            String::from_str("--bands and --bands-preset are mutually exclusive; use one or the other."),
        ),
        (Some(b), None) => Ok(BandSource::Selection(String::from_str(b))),
        (None, Some(p)) => Ok(BandSource::Preset(String::from_str(p))),
        (None, None) => Ok(BandSource::DefaultSet),
    }
}

// ---------------------------------------------------------------------------
// Shell quoting
// ---------------------------------------------------------------------------

/// Characters that stand for themselves in a shell word.
pub open spec fn shell_safe(c: char) -> bool {
    ('a' <= c <= 'z') || ('A' <= c <= 'Z') || ('0' <= c <= '9') || c == '-' || c == '_' || c
        == '.' || c == '/'
}

/// `v` with every single quote written as `'\''`.
pub open spec fn escape_quotes(v: Seq<char>) -> Seq<char>
    decreases v.len(),
{
    if v.len() == 0 {
        Seq::empty()
    } else {
        let head: Seq<char> = if v[0] == '\'' {
            seq!['\'', '\\', '\'', '\'']
        } else {
            seq![v[0]]
        };
        head + escape_quotes(v.drop_first())
    }
}

/// How `shell_quote` writes a value: `''` for the empty value, the value
/// itself when every character is safe, else the value in single quotes.
pub open spec fn shell_quote_spec(v: Seq<char>) -> Seq<char> {
    if v.len() == 0 {
        seq!['\'', '\'']
    } else if forall|k: int| 0 <= k < v.len() ==> shell_safe(#[trigger] v[k]) {
        v
    } else {
        seq!['\''] + escape_quotes(v) + seq!['\'']
    }
}

/// The word a POSIX shell reads from `s` outside quotes: a single quote
/// opens a quoted run, a backslash takes the next character literally.
pub open spec fn sh_word(s: Seq<char>) -> Seq<char>
    decreases s.len(), 1int,
{
    if s.len() == 0 {
        Seq::empty()
    } else if s[0] == '\'' {
        sh_quoted(s.drop_first())
    } else if s[0] == '\\' && s.len() >= 2 {
        seq![s[1]] + sh_word(s.subrange(2, s.len() as int))
    } else {
        seq![s[0]] + sh_word(s.drop_first())
    }
}

/// The word a POSIX shell reads from `s` inside single quotes.
pub open spec fn sh_quoted(s: Seq<char>) -> Seq<char>
    decreases s.len(), 0int,
{
    if s.len() == 0 {
        Seq::empty()
    } else if s[0] == '\'' {
        sh_word(s.drop_first())
    } else {
        seq![s[0]] + sh_quoted(s.drop_first())
    }
}

proof fn lemma_sh_quoted_escape(v: Seq<char>, rest: Seq<char>)
    ensures
        sh_quoted(escape_quotes(v) + seq!['\''] + rest) == v + sh_word(rest),
    decreases v.len(),
{
    if v.len() == 0 {
        assert(escape_quotes(v) + seq!['\''] + rest =~= seq!['\''] + rest);
        assert((seq!['\''] + rest).drop_first() =~= rest);
        assert(v + sh_word(rest) =~= sh_word(rest));
    } else {
        let tail = escape_quotes(v.drop_first()) + seq!['\''] + rest;
        lemma_sh_quoted_escape(v.drop_first(), rest);
        if v[0] == '\'' {
            let s = seq!['\'', '\\', '\'', '\''] + tail;
            assert(escape_quotes(v) + seq!['\''] + rest =~= s);
            let s1 = s.drop_first();
            assert(s1 =~= seq!['\\', '\'', '\''] + tail);
            assert(s1.subrange(2, s1.len() as int) =~= seq!['\''] + tail);
            assert((seq!['\''] + tail).drop_first() =~= tail);
            assert(sh_word(s1) == seq!['\''] + sh_word(seq!['\''] + tail));
            assert(sh_word(seq!['\''] + tail) == sh_quoted(tail));
            assert(v =~= seq!['\''] + v.drop_first());
            assert(sh_quoted(s) == sh_word(s1));
            assert(sh_quoted(s) =~= v + sh_word(rest));
        } else {
            let s = seq![v[0]] + tail;
            assert(escape_quotes(v) + seq!['\''] + rest =~= s);
            assert(s.drop_first() =~= tail);
            assert(v =~= seq![v[0]] + v.drop_first());
            assert(sh_quoted(s) =~= v + sh_word(rest));
        }
    }
}

proof fn lemma_sh_word_safe(v: Seq<char>)
    requires
        forall|k: int| 0 <= k < v.len() ==> shell_safe(#[trigger] v[k]),
    ensures
        sh_word(v) == v,
    decreases v.len(),
{
    if v.len() > 0 {
        assert(shell_safe(v[0]));
        let t = v.drop_first();
        assert forall|k: int| 0 <= k < t.len() implies shell_safe(#[trigger] t[k]) by {
            assert(t[k] == v[k + 1]);
        }
        lemma_sh_word_safe(t);
        assert(v =~= seq![v[0]] + t);
    }
}

/// Whatever the value, a POSIX shell reads the quoted form back as that
/// value: `sh_word(shell_quote(v)) == v`.
pub proof fn lemma_shell_quote_round_trip(v: Seq<char>)
    ensures
        sh_word(shell_quote_spec(v)) == v,
{
    if v.len() == 0 {
        let q = seq!['\'', '\''];
        assert(q.drop_first() =~= seq!['\'']);
        assert(seq!['\''].drop_first() =~= Seq::<char>::empty());
        assert(sh_word(q) == sh_quoted(seq!['\'']));
        assert(sh_quoted(seq!['\'']) == sh_word(Seq::<char>::empty()));
        assert(v =~= Seq::<char>::empty());
    } else if forall|k: int| 0 <= k < v.len() ==> shell_safe(#[trigger] v[k]) {
        lemma_sh_word_safe(v);
    } else {
        let q = seq!['\''] + escape_quotes(v) + seq!['\''];
        lemma_sh_quoted_escape(v, Seq::empty());
        assert(escape_quotes(v) + seq!['\''] + Seq::<char>::empty() =~= escape_quotes(v) + seq![
            '\'',
        ]);
        assert(q.drop_first() =~= escape_quotes(v) + seq!['\'']);
        assert(v + sh_word(Seq::<char>::empty()) =~= v);
    }
}

proof fn lemma_escape_push(v: Seq<char>, c: char)
    ensures
        escape_quotes(v.push(c)) == escape_quotes(v) + (if c == '\'' {
            seq!['\'', '\\', '\'', '\'']
        } else {
            seq![c]
        }),
    decreases v.len(),
{
    let piece: Seq<char> = if c == '\'' {
        seq!['\'', '\\', '\'', '\'']
    } else {
        seq![c]
    };
    if v.len() == 0 {
        let w = v.push(c);
        assert(w.len() == 1 && w[0] == c);
        assert(w.drop_first() =~= Seq::<char>::empty());
        assert(escape_quotes(w.drop_first()) =~= Seq::<char>::empty());
        assert(escape_quotes(w) =~= piece + Seq::<char>::empty());
        assert(escape_quotes(v.push(c)) =~= piece);
        assert(escape_quotes(v) + piece =~= piece);
    } else {
        lemma_escape_push(v.drop_first(), c);
        assert(v.push(c).drop_first() =~= v.drop_first().push(c));
        let head: Seq<char> = if v[0] == '\'' {
            seq!['\'', '\\', '\'', '\'']
        } else {
            seq![v[0]]
        };
        assert(escape_quotes(v.push(c)) =~= head + escape_quotes(v.drop_first().push(c)));
        assert(escape_quotes(v.push(c)) =~= escape_quotes(v) + piece);
    }
}

/// Quotes a value for a POSIX shell: unchanged when every character is
/// safe (`a-z A-Z 0-9 - _ . /`), `''` when empty, else single-quoted with
/// inner single quotes written as `'\''`.
pub fn shell_quote(value: &str) -> (s: String)
    ensures
        s@ == shell_quote_spec(value@),
{
    let v = text::chars_of(value);
    let n = v.len();
    let mut r: Vec<char> = Vec::new();
    if n == 0 {
        r.push('\'');
        r.push('\'');
        assert(r@ =~= seq!['\'', '\'']);
        return text::string_of(&r);
    }
    let mut safe = true;
    let mut i: usize = 0;
    while i < n
        invariant
            i <= n,
            n == v@.len(),
            safe == (forall|k: int| 0 <= k < i ==> shell_safe(#[trigger] v@[k])),
        decreases n - i,
    {
        let c = v[i];
        let ok = ('a' <= c && c <= 'z') || ('A' <= c && c <= 'Z') || ('0' <= c && c <= '9') || c
            == '-' || c == '_' || c == '.' || c == '/';
        if !ok {
            safe = false;
        }
        i = i + 1;
    }
    if safe {
        return text::string_of(&v);
    }
    r.push('\'');
    let mut j: usize = 0;
    while j < n
        invariant
            j <= n,
            n == v@.len(),
            r@ == seq!['\''] + escape_quotes(v@.subrange(0, j as int)),
        decreases n - j,
    {
        let c = v[j];
        proof {
            assert(v@.subrange(0, j + 1) =~= v@.subrange(0, j as int).push(c));
            lemma_escape_push(v@.subrange(0, j as int), c);
        }
        if c == '\'' {
            r.push('\'');
            r.push('\\');
            r.push('\'');
            r.push('\'');
        } else {
            r.push(c);
        }
        j = j + 1;
        assert(r@ =~= seq!['\''] + escape_quotes(v@.subrange(0, j as int)));
    }
    r.push('\'');
    assert(v@.subrange(0, n as int) =~= v@);
    text::string_of(&r)
}

// ---------------------------------------------------------------------------
// Interactive prompts: texts and decisions
// ---------------------------------------------------------------------------

/// The view of written text chunks.
pub open spec fn chunks_view(v: Seq<String>) -> Seq<Seq<char>> {
    v.map_values(|s: String| s@)
}

/// The calculation-mode prompt, chunk by chunk as written.
pub open spec fn calc_mode_prompt_spec(default: Option<CalcMode>) -> Seq<Seq<char>> {
    seq![
        "\nCalculation mode:\n"@,
        "  1) Resonant (default)\n"@,
        "  2) Non-resonant\n"@,
        match default {
            Some(CalcMode::NonResonant) => "Select calculation mode (1-2) [2]: "@,
            _ => "Select calculation mode (1-2) [1]: "@,
        },
    ]
}

/// The calculation-mode prompt text, chunk by chunk.
pub fn calc_mode_prompt_text(default: Option<CalcMode>) -> (v: Vec<String>)
    ensures
        chunks_view(v@) == calc_mode_prompt_spec(default),
{
    let mut v: Vec<String> = Vec::new();
    v.push(String::from_str("\nCalculation mode:\n"));
    v.push(String::from_str("  1) Resonant (default)\n"));
    v.push(String::from_str("  2) Non-resonant\n"));
    match default {
        Some(CalcMode::NonResonant) => v.push(
            String::from_str("Select calculation mode (1-2) [2]: "),
        ),
        _ => v.push(String::from_str("Select calculation mode (1-2) [1]: ")),
    }
    assert(chunks_view(v@) =~= calc_mode_prompt_spec(default));
    v
}

/// The mode chosen by an answer: "1" or "2", the default on an empty
/// answer, resonant otherwise.
pub open spec fn calc_mode_choice_spec(line: Seq<char>, default: Option<CalcMode>) -> CalcMode {
    let t = text::trim(line);
    if t == "2"@ {
        CalcMode::NonResonant
    } else if t == "1"@ {
        CalcMode::Resonant
    } else if t.len() == 0 {
        match default {
            Some(m) => m,
            None => CalcMode::Resonant,
        }
    } else {
        CalcMode::Resonant
    }
}

/// The calculation mode chosen by an answer to the mode prompt.
pub fn prompt_calc_mode_with_default(line: &str, default: Option<CalcMode>) -> (m: CalcMode)
    ensures
        m == calc_mode_choice_spec(line@, default),
{
    let t = text::trim_chars(&text::chars_of(line));
    if text::chars_eq_str(&t, "2") {
        CalcMode::NonResonant
    } else if text::chars_eq_str(&t, "1") {
        CalcMode::Resonant
    } else if t.len() == 0 {
        match default {
            Some(m) => m,
            None => CalcMode::Resonant,
        }
    } else {
        CalcMode::Resonant
    }
}

/// The antenna-model prompt, chunk by chunk as written.
pub open spec fn antenna_prompt_spec(default: Option<AntennaModel>) -> Seq<Seq<char>> {
    seq![
        "\nAntenna model:\n"@,
        "  d) Dipole (default)\n"@,
        "  e) End-fed half-wave\n"@,
        "  l) Full-wave loop\n"@,
        "  v) Inverted-V\n"@,
        "  o) Off-center-fed dipole (OCFD)\n"@,
        "  t) Trap dipole\n"@,
        match default {
            Some(AntennaModel::EndFedHalfWave) => "Select antenna model (d/e/l/v/o/t) [e]: "@,
            Some(AntennaModel::FullWaveLoop) => "Select antenna model (d/e/l/v/o/t) [l]: "@,
            Some(AntennaModel::InvertedVDipole) => "Select antenna model (d/e/l/v/o/t) [v]: "@,
            Some(AntennaModel::OffCenterFedDipole) => "Select antenna model (d/e/l/v/o/t) [o]: "@,
            Some(AntennaModel::TrapDipole) => "Select antenna model (d/e/l/v/o/t) [t]: "@,
            _ => "Select antenna model (d/e/l/v/o/t) [d]: "@,
        },
    ]
}

/// Each letter that the antenna prompt offers selects the model it labels,
/// whatever the default: "d" a dipole, "e" an end-fed half-wave, "l" a
/// full-wave loop, "v" an inverted-V, "o" an off-center-fed dipole and "t"
/// a trap dipole; surrounding whitespace is ignored.
pub proof fn lemma_antenna_letters_select_their_models(
    line: Seq<char>,
    default: Option<AntennaModel>,
)
    ensures
        text::trim(line) == "d"@ ==> antenna_choice_spec(line, default) == Some(AntennaModel::Dipole),
        text::trim(line) == "e"@ ==> antenna_choice_spec(line, default) == Some(
            AntennaModel::EndFedHalfWave,
        ),
        text::trim(line) == "l"@ ==> antenna_choice_spec(line, default) == Some(
            AntennaModel::FullWaveLoop,
        ),
        text::trim(line) == "v"@ ==> antenna_choice_spec(line, default) == Some(
            AntennaModel::InvertedVDipole,
        ),
        text::trim(line) == "o"@ ==> antenna_choice_spec(line, default) == Some(
            AntennaModel::OffCenterFedDipole,
        ),
        text::trim(line) == "t"@ ==> antenna_choice_spec(line, default) == Some(
            AntennaModel::TrapDipole,
        ),
{
    reveal_strlit("d");
    reveal_strlit("dipole");
    reveal_strlit("e");
    reveal_strlit("efhw");
    reveal_strlit("end-fed");
    reveal_strlit("end-fed-half-wave");
    reveal_strlit("l");
    reveal_strlit("loop");
    reveal_strlit("full-wave-loop");
    reveal_strlit("v");
    reveal_strlit("inverted-v");
    reveal_strlit("inverted-v-dipole");
    reveal_strlit("inv-v");
    reveal_strlit("invertedv");
    reveal_strlit("invv");
    reveal_strlit("o");
    reveal_strlit("ocfd");
    reveal_strlit("off-center-fed");
    reveal_strlit("off-center-fed-dipole");
    reveal_strlit("t");
    reveal_strlit("trap");
    reveal_strlit("trap-dipole");
    reveal_strlit("trapdipole");
    let t = text::trim(line);
    if t == "e"@ {
        assert(t[0] == 'e');
        assert(t != "d"@ && t != "dipole"@);
    }
    if t == "l"@ {
        assert(t[0] == 'l');
        assert(t != "d"@ && t != "dipole"@);
        assert(t != "e"@ && t != "efhw"@ && t != "end-fed"@ && t != "end-fed-half-wave"@);
    }
    if t == "v"@ {
        assert(t[0] == 'v');
        assert(t != "d"@ && t != "dipole"@);
        assert(t != "e"@ && t != "efhw"@ && t != "end-fed"@ && t != "end-fed-half-wave"@);
        assert(t != "l"@ && t != "loop"@ && t != "full-wave-loop"@);
    }
    if t == "o"@ {
        assert(t[0] == 'o');
        assert(t != "d"@ && t != "dipole"@);
        assert(t != "e"@ && t != "efhw"@ && t != "end-fed"@ && t != "end-fed-half-wave"@);
        assert(t != "l"@ && t != "loop"@ && t != "full-wave-loop"@);
        assert(t != "v"@ && t != "inverted-v"@ && t != "inverted-v-dipole"@);
        assert(t != "inv-v"@ && t != "invertedv"@ && t != "invv"@);
    }
    if t == "t"@ {
        assert(t[0] == 't');
        assert(t != "d"@ && t != "dipole"@);
        assert(t != "e"@ && t != "efhw"@ && t != "end-fed"@ && t != "end-fed-half-wave"@);
        assert(t != "l"@ && t != "loop"@ && t != "full-wave-loop"@);
        assert(t != "v"@ && t != "inverted-v"@ && t != "inverted-v-dipole"@);
        assert(t != "inv-v"@ && t != "invertedv"@ && t != "invv"@);
        assert(t != "o"@ && t != "ocfd"@);
        assert(t != "off-center-fed"@ && t != "off-center-fed-dipole"@);
    }
}

/// The option name of every model the antenna prompt offers selects that
/// model there too, whatever the default.
pub proof fn lemma_antenna_option_names_select_their_models(
    model: AntennaModel,
    default: Option<AntennaModel>,
)
    requires
        model != AntennaModel::HybridMultiSection,
    ensures
        antenna_choice_spec(antenna_summary_spec(Some(model)), default) == Some(model),
{
    reveal_strlit("d");
    reveal_strlit("dipole");
    reveal_strlit("e");
    reveal_strlit("efhw");
    reveal_strlit("end-fed");
    reveal_strlit("end-fed-half-wave");
    reveal_strlit("l");
    reveal_strlit("loop");
    reveal_strlit("full-wave-loop");
    reveal_strlit("v");
    reveal_strlit("inverted-v");
    reveal_strlit("inverted-v-dipole");
    reveal_strlit("inv-v");
    reveal_strlit("invertedv");
    reveal_strlit("invv");
    reveal_strlit("o");
    reveal_strlit("ocfd");
    reveal_strlit("off-center-fed");
    reveal_strlit("off-center-fed-dipole");
    reveal_strlit("t");
    reveal_strlit("trap");
    reveal_strlit("trap-dipole");
    reveal_strlit("trapdipole");
    let w = antenna_summary_spec(Some(model));
    assert(w.len() > 0 && !text::is_ws(w[0]) && !text::is_ws(w.last()));
    assert(text::trim_start(w) == w);
    assert(text::trim_end(w) == w);
    assert(w != "d"@ && w != "e"@ && w != "l"@ && w != "v"@ && w != "o"@);
    if model != AntennaModel::Dipole {
        assert(w != "dipole"@);
    }
    if model != AntennaModel::EndFedHalfWave {
        assert(w != "efhw"@ && w != "end-fed"@ && w != "end-fed-half-wave"@);
    }
    if model != AntennaModel::FullWaveLoop {
        assert(w != "loop"@ && w != "full-wave-loop"@);
    }
    if model != AntennaModel::InvertedVDipole {
        assert(w != "inverted-v"@ && w != "inverted-v-dipole"@ && w != "inv-v"@);
        assert(w != "invertedv"@ && w != "invv"@);
    }
    if model != AntennaModel::OffCenterFedDipole {
        assert(w != "ocfd"@ && w != "off-center-fed"@ && w != "off-center-fed-dipole"@);
    }
}

/// The letter that the antenna prompt shows in brackets as the default
/// selects that default again, for every model the prompt offers.
pub proof fn lemma_antenna_prompt_default_letter(default: Option<AntennaModel>)
    requires
        default != Some(AntennaModel::HybridMultiSection),
        default is Some,
    ensures
        antenna_choice_spec(
            seq![antenna_prompt_spec(default)[7][36]],
            default,
        ) == default,
{
    reveal_strlit("Select antenna model (d/e/l/v/o/t) [e]: ");
    reveal_strlit("Select antenna model (d/e/l/v/o/t) [l]: ");
    reveal_strlit("Select antenna model (d/e/l/v/o/t) [v]: ");
    reveal_strlit("Select antenna model (d/e/l/v/o/t) [o]: ");
    reveal_strlit("Select antenna model (d/e/l/v/o/t) [t]: ");
    reveal_strlit("Select antenna model (d/e/l/v/o/t) [d]: ");
    let c = antenna_prompt_spec(default)[7][36];
    let w = seq![c];
    assert(!text::is_ws(c));
    assert(text::trim_start(w) == w);
    assert(text::trim_end(w) == w);
    match default {
        Some(AntennaModel::Dipole) => assert(w =~= "d"@) by { reveal_strlit("d"); },
        Some(AntennaModel::EndFedHalfWave) => assert(w =~= "e"@) by { reveal_strlit("e"); },
        Some(AntennaModel::FullWaveLoop) => assert(w =~= "l"@) by { reveal_strlit("l"); },
        Some(AntennaModel::InvertedVDipole) => assert(w =~= "v"@) by { reveal_strlit("v"); },
        Some(AntennaModel::OffCenterFedDipole) => assert(w =~= "o"@) by { reveal_strlit("o"); },
        Some(AntennaModel::TrapDipole) => assert(w =~= "t"@) by { reveal_strlit("t"); },
        _ => {},
    }
    lemma_antenna_letters_select_their_models(w, default);
}

/// The antenna-model prompt text, chunk by chunk.
pub fn antenna_model_prompt_text(default: Option<AntennaModel>) -> (v: Vec<String>)
    ensures
        chunks_view(v@) == antenna_prompt_spec(default),
{
    let mut v: Vec<String> = Vec::new();
    v.push(String::from_str("\nAntenna model:\n"));
    v.push(String::from_str("  d) Dipole (default)\n"));
    v.push(String::from_str("  e) End-fed half-wave\n"));
    v.push(String::from_str("  l) Full-wave loop\n"));
    v.push(String::from_str("  v) Inverted-V\n"));
    v.push(String::from_str("  o) Off-center-fed dipole (OCFD)\n"));
    v.push(String::from_str("  t) Trap dipole\n"));
    let last = match default {
        Some(AntennaModel::EndFedHalfWave) => "Select antenna model (d/e/l/v/o/t) [e]: ",
        Some(AntennaModel::FullWaveLoop) => "Select antenna model (d/e/l/v/o/t) [l]: ",
        Some(AntennaModel::InvertedVDipole) => "Select antenna model (d/e/l/v/o/t) [v]: ",
        Some(AntennaModel::OffCenterFedDipole) => "Select antenna model (d/e/l/v/o/t) [o]: ",
        Some(AntennaModel::TrapDipole) => "Select antenna model (d/e/l/v/o/t) [t]: ",
        _ => "Select antenna model (d/e/l/v/o/t) [d]: ",
    };
    v.push(String::from_str(last));
    assert(chunks_view(v@) =~= antenna_prompt_spec(default));
    v
}

/// The antenna model chosen by an answer: a letter or name, the default on
/// an empty or unknown answer.
pub open spec fn antenna_choice_spec(line: Seq<char>, default: Option<AntennaModel>) -> Option<
    AntennaModel,
> {
    let t = text::trim(line);
    if t.len() == 0 {
        default
    } else if t == "d"@ || t == "dipole"@ {
        Some(AntennaModel::Dipole)
    } else if t == "e"@ || t == "efhw"@ || t == "end-fed"@ || t == "end-fed-half-wave"@ {
        Some(AntennaModel::EndFedHalfWave)
    } else if t == "l"@ || t == "loop"@ || t == "full-wave-loop"@ {
        Some(AntennaModel::FullWaveLoop)
    } else if t == "v"@ || t == "inverted-v"@ || t == "inverted-v-dipole"@ || t == "inv-v"@ || t
        == "invertedv"@ || t == "invv"@ {
        Some(AntennaModel::InvertedVDipole)
    } else if t == "o"@ || t == "ocfd"@ || t == "off-center-fed"@ || t == "off-center-fed-dipole"@ {
        Some(AntennaModel::OffCenterFedDipole)
    } else if t == "t"@ || t == "trap"@ || t == "trap-dipole"@ || t == "trapdipole"@ {
        Some(AntennaModel::TrapDipole)
    } else {
        default
    }
}

/// The antenna model chosen by an answer to the antenna prompt.
pub fn prompt_antenna_model_with_default(line: &str, default: Option<AntennaModel>) -> (m: Option<
    AntennaModel,
>)
    ensures
        m == antenna_choice_spec(line@, default),
{
    let t = text::trim_chars(&text::chars_of(line));
    if t.len() == 0 {
        default
    } else if text::chars_eq_str(&t, "d") || text::chars_eq_str(&t, "dipole") {
        Some(AntennaModel::Dipole)
    } else if text::chars_eq_str(&t, "e") || text::chars_eq_str(&t, "efhw") || text::chars_eq_str(
        &t,
        "end-fed",
    ) || text::chars_eq_str(&t, "end-fed-half-wave") {
        Some(AntennaModel::EndFedHalfWave)
    } else if text::chars_eq_str(&t, "l") || text::chars_eq_str(&t, "loop") || text::chars_eq_str(
        &t,
        "full-wave-loop",
    ) {
        Some(AntennaModel::FullWaveLoop)
    } else if text::chars_eq_str(&t, "v") || text::chars_eq_str(&t, "inverted-v")
        || text::chars_eq_str(&t, "inverted-v-dipole") || text::chars_eq_str(&t, "inv-v")
        || text::chars_eq_str(&t, "invertedv") || text::chars_eq_str(&t, "invv") {
        Some(AntennaModel::InvertedVDipole)
    } else if text::chars_eq_str(&t, "o") || text::chars_eq_str(&t, "ocfd") || text::chars_eq_str(
        &t,
        "off-center-fed",
    ) || text::chars_eq_str(&t, "off-center-fed-dipole") {
        Some(AntennaModel::OffCenterFedDipole)
    } else if text::chars_eq_str(&t, "t") || text::chars_eq_str(&t, "trap") || text::chars_eq_str(
        &t,
        "trap-dipole",
    ) || text::chars_eq_str(&t, "trapdipole") {
        Some(AntennaModel::TrapDipole)
    } else {
        default
    }
}

/// The antenna height used when none was chosen, in whole meters.
pub const DEFAULT_ANTENNA_HEIGHT_M: u32 = 10;

/// The antenna-height prompt; heights are whole meters.
pub open spec fn height_prompt_spec(default: Option<u32>) -> Seq<char> {
    let d = match default {
        Some(h) => h,
        None => DEFAULT_ANTENNA_HEIGHT_M,
    };
    "Antenna height in meters (7/10/12) ["@ + text::decimal(d as nat) + "]: "@
}

/// The antenna-height prompt text.
pub fn antenna_height_prompt_text(default: Option<u32>) -> (s: String)
    ensures
        s@ == height_prompt_spec(default),
{
    let d = match default {
        Some(h) => h,
        None => DEFAULT_ANTENNA_HEIGHT_M,
    };
    let mut v: Vec<char> = Vec::new();
    text::push_str(&mut v, "Antenna height in meters (7/10/12) [");
    let digits = text::decimal_chars(d as u64);
    text::push_all(&mut v, &digits);
    text::push_str(&mut v, "]: ");
    text::string_of(&v)
}

/// The antenna height chosen by an answer: one of the standard heights 7,
/// 10 and 12 m, else the default (10 m when none).
pub open spec fn height_choice_spec(line: Seq<char>, default: Option<u32>) -> u32 {
    let t = text::trim(line);
    if t == "7"@ {
        7
    } else if t == "10"@ {
        10
    } else if t == "12"@ {
        12
    } else {
        match default {
            Some(h) => h,
            None => DEFAULT_ANTENNA_HEIGHT_M,
        }
    }
}

/// The antenna height, in meters, chosen by an answer to the height prompt.
pub fn prompt_antenna_height_with_default(line: &str, default: Option<u32>) -> (h: u32)
    ensures
        h == height_choice_spec(line@, default),
{
    let t = text::trim_chars(&text::chars_of(line));
    if text::chars_eq_str(&t, "7") {
        7
    } else if text::chars_eq_str(&t, "10") {
        10
    } else if text::chars_eq_str(&t, "12") {
        12
    } else {
        match default {
            Some(h) => h,
            None => DEFAULT_ANTENNA_HEIGHT_M,
        }
    }
}

/// The ground-class prompt.
pub open spec fn ground_prompt_spec(default: Option<GroundClass>) -> Seq<char> {
    let d = match default {
        Some(g) => g,
        None => GroundClass::Average,
    };
    "Ground class (poor/average/good) ["@ + calculations::ground_label(d) + "]: "@
}

/// The ground-class prompt text.
pub fn ground_class_prompt_text(default: Option<GroundClass>) -> (s: String)
    ensures
        s@ == ground_prompt_spec(default),
{
    let d = match default {
        Some(g) => g,
        None => GroundClass::Average,
    };
    let mut v: Vec<char> = Vec::new();
    text::push_str(&mut v, "Ground class (poor/average/good) [");
    text::push_str(&mut v, d.as_label());
    text::push_str(&mut v, "]: ");
    text::string_of(&v)
}

/// The ground class chosen by an answer (ASCII case ignored): the default
/// (average when none) on an empty or unknown answer.
pub open spec fn ground_choice_spec(line: Seq<char>, default: Option<GroundClass>) -> GroundClass {
    let t = text::lower(text::trim(line));
    let d = match default {
        Some(g) => g,
        None => GroundClass::Average,
    };
    if t.len() == 0 {
        d
    } else if t == "poor"@ {
        GroundClass::Poor
    } else if t == "average"@ {
        GroundClass::Average
    } else if t == "good"@ {
        GroundClass::Good
    } else {
        d
    }
}

/// The ground class chosen by an answer to the ground prompt.
pub fn prompt_ground_class_with_default(line: &str, default: Option<GroundClass>) -> (g:
    GroundClass)
    ensures
        g == ground_choice_spec(line@, default),
{
    let t = text::lower_chars(&text::trim_chars(&text::chars_of(line)));
    let d = match default {
        Some(g) => g,
        None => GroundClass::Average,
    };
    if t.len() == 0 {
        d
    } else if text::chars_eq_str(&t, "poor") {
        GroundClass::Poor
    } else if text::chars_eq_str(&t, "average") {
        GroundClass::Average
    } else if text::chars_eq_str(&t, "good") {
        GroundClass::Good
    } else {
        d
    }
}

/// The transformer-ratio prompt.
pub open spec fn transformer_prompt_spec(default: Option<Seq<char>>) -> Seq<char> {
    match default {
        Some(val) => "Enter transformer ratio (e.g. 1:9, recommended) ["@ + val + "]: "@,
        None => "Enter transformer ratio (e.g. 1:9, recommended) [recommended]: "@,
    }
}

/// The transformer-ratio prompt text.
pub fn transformer_ratio_prompt_text(default: Option<&str>) -> (s: String)
    ensures
        s@ == transformer_prompt_spec(
            match default {
                Some(d) => Some(d@),
                None => None,
            },
        ),
{
    match default {
        Some(val) => {
            let mut v: Vec<char> = Vec::new();
            text::push_str(&mut v, "Enter transformer ratio (e.g. 1:9, recommended) [");
            text::push_str(&mut v, val);
            text::push_str(&mut v, "]: ");
            text::string_of(&v)
        },
        None => String::from_str("Enter transformer ratio (e.g. 1:9, recommended) [recommended]: "),
    }
}

/// The word "recommended" up to ASCII case.
pub open spec fn is_recommended_word(s: Seq<char>) -> bool {
    text::lower(s) == "recommended"@
}

/// The text an answer stands for: the trimmed answer, or the default
/// ("recommended" when none) on an empty answer.
pub open spec fn transformer_raw_spec(line: Seq<char>, default: Option<Seq<char>>) -> Seq<char> {
    let t = text::trim(line);
    if t.len() == 0 {
        match default {
            Some(d) => d,
            None => "recommended"@,
        }
    } else {
        t
    }
}

/// The ratio chosen by an answer to the ratio prompt, and the message
/// written when the answer names no known ratio (the recommendation is
/// used then).
pub open spec fn transformer_choice_spec(
    line: Seq<char>,
    mode: CalcMode,
    model: Option<AntennaModel>,
    default: Option<Seq<char>>,
) -> (TransformerRatio, Option<Seq<char>>) {
    let raw = transformer_raw_spec(line, default);
    if is_recommended_word(raw) {
        (app::recommended_ratio(mode, model), None)
    } else {
        match calculations::parse_ratio_spec(raw) {
            Some(r) => (r, None),
            None => (app::recommended_ratio(mode, model), Some(app::fallback_message(mode, model))),
        }
    }
}

/// A blank answer keeps what each prompt offers in brackets: the remembered
/// mode (else resonant), the remembered antenna model (or none), the
/// remembered antenna height (else 10 m), the remembered ground class (else
/// average), the remembered display units
/// (else the units the wire window was given in), and the remembered
/// transformer ratio (else the recommendation, without a message).
pub proof fn lemma_blank_answers_keep_defaults(
    line: Seq<char>,
    mode_default: Option<CalcMode>,
    model_default: Option<AntennaModel>,
    height_default: Option<u32>,
    ground_default: Option<GroundClass>,
    auto_units: UnitSystem,
    units_default: Option<UnitSystem>,
    mode: CalcMode,
    model: Option<AntennaModel>,
    ratio_default: Option<TransformerRatio>,
)
    requires
        text::trim(line).len() == 0,
    ensures
        calc_mode_choice_spec(line, mode_default) == match mode_default {
            Some(m) => m,
            None => CalcMode::Resonant,
        },
        antenna_choice_spec(line, model_default) == model_default,
        height_choice_spec(line, height_default) == match height_default {
            Some(h) => h,
            None => DEFAULT_ANTENNA_HEIGHT_M,
        },
        ground_choice_spec(line, ground_default) == match ground_default {
            Some(g) => g,
            None => GroundClass::Average,
        },
        units_choice_spec(line, auto_units, units_default) == match units_default {
            Some(u) => u,
            None => auto_units,
        },
        transformer_choice_spec(line, mode, model, None) == (
            app::recommended_ratio(mode, model),
            None::<Seq<char>>,
        ),
        ratio_default matches Some(r) ==> transformer_choice_spec(
            line,
            mode,
            model,
            Some(calculations::ratio_label(r)),
        ) == (r, None::<Seq<char>>),
{
    reveal_strlit("recommended");
    reveal_strlit("2");
    reveal_strlit("1");
    reveal_strlit("7");
    reveal_strlit("10");
    reveal_strlit("12");
    let t = text::trim(line);
    assert(t != "2"@ && t != "1"@ && t != "7"@ && t != "10"@ && t != "12"@);
    assert(text::lower(t).len() == 0);
    text::lemma_lower_fixed("recommended"@);
    if let Some(r) = ratio_default {
        calculations::lemma_parse_label_round_trip(r);
        let label = calculations::ratio_label(r);
        assert(text::lower(label).len() == label.len());
        assert(label.len() <= 4) by {
            reveal_strlit("1:1");
            reveal_strlit("1:2");
            reveal_strlit("1:4");
            reveal_strlit("1:5");
            reveal_strlit("1:6");
            reveal_strlit("1:9");
            reveal_strlit("1:16");
            reveal_strlit("1:49");
            reveal_strlit("1:56");
            reveal_strlit("1:64");
        }
    }
}

/// The ratio chosen by an answer to the ratio prompt, with the fallback
/// message to write when the answer names no known ratio.
pub fn prompt_transformer_ratio_with_default(
    line: &str,
    mode: CalcMode,
    antenna_model: Option<AntennaModel>,
    default: Option<&str>,
) -> (r: (TransformerRatio, Option<String>))
    ensures
        (r.0, match r.1 {
            Some(m) => Some(m@),
            None => None,
        }) == transformer_choice_spec(
            line@,
            mode,
            antenna_model,
            match default {
                Some(d) => Some(d@),
                None => None,
            },
        ),
{
    let t = text::trim_chars(&text::chars_of(line));
    let raw = if t.len() == 0 {
        match default {
            Some(d) => text::chars_of(d),
            None => text::chars_of("recommended"),
        }
    } else {
        t
    };
    let lowered = text::lower_chars(&raw);
    if text::chars_eq_str(&lowered, "recommended") {
        return (app::recommended_transformer_ratio(mode, antenna_model), None);
    }
    let raw_text = text::string_of(&raw);
    match TransformerRatio::parse(raw_text.as_str()) {
        Some(ratio) => (ratio, None),
        None => (
            app::recommended_transformer_ratio(mode, antenna_model),
            Some(app::recommended_transformer_ratio_fallback_message(mode, antenna_model)),
        ),
    }
}

/// The display-units prompt.
pub open spec fn units_prompt_spec(default: Option<UnitSystem>) -> Seq<char> {
    match default {
        Some(u) => "Select display units (m/ft/both) ["@ + units_summary_spec(u) + "]: "@,
        None => "Select display units (m/ft/both) [both]: "@,
    }
}

/// The display-units prompt text.
pub fn display_units_prompt_text(default: Option<UnitSystem>) -> (s: String)
    ensures
        s@ == units_prompt_spec(default),
{
    match default {
        Some(u) => {
            let mut v: Vec<char> = Vec::new();
            text::push_str(&mut v, "Select display units (m/ft/both) [");
            text::push_str(&mut v, units_summary(u));
            text::push_str(&mut v, "]: ");
            text::string_of(&v)
        },
        None => String::from_str("Select display units (m/ft/both) [both]: "),
    }
}

/// The units chosen by an answer: "m"/"meters", "ft"/"feet" or "both";
/// the default (else the automatic choice) on an empty or unknown answer.
pub open spec fn units_choice_spec(
    line: Seq<char>,
    auto_units: UnitSystem,
    default: Option<UnitSystem>,
) -> UnitSystem {
    let t = text::trim(line);
    let d = match default {
        Some(u) => u,
        None => auto_units,
    };
    if t.len() == 0 {
        d
    } else if t == "m"@ || t == "meters"@ {
        UnitSystem::Metric
    } else if t == "ft"@ || t == "feet"@ {
        UnitSystem::Imperial
    } else if t == "both"@ {
        UnitSystem::Both
    } else {
        d
    }
}

/// The display units chosen by an answer to the units prompt.
pub fn prompt_display_units_with_default(
    line: &str,
    auto_units: UnitSystem,
    default: Option<UnitSystem>,
) -> (u: UnitSystem)
    ensures
        u == units_choice_spec(line@, auto_units, default),
{
    let t = text::trim_chars(&text::chars_of(line));
    let d = match default {
        Some(u) => u,
        None => auto_units,
    };
    if t.len() == 0 {
        d
    } else if text::chars_eq_str(&t, "m") || text::chars_eq_str(&t, "meters") {
        UnitSystem::Metric
    } else if text::chars_eq_str(&t, "ft") || text::chars_eq_str(&t, "feet") {
        UnitSystem::Imperial
    } else if text::chars_eq_str(&t, "both") {
        UnitSystem::Both
    } else {
        d
    }
}

/// The region prompt, chunk by chunk as written.
pub open spec fn region_prompt_spec() -> Seq<Seq<char>> {
    seq![
        "\nITU Regions:\n"@,
        "  1) Region Europe, Africa, Middle East (default)\n"@,
        "  2) Region Americas\n"@,
        "  3) Region Asia-Pacific\n"@,
        "Select region (1/2/3, Enter for 1): "@,
    ]
}

fn region_option_line(region: ITURegion) -> (s: String)
    ensures
        s@ == "  "@ + bands::region_short(region) + ") Region "@ + bands::region_long(region) + (
        if region == ITURegion::Region1 {
            " (default)"@
        } else {
            ""@
        }) + "\n"@,
{
    let mut v: Vec<char> = Vec::new();
    text::push_str(&mut v, "  ");
    text::push_str(&mut v, region.short_name());
    text::push_str(&mut v, ") Region ");
    text::push_str(&mut v, region.long_name());
    if region == ITURegion::Region1 {
        text::push_str(&mut v, " (default)");
    } else {
        text::push_str(&mut v, "");
    }
    text::push_str(&mut v, "\n");
    text::string_of(&v)
}

/// The region prompt text, chunk by chunk.
pub fn itu_region_prompt_text() -> (v: Vec<String>)
    ensures
        chunks_view(v@) == region_prompt_spec(),
{
    let mut v: Vec<String> = Vec::new();
    v.push(String::from_str("\nITU Regions:\n"));
    v.push(region_option_line(ITURegion::Region1));
    v.push(region_option_line(ITURegion::Region2));
    v.push(region_option_line(ITURegion::Region3));
    v.push(String::from_str("Select region (1/2/3, Enter for 1): "));
    proof {
        reveal_strlit("  ");
        reveal_strlit("1");
        reveal_strlit("2");
        reveal_strlit("3");
        reveal_strlit(") Region ");
        reveal_strlit("Europe, Africa, Middle East");
        reveal_strlit("Americas");
        reveal_strlit("Asia-Pacific");
        reveal_strlit(" (default)");
        reveal_strlit("");
        reveal_strlit("\n");
        reveal_strlit("  1) Region Europe, Africa, Middle East (default)\n");
        reveal_strlit("  2) Region Americas\n");
        reveal_strlit("  3) Region Asia-Pacific\n");
        assert(v@[1]@ =~= "  1) Region Europe, Africa, Middle East (default)\n"@);
        assert(v@[2]@ =~= "  2) Region Americas\n"@);
        assert(v@[3]@ =~= "  3) Region Asia-Pacific\n"@);
    }
    assert(chunks_view(v@) =~= region_prompt_spec());
    v
}

/// The region chosen by an answer, and the message written for an
/// unknown answer (region 1 is used then).
pub open spec fn region_choice_spec(line: Seq<char>) -> (ITURegion, Option<Seq<char>>) {
    let t = text::trim(line);
    if t.len() == 0 || t == "1"@ {
        (ITURegion::Region1, None)
    } else if t == "2"@ {
        (ITURegion::Region2, None)
    } else if t == "3"@ {
        (ITURegion::Region3, None)
    } else {
        (ITURegion::Region1, Some("Invalid region. Using default Region 1.\n"@))
    }
}

/// Answering the region prompt with a region's number picks that region,
/// with no message; a blank answer picks Region 1.
pub proof fn lemma_region_answer_round_trip(r: ITURegion)
    ensures
        region_choice_spec(bands::region_short(r)) == (r, None::<Seq<char>>),
        region_choice_spec(Seq::empty()) == (ITURegion::Region1, None::<Seq<char>>),
{
    reveal_strlit("1");
    reveal_strlit("2");
    reveal_strlit("3");
    let w = bands::region_short(r);
    assert(!text::is_ws(w[0]));
    assert(text::trim_start(w) == w);
    assert(text::trim_end(w) == w);
    assert(w.len() == 1);
    assert(w != "1"@ ==> w[0] != '1');
    assert(w != "2"@ ==> w[0] != '2');
}

/// The region chosen by an answer to the region prompt, with the message
/// for an unknown answer.
pub fn prompt_itu_region(line: &str) -> (r: (ITURegion, Option<String>))
    ensures
        (r.0, match r.1 {
            Some(m) => Some(m@),
            None => None,
        }) == region_choice_spec(line@),
{
    let t = text::trim_chars(&text::chars_of(line));
    if t.len() == 0 || text::chars_eq_str(&t, "1") {
        (ITURegion::Region1, None)
    } else if text::chars_eq_str(&t, "2") {
        (ITURegion::Region2, None)
    } else if text::chars_eq_str(&t, "3") {
        (ITURegion::Region3, None)
    } else {
        (ITURegion::Region1, Some(String::from_str("Invalid region. Using default Region 1.\n")))
    }
}

/// The export formats an answer names, or the message that cancels the
/// export.
pub open spec fn export_token_format(t: Seq<char>) -> Option<ExportFormat> {
    if t == "csv"@ {
        Some(ExportFormat::Csv)
    } else if t == "json"@ {
        Some(ExportFormat::Json)
    } else if t == "markdown"@ || t == "md"@ {
        Some(ExportFormat::Markdown)
    } else if t == "txt"@ || t == "text"@ {
        Some(ExportFormat::Txt)
    } else {
        None
    }
}

/// Tokens of an export answer, walked left to right; the first unknown
/// token ends the walk with its message.
pub open spec fn export_fold(acc: Seq<ExportFormat>, toks: Seq<Seq<char>>) -> Result<
    Seq<ExportFormat>,
    Seq<char>,
>
    decreases toks.len(),
{
    if toks.len() == 0 {
        Ok(acc)
    } else {
        let t = text::trim(toks[0]);
        if t.len() == 0 {
            export_fold(acc, toks.drop_first())
        } else {
            match export_token_format(t) {
                Some(f) => export_fold(
                    if acc.contains(f) {
                        acc
                    } else {
                        acc.push(f)
                    },
                    toks.drop_first(),
                ),
                None => Err("unknown format '"@ + t + "'; skipping export."@),
            }
        }
    }
}

/// What an answer to the export prompt selects: nothing for an empty or
/// "none" answer; else the named formats once each in order, or the
/// message that cancels the export.
pub open spec fn export_choice_spec(line: Seq<char>) -> Result<Seq<ExportFormat>, Seq<char>> {
    let raw = text::lower(text::trim(line));
    if raw.len() == 0 || raw == "none"@ {
        Ok(Seq::empty())
    } else {
        match export_fold(Seq::empty(), app::band_select::split_on(raw, ',')) {
            Err(m) => Err(m),
            Ok(v) => if v.len() == 0 {
                Err("--export requires at least one format; skipping export."@)
            } else {
                Ok(v)
            },
        }
    }
}

proof fn lemma_export_fold_unique(acc: Seq<ExportFormat>, toks: Seq<Seq<char>>)
    requires
        acc.no_duplicates(),
    ensures
        export_fold(acc, toks) matches Ok(v) ==> v.no_duplicates(),
    decreases toks.len(),
{
    if toks.len() > 0 {
        let t = text::trim(toks[0]);
        if let Some(f) = export_token_format(t) {
            if !acc.contains(f) {
                assert(acc.push(f).no_duplicates()) by {
                    assert forall|i: int, j: int|
                        0 <= i < acc.push(f).len() && 0 <= j < acc.push(f).len() && i != j implies acc.push(
                        f,
                    )[i] != acc.push(f)[j] by {
                        if i < acc.len() && j < acc.len() {
                        } else if i == acc.len() {
                            assert(acc[j] != f);
                        } else {
                            assert(acc[i] != f);
                        }
                    }
                }
            }
        }
        lemma_export_fold_unique(acc, toks.drop_first());
        if let Some(f) = export_token_format(t) {
            if acc.contains(f) {
            } else {
                lemma_export_fold_unique(acc.push(f), toks.drop_first());
            }
        }
    }
}

/// An accepted export answer names each format once.
pub proof fn lemma_export_choices_unique(line: Seq<char>)
    ensures
        export_choice_spec(line) matches Ok(v) ==> v.no_duplicates(),
{
    let raw = text::lower(text::trim(line));
    lemma_export_fold_unique(Seq::empty(), app::band_select::split_on(raw, ','));
}

/// The export formats chosen by an answer to the export prompt, or the
/// message that cancels the export.
pub fn parse_export_choices(line: &str) -> (r: Result<Vec<ExportFormat>, String>)
    ensures
        r matches Ok(v) ==> export_choice_spec(line@) == Ok::<Seq<ExportFormat>, Seq<char>>(v@),
        r matches Err(m) ==> export_choice_spec(line@) == Err::<Seq<ExportFormat>, Seq<char>>(m@),
{
    let raw = text::lower_chars(&text::trim_chars(&text::chars_of(line)));
    if raw.len() == 0 || text::chars_eq_str(&raw, "none") {
        return Ok(Vec::new());
    }
    let toks = split_chars(&raw, ',');
    let ghost goal = export_fold(Seq::empty(), app::band_select::split_on(raw@, ','));
    let mut out: Vec<ExportFormat> = Vec::new();
    let n = toks.len();
    let mut i: usize = 0;
    assert(toks@.map_values(|p: Vec<char>| p@).subrange(0, n as int) =~= toks@.map_values(
        |p: Vec<char>| p@,
    ));
    while i < n
        invariant
            i <= n,
            n == toks@.len(),
            toks@.map_values(|p: Vec<char>| p@) == app::band_select::split_on(raw@, ','),
            raw@ == text::lower(text::trim(line@)),
            !(raw@.len() == 0 || raw@ == "none"@),
            goal == export_fold(Seq::empty(), app::band_select::split_on(raw@, ',')),
            goal == export_fold(out@, toks@.map_values(|p: Vec<char>| p@).subrange(i as int, n as int)),
        decreases n - i,
    {
        let t = text::trim_chars(&toks[i]);
        proof {
            let all = toks@.map_values(|p: Vec<char>| p@);
            let rest = all.subrange(i as int, n as int);
            assert(rest[0] == toks@[i as int]@);
            assert(rest.drop_first() =~= all.subrange(i + 1, n as int));
        }
        if t.len() > 0 {
            let f = if text::chars_eq_str(&t, "csv") {
                ExportFormat::Csv
            } else if text::chars_eq_str(&t, "json") {
                ExportFormat::Json
            } else if text::chars_eq_str(&t, "markdown") || text::chars_eq_str(&t, "md") {
                ExportFormat::Markdown
            } else if text::chars_eq_str(&t, "txt") || text::chars_eq_str(&t, "text") {
                ExportFormat::Txt
            } else {
                let mut m: Vec<char> = Vec::new();
                text::push_str(&mut m, "unknown format '");
                text::push_all(&mut m, &t);
                text::push_str(&mut m, "'; skipping export.");
                proof {
                    let all = toks@.map_values(|p: Vec<char>| p@);
                    let rest = all.subrange(i as int, n as int);
                    assert(export_token_format(t@) is None);
                    assert(m@ =~= "unknown format '"@ + t@ + "'; skipping export."@);
                    assert(goal == export_fold(out@, rest));
                    assert(export_fold(out@, rest) == Err::<Seq<ExportFormat>, Seq<char>>(m@));
                }
                return Err(text::string_of(&m));
            };
            let mut present = false;
            let m = out.len();
            let mut j: usize = 0;
            while j < m
                invariant
                    j <= m,
                    m == out@.len(),
                    present == (exists|k: int| 0 <= k < j && out@[k] == f),
                decreases m - j,
            {
                if out[j] == f {
                    present = true;
                }
                j = j + 1;
            }
            proof {
                if present {
                    let k = choose|k: int| 0 <= k < m && out@[k] == f;
                    assert(out@.contains(f));
                }
            }
            if !present {
                out.push(f);
            }
        }
        i = i + 1;
    }
    assert(toks@.map_values(|p: Vec<char>| p@).subrange(n as int, n as int) =~= Seq::<
        Seq<char>,
    >::empty());
    if out.len() == 0 {
        return Err(String::from_str("--export requires at least one format; skipping export."));
    }
    Ok(out)
}

/// The pieces of a text between occurrences of a separator.
pub fn split_chars(s: &[char], sep: char) -> (r: Vec<Vec<char>>)
    ensures
        r@.map_values(|p: Vec<char>| p@) == app::band_select::split_on(s@, sep),
    decreases s@.len(),
{
    let n = s.len();
    if n == 0 {
        let mut r: Vec<Vec<char>> = Vec::new();
        r.push(Vec::new());
        assert(r@.map_values(|p: Vec<char>| p@) =~= seq![Seq::<char>::empty()]);
        return r;
    }
    let rest_chars = text::slice_chars(s, 1, n);
    assert(rest_chars@ =~= s@.drop_first());
    let mut rest = split_chars(&rest_chars, sep);
    proof {
        app::band_select::lemma_split_nonempty(s@.drop_first(), sep);
    }
    if s[0] == sep {
        let mut r: Vec<Vec<char>> = Vec::new();
        r.push(Vec::new());
        let ghost rv = rest@.map_values(|p: Vec<char>| p@);
        let mut k: usize = 0;
        let m = rest.len();
        while k < m
            invariant
                k <= m,
                m == rest@.len(),
                rv == rest@.map_values(|p: Vec<char>| p@),
                r@.len() == k + 1,
                r@[0]@ == Seq::<char>::empty(),
                forall|j: int| 1 <= j <= k ==> (#[trigger] r@[j])@ == rv[j - 1],
            decreases m - k,
        {
            let mut piece: Vec<char> = Vec::new();
            text::push_all(&mut piece, &rest[k]);
            r.push(piece);
            k = k + 1;
        }
        assert(r@.map_values(|p: Vec<char>| p@) =~= seq![Seq::<char>::empty()] + rv);
        r
    } else {
        let ghost rv = rest@.map_values(|p: Vec<char>| p@);
        let mut first: Vec<char> = Vec::new();
        first.push(s[0]);
        text::push_all(&mut first, &rest[0]);
        rest.set(0, first);
        assert(rest@.map_values(|p: Vec<char>| p@) =~= rv.update(0, seq![s@[0]] + rv[0]));
        rest
    }
}

} // verus!
