//! Transformer advice: the recommended ratio with the reason for it.
use crate::app::{recommended_transformer_ratio, AntennaModel, CalcMode};
use crate::calculations::{self, TransformerRatio};
use crate::text;
use vstd::prelude::*;

verus! {

/// The recommended transformer ratio together with a one-sentence reason.
#[derive(Debug, Clone, Copy)]
pub struct TransformerRatioExplanation {
    pub ratio: TransformerRatio,
    pub reason: &'static str,
}

/// The reason given for the recommendation for a mode and antenna model.
pub open spec fn reason_text(mode: CalcMode, model: Option<AntennaModel>) -> Seq<char> {
    match model {
        Some(AntennaModel::Dipole) | Some(AntennaModel::InvertedVDipole) => "Center-fed dipoles present ~50 \u{03a9} at resonance; a 1:1 balun is typical."@,
        Some(AntennaModel::TrapDipole) => "Trap dipoles present ~50\u{2013}75 \u{03a9} at resonance; a 1:1 balun is typical."@,
        Some(AntennaModel::HybridMultiSection) => "Hybrid multi-section dipoles are center-fed and present ~50\u{2013}75 \u{03a9} at resonance; a 1:1 balun is typical."@,
        Some(AntennaModel::FullWaveLoop) => "Full-wave loops present ~100 \u{03a9} at resonance; a 1:1 choke balun is common."@,
        Some(AntennaModel::EndFedHalfWave) => "EFHW antennas present ~2500\u{2013}3000 \u{03a9}; a 1:49 or 1:56 transformer matches to 50 \u{03a9}."@,
        Some(AntennaModel::OffCenterFedDipole) => "OCFDs fed at the 1/3 point present ~200 \u{03a9}; a 1:4 balun is standard."@,
        None => match mode {
            CalcMode::Resonant => "Resonant mode, no antenna model; 1:1 is used as a neutral starting point."@,
            CalcMode::NonResonant => "Non-resonant random-wire mode; 1:9 is a common matching ratio."@,
        },
    }
}

/// The explanation for a mode and antenna model: the recommended ratio and
/// its reason.
pub open spec fn explanation_spec(mode: CalcMode, model: Option<AntennaModel>) -> (
    TransformerRatio,
    Seq<char>,
) {
    (crate::app::recommended_ratio(mode, model), reason_text(mode, model))
}

/// The recommended transformer ratio for a mode and antenna model, with a
/// one-sentence reason suitable for help text.
pub fn transformer_ratio_explanation(mode: CalcMode, antenna_model: Option<AntennaModel>) -> (e:
    TransformerRatioExplanation)
    ensures
        (e.ratio, e.reason@) == explanation_spec(mode, antenna_model),
{
    let ratio = recommended_transformer_ratio(mode, antenna_model);
    let reason = match antenna_model {
        Some(AntennaModel::Dipole) | Some(AntennaModel::InvertedVDipole) => "Center-fed dipoles present ~50 \u{03a9} at resonance; a 1:1 balun is typical.",
        Some(AntennaModel::TrapDipole) => "Trap dipoles present ~50\u{2013}75 \u{03a9} at resonance; a 1:1 balun is typical.",
        Some(AntennaModel::HybridMultiSection) => "Hybrid multi-section dipoles are center-fed and present ~50\u{2013}75 \u{03a9} at resonance; a 1:1 balun is typical.",
        Some(AntennaModel::FullWaveLoop) => "Full-wave loops present ~100 \u{03a9} at resonance; a 1:1 choke balun is common.",
        Some(AntennaModel::EndFedHalfWave) => "EFHW antennas present ~2500\u{2013}3000 \u{03a9}; a 1:49 or 1:56 transformer matches to 50 \u{03a9}.",
        Some(AntennaModel::OffCenterFedDipole) => "OCFDs fed at the 1/3 point present ~200 \u{03a9}; a 1:4 balun is standard.",
        None => match mode {
            CalcMode::Resonant => "Resonant mode, no antenna model; 1:1 is used as a neutral starting point.",
            CalcMode::NonResonant => "Non-resonant random-wire mode; 1:9 is a common matching ratio.",
        },
    };
    TransformerRatioExplanation { ratio, reason }
}

/// Every reason names the ratio it recommends: the reason's text holds the
/// ratio's label ("1:1", "1:4", "1:9" or "1:56").
pub proof fn lemma_reason_names_ratio(mode: CalcMode, model: Option<AntennaModel>)
    ensures
        text::contains_text(
            reason_text(mode, model),
            calculations::ratio_label(crate::app::recommended_ratio(mode, model)),
        ),
{
    let r = reason_text(mode, model);
    match model {
        Some(AntennaModel::Dipole) => {
            reveal_strlit("Center-fed dipoles present ~50 \u{03a9} at resonance; a 1:1 balun is typical.");
            reveal_strlit("1:1");
            assert(r.subrange(49, 49int + "1:1"@.len()) =~= "1:1"@);
        },
        Some(AntennaModel::InvertedVDipole) => {
            reveal_strlit("Center-fed dipoles present ~50 \u{03a9} at resonance; a 1:1 balun is typical.");
            reveal_strlit("1:1");
            assert(r.subrange(49, 49int + "1:1"@.len()) =~= "1:1"@);
        },
        Some(AntennaModel::TrapDipole) => {
            reveal_strlit("Trap dipoles present ~50\u{2013}75 \u{03a9} at resonance; a 1:1 balun is typical.");
            reveal_strlit("1:1");
            assert(r.subrange(46, 46int + "1:1"@.len()) =~= "1:1"@);
        },
        Some(AntennaModel::HybridMultiSection) => {
            reveal_strlit("Hybrid multi-section dipoles are center-fed and present ~50\u{2013}75 \u{03a9} at resonance; a 1:1 balun is typical.");
            reveal_strlit("1:1");
            assert(r.subrange(81, 81int + "1:1"@.len()) =~= "1:1"@);
        },
        Some(AntennaModel::FullWaveLoop) => {
            reveal_strlit("Full-wave loops present ~100 \u{03a9} at resonance; a 1:1 choke balun is common.");
            reveal_strlit("1:1");
            assert(r.subrange(47, 47int + "1:1"@.len()) =~= "1:1"@);
        },
        Some(AntennaModel::EndFedHalfWave) => {
            reveal_strlit("EFHW antennas present ~2500\u{2013}3000 \u{03a9}; a 1:49 or 1:56 transformer matches to 50 \u{03a9}.");
            reveal_strlit("1:56");
            assert(r.subrange(46, 46int + "1:56"@.len()) =~= "1:56"@);
        },
        Some(AntennaModel::OffCenterFedDipole) => {
            reveal_strlit("OCFDs fed at the 1/3 point present ~200 \u{03a9}; a 1:4 balun is standard.");
            reveal_strlit("1:4");
            assert(r.subrange(45, 45int + "1:4"@.len()) =~= "1:4"@);
        },
        None => match mode {
            CalcMode::Resonant => {
                reveal_strlit("Resonant mode, no antenna model; 1:1 is used as a neutral starting point.");
                reveal_strlit("1:1");
                assert(r.subrange(33, 33int + "1:1"@.len()) =~= "1:1"@);
            },
            CalcMode::NonResonant => {
                reveal_strlit("Non-resonant random-wire mode; 1:9 is a common matching ratio.");
                reveal_strlit("1:9");
                assert(r.subrange(31, 31int + "1:9"@.len()) =~= "1:9"@);
            },
        },
    }
}

} // verus!
