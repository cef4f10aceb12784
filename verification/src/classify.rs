//! Language classification of cleaned cue text.
//!
//! An external language-identification function assigns a tag to a text
//! fragment; only two tags are of interest here, so every other outcome —
//! other languages, scripts the detector cannot place, low-confidence
//! guesses — collapses into [`LanguageLabel::Other`]. Empty text is never
//! handed to the detector and always classifies as `Other`.

use vstd::prelude::*;

verus! {

/// The classification outcome for one cue: one of the two target languages,
/// or anything else.
#[derive(Clone, Copy, Debug, PartialEq, Eq, Structural)]
pub enum LanguageLabel {
    Chinese,
    Japanese,
    Other,
}

/// The label that the external detector assigns to a non-empty text. The
/// detector is a pure function of the characters, so the result is a
/// function of the sequence alone; nothing further is assumed about it.
pub uninterp spec fn detected_label(s: Seq<char>) -> LanguageLabel;

/// The label of a text fragment: `Other` for empty text, otherwise whatever
/// the detector assigns.
pub open spec fn spec_classify(s: Seq<char>) -> LanguageLabel {
    if s.len() == 0 {
        LanguageLabel::Other
    } else {
        detected_label(s)
    }
}

/// Relies on `whichlang::detect_language`: it returns a language tag
/// computed from the characters of `text` alone, and never fails. Tags for
/// Mandarin Chinese and Japanese map to the two target labels, every other
/// tag to `Other`.
#[verifier::external_body]
fn detect_label(text: &str) -> (r: LanguageLabel)
    ensures
        r == detected_label(text@),
{
    match whichlang::detect_language(text) {
        whichlang::Lang::Cmn => LanguageLabel::Chinese,
        whichlang::Lang::Jpn => LanguageLabel::Japanese,
        _ => LanguageLabel::Other,
    }
}

/// Classifies a text fragment, mapping the detector's tag onto the closed
/// label set and classifying empty text as `Other` without consulting the
/// detector.
pub fn classify(text: &str) -> (r: LanguageLabel)
    ensures
        r == spec_classify(text@),
{
    if text.unicode_len() == 0 {
        LanguageLabel::Other
    } else {
        detect_label(text)
    }
}

} // verus!
