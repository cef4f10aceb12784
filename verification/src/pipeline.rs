//! The per-file pipeline: dispatch to the right extractor, then run every
//! cue through cleaning, classification and aggregation.
//!
//! A caller walks the file system, decodes each supported file to text, and
//! hands the text here together with its format. A file that fails to parse
//! contributes nothing to the counters and reports an error for logging; it
//! must never abort the run, so every failure is a returned value.

use vstd::prelude::*;
use crate::aggregate::{spec_record, spec_record_all, Counters};
use crate::classify::{classify, spec_classify, LanguageLabel};
use crate::extract::{
    ass_cue_texts,
    digit_runs_within,
    extraction_admits,
    filter_nonblank,
    lrc_line_texts,
    nonblank_cues,
    parse_ass_cues,
    parse_lrc_lines,
    parse_srt_cues,
    parse_vtt_cues,
    srt_cue_texts,
    vtt_cue_texts,
    SubtitleFormat,
    MAX_DIGIT_RUN,
};
use crate::text::{clean_text, is_blank, lemma_blank_cleans_to_empty, spec_clean};

verus! {

/// Why one file contributed no cues to the counters.
#[derive(Debug)]
pub enum PipelineError {
    /// The file's text did not parse under its format's grammar. The message
    /// is the parser's description of the failure, for logging.
    Parse { format: SubtitleFormat, message: String },
    /// The file's text holds a run of consecutive digits longer than
    /// [`MAX_DIGIT_RUN`]: a numeric field that long could overflow the
    /// format's timestamp arithmetic, so the text is refused unparsed.
    ExcessiveDigits { format: SubtitleFormat },
    /// The run's counters could not take the file's cues without
    /// overflowing.
    CounterOverflow,
}

/// The cues that a text of a given format yields: the parser's cue texts,
/// with blank lines dropped for the timed-lyric format; `None` when the text
/// does not parse.
pub open spec fn spec_extract(format: SubtitleFormat, s: Seq<char>) -> Option<Seq<Seq<char>>> {
    match format {
        SubtitleFormat::Ass => ass_cue_texts(s),
        SubtitleFormat::Srt => srt_cue_texts(s),
        SubtitleFormat::Vtt => vtt_cue_texts(s),
        SubtitleFormat::Lrc => match lrc_line_texts(s) {
            Some(lines) => Some(nonblank_cues(lines)),
            None => None,
        },
    }
}

/// The label a raw cue ends up with: its text is cleaned, then classified.
pub open spec fn cue_label(cue: Seq<char>) -> LanguageLabel {
    spec_classify(spec_clean(cue))
}

/// The labels of a sequence of raw cues, in order.
pub open spec fn cue_labels(cues: Seq<Seq<char>>) -> Seq<LanguageLabel> {
    cues.map_values(|cue: Seq<char>| cue_label(cue))
}

/// A blank or empty cue is classified `Other` and leaves the counters
/// unchanged.
pub proof fn lemma_blank_cue_counts_nothing(c: (int, int), cue: Seq<char>)
    requires
        is_blank(cue),
    ensures
        cue_label(cue) == LanguageLabel::Other,
        spec_record(c, cue_label(cue)) == c,
{
    lemma_blank_cleans_to_empty(cue);
}

/// Extracts the cues of one file's decoded text, dispatching on its format.
pub fn extract_cues(format: SubtitleFormat, contents: &str) -> (r: Result<
    Vec<String>,
    PipelineError,
>)
    ensures
        match r {
            Ok(cues) => extraction_admits(format, contents@) && spec_extract(format, contents@)
                == Some(cues.deep_view()),
            Err(e) => match e {
                PipelineError::Parse { format: f, .. } => f == format && extraction_admits(
                    format,
                    contents@,
                ) && spec_extract(format, contents@) is None,
                PipelineError::ExcessiveDigits { format: f } => f == format && !extraction_admits(
                    format,
                    contents@,
                ),
                PipelineError::CounterOverflow => false,
            },
        },
{
    match format {
        SubtitleFormat::Ass => {
            if !digit_runs_within(contents, MAX_DIGIT_RUN) {
                return Err(PipelineError::ExcessiveDigits { format });
            }
            match parse_ass_cues(contents) {
                Ok(cues) => Ok(cues),
                Err(message) => Err(PipelineError::Parse { format, message }),
            }
        },
        SubtitleFormat::Srt => {
            if !digit_runs_within(contents, MAX_DIGIT_RUN) {
                return Err(PipelineError::ExcessiveDigits { format });
            }
            match parse_srt_cues(contents) {
                Ok(cues) => Ok(cues),
                Err(message) => Err(PipelineError::Parse { format, message }),
            }
        },
        SubtitleFormat::Vtt => {
            if !digit_runs_within(contents, MAX_DIGIT_RUN) {
                return Err(PipelineError::ExcessiveDigits { format });
            }
            match parse_vtt_cues(contents) {
                Ok(cues) => Ok(cues),
                Err(message) => Err(PipelineError::Parse { format, message }),
            }
        },
        SubtitleFormat::Lrc => match parse_lrc_lines(contents) {
            Ok(lines) => Ok(filter_nonblank(lines)),
            Err(message) => Err(PipelineError::Parse { format, message }),
        },
    }
}

/// Cleans, classifies and counts every cue of one file, in order.
pub fn process_cues(counters: &mut Counters, cues: &Vec<String>)
    requires
        old(counters).chinese_count + cues@.len() <= u64::MAX,
        old(counters).japanese_count + cues@.len() <= u64::MAX,
    ensures
        final(counters).counts() == spec_record_all(
            old(counters).counts(),
            cue_labels(cues.deep_view()),
        ),
{
    let ghost all = cues.deep_view();
    let ghost start = old(counters).counts();
    let n = cues.len();
    let mut i: usize = 0;
    proof {
        assert(cue_labels(all.take(0)) =~= Seq::<LanguageLabel>::empty());
    }
    while i < n
        invariant
            n == cues@.len(),
            all == cues.deep_view(),
            all.len() == n,
            i <= n,
            counters.counts() == spec_record_all(start, cue_labels(all.take(i as int))),
            counters.chinese_count <= start.0 + i,
            counters.japanese_count <= start.1 + i,
            start.0 + n <= u64::MAX,
            start.1 + n <= u64::MAX,
        decreases n - i,
    {
        let cleaned = clean_text(&cues[i]);
        let label = classify(cleaned.as_str());
        proof {
            assert(label == cue_label(all[i as int]));
        }
        counters.record(label);
        proof {
            assert(cue_labels(all.take(i + 1)) =~= cue_labels(all.take(i as int)).push(
                cue_label(all[i as int]),
            ));
            crate::aggregate::lemma_record_all_push(
                start,
                cue_labels(all.take(i as int)),
                cue_label(all[i as int]),
            );
        }
        i = i + 1;
    }
    proof {
        assert(all.take(n as int) =~= all);
    }
}

/// Runs one file's decoded text through the whole pipeline: extraction,
/// cleaning, classification and aggregation. On success the number of
/// extracted cues is returned; on failure the counters are untouched.
pub fn process_file_text(counters: &mut Counters, format: SubtitleFormat, contents: &str) -> (r:
    Result<usize, PipelineError>)
    ensures
        match r {
            Ok(n) => extraction_admits(format, contents@) && (spec_extract(
                format,
                contents@,
            ) matches Some(cues) && n == cues.len() && final(counters).counts() == spec_record_all(
                old(counters).counts(),
                cue_labels(cues),
            )),
            Err(e) => *final(counters) == *old(counters) && match e {
                PipelineError::Parse { format: f, .. } => f == format && extraction_admits(
                    format,
                    contents@,
                ) && spec_extract(format, contents@) is None,
                PipelineError::ExcessiveDigits { format: f } => f == format && !extraction_admits(
                    format,
                    contents@,
                ),
                PipelineError::CounterOverflow => spec_extract(format, contents@) matches Some(
                    cues,
                ) && (old(counters).chinese_count + cues.len() > u64::MAX || old(
                    counters,
                ).japanese_count + cues.len() > u64::MAX),
            },
        },
{
    let cues = match extract_cues(format, contents) {
        Ok(cues) => cues,
        Err(e) => {
            return Err(e);
        },
    };
    let n = cues.len();
    if counters.chinese_count <= u64::MAX - (n as u64) && counters.japanese_count <= u64::MAX - (
    n as u64) {
        process_cues(counters, &cues);
        Ok(n)
    } else {
        Err(PipelineError::CounterOverflow)
    }
}

} // verus!
