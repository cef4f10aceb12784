//! Cue extraction: one supported format per file extension, and one
//! extractor per format.
//!
//! Three formats are dialogue/caption collections parsed by the `aspasia`
//! crate; the fourth is a timed-lyric format parsed by the `lrc` crate. Each
//! extractor turns a file's decoded text into the flat ordered sequence of
//! its raw text cues. For the lyric format, lines whose text is blank —
//! purely instrumental timing markers — are dropped here; the other formats
//! keep every event text as-is.

use vstd::prelude::*;
use crate::text::{is_blank, is_space, is_space_char, str_to_chars};

verus! {

/// The closed set of supported subtitle/lyric formats.
#[derive(Clone, Copy, Debug, PartialEq, Eq, Structural)]
pub enum SubtitleFormat {
    /// Advanced SubStation Alpha (`.ass`).
    Ass,
    /// SubRip (`.srt`).
    Srt,
    /// WebVTT (`.vtt`).
    Vtt,
    /// Timed lyrics (`.lrc`).
    Lrc,
}

/// Whether `c` is `lo` or its ASCII upper-case form `up`.
pub open spec fn char_ci(c: char, lo: char, up: char) -> bool {
    c == lo || c == up
}

/// The format selected by a file extension, compared without regard to
/// ASCII case; `None` for every unsupported extension.
pub open spec fn spec_format_for(ext: Seq<char>) -> Option<SubtitleFormat> {
    if ext.len() != 3 {
        None
    } else if char_ci(ext[0], 'a', 'A') && char_ci(ext[1], 's', 'S') && char_ci(ext[2], 's', 'S') {
        Some(SubtitleFormat::Ass)
    } else if char_ci(ext[0], 's', 'S') && char_ci(ext[1], 'r', 'R') && char_ci(ext[2], 't', 'T') {
        Some(SubtitleFormat::Srt)
    } else if char_ci(ext[0], 'v', 'V') && char_ci(ext[1], 't', 'T') && char_ci(ext[2], 't', 'T') {
        Some(SubtitleFormat::Vtt)
    } else if char_ci(ext[0], 'l', 'L') && char_ci(ext[1], 'r', 'R') && char_ci(ext[2], 'c', 'C') {
        Some(SubtitleFormat::Lrc)
    } else {
        None
    }
}

/// Maps a file extension to its format, case-insensitively. A file whose
/// extension yields `None` is not supported and must not be opened or
/// parsed.
pub fn format_for_extension(ext: &str) -> (r: Option<SubtitleFormat>)
    ensures
        r == spec_format_for(ext@),
{
    let cs = str_to_chars(ext);
    if cs.len() != 3 {
        return None;
    }
    let c0 = cs[0];
    let c1 = cs[1];
    let c2 = cs[2];
    if (c0 == 'a' || c0 == 'A') && (c1 == 's' || c1 == 'S') && (c2 == 's' || c2 == 'S') {
        Some(SubtitleFormat::Ass)
    } else if (c0 == 's' || c0 == 'S') && (c1 == 'r' || c1 == 'R') && (c2 == 't' || c2 == 'T') {
        Some(SubtitleFormat::Srt)
    } else if (c0 == 'v' || c0 == 'V') && (c1 == 't' || c1 == 'T') && (c2 == 't' || c2 == 'T') {
        Some(SubtitleFormat::Vtt)
    } else if (c0 == 'l' || c0 == 'L') && (c1 == 'r' || c1 == 'R') && (c2 == 'c' || c2 == 'C') {
        Some(SubtitleFormat::Lrc)
    } else {
        None
    }
}

/// The longest run of consecutive ASCII digits that a text may hold and
/// still be handed to the dialogue parsers. Their timestamp arithmetic
/// multiplies parsed components unchecked (hours by 3600000, centiseconds by
/// 10); with every component under 10^12 the summed timestamp stays far
/// below `i64::MAX`, so a text whose digit runs are this short cannot
/// overflow it.
pub const MAX_DIGIT_RUN: usize = 12;

/// An ASCII digit `0` to `9`.
pub open spec fn is_ascii_digit_char(c: char) -> bool {
    48 <= c as u32 && c as u32 <= 57
}

/// No run of more than `max` consecutive ASCII digits at or after `i`, given
/// that `run` digits immediately precede position `i`.
pub open spec fn digit_runs_bounded_from(s: Seq<char>, max: int, i: int, run: int) -> bool
    decreases s.len() - i,
{
    if i < 0 || i >= s.len() {
        true
    } else if is_ascii_digit_char(s[i]) {
        run + 1 <= max && digit_runs_bounded_from(s, max, i + 1, run + 1)
    } else {
        digit_runs_bounded_from(s, max, i + 1, 0)
    }
}

/// The text holds no run of more than `max` consecutive ASCII digits.
pub open spec fn digit_runs_bounded(s: Seq<char>, max: int) -> bool {
    digit_runs_bounded_from(s, max, 0, 0)
}

/// Whether a text may be handed to the parser of a format at all: the three
/// dialogue/caption formats demand bounded digit runs (see
/// [`MAX_DIGIT_RUN`]); the timed-lyric parser caps its own digit groups and
/// admits everything.
pub open spec fn extraction_admits(format: SubtitleFormat, s: Seq<char>) -> bool {
    match format {
        SubtitleFormat::Lrc => true,
        _ => digit_runs_bounded(s, MAX_DIGIT_RUN as int),
    }
}

/// Decides [`digit_runs_bounded`].
pub fn digit_runs_within(s: &str, max: usize) -> (r: bool)
    ensures
        r == digit_runs_bounded(s@, max as int),
{
    let ghost g = max as int;
    let cs = str_to_chars(s);
    let n = cs.len();
    let mut i: usize = 0;
    let mut run: usize = 0;
    while i < n
        invariant
            n == s@.len(),
            cs@ == s@,
            i <= n,
            run <= max,
            g == max as int,
            digit_runs_bounded(s@, g) == digit_runs_bounded_from(s@, g, i as int, run as int),
        decreases n - i,
    {
        let c = cs[i];
        let u = c as u32;
        if 48 <= u && u <= 57 {
            if run >= max {
                return false;
            }
            run = run + 1;
        } else {
            run = 0;
        }
        i = i + 1;
    }
    true
}

/// What the ASS parser yields for a text: the dialogue events' text fields
/// in source order, or `None` when the text does not parse. Parsing is a
/// pure function of the text.
pub uninterp spec fn ass_cue_texts(s: Seq<char>) -> Option<Seq<Seq<char>>>;

/// What the SubRip parser yields, as for [`ass_cue_texts`].
pub uninterp spec fn srt_cue_texts(s: Seq<char>) -> Option<Seq<Seq<char>>>;

/// What the WebVTT parser yields, as for [`ass_cue_texts`].
pub uninterp spec fn vtt_cue_texts(s: Seq<char>) -> Option<Seq<Seq<char>>>;

/// What the timed-lyric parser yields for a text: the timed lines' texts,
/// blank ones included, ordered by time tag, or `None` when the text does
/// not parse. Parsing is a pure function of the text.
pub uninterp spec fn lrc_line_texts(s: Seq<char>) -> Option<Seq<Seq<char>>>;

/// Relies on `aspasia::AssSubtitle::from_str` and `aspasia::Subtitle::events`:
/// parsing depends on the text alone, and the parsed document's dialogue
/// events carry the cue texts in source order. The parser's timestamp
/// arithmetic is unchecked, so only texts with bounded digit runs are
/// admitted: no numeric component can then overflow it.
#[verifier::external_body]
pub(crate) fn parse_ass_cues(contents: &str) -> (r: Result<Vec<String>, String>)
    requires
        digit_runs_bounded(contents@, MAX_DIGIT_RUN as int),
    ensures
        match r {
            Ok(cues) => ass_cue_texts(contents@) == Some(cues.deep_view()),
            Err(_) => ass_cue_texts(contents@) is None,
        },
{
    match <aspasia::AssSubtitle as core::str::FromStr>::from_str(contents) {
        Ok(doc) => Ok(aspasia::Subtitle::events(&doc).iter().map(|e| e.text.clone()).collect()),
        Err(e) => Err(e.to_string()),
    }
}

/// Relies on `aspasia::SubRipSubtitle::from_str` and
/// `aspasia::Subtitle::events`, as for [`parse_ass_cues`] (bounded digit
/// runs included).
#[verifier::external_body]
pub(crate) fn parse_srt_cues(contents: &str) -> (r: Result<Vec<String>, String>)
    requires
        digit_runs_bounded(contents@, MAX_DIGIT_RUN as int),
    ensures
        match r {
            Ok(cues) => srt_cue_texts(contents@) == Some(cues.deep_view()),
            Err(_) => srt_cue_texts(contents@) is None,
        },
{
    match <aspasia::SubRipSubtitle as core::str::FromStr>::from_str(contents) {
        Ok(doc) => Ok(aspasia::Subtitle::events(&doc).iter().map(|e| e.text.clone()).collect()),
        Err(e) => Err(e.to_string()),
    }
}

/// Relies on `aspasia::WebVttSubtitle::from_str` and
/// `aspasia::Subtitle::events`, as for [`parse_ass_cues`] (bounded digit
/// runs included).
#[verifier::external_body]
pub(crate) fn parse_vtt_cues(contents: &str) -> (r: Result<Vec<String>, String>)
    requires
        digit_runs_bounded(contents@, MAX_DIGIT_RUN as int),
    ensures
        match r {
            Ok(cues) => vtt_cue_texts(contents@) == Some(cues.deep_view()),
            Err(_) => vtt_cue_texts(contents@) is None,
        },
{
    match <aspasia::WebVttSubtitle as core::str::FromStr>::from_str(contents) {
        Ok(doc) => Ok(aspasia::Subtitle::events(&doc).iter().map(|e| e.text.clone()).collect()),
        Err(e) => Err(e.to_string()),
    }
}

/// Relies on `lrc::Lyrics::from_str` and `lrc::Lyrics::get_timed_lines`:
/// parsing depends on the text alone, and the parsed lyrics carry the timed
/// lines' texts ordered by time tag (lines with equal tags keep their source
/// order), with the tags themselves dropped.
#[verifier::external_body]
pub(crate) fn parse_lrc_lines(contents: &str) -> (r: Result<Vec<String>, String>)
    ensures
        match r {
            Ok(lines) => lrc_line_texts(contents@) == Some(lines.deep_view()),
            Err(_) => lrc_line_texts(contents@) is None,
        },
{
    match lrc::Lyrics::from_str(contents) {
        Ok(lyrics) => Ok(
            lyrics.get_timed_lines().iter().map(|(_, text)| text.to_string()).collect(),
        ),
        Err(e) => Err(e.to_string()),
    }
}

/// The cues of `cues` whose text is not blank, in order.
pub open spec fn nonblank_cues(cues: Seq<Seq<char>>) -> Seq<Seq<char>>
    decreases cues.len(),
{
    if cues.len() == 0 {
        Seq::empty()
    } else if is_blank(cues[0]) {
        nonblank_cues(cues.skip(1))
    } else {
        seq![cues[0]] + nonblank_cues(cues.skip(1))
    }
}

/// Whether every character of `s` is whitespace.
pub fn is_blank_str(s: &str) -> (r: bool)
    ensures
        r == is_blank(s@),
{
    let cs = str_to_chars(s);
    let n = cs.len();
    let mut i: usize = 0;
    while i < n
        invariant
            n == s@.len(),
            cs@ == s@,
            i <= n,
            forall|j: int| 0 <= j < i ==> is_space_char(#[trigger] s@[j]),
        decreases n - i,
    {
        if !is_space(cs[i]) {
            return false;
        }
        i = i + 1;
    }
    true
}

/// Drops the blank lines of a timed-lyric file, keeping the rest in order.
pub fn filter_nonblank(lines: Vec<String>) -> (r: Vec<String>)
    ensures
        r.deep_view() == nonblank_cues(lines.deep_view()),
{
    let ghost all = lines.deep_view();
    let n = lines.len();
    let mut out: Vec<String> = Vec::new();
    let mut i: usize = 0;
    proof {
        assert(out.deep_view() =~= Seq::<Seq<char>>::empty());
        assert(all.skip(0) =~= all);
        assert(Seq::<Seq<char>>::empty() + nonblank_cues(all) =~= nonblank_cues(all));
    }
    while i < n
        invariant
            n == lines@.len(),
            all == lines.deep_view(),
            i <= n,
            out.deep_view() + nonblank_cues(all.skip(i as int)) == nonblank_cues(all),
        decreases n - i,
    {
        proof {
            assert(all.skip(i as int)[0] == all[i as int]);
            assert(all.skip(i as int).skip(1) =~= all.skip(i + 1));
        }
        let line = &lines[i];
        if !is_blank_str(line.as_str()) {
            out.push(line.clone());
            proof {
                assert(out.deep_view() + nonblank_cues(all.skip(i + 1)) =~= nonblank_cues(all));
            }
        }
        i = i + 1;
    }
    proof {
        assert(out.deep_view() + nonblank_cues(all.skip(n as int)) =~= out.deep_view());
    }
    out
}

} // verus!
