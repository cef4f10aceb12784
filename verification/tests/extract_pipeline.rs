use sublang::aggregate::Counters;
use sublang::extract::{format_for_extension, SubtitleFormat};
use sublang::pipeline::{extract_cues, process_file_text, PipelineError};

#[test]
fn supported_extensions_map_to_formats() {
    assert_eq!(format_for_extension("ass"), Some(SubtitleFormat::Ass));
    assert_eq!(format_for_extension("ASS"), Some(SubtitleFormat::Ass));
    assert_eq!(format_for_extension("srt"), Some(SubtitleFormat::Srt));
    assert_eq!(format_for_extension("Srt"), Some(SubtitleFormat::Srt));
    assert_eq!(format_for_extension("vtt"), Some(SubtitleFormat::Vtt));
    assert_eq!(format_for_extension("LRC"), Some(SubtitleFormat::Lrc));
}

#[test]
fn unsupported_extensions_have_no_format() {
    assert_eq!(format_for_extension("txt"), None);
    assert_eq!(format_for_extension("as"), None);
    assert_eq!(format_for_extension("srtt"), None);
    assert_eq!(format_for_extension(""), None);
    assert_eq!(format_for_extension("mp4"), None);
}

#[test]
fn extract_srt_cues() {
    let contents = "1\n00:00:00,000 --> 00:00:02,000\n你好\n\n2\n00:00:02,000 --> 00:00:04,000\n<i>world</i>\n";
    let cues = extract_cues(SubtitleFormat::Srt, contents).unwrap();
    assert_eq!(cues, vec!["你好".to_string(), "<i>world</i>".to_string()]);
}

#[test]
fn extract_ass_cues() {
    let contents = "[Script Info]\nTitle: sample\n\n[Events]\nFormat: Layer, Start, End, Style, Name, MarginL, MarginR, MarginV, Effect, Text\nDialogue: 0,0:00:00.00,0:00:02.00,Default,,0,0,0,,{\\i1}你好{\\i0}\n";
    let cues = extract_cues(SubtitleFormat::Ass, contents).unwrap();
    assert_eq!(cues, vec!["{\\i1}你好{\\i0}".to_string()]);
}

#[test]
fn extract_vtt_cues() {
    let contents = "WEBVTT\n\n00:00:00.000 --> 00:00:02.000\nブルーアーカイブ\n";
    let cues = extract_cues(SubtitleFormat::Vtt, contents).unwrap();
    assert_eq!(cues, vec!["ブルーアーカイブ".to_string()]);
}

#[test]
fn extract_lrc_drops_blank_lines() {
    let contents = "[00:01.00]碧蓝档案\n[00:02.00]\n[00:03.00]ブルーアーカイブ\n";
    let cues = extract_cues(SubtitleFormat::Lrc, contents).unwrap();
    assert_eq!(cues.len(), 2);
    assert_eq!(cues, vec!["碧蓝档案".to_string(), "ブルーアーカイブ".to_string()]);
}

#[test]
fn pipeline_counts_both_languages() {
    let contents = "[00:01.00]碧蓝档案\n[00:02.00]\n[00:03.00]ブルーアーカイブ\n";
    let mut counters = Counters::new();
    let n = process_file_text(&mut counters, SubtitleFormat::Lrc, contents).unwrap();
    assert_eq!(n, 2);
    assert_eq!(counters.chinese_count, 1);
    assert_eq!(counters.japanese_count, 1);
    let (chinese, japanese) = counters.ratio_parts().unwrap();
    assert_eq!(chinese as f64 / (chinese + japanese) as f64, 0.5);
}

#[test]
fn corrupt_file_contributes_nothing() {
    let good = "[00:01.00]碧蓝档案\n[00:03.00]ブルーアーカイブ\n";
    let corrupt = "[99999999999999999999:00.00]hello\n";

    let mut counters = Counters::new();
    process_file_text(&mut counters, SubtitleFormat::Lrc, good).unwrap();
    let after_good = counters.clone();

    let outcome = process_file_text(&mut counters, SubtitleFormat::Lrc, corrupt);
    match outcome {
        Err(PipelineError::Parse { format, message }) => {
            assert_eq!(format, SubtitleFormat::Lrc);
            assert!(!message.is_empty());
        },
        other => panic!("expected a parse failure, got {:?}", other),
    }
    assert_eq!(counters, after_good);
}

#[test]
fn unparsable_dialogue_text_yields_no_cues() {
    let cues = extract_cues(SubtitleFormat::Ass, "not a subtitle at all").unwrap();
    assert_eq!(cues.len(), 0);
}

#[test]
fn full_counters_refuse_more_cues() {
    let contents = "[00:01.00]碧蓝档案\n";
    let mut counters = Counters { chinese_count: u64::MAX, japanese_count: 0 };
    let outcome = process_file_text(&mut counters, SubtitleFormat::Lrc, contents);
    assert!(matches!(outcome, Err(PipelineError::CounterOverflow)));
    assert_eq!(counters.chinese_count, u64::MAX);
    assert_eq!(counters.japanese_count, 0);
}

#[test]
fn oversized_digit_runs_are_refused() {
    let srt = "1\n2562047788016:00:00,000 --> 00:00:01,000\nHello\n\n";
    let outcome = extract_cues(SubtitleFormat::Srt, srt);
    match outcome {
        Err(PipelineError::ExcessiveDigits { format }) => {
            assert_eq!(format, SubtitleFormat::Srt);
        }
        other => panic!("expected a digit-run refusal, got {:?}", other),
    }

    let ass = "[Events]\nFormat: Layer, Start, End, Style, Name, MarginL, MarginR, MarginV, Effect, Text\nDialogue: 0,0:00:00.922337203685477581,0:00:02.00,Default,,0,0,0,,hi\n";
    assert!(matches!(
        extract_cues(SubtitleFormat::Ass, ass),
        Err(PipelineError::ExcessiveDigits { .. })
    ));

    let vtt = "WEBVTT\n\n2562047788016:00:00.000 --> 00:00:02.000\nhi\n";
    let mut counters = Counters::new();
    let outcome = process_file_text(&mut counters, SubtitleFormat::Vtt, vtt);
    assert!(matches!(outcome, Err(PipelineError::ExcessiveDigits { .. })));
    assert_eq!(counters, Counters::new());
}

#[test]
fn twelve_digit_runs_still_parse() {
    let srt = "1\n00:00:00,000 --> 00:00:01,000\n123456789012 words\n\n";
    let cues = extract_cues(SubtitleFormat::Srt, srt).unwrap();
    assert_eq!(cues, vec!["123456789012 words".to_string()]);
}
