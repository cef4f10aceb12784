use sublang::aggregate::Counters;
use sublang::classify::{classify, LanguageLabel};
use sublang::pipeline::process_cues;

#[test]
fn test() {
    let texts = vec!["碧蓝档案", "ブルーアーカイブ"];
    let mut counters = Counters::new();

    for text in texts {
        counters.record(classify(text));
    }
    assert_eq!(counters.chinese_count, 1);
    assert_eq!(counters.japanese_count, 1);
}

#[test]
fn classify_empty_is_other() {
    assert_eq!(classify(""), LanguageLabel::Other);
}

#[test]
fn blank_cues_count_nothing() {
    let mut counters = Counters::new();
    let cues = vec![String::new(), String::from("   "), String::from("\u{3000}\t")];
    process_cues(&mut counters, &cues);
    assert_eq!(counters.chinese_count, 0);
    assert_eq!(counters.japanese_count, 0);
}

#[test]
fn record_is_order_independent() {
    let labels = [
        LanguageLabel::Chinese,
        LanguageLabel::Japanese,
        LanguageLabel::Other,
        LanguageLabel::Chinese,
    ];
    let mut forward = Counters::new();
    for label in labels.iter() {
        forward.record(*label);
    }
    let mut backward = Counters::new();
    for label in labels.iter().rev() {
        backward.record(*label);
    }
    assert_eq!(forward, backward);
    assert_eq!(forward.chinese_count, 2);
    assert_eq!(forward.japanese_count, 1);
}

#[test]
fn ratio_is_undefined_without_target_cues() {
    let mut counters = Counters::new();
    assert_eq!(counters.ratio_parts(), None);
    counters.record(LanguageLabel::Other);
    assert_eq!(counters.ratio_parts(), None);
}

#[test]
fn ratio_parts_give_both_counts() {
    let mut counters = Counters::new();
    counters.record(LanguageLabel::Chinese);
    counters.record(LanguageLabel::Japanese);
    let (chinese, japanese) = counters.ratio_parts().unwrap();
    assert_eq!((chinese, japanese), (1, 2 - 1));
    let ratio = chinese as f64 / (chinese + japanese) as f64;
    assert_eq!(ratio, 0.5);
}

fn ratio_of(counters: &mut Counters) -> f64 {
    let (chinese, japanese) = counters.ratio_parts().unwrap();
    chinese as f64 / (chinese + japanese) as f64
}

#[test]
fn ratio_moves_with_each_label() {
    let mut counters = Counters::new();
    counters.record(LanguageLabel::Chinese);
    counters.record(LanguageLabel::Japanese);
    let start = ratio_of(&mut counters);

    let mut with_chinese = counters.clone();
    with_chinese.record(LanguageLabel::Chinese);
    assert!(ratio_of(&mut with_chinese) > start);

    let mut with_japanese = counters.clone();
    with_japanese.record(LanguageLabel::Japanese);
    assert!(ratio_of(&mut with_japanese) < start);

    let mut with_other = counters.clone();
    with_other.record(LanguageLabel::Other);
    assert_eq!(ratio_of(&mut with_other), start);
}
