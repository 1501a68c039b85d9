use qr_region_scan::codes::{QrCodeResult, QrCodeType};
use qr_region_scan::pipeline::{
    concat_results, decode_outcomes, scaled_dimension, strategy_at, strategy_catalog,
    DecodeRun, PreprocessMethod, Strategy,
};

fn s(num: u32, den: u32, method: PreprocessMethod) -> Strategy {
    Strategy { scale_num: num, scale_den: den, method }
}

fn some(text: &str) -> Option<String> {
    Some(text.to_string())
}

#[test]
fn catalog_is_in_priority_order() {
    let expected = vec![
        s(1, 1, PreprocessMethod::Plain),
        s(1, 1, PreprocessMethod::ContrastBoost),
        s(1, 1, PreprocessMethod::Brightness),
        s(2, 1, PreprocessMethod::Plain),
        s(1, 1, PreprocessMethod::Sharpen),
        s(3, 2, PreprocessMethod::ContrastBoost),
        s(1, 2, PreprocessMethod::ContrastBoost),
        s(3, 1, PreprocessMethod::ContrastBoost),
        s(1, 1, PreprocessMethod::Invert),
    ];
    assert_eq!(strategy_catalog(), expected);
    assert_eq!(strategy_catalog(), strategy_catalog());
    assert_eq!(strategy_at(5), s(3, 2, PreprocessMethod::ContrastBoost));
}

#[test]
fn scaled_dimensions_round_down() {
    assert_eq!(scaled_dimension(201, strategy_at(5)), 301);
    assert_eq!(scaled_dimension(201, strategy_at(6)), 100);
    assert_eq!(scaled_dimension(200, strategy_at(7)), 600);
    assert_eq!(scaled_dimension(200, strategy_at(0)), 200);
    assert_eq!(scaled_dimension(0, strategy_at(3)), 0);
    assert_eq!(scaled_dimension(u32::MAX, strategy_at(7)), 3 * u32::MAX as u64);
}

#[test]
fn first_successful_strategy_ends_the_run() {
    let mut run = DecodeRun::new();
    let mut calls = 0;
    while let Some(strategy) = run.next_strategy() {
        calls += 1;
        if strategy == strategy_at(0) {
            run.record(&vec![some("hello")]);
        } else {
            run.record(&vec![some("later")]);
        }
    }
    assert_eq!(calls, 1);
    let results = run.into_results();
    assert_eq!(results.len(), 1);
    assert_eq!(results[0].content, "hello");
    assert_eq!(results[0].qr_type, QrCodeType::Text);
}

#[test]
fn run_tries_every_strategy_when_nothing_decodes() {
    let mut run = DecodeRun::new();
    let mut seen = Vec::new();
    while let Some(strategy) = run.next_strategy() {
        seen.push(strategy);
        run.record(&vec![None]);
    }
    assert_eq!(seen, strategy_catalog());
    assert!(run.into_results().is_empty());
}

#[test]
fn empty_image_decodes_to_nothing() {
    let mut run = DecodeRun::new();
    run.scan_image(&Vec::new(), 0, 200);
    assert!(run.next_strategy().is_some());
    assert_eq!(run.next_strategy(), Some(strategy_at(1)));
}

#[test]
fn blank_image_has_no_codes() {
    let mut run = DecodeRun::new();
    run.scan_image(&vec![255; 64 * 64], 64, 64);
    assert_eq!(run.next_strategy(), Some(strategy_at(1)));
    assert!(run.into_results().is_empty());
}

#[test]
fn duplicate_contents_are_kept_once() {
    let found = decode_outcomes(&vec![vec![some("https://a"), None, some("https://a"), some("b")]]);
    assert_eq!(found.len(), 2);
    assert_eq!(found[0].content, "https://a");
    assert_eq!(found[0].qr_type, QrCodeType::Url);
    assert_eq!(found[1].content, "b");
}

#[test]
fn later_strategies_run_only_after_failures() {
    let outcomes = vec![vec![], vec![None], vec![some("tel:1")], vec![some("never")]];
    let found = decode_outcomes(&outcomes);
    assert_eq!(found.len(), 1);
    assert_eq!(found[0].content, "tel:1");
    assert_eq!(found[0].qr_type, QrCodeType::Phone);
    assert!(decode_outcomes(&vec![vec![None], vec![]]).is_empty());
    assert!(decode_outcomes(&Vec::new()).is_empty());
}

#[test]
fn decoding_twice_gives_the_same_results() {
    let outcomes = vec![vec![None], vec![some("x"), some("a://b")]];
    let a = decode_outcomes(&outcomes);
    let b = decode_outcomes(&outcomes);
    assert_eq!(a.len(), b.len());
    for (x, y) in a.iter().zip(b.iter()) {
        assert_eq!(x.content, y.content);
        assert_eq!(x.qr_type, y.qr_type);
    }
    assert_eq!(a[1].qr_type, QrCodeType::Other);
}

#[test]
fn images_concatenate_without_cross_dedup() {
    let per_image = vec![
        vec![QrCodeResult::new("same".to_string())],
        vec![],
        vec![QrCodeResult::new("same".to_string()), QrCodeResult::new("tel:2".to_string())],
    ];
    let all = concat_results(&per_image);
    let contents: Vec<&str> = all.iter().map(|r| r.content.as_str()).collect();
    assert_eq!(contents, vec!["same", "same", "tel:2"]);
    assert_eq!(all[2].qr_type, QrCodeType::Phone);
}
