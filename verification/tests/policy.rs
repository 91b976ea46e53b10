//! The strict and the relaxed contact-matching policies.

use automation_core::policy::{ConfidenceThreshold, ContainsNameMatcher, StrictContactMatcher};
use automation_core::ports::{AutomationError, Rect, TextBox};

/// Order key of a recognised confidence (a NaN reads below everything).
fn key(confidence: f32) -> u32 {
    if confidence.is_nan() {
        return 0;
    }
    let bits = if confidence == 0.0 { 0.0f32.to_bits() } else { confidence.to_bits() };
    if bits >> 31 == 1 {
        !bits
    } else {
        bits | 0x8000_0000
    }
}

fn tb(text: &str, x: i32, y: i32, confidence: f32) -> TextBox {
    TextBox {
        text: text.into(),
        bounds: Rect { x, y, width: 120, height: 28 },
        confidence: key(confidence),
    }
}

fn min() -> ConfidenceThreshold {
    let min: f32 = 0.85;
    ConfidenceThreshold { key: key(min), shown: format!("{min}") }
}

#[test]
fn returns_the_only_exact_match() {
    let matcher = StrictContactMatcher::default();
    let candidates = vec![tb("张三", 10, 10, 0.99), tb("李四", 10, 100, 0.97)];
    let found = matcher.find_unique_exact_match("张三", &candidates, &min()).unwrap();
    assert_eq!(found.text, "张三");
}

#[test]
fn rejects_when_nothing_matches_exactly() {
    let matcher = StrictContactMatcher::default();
    let candidates = vec![tb("张三丰", 10, 10, 0.99), tb("小张三", 10, 100, 0.99)];
    let err = matcher.find_unique_exact_match("张三", &candidates, &min()).unwrap_err();
    assert!(matches!(err, AutomationError::NeedsHumanReview(_)));
}

#[test]
fn rejects_duplicate_exact_matches() {
    let matcher = StrictContactMatcher::default();
    let candidates = vec![tb("张三", 10, 10, 0.99), tb("张三", 10, 200, 0.98)];
    let err = matcher.find_unique_exact_match("张三", &candidates, &min()).unwrap_err();
    assert!(matches!(err, AutomationError::AmbiguousVision(_)));
}

#[test]
fn rejects_low_confidence_match() {
    let matcher = StrictContactMatcher::default();
    let candidates = vec![tb("张三", 10, 10, 0.40)];
    let err = matcher.find_unique_exact_match("张三", &candidates, &min()).unwrap_err();
    assert!(matches!(err, AutomationError::NeedsHumanReview(_)));
}

#[test]
fn ignores_low_confidence_candidates_when_a_good_one_exists() {
    let matcher = StrictContactMatcher::default();
    let candidates = vec![tb("张三", 10, 10, 0.30), tb("张三", 10, 300, 0.99)];
    let found = matcher.find_unique_exact_match("张三", &candidates, &min()).unwrap();
    assert_eq!(found.bounds.y, 300);
}

#[test]
fn rejects_candidates_that_are_too_close_to_tell_apart() {
    let matcher = StrictContactMatcher::default();
    let candidates = vec![tb("张三", 10, 10, 0.99), tb("张三丰", 10, 14, 0.99)];
    let err = matcher.find_unique_exact_match("张三", &candidates, &min()).unwrap_err();
    assert!(matches!(err, AutomationError::AmbiguousVision(_)));
}

#[test]
fn aliases_only_apply_when_explicitly_configured() {
    let aliases = vec![("张三".to_string(), vec!["三哥".to_string()])];
    let matcher = StrictContactMatcher { aliases, ..Default::default() };
    let candidates = vec![tb("三哥", 10, 10, 0.99)];
    assert_eq!(
        matcher.find_unique_exact_match("张三", &candidates, &min()).unwrap().text,
        "三哥"
    );
}

#[test]
fn aliases_do_not_enable_fuzzy_matching() {
    let matcher = StrictContactMatcher::default();
    let candidates = vec![tb("三哥", 10, 10, 0.99)];
    assert!(matcher.find_unique_exact_match("张三", &candidates, &min()).is_err());
}

#[test]
fn trims_surrounding_whitespace_only() {
    let matcher = StrictContactMatcher::default();
    let candidates = vec![tb(" 张三 ", 10, 10, 0.99)];
    assert_eq!(matcher.find_unique_exact_match("张三", &candidates, &min()).unwrap().text, " 张三 ");
}

fn lenient() -> ContainsNameMatcher {
    ContainsNameMatcher::default()
}

#[test]
fn contains_matching_finds_the_name_inside_a_noisy_block() {
    let strict = StrictContactMatcher::default();
    let candidates = vec![tb("0 丁俊", 10, 10, 0.99)];
    assert!(
        strict.find_unique_exact_match("丁俊", &candidates, &min()).is_err(),
        "严格模式本来就不该匹配上带噪声的文本"
    );
    let found = lenient().find_unique_exact_match("丁俊", &candidates, &min()).unwrap();
    assert_eq!(found.text, "0 丁俊");
}

#[test]
fn contains_matching_prefers_the_shorter_candidate() {
    let candidates = vec![
        tb("丁俊", 10, 10, 0.99),
        tb("丁俊：可以了，登录进去了", 10, 120, 0.99),
    ];
    let found = lenient().find_unique_exact_match("丁俊", &candidates, &min()).unwrap();
    assert_eq!(found.text, "丁俊", "应当选中较短的姓名行，而不是群消息预览行");
    assert_eq!(found.bounds.y, 10, "落点应当还在姓名那一行");
}

#[test]
fn contains_matching_still_rejects_a_length_tie() {
    let candidates = vec![tb("丁俊甲", 10, 10, 0.99), tb("丁俊乙", 10, 200, 0.99)];
    let err = lenient().find_unique_exact_match("丁俊", &candidates, &min()).unwrap_err();
    assert!(matches!(err, AutomationError::AmbiguousVision(_)), "实际：{err:?}");
}

#[test]
fn contains_matching_does_not_degrade_on_an_exact_ambiguity() {
    let candidates = vec![tb("丁俊", 10, 10, 0.99), tb("丁俊", 10, 300, 0.99)];
    let err = lenient().find_unique_exact_match("丁俊", &candidates, &min()).unwrap_err();
    assert!(
        matches!(err, AutomationError::AmbiguousVision(_)),
        "两个逐字相同的联系人必须照旧拒绝，实际：{err:?}"
    );
}

#[test]
fn contains_matching_never_runs_with_an_empty_name() {
    let candidates = vec![tb("随便谁", 10, 10, 0.99)];
    for name in ["", "   "] {
        let err = lenient().find_unique_exact_match(name, &candidates, &min()).unwrap_err();
        assert!(
            matches!(err, AutomationError::NeedsHumanReview(_)),
            "空名必须直接拒绝，实际：{err:?}"
        );
    }
}

#[test]
fn contains_matching_still_fails_when_the_name_is_absent() {
    let candidates = vec![tb("张三", 10, 10, 0.99), tb("李四", 10, 200, 0.99)];
    let err = lenient().find_unique_exact_match("丁俊", &candidates, &min()).unwrap_err();
    assert!(matches!(err, AutomationError::NeedsHumanReview(_)), "实际：{err:?}");
}

#[test]
fn contains_matching_filters_by_confidence_too() {
    let candidates = vec![tb("丁俊", 10, 10, 0.40)];
    let err = lenient().find_unique_exact_match("丁俊", &candidates, &min()).unwrap_err();
    assert!(matches!(err, AutomationError::NeedsHumanReview(_)), "实际：{err:?}");
}

#[test]
fn contains_matching_keeps_aliases_working() {
    let aliases = vec![("张三".to_string(), vec!["三哥".to_string()])];
    let matcher = ContainsNameMatcher::new(StrictContactMatcher { aliases, ..Default::default() });
    let candidates = vec![tb("三哥", 10, 10, 0.99)];
    assert_eq!(matcher.find_unique_exact_match("张三", &candidates, &min()).unwrap().text, "三哥");
}

// ── Exact messages and the accepts test ─────────────────────────────────

fn message(err: AutomationError) -> String {
    err.message()
}

#[test]
fn each_refusal_says_why_in_words() {
    let strict = StrictContactMatcher::default();
    let low = vec![tb("张三", 10, 10, 0.40)];
    assert_eq!(
        message(strict.find_unique_exact_match("张三", &low, &min()).unwrap_err()),
        "需要人工处理：该区域没有达到最低置信度 0.85 的文字候选"
    );
    let none = vec![tb("李四", 10, 10, 0.99)];
    assert_eq!(
        message(strict.find_unique_exact_match(" 张三 ", &none, &min()).unwrap_err()),
        "需要人工处理：未找到与「张三」逐字匹配的联系人"
    );
    let dup = vec![tb("张三", 10, 10, 0.99), tb("张三", 10, 200, 0.99), tb("张三", 10, 400, 0.99)];
    assert_eq!(
        message(strict.find_unique_exact_match("张三", &dup, &min()).unwrap_err()),
        "本地视觉识别结果不确定：存在 3 个与「张三」逐字匹配的联系人，拒绝猜测"
    );
    let close = vec![tb(" 张三", 10, 10, 0.99), tb("张三丰", 12, 14, 0.99)];
    assert_eq!(
        message(strict.find_unique_exact_match("张三", &close, &min()).unwrap_err()),
        "本地视觉识别结果不确定：「张三」附近存在过于接近的候选文字框，无法确定点击目标"
    );
    let flat = vec![TextBox { text: "张三".into(), bounds: Rect { x: 0, y: 0, width: 0, height: 28 }, confidence: key(0.99) }];
    assert_eq!(
        message(strict.find_unique_exact_match("张三", &flat, &min()).unwrap_err()),
        "本地视觉识别结果不确定：匹配到的联系人文字框尺寸无效"
    );
    assert_eq!(
        message(strict.find_unique_exact_match("  ", &none, &min()).unwrap_err()),
        "需要人工处理：目标联系人名称为空"
    );
}

#[test]
fn the_relaxed_refusals_say_why_in_words() {
    let tie = vec![tb("丁俊甲", 10, 10, 0.99), tb("丁俊乙", 10, 200, 0.99), tb("丁俊丙丁", 10, 400, 0.99)];
    assert_eq!(
        message(lenient().find_unique_exact_match("丁俊", &tie, &min()).unwrap_err()),
        "本地视觉识别结果不确定：有 3 个候选都包含「丁俊」，且其中最短的几个一样长（3 字），无法确定点击目标"
    );
    let none = vec![tb("张三", 10, 10, 0.99)];
    assert_eq!(
        message(lenient().find_unique_exact_match(" 丁俊", &none, &min()).unwrap_err()),
        "需要人工处理：未找到名称包含「丁俊」的联系人（已放宽为包含匹配）"
    );
}

#[test]
fn accepts_agrees_with_the_selection() {
    let strict = StrictContactMatcher::default();
    assert!(strict.accepts("张三", &tb(" 张三\t", 0, 0, 0.1)));
    assert!(!strict.accepts("张三", &tb("张三丰", 0, 0, 0.99)));
    let relaxed = lenient();
    assert!(relaxed.accepts("张三", &tb("张三丰", 0, 0, 0.99)));
    assert!(!relaxed.accepts("   ", &tb("张三丰", 0, 0, 0.99)));
    assert!(!relaxed.accepts("李四", &tb("张三丰", 0, 0, 0.99)));
}

#[test]
fn a_negative_separation_counts_as_zero() {
    let matcher = StrictContactMatcher { aliases: Vec::new(), min_separation_px: -5 };
    let candidates = vec![tb("张三", 10, 10, 0.99), tb("张三丰", 10, 10, 0.99)];
    assert_eq!(matcher.find_unique_exact_match("张三", &candidates, &min()).unwrap().text, "张三");
}

#[test]
fn a_later_alias_rule_for_the_same_name_replaces_an_earlier_one() {
    let matcher = StrictContactMatcher::with_aliases(vec![
        ("张三".to_string(), vec!["三哥".to_string()]),
        ("李四".to_string(), vec!["四弟".to_string()]),
        ("张三".to_string(), vec!["老张".to_string()]),
    ]);
    let later = vec![tb("老张", 10, 10, 0.99)];
    assert_eq!(matcher.find_unique_exact_match("张三", &later, &min()).unwrap().text, "老张");
    let earlier = vec![tb("三哥", 10, 10, 0.99)];
    assert!(matcher.find_unique_exact_match("张三", &earlier, &min()).is_err());
    assert!(matcher.accepts("张三", &later[0]));
    assert!(!matcher.accepts("张三", &earlier[0]));
    assert!(matcher.accepts("李四", &tb("四弟", 10, 10, 0.99)));
}
