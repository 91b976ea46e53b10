//! The name-match trail: one verdict per candidate, from the same facts as the conclusion.

use automation_core::policy::{ConfidenceThreshold, ContainsNameMatcher, StrictContactMatcher};
use automation_core::ports::{AutomationError, Rect, TextBox};
use automation_core::trail::{contains_judge, name_reason, strict_judge, MatchTrail, NameWhy, CONTAINS_RULE, STRICT_RULE};

/// Order key of a recognised confidence (a NaN reads below everything).
fn key(confidence: f32) -> u32 {
    if confidence.is_nan() {
        return 0;
    }
    let bits = if confidence == 0.0 { 0.0f32.to_bits() } else { confidence.to_bits() };
    if bits >> 31 == 1 {
        !bits
    } else {
        bits | 0x8000_0000
    }
}

fn tb(text: &str, x: i32, y: i32, confidence: f32) -> TextBox {
    TextBox { text: text.into(), bounds: Rect { x, y, width: 120, height: 28 }, confidence: key(confidence) }
}

const MIN: f32 = 0.85;

fn min() -> ConfidenceThreshold {
    ConfidenceThreshold { key: key(MIN), shown: format!("{MIN}") }
}

/// The reason of row `i`, with the confidences written as the record writes them.
fn reason(
    matcher: &StrictContactMatcher,
    name: &str,
    candidates: &[TextBox],
    confidences: &[f32],
    trail: &MatchTrail,
    i: usize,
) -> String {
    name_reason(
        matcher,
        name,
        candidates,
        &trail.candidates[i],
        &format!("{:.2}", confidences[i]),
        &format!("{MIN:.2}"),
    )
}

#[test]
fn the_trail_marks_exactly_the_selected_candidate_as_passed() {
    let matcher = StrictContactMatcher::default();
    let candidates = vec![tb("张三丰", 10, 10, 0.99), tb("张三", 10, 100, 0.97)];
    let (result, trail) = strict_judge(&matcher, "张三", &candidates, &min());
    let hit = result.expect("the exact block is selected");
    assert_eq!(hit.text, "张三");
    assert_eq!(trail.candidates.len(), candidates.len());
    assert_eq!(trail.candidates.iter().filter(|v| v.passed).count(), 1);
    assert!(trail.candidates[1].passed);
    assert!(!trail.candidates[0].passed);
}

#[test]
fn a_low_confidence_candidate_says_its_own_number() {
    let matcher = StrictContactMatcher::default();
    let confidences = [0.61, 0.99];
    let candidates = vec![tb("联系人", 10, 10, confidences[0]), tb("李小明", 10, 60, confidences[1])];
    let (result, trail) = strict_judge(&matcher, "李小明", &candidates, &min());
    assert!(result.is_ok());
    let low = &trail.candidates[0];
    assert!(!low.passed);
    let why = reason(&matcher, "李小明", &candidates, &confidences, &trail, 0);
    assert!(why.contains("0.61"), "{why}");
    assert!(why.contains("0.85"), "{why}");
    assert_eq!(low.text, "联系人");
}

#[test]
fn duplicates_explain_themselves_on_every_row() {
    let matcher = StrictContactMatcher::default();
    let confidences = [0.99, 0.98];
    let candidates = vec![tb("张三", 10, 10, confidences[0]), tb("张三", 10, 200, confidences[1])];
    let (result, trail) = strict_judge(&matcher, "张三", &candidates, &min());
    assert!(matches!(result, Err(AutomationError::AmbiguousVision(_))));
    assert!(trail.candidates.iter().all(|v| !v.passed));
    for i in 0..2 {
        let why = reason(&matcher, "张三", &candidates, &confidences, &trail, i);
        assert!(why.contains("2 个"), "{why}");
    }
}

#[test]
fn a_too_close_pair_is_explained_from_both_sides() {
    let matcher = StrictContactMatcher::default();
    let confidences = [0.99, 0.99];
    let candidates = vec![tb("张三丰", 10, 14, confidences[0]), tb("张三", 10, 10, confidences[1])];
    let (result, trail) = strict_judge(&matcher, "张三", &candidates, &min());
    assert!(matches!(result, Err(AutomationError::AmbiguousVision(_))));
    let hit = reason(&matcher, "张三", &candidates, &confidences, &trail, 1);
    let other = reason(&matcher, "张三", &candidates, &confidences, &trail, 0);
    assert!(hit.contains("张三丰"), "{hit}");
    assert!(other.contains("张三"), "{other}");
    assert_eq!(hit, "与「张三丰」近到分不开（中心距离小于 8 px），这一帧无法确定点哪个");
    assert_eq!(other, "与命中的那一块「张三」近到分不开（中心距离小于 8 px），所以这一帧谁也点不得");
}

#[test]
fn the_relaxed_trail_says_which_row_won_and_why() {
    let matcher = ContainsNameMatcher::default();
    let confidences = [0.99, 0.99];
    let candidates = vec![tb("0 李四", 10, 10, confidences[0]), tb("李四：可以了，登录进去了", 10, 120, confidences[1])];
    let (result, trail) = contains_judge(&matcher, "李四", &candidates, &min());
    assert!(trail.relaxed);
    assert!(trail.candidates[0].passed);
    let won = reason(matcher.strict(), "李四", &candidates, &confidences, &trail, 0);
    let lost = reason(matcher.strict(), "李四", &candidates, &confidences, &trail, 1);
    assert!(won.contains("最短"), "{won}");
    assert!(lost.contains("长"), "{lost}");
    assert_eq!(won, "文字里包含「李四」，并且在 2 个命中里是最短的一行（4 字）");
    assert_eq!(lost, "文字里包含「李四」，但比最短的那一行长（12 字 > 4 字）");
    assert_eq!(result.expect("the noisy name row is recognised").text, "0 李四");
}

#[test]
fn an_exact_hit_is_not_reported_as_relaxed() {
    let matcher = ContainsNameMatcher::default();
    let confidences = [0.99];
    let candidates = vec![tb("李四", 10, 10, confidences[0])];
    let (result, trail) = contains_judge(&matcher, "李四", &candidates, &min());
    assert!(result.is_ok());
    assert!(!trail.relaxed);
    let why = reason(matcher.strict(), "李四", &candidates, &confidences, &trail, 0);
    assert!(why.contains("逐字"), "{why}");
    assert_eq!(why, "逐字等于「李四」，是本次唯一的精确匹配");
    assert_eq!(trail.rule, CONTAINS_RULE);
}

#[test]
fn the_trail_of_a_relaxed_run_still_lists_every_block() {
    let matcher = ContainsNameMatcher::default();
    let confidences = [0.99, 0.99];
    let candidates = vec![tb("张三", 10, 10, confidences[0]), tb("李四：可以了", 10, 120, confidences[1])];
    let (result, trail) = contains_judge(&matcher, "李四", &candidates, &min());
    assert_eq!(trail.candidates.len(), 2);
    let why = reason(matcher.strict(), "李四", &candidates, &confidences, &trail, 0);
    assert!(why.contains("没有"), "{why}");
    assert_eq!(result.expect("containment recognises the second block").text, "李四：可以了");
}

#[test]
fn an_empty_name_is_blocked_before_anything_else() {
    let matcher = ContainsNameMatcher::default();
    let confidences = [0.99];
    let candidates = vec![tb("随便谁", 10, 10, confidences[0])];
    let (result, trail) = contains_judge(&matcher, "   ", &candidates, &min());
    assert!(matches!(result, Err(AutomationError::NeedsHumanReview(_))));
    assert_eq!(trail.candidates.len(), 1);
    let why = reason(matcher.strict(), "   ", &candidates, &confidences, &trail, 0);
    assert!(why.contains("目标名称为空"), "{why}");
}

// ---------------------------------------------------------------------------
// Exact wording of the remaining verdicts
// ---------------------------------------------------------------------------

#[test]
fn a_strict_miss_and_an_alias_read_exactly() {
    let matcher = StrictContactMatcher::with_aliases(vec![("张三".into(), vec![" Zhang San ".into()])]);
    let confidences = [0.99, 0.99];
    let candidates = vec![tb("Zhang San", 10, 10, confidences[0]), tb("李四", 10, 200, confidences[1])];
    let (result, trail) = strict_judge(&matcher, "张三", &candidates, &min());
    assert_eq!(result.unwrap().text, "Zhang San");
    assert_eq!(trail.rule, STRICT_RULE);
    assert!(matches!(trail.candidates[0].why, NameWhy::ExactUnique { term: 1 }));
    assert_eq!(
        reason(&matcher, "张三", &candidates, &confidences, &trail, 0),
        "逐字等于「 Zhang San 」，是本次唯一的精确匹配"
    );
    assert_eq!(
        reason(&matcher, "张三", &candidates, &confidences, &trail, 1),
        "文字与「张三」不逐字相等（本判据不做包含、不做相似匹配）"
    );
}

#[test]
fn a_tie_and_an_empty_box_read_exactly() {
    let matcher = ContainsNameMatcher::default();
    let confidences = [0.99, 0.99, 0.5];
    let candidates = vec![tb("李四a", 10, 10, confidences[0]), tb("a李四", 10, 200, confidences[1]), tb("李四", 10, 400, confidences[2])];
    let (result, trail) = contains_judge(&matcher, "李四", &candidates, &min());
    assert!(matches!(result, Err(AutomationError::AmbiguousVision(_))));
    assert!(trail.relaxed);
    assert_eq!(
        reason(matcher.strict(), "李四", &candidates, &confidences, &trail, 0),
        "文字里包含「李四」，且最短的几个一样长（3 字）→ 无法确定点哪个"
    );
    assert_eq!(
        reason(matcher.strict(), "李四", &candidates, &confidences, &trail, 2),
        "置信度 0.50 低于阈值 0.85，没参与判定"
    );

    let strict = StrictContactMatcher::default();
    let flat = vec![TextBox { text: "张三".into(), bounds: Rect { x: 0, y: 0, width: 0, height: 10 }, confidence: key(0.99) }];
    let (result, trail) = strict_judge(&strict, "张三", &flat, &min());
    assert!(matches!(result, Err(AutomationError::AmbiguousVision(_))));
    assert!(matches!(trail.candidates[0].why, NameWhy::EmptyBox));
    assert_eq!(
        reason(&strict, "张三", &flat, &[0.99], &trail, 0),
        "文字框的宽或高为 0，点了也不知道点在哪"
    );
}
