//! Picking the contact out of the search dropdown: the rule's edges and the
//! wording of every candidate's verdict.

use automation_core::dropdown::{
    judge_dropdown, normalize_text, one_line, parse_search_contact_group_labels, DropdownJudgement, Why,
};
use automation_core::policy::ConfidenceThreshold;
use automation_core::ports::{AutomationError, Rect, TextBox};

/// Order key of a recognised confidence (a NaN reads below everything).
fn key(confidence: f32) -> u32 {
    if confidence.is_nan() {
        return 0;
    }
    let bits = if confidence == 0.0 { 0.0f32.to_bits() } else { confidence.to_bits() };
    if bits >> 31 == 1 {
        !bits
    } else {
        bits | 0x8000_0000
    }
}

fn tb(text: &str, x: i32, y: i32, confidence: f32) -> TextBox {
    TextBox { text: text.into(), bounds: Rect { x, y, width: 120, height: 24 }, confidence: key(confidence) }
}

const MIN: f32 = 0.85;
const LABELS: &str = "联系人 / 最常使用";

fn min() -> ConfidenceThreshold {
    ConfidenceThreshold { key: key(MIN), shown: format!("{MIN:.2}") }
}

/// The reason of candidate `i`, with its confidence written as the record writes it.
fn reason(judged: &DropdownJudgement, confidences: &[f32], i: usize) -> String {
    judged.reason(&judged.candidates[i], &format!("{:.2}", confidences[i]))
}

fn message(e: &AutomationError) -> String {
    e.message()
}

/// A frame where both group titles were read, but below the confidence threshold.
fn scene() -> (Vec<TextBox>, Vec<f32>) {
    let rows: Vec<(&str, i32, i32, f32)> = vec![
        ("联系人", 8, 4, 0.61),
        ("最常使用", 8, 30, 0.68),
        ("李小明", 20, 60, 0.97),
        ("Jerry-李小明同学", 20, 84, 0.95),
        ("太过活跃李小明", 20, 108, 0.93),
        ("测试群一", 20, 132, 0.96),
        ("和 李小明 的聊天", 20, 156, 0.94),
        ("群聊", 8, 180, 0.92),
        ("测试群二", 20, 204, 0.91),
        ("李小明：可以了，登录进去了", 20, 228, 0.96),
        ("李小明 邀请你加入了群聊", 300, 228, 0.93),
        ("联系人", 620, 4, 0.66),
        ("搜索", 300, 4, 0.90),
        ("聊天记录", 8, 252, 0.90),
        ("李小明", 20, 276, 0.40),
        ("文件传输助手", 20, 300, 0.99),
        ("王小明", 20, 324, 0.98),
        ("李四", 20, 348, 0.97),
        ("外部测试账号", 20, 372, 0.96),
    ];
    let boxes = rows.iter().map(|&(t, x, y, c)| tb(t, x, y, c)).collect();
    let confidences = rows.iter().map(|r| r.3).collect();
    (boxes, confidences)
}

#[test]
fn the_2026_09_21_scene_answers_its_own_question() {
    let (boxes, confidences) = scene();
    assert_eq!(boxes.len(), 19);
    let judged = judge_dropdown(&boxes, "李小明", LABELS, &min());

    let err = judged.result.as_ref().expect_err("no group can be found in this frame");
    let msg = message(err);
    assert!(msg.contains("任何一组"), "{msg}");
    assert!(msg.contains("19 块"), "{msg}");
    assert!(!judged.passed);

    let i = boxes.iter().position(|b| b.text.trim() == "联系人").expect("the title block is in the trail");
    let title_row = &judged.candidates[i];
    assert!(!title_row.passed);
    let why = reason(&judged, &confidences, i);
    assert!(why.contains("0.61"), "{why}");
    assert!(why.contains("0.85"), "{why}");
    assert!(why.contains("没参与判定"), "{why}");
}

#[test]
fn every_block_gets_a_row_in_screen_order() {
    let (boxes, _) = scene();
    let judged = judge_dropdown(&boxes, "李小明", LABELS, &min());
    assert_eq!(judged.candidates.len(), boxes.len());
    for (verdict, block) in judged.candidates.iter().zip(boxes.iter()) {
        assert_eq!(verdict.text, block.text);
        assert_eq!(verdict.bounds, block.bounds);
    }
}

#[test]
fn the_topmost_hit_wins_and_the_loser_is_told_why() {
    let confidences = [0.99, 0.97, 0.96];
    let boxes = vec![
        tb("联系人", 8, 4, confidences[0]),
        tb("李小明", 20, 60, confidences[1]),
        tb("Jerry-李小明同学", 20, 84, confidences[2]),
    ];
    let judged = judge_dropdown(&boxes, "李小明", LABELS, &min());
    assert!(judged.passed);
    assert!(judged.outcome.contains("取最上面"), "{}", judged.outcome);
    let loser = &judged.candidates[2];
    assert!(!loser.passed);
    let why = reason(&judged, &confidences, 2);
    assert!(why.contains("取最上面"), "{why}");
    assert!(judged.candidates[1].passed);
    let hit = judged.result.expect("the group holds this person");
    assert_eq!(hit.text, "李小明");
}

#[test]
fn a_hit_below_the_next_section_header_is_not_a_contact() {
    let confidences = [0.99, 0.97, 0.98, 0.96];
    let boxes = vec![
        tb("联系人", 8, 4, confidences[0]),
        tb("李小明", 20, 60, confidences[1]),
        tb("群聊", 8, 120, confidences[2]),
        tb("李小明：可以了，登录进去了", 20, 150, confidences[3]),
    ];
    let judged = judge_dropdown(&boxes, "李小明", LABELS, &min());
    let below = &judged.candidates[3];
    assert!(!below.passed);
    let why = reason(&judged, &confidences, 3);
    assert!(why.contains("群聊"), "{why}");
    assert_eq!(judged.result.expect("the contact group holds him").bounds.y, 60);
}

#[test]
fn the_second_configured_label_is_tried_too() {
    let confidences = [0.99, 0.98];
    let boxes = vec![tb("最常使用", 8, 4, confidences[0]), tb("王小明", 20, 60, confidences[1])];
    let judged = judge_dropdown(&boxes, "王小明", LABELS, &min());
    let why = reason(&judged, &confidences, 0);
    assert!(why.contains("最常使用"), "{why}");
    assert_eq!(judged.result.expect("found under the second label").text, "王小明");
}

#[test]
fn the_title_prefers_an_exact_row_over_a_containing_one() {
    let confidences = [0.99, 0.99, 0.97];
    let boxes = vec![
        tb("联系人：李小明", 20, 100, confidences[0]),
        tb("联系人", 8, 4, confidences[1]),
        tb("李小明", 20, 60, confidences[2]),
    ];
    let judged = judge_dropdown(&boxes, "李小明", LABELS, &min());
    let i = judged.candidates.iter().position(|v| v.text == "联系人").expect("the title is in the trail");
    let why = reason(&judged, &confidences, i);
    assert!(why.contains("逐字相等"), "{why}");
    assert_eq!(judged.result.expect("the exact title wins").bounds.y, 60);
}

#[test]
fn an_empty_dropdown_reports_the_region_or_the_client() {
    let judged = judge_dropdown(&[], "李小明", LABELS, &min());
    let msg = message(judged.result.as_ref().expect_err("an empty frame picks nobody"));
    assert!(msg.contains("任何一组"), "{msg}");
    assert!(msg.contains("标定偏了"), "{msg}");
    assert!(judged.candidates.is_empty());
}

#[test]
fn the_decision_carries_everything_a_replay_needs() {
    let boxes = vec![tb("联系人", 8, 4, 0.99), tb("李小明", 20, 60, 0.97)];
    let judged = judge_dropdown(&boxes, "李小明", LABELS, &min());
    assert_eq!(judged.min_confidence.key, key(MIN));
    assert_eq!(judged.min_confidence.shown, "0.85");
    assert_eq!(judged.keyword, "李小明");
    assert_eq!(judged.group_labels, LABELS);
    let question = judged.question();
    assert!(question.contains("李小明"), "{question}");
}

#[test]
fn spaces_between_characters_do_not_break_the_containment() {
    let boxes = vec![tb("联系人", 8, 4, 0.99), tb("外部 测试 联系人", 20, 60, 0.98)];
    assert_eq!(normalize_text("外部 测试 联系人"), "外部测试联系人");
    let judged = judge_dropdown(&boxes, "李小明", LABELS, &min());
    assert!(judged.result.is_err());
    let judged = judge_dropdown(&boxes, "外部", LABELS, &min());
    assert_eq!(judged.result.expect("matches once normalised").text, "外部 测试 联系人");
}

// ---------------------------------------------------------------------------
// Exact wording and edge cases
// ---------------------------------------------------------------------------

#[test]
fn group_labels_split_at_slashes_enumeration_commas_and_whitespace() {
    assert_eq!(parse_search_contact_group_labels("联系人 / 最常使用"), vec!["联系人", "最常使用"]);
    assert_eq!(parse_search_contact_group_labels("联系人、群聊\t最常使用//"), vec!["联系人", "群聊", "最常使用"]);
    assert!(parse_search_contact_group_labels("  / 、 ").is_empty());
}

#[test]
fn one_line_collapses_whitespace_runs() {
    assert_eq!(one_line("  a \n\n b\tc  "), "a b c");
    assert_eq!(one_line(""), "");
}

#[test]
fn normalization_drops_control_characters_too() {
    assert_eq!(normalize_text("李\u{0007}小\u{3000}明\r\n"), "李小明");
}

#[test]
fn a_single_hit_names_its_group_in_the_outcome() {
    let boxes = vec![tb("最常使用", 8, 4, 0.99), tb("  王小明 ", 20, 60, 0.98)];
    let judged = judge_dropdown(&boxes, "王小明", LABELS, &min());
    assert_eq!(judged.outcome, "选中「王小明」（最常使用）");
    assert_eq!(judged.picked, Some(1));
    assert_eq!(judged.hits, vec![1]);
}

#[test]
fn several_hits_report_how_many_were_passed_over() {
    let boxes = vec![
        tb("联系人", 8, 4, 0.99),
        tb("Jerry-李小明同学", 20, 84, 0.96),
        tb("李小明", 20, 60, 0.97),
        tb("李小明备注", 10, 60, 0.97),
    ];
    let judged = judge_dropdown(&boxes, "李小明", LABELS, &min());
    assert_eq!(judged.outcome, "选中「李小明备注」（同时命中 2 行，取最上面那一行）");
    assert_eq!(judged.picked, Some(3));
    assert_eq!(judged.result.unwrap().bounds.x, 10);
}

#[test]
fn no_group_on_screen_is_worded_exactly() {
    let boxes = vec![tb("群聊", 8, 4, 0.99), tb("测试群", 20, 40, 0.99)];
    let judged = judge_dropdown(&boxes, "李小明", LABELS, &min());
    match &judged.result {
        Err(AutomationError::NeedsHumanReview(reason)) => assert_eq!(
            reason,
            "搜索下拉列表里没有找到「联系人 / 最常使用」中的任何一组，读到 2 块文字。常见原因：关键词没匹配到任何联系人（下拉里只有聊天记录或群聊），或者「搜索下拉列表」区域标定偏了。"
        ),
        other => panic!("expected a hand-over, got {other:?}"),
    }
    assert!(judged.outcome.starts_with("转人工：搜索下拉列表里没有找到"));
    assert_eq!(judged.picked, None);
    assert!(judged.groups.is_empty());
    let why = judged.reason(&judged.candidates[1], "0.99");
    assert_eq!(why, "整屏没有出现「联系人 / 最常使用」的标题，这一块没有参与判定");
}

#[test]
fn no_row_under_a_found_group_lists_what_is_there() {
    let boxes = vec![tb("联系人", 8, 4, 0.99), tb("王小明", 20, 60, 0.98), tb("李四", 20, 84, 0.40)];
    let judged = judge_dropdown(&boxes, "李小明", LABELS, &min());
    match &judged.result {
        Err(AutomationError::NeedsHumanReview(reason)) => {
            assert_eq!(reason, "「联系人」分组下方没有匹配「李小明」的那一行。这一组下方的文字是：王小明 / 李四")
        }
        other => panic!("expected a hand-over, got {other:?}"),
    }
    assert!(!judged.passed);
    let why = judged.reason(&judged.candidates[1], "0.98");
    assert_eq!(why, "在「联系人」分组下方，但文本不含关键词「李小明」");
    let why = judged.reason(&judged.candidates[0], "0.99");
    assert_eq!(why, "被认作「联系人」分组的标题行（逐字相等）（标题下面才是候选项）");
}

#[test]
fn the_rule_and_the_remaining_verdicts_are_worded_exactly() {
    let boxes = vec![
        tb("联系人", 8, 4, 0.99),
        tb("联系人们", 8, 10, 0.99),
        tb("李小明", 20, 60, 0.97),
        tb("李小明同学", 20, 70, 0.97),
        tb("搜索", 8, -20, 0.99),
        tb("聊天记录", 8, 100, 0.99),
        tb("李小明说", 20, 130, 0.99),
    ];
    let judged = judge_dropdown(&boxes, "李小明", LABELS, &min());
    assert_eq!(
        judged.rule(),
        "在「联系人 / 最常使用」分组标题下方、下一个已知分区标题（群聊 / 聊天记录 / 公众号 / 小程序）之前，取文本包含关键词、置信度 ≥ 0.85 的最上面一行"
    );
    assert_eq!(judged.question(), "下拉列表里哪一行是目标联系人「李小明」？");
    assert!(matches!(judged.candidates[1].why, Why::DuplicateTitle { group: 0 }));
    assert_eq!(judged.reason(&judged.candidates[1], "0.99"), "与「联系人」的标题重复，同一分组只取最上面那一块当标题");
    assert_eq!(judged.reason(&judged.candidates[2], "0.97"), "含关键词「李小明」，且在命中的行里排在最上面 → 选中");
    assert_eq!(
        judged.reason(&judged.candidates[3], "0.97"),
        "同样含关键词，但它排在被选中那一行（y=60）下面，按「取最上面」落选"
    );
    assert_eq!(
        judged.reason(&judged.candidates[4], "0.99"),
        "不在「联系人」任何一组的标题下方（也不含关键词「李小明」）"
    );
    assert_eq!(
        judged.reason(&judged.candidates[6], "0.99"),
        "在「联系人」分组下方、过了「聊天记录」这个分区标题，不再算联系人"
    );
    assert_eq!(
        judged.reason(&judged.candidates[0], "0.61"),
        "被认作「联系人」分组的标题行（逐字相等）（标题下面才是候选项）"
    );
    let passed: Vec<bool> = judged.candidates.iter().map(|v| v.passed).collect();
    assert_eq!(passed, vec![true, false, true, false, false, false, false]);
}

#[test]
fn a_title_found_only_by_containment_says_so() {
    let boxes = vec![tb("联系人:", 8, 4, 0.99), tb("李小明", 20, 60, 0.97)];
    let judged = judge_dropdown(&boxes, "李小明", LABELS, &min());
    assert_eq!(judged.reason(&judged.candidates[0], "0.99"), "被认作「联系人」分组的标题行（靠包含命中）（标题下面才是候选项）");
    assert!(judged.groups[0].title_exact == false);
    assert_eq!(judged.result.unwrap().text, "李小明");
}

#[test]
fn a_repeated_box_is_counted_once() {
    let boxes = vec![tb("联系人", 8, 4, 0.99), tb("李小明", 20, 60, 0.97), tb("李小明", 20, 60, 0.97)];
    let judged = judge_dropdown(&boxes, "李小明", "联系人 联系人", &min());
    assert_eq!(judged.hits, vec![1]);
    assert_eq!(judged.groups.len(), 2);
    assert_eq!(judged.outcome, "选中「李小明」（联系人）");
}
