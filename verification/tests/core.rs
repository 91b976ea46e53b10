//! Geometry, errors, candidate listings, the run's small decisions, the
//! cancellation token, the audit trail and the test doubles.

use std::time::Duration;

use automation_core::audit::{AuditEntry, MemoryAudit, NoopAudit};
use automation_core::cancel::CancelToken;
use automation_core::candidates::{describe_candidates, join_strings, OCR_LOG_MAX_BLOCKS, OCR_LOG_MAX_CHARS};
use automation_core::diagnostics::ReplayInput;
use automation_core::dropdown::judge_dropdown;
use automation_core::mock::{Fault, MockContactMatcher, MockFaults, FORCED_FAILURE_RULE};
use automation_core::trail::STRICT_RULE;
use automation_core::policy::ConfidenceThreshold;
use automation_core::ports::{AutomationError, Point, Rect, TextBox};
use automation_core::runner::{
    failure_of, failure_state, settle_poll_interval, should_retry, NoopProgress, RunOutcome, StateChange,
    Workflow, DEFAULT_SEARCH_CONTACT_GROUP_LABEL,
};
use automation_core::state::TaskState;
use automation_core::text::trimmed;

fn tb(text: &str, y: i32) -> TextBox {
    TextBox { text: text.into(), bounds: Rect { x: 0, y, width: 50, height: 20 }, confidence: 100 }
}

// ---------------------------------------------------------------------------
// Geometry and errors
// ---------------------------------------------------------------------------

#[test]
fn a_rect_centre_rounds_toward_zero() {
    assert_eq!(Rect { x: 10, y: 20, width: 5, height: 7 }.center(), Point { x: 12, y: 23 });
    assert_eq!(Rect { x: 0, y: 0, width: -5, height: -1 }.center(), Point { x: -2, y: 0 });
}

#[test]
fn image_coordinates_move_to_the_screen() {
    let r = Rect { x: 3, y: 4, width: 10, height: 20 };
    assert_eq!(r.to_screen(Point { x: 100, y: 200 }), Rect { x: 103, y: 204, width: 10, height: 20 });
    assert!(Rect { x: 0, y: 0, width: 0, height: 1 }.is_degenerate());
    assert!(!r.is_degenerate());
}

#[test]
fn errors_have_stable_codes_and_a_disposition() {
    let all = [
        (AutomationError::ClientNotReady, "CLIENT_NOT_READY", true, false),
        (AutomationError::ScreenChanged, "SCREEN_CHANGED", true, false),
        (AutomationError::AmbiguousVision("x".into()), "AMBIGUOUS_VISION", true, false),
        (AutomationError::NeedsHumanReview("x".into()), "NEEDS_HUMAN_REVIEW", true, false),
        (AutomationError::Platform("x".into()), "PLATFORM_ERROR", false, true),
        (AutomationError::Cancelled, "CANCELLED", false, false),
        (AutomationError::Timeout("x".into()), "TIMEOUT", true, true),
    ];
    for (e, code, human, retry) in all {
        assert_eq!(e.code(), code);
        assert_eq!(e.requires_human_review(), human, "{code}");
        assert_eq!(e.is_retryable(), retry, "{code}");
    }
    assert_eq!(AutomationError::Timeout("截图".into()).message(), "步骤超时：截图");
    assert_eq!(AutomationError::ClientNotReady.message(), "企业微信窗口不可用或不是前台窗口");
}

// ---------------------------------------------------------------------------
// Candidate listings
// ---------------------------------------------------------------------------

#[test]
fn candidates_are_listed_on_one_line() {
    let boxes = vec![tb(" 张三 ", 0), tb("   ", 10), tb("第一行\n第二行", 20)];
    assert_eq!(describe_candidates(&boxes), "张三 / 第一行\\n第二行");
    assert_eq!(describe_candidates(&[]), "");
}

#[test]
fn a_long_listing_says_where_it_was_cut() {
    let boxes: Vec<TextBox> = (0..30).map(|i| tb(&format!("{i}"), i)).collect();
    let listed = describe_candidates(&boxes);
    assert!(listed.ends_with(&format!(" / （共 30 块，只列前 {OCR_LOG_MAX_BLOCKS}）")), "{listed}");
    assert!(listed.starts_with("0 / 1 / 2"));

    let long = "字".repeat(OCR_LOG_MAX_CHARS - 1);
    let boxes = vec![tb("ab", 0), tb(&long, 1)];
    assert_eq!(describe_candidates(&boxes), "ab / …");
}

#[test]
fn strings_join_with_a_separator() {
    assert_eq!(join_strings(&vec!["a".to_string(), "b".to_string(), "c".to_string()], "/"), "a/b/c");
    assert_eq!(join_strings(&vec![], "/"), "");
    assert_eq!(trimmed("\u{3000} 张三\t"), "张三");
}

// ---------------------------------------------------------------------------
// Run decisions
// ---------------------------------------------------------------------------

#[test]
fn a_failure_settles_by_its_kind() {
    assert_eq!(failure_state(&AutomationError::Cancelled), TaskState::Cancelled);
    assert_eq!(failure_state(&AutomationError::Platform("io".into())), TaskState::Failed);
    assert_eq!(failure_state(&AutomationError::Timeout("t".into())), TaskState::NeedsHumanReview);
    let f = failure_of(&AutomationError::NeedsHumanReview("看一下".into()));
    assert_eq!(f.code, "NEEDS_HUMAN_REVIEW");
    assert_eq!(f.reason, "需要人工处理：看一下");
}

#[test]
fn only_transient_errors_are_retried_while_attempts_remain() {
    let io = AutomationError::Platform("io".into());
    assert!(should_retry(&io, 1, 3));
    assert!(should_retry(&io, 2, 3));
    assert!(!should_retry(&io, 3, 3));
    assert!(!should_retry(&io, 1, 0));
    assert!(!should_retry(&AutomationError::AmbiguousVision("x".into()), 1, 3));
}

#[test]
fn the_settle_poll_is_an_eighth_of_the_timeout_but_at_least_20ms() {
    assert_eq!(settle_poll_interval(Duration::from_millis(600)), Duration::from_millis(75));
    assert_eq!(settle_poll_interval(Duration::from_millis(100)), Duration::from_millis(20));
    assert_eq!(settle_poll_interval(Duration::ZERO), Duration::from_millis(20));
    assert_eq!(settle_poll_interval(Duration::new(u64::MAX, 999_999_999)).as_secs(), u64::MAX / 8);
}

#[test]
fn the_workflows_are_listed_and_named() {
    assert_eq!(Workflow::ALL, [Workflow::SearchContact, Workflow::ScrollListContact, Workflow::NavigateOnly]);
    assert_eq!(Workflow::SearchContact.describe(), "搜索式查找联系人");
    assert_eq!(Workflow::ScrollListContact.describe(), "列表扫描式查找联系人");
    assert_eq!(Workflow::NavigateOnly.describe(), "只做导航（找到图标并点击）");
    assert!(Workflow::SearchContact.navigates_before_search(false));
    assert!(!Workflow::NavigateOnly.navigates_before_search(false));
    assert!(Workflow::NavigateOnly.navigates_before_search(true));
}

#[test]
fn an_outcome_tells_sent_from_prepared() {
    let done = RunOutcome { task_id: 1, state: TaskState::Completed, failure: None, evidence: vec![] };
    assert!(done.succeeded() && !done.stopped_before_send());
    let prepared = RunOutcome { task_id: 1, state: TaskState::Prepared, failure: None, evidence: vec![] };
    assert!(!prepared.succeeded() && prepared.stopped_before_send());
}

#[test]
fn the_noop_progress_accepts_any_change() {
    let change = StateChange {
        task_id: 7,
        from: TaskState::Draft,
        to: TaskState::LaunchingClient,
        at: std::time::SystemTime::UNIX_EPOCH,
        detail: None,
        failure_code: None,
    };
    NoopProgress.state_changed(&change);
}

#[test]
fn a_dropdown_judgement_keeps_its_replay_input() {
    let min = ConfidenceThreshold { key: 50, shown: "0.50".into() };
    let judged = judge_dropdown(&[], "张三", DEFAULT_SEARCH_CONTACT_GROUP_LABEL, &min);
    match judged.replay() {
        ReplayInput::Dropdown { keyword, group_labels } => {
            assert_eq!(keyword, "张三");
            assert_eq!(group_labels, "联系人 / 最常使用");
        }
        other => panic!("{other:?}"),
    }
}

// ---------------------------------------------------------------------------
// Cancellation and audit
// ---------------------------------------------------------------------------

#[test]
fn a_cancelled_token_stops_every_clone() {
    let token = CancelToken::new();
    let seen = token.clone();
    assert!(token.check().is_ok());
    token.cancel();
    assert!(seen.is_cancelled());
    assert!(matches!(seen.check(), Err(AutomationError::Cancelled)));
}

fn entry(to: TaskState) -> AuditEntry {
    AuditEntry {
        task_id: 9,
        actor: "tester".into(),
        platform: "linux".into(),
        from: TaskState::Draft,
        to,
        at: std::time::SystemTime::UNIX_EPOCH,
        confirmation_at: None,
        failure_code: None,
        failure_reason: None,
        evidence: vec![],
        message: None,
    }
}

#[test]
fn the_memory_audit_keeps_entries_in_order() {
    let mut audit = MemoryAudit::new();
    assert!(audit.is_empty());
    audit.record(entry(TaskState::LaunchingClient)).unwrap();
    audit.record(entry(TaskState::Failed)).unwrap();
    assert_eq!(audit.len(), 2);
    assert_eq!(audit.entries()[1].to, TaskState::Failed);
    assert!(NoopAudit.record(&entry(TaskState::Failed)).is_ok());
}

// ---------------------------------------------------------------------------
// Test doubles
// ---------------------------------------------------------------------------

#[test]
fn faults_turn_into_their_errors() {
    assert!(matches!(Fault::timeout("t".into()).into_error(), AutomationError::Timeout(t) if t == "t"));
    assert!(matches!(Fault::ambiguous("a".into()).into_error(), AutomationError::AmbiguousVision(_)));
    assert!(matches!(Fault::needs_human("h".into()).into_error(), AutomationError::NeedsHumanReview(_)));
    assert!(matches!(Fault::platform("p".into()).into_error(), AutomationError::Platform(_)));
    let faults = MockFaults::new().with_capture(vec![Fault::ScreenChanged, Fault::ClientNotReady]);
    assert_eq!(faults.capture.len(), 2);
    assert!(matches!(faults.capture[0], Fault::ScreenChanged));
    assert!(MockFaults::default().focus.is_none());
}

#[test]
fn the_mock_matcher_fails_once_when_told_and_counts_calls() {
    let min = ConfidenceThreshold { key: 50, shown: "0.50".into() };
    let mut matcher = MockContactMatcher::new();
    let boxes = vec![tb("张三", 0), tb("李四", 200)];
    matcher.force_failure(Fault::platform("挂了".into()));
    assert!(matches!(
        matcher.find_unique_exact_match("张三", &boxes, &min),
        Err(AutomationError::Platform(t)) if t == "挂了"
    ));
    assert_eq!(matcher.find_unique_exact_match("张三", &boxes, &min).unwrap().text, "张三");
    assert_eq!(matcher.call_count(), 2);
    assert!(matcher.accepts("张三", &boxes[0]));
    assert!(!matcher.accepts("张三", &boxes[1]));
    let aliased = MockContactMatcher::with_aliases(vec![("张三".into(), vec!["老张".into()])]);
    assert!(aliased.accepts("张三", &tb("老张", 0)));
}

#[test]
fn the_mock_matcher_trail_entry_shares_the_injected_failure() {
    let min = ConfidenceThreshold { key: 50, shown: "0.50".into() };
    let mut matcher = MockContactMatcher::new();
    let boxes = vec![tb("张三", 0), tb("李四", 200)];
    matcher.force_failure(Fault::timeout("慢".into()));
    let (result, trail) = matcher.find_unique_exact_match_with_trail("张三", &boxes, &min);
    assert!(matches!(result, Err(AutomationError::Timeout(t)) if t == "慢"));
    assert_eq!(trail.rule, FORCED_FAILURE_RULE);
    assert!(!trail.relaxed);
    assert!(trail.candidates.is_empty());
    let (result, trail) = matcher.find_unique_exact_match_with_trail("张三", &boxes, &min);
    assert_eq!(result.unwrap().text, "张三");
    assert_eq!(trail.rule, STRICT_RULE);
    assert_eq!(trail.candidates.len(), 2);
    assert!(trail.candidates[0].passed);
    assert!(!trail.candidates[1].passed);
    assert_eq!(matcher.call_count(), 2);
}
