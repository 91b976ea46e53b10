//! The decisions of a run: its route through the state machine, the sweeps,
//! the window guards and the verifications.

use automation_core::flow::{
    advance_machine, attach_failure, attached_detail, bottom_not_reached, candidate_verdict,
    chat_header_verdict, check_resized, degenerate_window, delivery_verdict, find_profile_entry,
    frozen_verdict, invalid_region, name_match_outcome, name_match_question, needs_field_check,
    next_stage, no_icon_templates, plan_window_size, prepared_detail, profile_verdict,
    screen_guard, search_field_diagnosis, search_keyword, size_within_tolerance, sweep_count,
    sweeps_exhausted, top_not_reached, unchanged_after_send, uncalibrated_region, window_guard,
    without_profile, ListSweep, ProfileReview, RouteChoice, ScrollToEnd, SizePlan, SweepStep,
};
use automation_core::policy::ConfidenceThreshold;
use automation_core::ports::{AutomationError, Rect, TextBox};
use automation_core::runner::Workflow;
use automation_core::state::{StateError, TaskMachine, TaskState};

fn tb(text: &str, y: i32, confidence: u32) -> TextBox {
    TextBox { text: text.into(), bounds: Rect { x: 10, y, width: 100, height: 20 }, confidence }
}

fn rect(x: i32, y: i32, width: i32, height: i32) -> Rect {
    Rect { x, y, width, height }
}

fn walk(choice: RouteChoice) -> Vec<TaskState> {
    let mut states = vec![TaskState::Draft];
    while let Some(next) = next_stage(choice, *states.last().unwrap()) {
        states.push(next);
    }
    states
}

fn human(e: &AutomationError) -> &str {
    match e {
        AutomationError::NeedsHumanReview(t) => t,
        other => panic!("expected a hand-over, got {other:?}"),
    }
}

fn ambiguous(e: &AutomationError) -> &str {
    match e {
        AutomationError::AmbiguousVision(t) => t,
        other => panic!("expected an ambiguity, got {other:?}"),
    }
}

// ---------------------------------------------------------------------------
// Route
// ---------------------------------------------------------------------------

#[test]
fn the_search_route_passes_the_profile_and_stops_before_sending() {
    let choice = RouteChoice { workflow: Workflow::SearchContact, stop_before_send: true, profile_verified: true };
    assert_eq!(
        walk(choice),
        vec![
            TaskState::Draft,
            TaskState::LaunchingClient,
            TaskState::WaitingForClient,
            TaskState::NavigatingToView,
            TaskState::SearchingContact,
            TaskState::VerifyingCandidate,
            TaskState::VerifyingProfile,
            TaskState::OpeningChatFromProfile,
            TaskState::VerifyingChatHeader,
            TaskState::PreparingMessage,
            TaskState::Prepared,
        ]
    );
}

#[test]
fn an_open_chat_skips_the_profile_entry() {
    let choice = RouteChoice { workflow: Workflow::SearchContact, stop_before_send: false, profile_verified: false };
    let states = walk(choice);
    assert!(!states.contains(&TaskState::OpeningChatFromProfile));
    assert_eq!(&states[6..], &[
        TaskState::VerifyingProfile,
        TaskState::VerifyingChatHeader,
        TaskState::PreparingMessage,
        TaskState::Sending,
        TaskState::VerifyingDelivery,
        TaskState::Completed,
    ]);
}

#[test]
fn the_list_route_goes_straight_to_the_chat_title() {
    let choice = RouteChoice { workflow: Workflow::ScrollListContact, stop_before_send: false, profile_verified: true };
    let states = walk(choice);
    assert!(!states.contains(&TaskState::VerifyingProfile));
    assert_eq!(*states.last().unwrap(), TaskState::Completed);
    assert_eq!(states.len(), 11);
}

#[test]
fn navigate_only_ends_at_navigated() {
    let choice = RouteChoice { workflow: Workflow::NavigateOnly, stop_before_send: false, profile_verified: false };
    assert_eq!(
        walk(choice),
        vec![
            TaskState::Draft,
            TaskState::LaunchingClient,
            TaskState::WaitingForClient,
            TaskState::NavigatingToView,
            TaskState::Navigated,
        ]
    );
}

#[test]
fn every_route_is_accepted_by_the_state_machine() {
    for workflow in Workflow::ALL {
        for stop_before_send in [false, true] {
            for profile_verified in [false, true] {
                let states = walk(RouteChoice { workflow, stop_before_send, profile_verified });
                let mut machine = TaskMachine::new();
                for to in &states[1..] {
                    assert_eq!(advance_machine(&mut machine, *to).unwrap(), true);
                }
                assert!(machine.state().is_terminal());
                if stop_before_send {
                    assert!(!states.contains(&TaskState::Sending));
                }
            }
        }
    }
}

// ---------------------------------------------------------------------------
// Machine
// ---------------------------------------------------------------------------

#[test]
fn a_refused_transition_fails_the_step_with_its_reason() {
    let mut machine = TaskMachine::new();
    match advance_machine(&mut machine, TaskState::Sending) {
        Err(AutomationError::Platform(t)) => assert_eq!(t, "状态机拒绝转换：不允许的状态转换：Draft → Sending"),
        other => panic!("{other:?}"),
    }
    assert_eq!(machine.state(), TaskState::Draft);
}

#[test]
fn an_ended_run_ignores_further_steps() {
    let mut machine = TaskMachine::new();
    assert_eq!(advance_machine(&mut machine, TaskState::Cancelled).unwrap(), true);
    assert_eq!(advance_machine(&mut machine, TaskState::LaunchingClient).unwrap(), false);
    assert_eq!(machine.state(), TaskState::Cancelled);
    let e = StateError::TerminalState { from: TaskState::Cancelled };
    assert_eq!(e.message(), "不能从终态 Cancelled 转换");
}

// ---------------------------------------------------------------------------
// Sweeps
// ---------------------------------------------------------------------------

fn missing() -> Result<TextBox, AutomationError> {
    Err(AutomationError::NeedsHumanReview("not here".into()))
}

#[test]
fn a_sweep_scrolls_until_its_limit() {
    let mut sweep = ListSweep::new(2);
    assert!(matches!(sweep.on_frame("a".into(), missing()), SweepStep::Scroll));
    assert!(matches!(sweep.on_frame("b".into(), missing()), SweepStep::Scroll));
    assert!(matches!(sweep.on_frame("c".into(), missing()), SweepStep::End));
}

#[test]
fn a_frame_that_did_not_move_asks_for_a_probe_back() {
    let mut sweep = ListSweep::new(5);
    assert!(matches!(sweep.on_frame("a".into(), missing()), SweepStep::Scroll));
    assert!(matches!(sweep.on_frame("a".into(), missing()), SweepStep::ProbeBack));
}

#[test]
fn a_found_contact_or_an_ambiguity_ends_the_sweep_at_once() {
    let mut sweep = ListSweep::new(0);
    match sweep.on_frame("a".into(), Ok(tb("张三", 5, 9))) {
        SweepStep::Found(b) => assert_eq!(b.text, "张三"),
        other => panic!("{other:?}"),
    }
    match sweep.on_frame("a".into(), Err(AutomationError::AmbiguousVision("两个".into()))) {
        SweepStep::Stop(e) => assert_eq!(ambiguous(&e), "两个"),
        other => panic!("{other:?}"),
    }
    assert!(matches!(sweep.on_frame("a".into(), missing()), SweepStep::End));
}

#[test]
fn sweeps_are_counted_from_one() {
    assert_eq!(sweep_count(0), 1);
    assert_eq!(sweep_count(2), 2);
    assert_eq!(
        human(&sweeps_exhausted(2, " 张三 ")),
        "已把联系人列表从头到尾完整扫描 2 轮，仍未找到「张三」。请确认该联系人确实存在，且列表没有被搜索框或筛选条件限制。"
    );
}

#[test]
fn the_liveness_verdict_names_the_abandoned_action() {
    assert!(frozen_verdict(true, "已取消点击").is_ok());
    let e = frozen_verdict(false, "已取消点击").unwrap_err();
    assert_eq!(
        human(&e),
        "客户端疑似卡死：已取消点击，且系统判定该窗口未响应消息。请确认程序没有卡住（必要时重启客户端并重新登录）后重试。"
    );
}

#[test]
fn scrolling_to_an_end_stops_on_a_repeated_frame_or_after_its_bound() {
    let mut probe = ScrollToEnd::new(0);
    assert_eq!(probe.limit(), 2);
    assert!(!probe.observe("a".into()));
    assert!(probe.observe("a".into()));

    let mut probe = ScrollToEnd::new(1);
    let mut scrolls = 0;
    let mut frame = 0;
    while !probe.exhausted() {
        frame += 1;
        if probe.observe(format!("f{frame}")) {
            break;
        }
        scrolls += 1;
    }
    assert_eq!(scrolls, 3);
    assert_eq!(human(&top_not_reached(probe.limit())), "向上滚动 2 次仍未回到联系人列表顶部，拒绝继续猜测扫描起点。");
    assert_eq!(human(&bottom_not_reached(2)), "向下滚动 2 次仍未让资料页画面稳定下来，拒绝继续猜测滚动位置。");
}

// ---------------------------------------------------------------------------
// Window guards
// ---------------------------------------------------------------------------

#[test]
fn the_window_may_drift_a_few_pixels_but_not_change_size() {
    let expected = rect(100, 100, 800, 600);
    assert_eq!(window_guard(expected, rect(104, 96, 800, 600)).unwrap(), rect(104, 96, 800, 600));
    assert!(matches!(window_guard(expected, rect(105, 100, 800, 600)), Err(AutomationError::ScreenChanged)));
    assert!(matches!(window_guard(expected, rect(100, 100, 801, 600)), Err(AutomationError::ScreenChanged)));
    assert!(matches!(window_guard(expected, rect(i32::MIN, 100, 800, 600)), Err(AutomationError::ScreenChanged)));
}

#[test]
fn the_display_must_keep_its_size_and_scale() {
    assert!(screen_guard(None, 1, 1, false).is_ok());
    assert!(screen_guard(Some((1920, 1080)), 1920, 1080, true).is_ok());
    assert!(matches!(screen_guard(Some((1920, 1080)), 1920, 1081, true), Err(AutomationError::ScreenChanged)));
    assert!(matches!(screen_guard(Some((1920, 1080)), 1920, 1080, false), Err(AutomationError::ScreenChanged)));
}

#[test]
fn sizes_within_one_pixel_match() {
    assert!(size_within_tolerance(rect(0, 0, 961, 733), 960, 734));
    assert!(!size_within_tolerance(rect(0, 0, 962, 734), 960, 734));
}

#[test]
fn the_size_plan_keeps_resizes_or_refuses() {
    let w = rect(0, 0, 960, 734);
    assert!(matches!(plan_window_size(w, 960, 734, true, None, "1.00", "1.00"), SizePlan::Keep));
    assert!(matches!(
        plan_window_size(w, 1000, 734, true, None, "1.00", "1.00"),
        SizePlan::Resize { width: 1000, height: 734 }
    ));
    assert!(matches!(
        plan_window_size(w, 960, 734, false, Some((1920, 1468)), "1.00", "2.00"),
        SizePlan::Resize { width: 1920, height: 1468 }
    ));
    match plan_window_size(w, 960, 734, false, None, "1.00", "2.00") {
        SizePlan::Refuse(e) => assert_eq!(
            human(&e),
            "显示器缩放与标定记录不一致：记录 1.00，当前 2.00。缩放不同意味着同一物理尺寸下的界面布局本来就不同，调整窗口尺寸解决不了——请把窗口移回标定时那块显示器，或重新点「记录窗口尺寸」并保存配置。"
        ),
        other => panic!("{other:?}"),
    }
}

#[test]
fn a_resize_that_did_not_take_is_reported_with_every_size() {
    assert_eq!(check_resized(rect(0, 0, 800, 600), rect(5, 5, 960, 735), 960, 734).unwrap(), rect(5, 5, 960, 735));
    let e = check_resized(rect(0, 0, 800, 600), rect(0, 0, 900, 700), 640, 480).unwrap_err();
    assert_eq!(
        human(&e),
        "窗口尺寸与标定记录不一致，且自动调整没有生效：标定 640×480，调整前 800×600，调整后 900×700。客户端通常会限制最小窗口尺寸，标定值比它小时就会被夹住。请把窗口手工调到 640×480，或重新点「记录窗口尺寸」并保存配置。"
    );
}

#[test]
fn attaching_explains_a_missing_window() {
    let e = attach_failure(AutomationError::ClientNotReady);
    assert!(human(&e).starts_with("未能接管目标窗口"));
    let kept = attach_failure(AutomationError::NeedsHumanReview("置前被拒".into()));
    assert_eq!(human(&kept), "置前被拒");
    assert!(matches!(attach_failure(AutomationError::Timeout("t".into())), AutomationError::Timeout(_)));
    assert_eq!(human(&degenerate_window()), "目标窗口尺寸为 0，不能作为标定基准。请先让客户端主窗口正常显示。");
}

#[test]
fn the_attach_detail_says_when_the_window_was_resized() {
    let w = rect(-10, 20, 960, 734);
    assert_eq!(attached_detail(w, w, "2"), "窗口 960x734 @(-10,20)，缩放 2");
    assert_eq!(
        attached_detail(w, rect(0, 0, 800, 600), "1"),
        "窗口 960x734 @(-10,20)，缩放 1（已自动从 800x600 调整到标定尺寸）"
    );
}

// ---------------------------------------------------------------------------
// Verifications
// ---------------------------------------------------------------------------

fn threshold() -> ConfidenceThreshold {
    ConfidenceThreshold { key: 85, shown: "0.85".into() }
}

#[test]
fn a_candidate_needs_the_policy_and_the_confidence() {
    let good = tb(" 张三 ", 0, 90);
    assert!(candidate_verdict(true, &good, "张三", &threshold(), "0.90").is_ok());
    let e = candidate_verdict(false, &good, " 张三", &threshold(), "0.90").unwrap_err();
    assert_eq!(ambiguous(&e), "候选人文字「张三」不被当前的姓名匹配策略接受（目标「张三」）");
    let weak = tb("张三", 0, 60);
    let e = candidate_verdict(true, &weak, "张三", &threshold(), "0.60").unwrap_err();
    assert_eq!(ambiguous(&e), "候选人置信度 0.60 低于阈值 0.85");
}

#[test]
fn the_chat_title_blames_a_dead_click_first() {
    assert!(chat_header_verdict(Ok(tb("张三", 0, 90)), true, Some(false), "张三").is_ok());
    let e = chat_header_verdict(Ok(tb("李四", 0, 90)), false, Some(false), "张三").unwrap_err();
    assert!(human(&e).starts_with("为「张三」打开聊天的那个点击之后，画面没有任何变化"));
    let e = chat_header_verdict(Ok(tb(" 李四", 0, 90)), false, Some(true), "张三").unwrap_err();
    assert_eq!(ambiguous(&e), "聊天页标题「李四」与目标「张三」不一致");
    let e = chat_header_verdict(Err(AutomationError::ScreenChanged), false, None, "张三").unwrap_err();
    assert!(matches!(e, AutomationError::ScreenChanged));
}

#[test]
fn the_profile_check_leaves_a_miss_to_the_next_step() {
    assert!(matches!(profile_verdict(Ok(tb("张三", 0, 90)), true, None, "张三"), Ok(ProfileReview::Verified)));
    match profile_verdict(Ok(tb("另一个联系人", 0, 90)), false, Some(true), "张三") {
        Ok(ProfileReview::NotFound(e)) => {
            assert_eq!(ambiguous(&e), "资料页上读到的是「另一个联系人」，与目标「张三」不一致——可能点错了人")
        }
        other => panic!("{other:?}"),
    }
    let e = profile_verdict(Err(AutomationError::ScreenChanged), false, Some(false), "张三").unwrap_err();
    assert!(human(&e).ends_with("（目标「张三」）"));
}

#[test]
fn without_the_profile_the_chat_title_decides() {
    let reason = AutomationError::AmbiguousVision("资料页不对".into());
    let (r, note) = without_profile(reason, Ok(()));
    assert!(r.is_ok());
    assert!(note.starts_with("资料页上没认到目标（本地视觉识别结果不确定：资料页不对），但聊天页标题就是目标"));
    let reason = AutomationError::AmbiguousVision("资料页不对".into());
    let (r, note) = without_profile(reason, Err(AutomationError::ScreenChanged));
    assert!(matches!(r, Err(AutomationError::AmbiguousVision(_))));
    assert_eq!(note, "（跳过资料页之后，聊天页标题也没认下来：屏幕状态在操作前发生变化）");
}

#[test]
fn a_dropdown_hand_over_reports_the_search_box() {
    let err = AutomationError::NeedsHumanReview("没找到".into());
    assert!(needs_field_check(&err));
    let e = search_field_diagnosis(err, Ok(vec![tb("张", 0, 90)]), "张三");
    assert_eq!(
        human(&e),
        "没找到；另外核对了一次搜索框，读到：张。若这里面没有「张三」，说明关键词没有落进搜索框，而不是「没有这个联系人」。"
    );
    let err = AutomationError::NeedsHumanReview("没找到".into());
    let e = search_field_diagnosis(err, Err(AutomationError::Timeout("截图".into())), "张三");
    assert!(human(&e).contains("读到：（核对失败：步骤超时：截图）。"));
    let other = AutomationError::Platform("x".into());
    assert!(!needs_field_check(&other));
    assert!(matches!(search_field_diagnosis(other, Ok(vec![]), "张三"), AutomationError::Platform(_)));
}

#[test]
fn the_profile_entry_is_the_topmost_block_containing_its_text() {
    let boxes = vec![tb("发 消息", 300, 90), tb("发消息给他", 200, 90), tb("发消息", 100, 10)];
    assert_eq!(find_profile_entry(&boxes, " 发消息 ", 50).unwrap().bounds.y, 200);
    let e = find_profile_entry(&boxes, "音视频通话", 50).unwrap_err();
    assert_eq!(
        human(&e),
        "资料页里没有找到「音视频通话」这个入口（已经滚到最下面）。请确认这一项文字与当前客户端对得上，或到「界面标定」页核对「联系人资料区域」。"
    );
}

#[test]
fn delivery_needs_the_text_in_a_confident_block() {
    let after = vec![tb("你好，明天见", 0, 90), tb("再见", 20, 10)];
    assert!(delivery_verdict(" 你好 ", &after, 50).is_ok());
    assert_eq!(human(&delivery_verdict("再见", &after, 50).unwrap_err()), "聊天区未识别到本条消息，拒绝判定为已送达");
    assert_eq!(human(&delivery_verdict("  ", &after, 50).unwrap_err()), "消息正文为空");
    assert_eq!(human(&unchanged_after_send(false)), "发送后聊天区截图未发生变化，无法确认消息已出现");
    assert_eq!(
        human(&unchanged_after_send(true)),
        "发送后聊天区截图未发生变化（且系统判定客户端未响应，疑似卡死），无法确认消息已出现"
    );
    assert_eq!(prepared_detail("你好 ab"), "已把 5 个字符逐字填入输入框，未发送");
}

#[test]
fn configuration_gaps_name_what_is_missing() {
    assert_eq!(
        human(&uncalibrated_region("搜索下拉列表")),
        "「搜索下拉列表」还没有标定，无法继续。请到「界面标定」页把这一块框出来，保存配置后再跑。"
    );
    assert_eq!(human(&invalid_region("聊天标题区", "越界")), "聊天标题区 区域标定无效：越界");
    assert!(human(&no_icon_templates("通讯录")).starts_with("没有「通讯录」图标的模板"));
    assert_eq!(search_keyword("  张三 ").unwrap(), "张三");
    assert_eq!(human(&search_keyword(" \t").unwrap_err()), "目标联系人为空");
}

#[test]
fn the_name_match_record_reads_as_the_run_did() {
    assert_eq!(name_match_question(" 张三 "), "这一屏的文字块里，哪一块是目标联系人「张三」？");
    assert_eq!(name_match_outcome(&Ok(tb(" 张三", 0, 90)), "0.97"), "选中「张三」（置信度 0.97）");
    assert_eq!(
        name_match_outcome(&Err(AutomationError::Cancelled), "0.97"),
        "转人工：任务已被取消"
    );
}
