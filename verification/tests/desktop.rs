//! The desktop's guards and refusals.

use automation_core::desktop::{
    accessibility_guard, capture_request, cursor_landed, focused_rect, foreground_refused, front_guard,
    hash_matches, launch_hash_check, preview_request, rect_guard, region_within, resize_request,
    still_in_background, target_description, window_not_found, window_under_cursor, wrong_process,
};
use automation_core::macosapi::{WindowMatcher, WindowRef};
use automation_core::ports::{AutomationError, Point, Rect};

fn rect(x: i32, y: i32, width: i32, height: i32) -> Rect {
    Rect { x, y, width, height }
}

fn human(e: AutomationError) -> String {
    match e {
        AutomationError::NeedsHumanReview(t) => t,
        other => panic!("expected a hand-over, got {other:?}"),
    }
}

#[test]
fn captures_need_an_area_within_the_budget() {
    assert_eq!(human(capture_request(rect(0, 0, 0, 10), 100).unwrap_err()), "捕获区域尺寸无效");
    assert_eq!(
        human(capture_request(rect(0, 0, 20, 10), 100).unwrap_err()),
        "捕获区域过大（200 像素），拒绝执行以免扫描整屏"
    );
    assert!(capture_request(rect(0, 0, 10, 10), 100).is_ok());
    assert!(capture_request(rect(0, 0, i32::MAX, i32::MAX), u64::MAX).is_ok());
}

#[test]
fn a_preview_has_its_own_budget() {
    assert!(matches!(preview_request(rect(0, 0, 10, 0), 100), Err(AutomationError::ClientNotReady)));
    assert_eq!(
        human(preview_request(rect(0, 0, 20, 10), 100).unwrap_err()),
        "目标窗口过大（200 像素），超过预览上限 100，拒绝截取"
    );
    assert!(preview_request(rect(0, 0, 10, 10), 100).is_ok());
}

#[test]
fn nothing_outside_the_window_is_captured() {
    let window = rect(100, 100, 800, 600);
    assert!(region_within(rect(100, 100, 800, 600), window).is_ok());
    assert_eq!(human(region_within(rect(99, 100, 10, 10), window).unwrap_err()), "拒绝捕获目标窗口以外的屏幕区域");
    assert!(region_within(rect(850, 650, 51, 10), window).is_err());
    assert!(region_within(rect(i32::MAX, 0, i32::MAX, 1), rect(0, 0, i32::MAX, 1)).is_err());
}

#[test]
fn input_needs_the_target_in_front_and_unmoved() {
    let target = WindowRef { id: 1, owner_pid: 42 };
    assert!(front_guard(target, Some(WindowRef { id: 9, owner_pid: 42 })).is_ok());
    assert!(matches!(front_guard(target, Some(WindowRef { id: 1, owner_pid: 7 })), Err(AutomationError::ClientNotReady)));
    assert!(matches!(front_guard(target, None), Err(AutomationError::ClientNotReady)));
    assert!(rect_guard(rect(1, 2, 3, 4), rect(1, 2, 3, 4)).is_ok());
    assert!(matches!(rect_guard(rect(1, 2, 3, 4), rect(1, 2, 3, 5)), Err(AutomationError::ScreenChanged)));
}

#[test]
fn the_cursor_must_land_on_the_target() {
    let at = Point { x: 100, y: 100 };
    assert!(cursor_landed(at, 102, 98).is_ok());
    let e = human(cursor_landed(at, 103, 100).unwrap_err());
    assert!(e.starts_with("鼠标没有移动到目标位置：要求 (100, 100)，实际停在 (103, 100)。"), "{e}");
    let target = WindowRef { id: 1, owner_pid: 42 };
    assert!(window_under_cursor(Some(WindowRef { id: 2, owner_pid: 42 }), target, 5, -6).is_ok());
    assert_eq!(
        human(window_under_cursor(Some(WindowRef { id: 2, owner_pid: 1 }), target, 5, -6).unwrap_err()),
        "鼠标位置 (5, -6) 上压着的不是目标窗口，拒绝操作：常见原因：目标窗口被弹窗或其它窗口遮挡。"
    );
    assert_eq!(human(window_under_cursor(None, target, 5, -6).unwrap_err()), "鼠标位置 (5, -6) 上没有窗口，拒绝操作。");
}

#[test]
fn window_sizes_must_have_an_area() {
    assert!(resize_request(800, 600).is_ok());
    assert_eq!(
        human(resize_request(0, 600).unwrap_err()),
        "标定记录的窗口尺寸不合法（0×600），不能拿它去调整窗口。请重新点「记录窗口尺寸」并保存配置。"
    );
    assert_eq!(focused_rect(rect(1, 1, 2, 2)).unwrap(), rect(1, 1, 2, 2));
    assert_eq!(human(focused_rect(rect(1, 1, 0, 2)).unwrap_err()), "目标窗口的矩形退化了（0x2）——请重新指认窗口。");
}

#[test]
fn finding_the_window_reads_as_it_failed() {
    let d = target_description(&WindowMatcher::ClassName("企业微信".into()));
    assert_eq!(d, "所有者名「企业微信」");
    assert_eq!(target_description(&WindowMatcher::TitlePrefix("微信".into())), "标题以「微信」开头");
    assert!(human(window_not_found(&d, "、且属于程序「/A.app」")).starts_with(
        "找不到目标窗口：没有找到可见的顶层窗口（所有者名「企业微信」、且属于程序「/A.app」）。"
    ));
    assert!(human(foreground_refused(&d, "denied")).contains("被系统拒绝：denied。"));
    assert!(human(still_in_background()).contains("仍然不是前台应用"));
    assert!(human(wrong_process("企业微信", "/B.app", "/A.app")).contains("但它属于「/B.app」，而配置的目标程序是「/A.app」"));
    assert!(accessibility_guard(true).is_ok());
    assert!(human(accessibility_guard(false).unwrap_err()).starts_with("未授予「辅助功能」权限"));
}

#[test]
fn the_executable_hash_ignores_ascii_case_and_padding() {
    assert!(hash_matches("ABCdef01", " abcDEF01 \n"));
    assert!(!hash_matches("abcdef02", "abcdef01"));
    assert!(!hash_matches("abc", "abcd"));
    assert!(launch_hash_check("AB", "ab", "/x").is_ok());
    assert_eq!(human(launch_hash_check("AB", "ac", "/x").unwrap_err()), "可执行文件哈希与配置不一致，拒绝启动：/x");
}
