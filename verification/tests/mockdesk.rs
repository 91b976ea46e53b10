use std::time::SystemTime;

use automation_core::mock::Fault;
use automation_core::mockdesk::{default_window, MockDesktop, MockOcr, ScriptedCall};
use automation_core::ports::{AutomationError, Point, Rect, Screenshot, TextBox};

fn region() -> Rect {
    Rect { x: 10, y: 20, width: 300, height: 400 }
}

fn at() -> Point {
    Point { x: 5, y: 5 }
}

#[test]
fn fresh_desktop_reports_the_default_window() {
    let mut d = MockDesktop::new();
    assert_eq!(d.window(), Rect { x: 0, y: 0, width: 1280, height: 720 });
    assert_eq!(default_window(), d.window());
    assert_eq!(d.focus_wecom().unwrap(), d.window());
    assert_eq!(d.focus_calls(), 1);
    assert_eq!(d.operations(), vec!["focus".to_string()]);
}

#[test]
fn fingerprint_is_built_from_region_offset_and_version() {
    let mut d = MockDesktop::new();
    let shot = d.capture(region()).unwrap();
    assert_eq!(shot.fingerprint, "mock-10+20x300x400-o0-v0");
    assert_eq!((shot.width, shot.height), (300, 400));
    assert!(shot.pixels.is_empty());
    let again = d.capture(region()).unwrap();
    assert_eq!(again.fingerprint, shot.fingerprint);
}

#[test]
fn negative_region_sizes_capture_as_empty_frames() {
    let mut d = MockDesktop::new();
    let shot = d.capture(Rect { x: -3, y: -4, width: -5, height: 6 }).unwrap();
    assert_eq!((shot.width, shot.height), (0, 6));
    assert_eq!(shot.fingerprint, "mock--3+-4x-5x6-o0-v0");
}

#[test]
fn scrolling_is_clamped_at_both_ends() {
    let mut d = MockDesktop::new();
    let w = d.window();
    d.script_scroll_bottom(2);
    d.scroll(at(), 3, w).unwrap();
    assert_eq!(d.view_offset(), 2);
    let bottom = d.capture(region()).unwrap().fingerprint;
    d.scroll(at(), 3, w).unwrap();
    assert_eq!(d.capture(region()).unwrap().fingerprint, bottom);
    d.scroll(at(), -10, w).unwrap();
    assert_eq!(d.view_offset(), 0);
    assert_eq!(d.scroll_count(), 3);
    assert_eq!(d.scrolled_down_notches(), -4);
    assert_eq!(d.scrolled_up_notches(), 10);
}

#[test]
fn a_negative_bottom_means_a_list_that_does_not_scroll() {
    let mut d = MockDesktop::new();
    let w = d.window();
    d.script_scroll_bottom(-7);
    d.scroll(at(), 4, w).unwrap();
    assert_eq!(d.view_offset(), 0);
}

#[test]
fn effective_clicks_advance_the_screen() {
    let mut d = MockDesktop::new();
    let w = d.window();
    d.guarded_click(at(), w).unwrap();
    assert_eq!(d.capture(region()).unwrap().fingerprint, "mock-10+20x300x400-o0-v1");
    d.script_clicks_without_effect();
    d.guarded_click(at(), w).unwrap();
    assert_eq!(d.capture(region()).unwrap().fingerprint, "mock-10+20x300x400-o0-v1");
    assert_eq!(d.clicks(), &[at(), at()]);
}

#[test]
fn input_aimed_at_another_window_is_refused() {
    let mut d = MockDesktop::new();
    let other = Rect { x: 1, y: 1, width: 10, height: 10 };
    assert!(matches!(d.guarded_click(at(), other), Err(AutomationError::ScreenChanged)));
    assert!(matches!(d.scroll(at(), 1, other), Err(AutomationError::ScreenChanged)));
    assert!(matches!(d.paste_text("x", other), Err(AutomationError::ScreenChanged)));
    assert!(matches!(d.send_message_shortcut(other), Err(AutomationError::ScreenChanged)));
    assert!(d.operations().is_empty());
    assert_eq!(d.send_count(), 0);
}

#[test]
fn injected_faults_fail_one_operation_each() {
    let mut d = MockDesktop::new();
    let w = d.window();
    d.faults().click = Some(Fault::platform("点击失败".to_string()));
    match d.guarded_click(at(), w) {
        Err(AutomationError::Platform(t)) => assert_eq!(t, "点击失败"),
        other => panic!("unexpected {other:?}"),
    }
    assert!(d.guarded_click(at(), w).is_ok());
    d.faults().capture.push_back(Fault::timeout("截图超时".to_string()));
    assert!(matches!(d.capture(region()), Err(AutomationError::Timeout(_))));
    assert!(d.capture(region()).is_ok());
    d.faults().launch = Some(Fault::ClientNotReady);
    assert!(matches!(d.launch_wecom(), Err(AutomationError::ClientNotReady)));
    assert!(d.launch_wecom().is_ok());
    assert_eq!(d.operations(), vec!["click", "capture", "launch"]);
}

#[test]
fn scripted_windows_replace_the_window_in_turn() {
    let mut d = MockDesktop::new();
    let a = Rect { x: 0, y: 0, width: 800, height: 600 };
    let b = Rect { x: 4, y: 4, width: 800, height: 600 };
    d.script_windows(vec![a, b]);
    assert_eq!(d.focus_wecom().unwrap(), a);
    assert_eq!(d.focus_wecom().unwrap(), b);
    assert_eq!(d.focus_wecom().unwrap(), b);
    assert_eq!(d.window(), b);
    assert_eq!(d.focus_calls(), 3);
}

#[test]
fn a_send_is_counted_and_changes_the_chat() {
    let mut d = MockDesktop::new();
    let w = d.window();
    d.paste_text("你好", w).unwrap();
    d.send_message_shortcut(w).unwrap();
    assert_eq!(d.pasted_texts(), vec!["你好".to_string()]);
    assert_eq!(d.send_count(), 1);
    assert_eq!(d.capture(region()).unwrap().fingerprint, "mock-10+20x300x400-o0-v1");
}

#[test]
fn a_frozen_screen_keeps_one_fingerprint() {
    let mut d = MockDesktop::new();
    let w = d.window();
    d.freeze_fingerprints();
    let before = d.capture(region()).unwrap().fingerprint;
    d.guarded_click(at(), w).unwrap();
    d.scroll(at(), 2, w).unwrap();
    assert_eq!(before, "mock-stable");
    assert_eq!(d.capture(region()).unwrap().fingerprint, "mock-stable");
}

#[test]
fn responsiveness_is_scripted() {
    let mut d = MockDesktop::new();
    assert!(d.is_responsive().unwrap());
    d.set_responsive(false);
    assert!(!d.is_responsive().unwrap());
}

fn frame(fp: &str) -> Screenshot {
    Screenshot { pixels: vec![], width: 3, height: 4, captured_at: SystemTime::now(), fingerprint: fp.to_string() }
}

fn block(text: &str) -> TextBox {
    TextBox { text: text.to_string(), bounds: Rect { x: 0, y: 0, width: 10, height: 10 }, confidence: 7 }
}

#[test]
fn scripted_ocr_answers_in_order_then_reads_nothing() {
    let mut ocr = MockOcr::new(vec![
        ScriptedCall::boxes(vec![block("张三")]),
        ScriptedCall::err(Fault::ambiguous("看不清".to_string())),
    ]);
    assert_eq!(ocr.remaining_script(), 2);
    let first = ocr.recognize(&frame("a")).unwrap();
    assert_eq!(first.len(), 1);
    assert_eq!(first[0].text, "张三");
    match ocr.recognize(&frame("b")) {
        Err(AutomationError::AmbiguousVision(t)) => assert_eq!(t, "看不清"),
        other => panic!("unexpected {other:?}"),
    }
    assert!(ocr.recognize(&frame("c")).unwrap().is_empty());
    assert_eq!(ocr.call_count(), 3);
    assert_eq!(ocr.calls(), &[(3, 4), (3, 4), (3, 4)]);
    assert_eq!(ocr.fingerprints(), &["a".to_string(), "b".to_string(), "c".to_string()]);
    assert_eq!(ocr.remaining_script(), 0);
}

#[test]
fn scrolling_back_inside_the_list_restores_the_frame() {
    let mut d = MockDesktop::new();
    let w = d.window();
    let start = d.capture(region()).unwrap().fingerprint;
    d.scroll(at(), 3, w).unwrap();
    let moved = d.capture(region()).unwrap().fingerprint;
    assert_ne!(moved, start);
    assert_eq!(moved, "mock-10+20x300x400-o3-v0");
    d.scroll(at(), -3, w).unwrap();
    assert_eq!(d.capture(region()).unwrap().fingerprint, start);
}

#[test]
fn a_resize_is_recorded_and_clamped_to_the_minimum_size() {
    let mut d = MockDesktop::new();
    d.set_window(Rect { x: 5, y: 6, width: 900, height: 600 });
    assert_eq!(d.resize_wecom(1280, 720).unwrap(), Rect { x: 5, y: 6, width: 1280, height: 720 });
    d.set_min_window_size((1000, 700));
    assert_eq!(d.resize_wecom(900, 600).unwrap(), Rect { x: 5, y: 6, width: 1000, height: 700 });
    assert_eq!(d.window(), Rect { x: 5, y: 6, width: 1000, height: 700 });
    assert_eq!(d.resizes(), &[(1280, 720), (900, 600)]);
    d.faults().resize = Some(Fault::platform("调不动".to_string()));
    assert!(matches!(d.resize_wecom(10, 10), Err(AutomationError::Platform(_))));
    assert_eq!(d.resizes().len(), 2);
}

#[test]
fn typing_and_clearing_are_recorded_in_order() {
    let mut d = MockDesktop::new();
    let w = d.window();
    d.guarded_click(at(), w).unwrap();
    d.clear_text_field(w).unwrap();
    d.type_text("张三", w).unwrap();
    d.move_pointer(at()).unwrap();
    assert_eq!(d.operations(), vec!["click", "clear", "type"]);
    assert_eq!(d.typed_texts(), vec!["张三".to_string()]);
    assert!(d.pasted_texts().is_empty());
    let other = Rect { x: 1, y: 1, width: 10, height: 10 };
    assert!(matches!(d.type_text("x", other), Err(AutomationError::ScreenChanged)));
    d.faults().clear = Some(Fault::ClientNotReady);
    assert!(matches!(d.clear_text_field(w), Err(AutomationError::ClientNotReady)));
    d.faults().metrics = Some(Fault::timeout("读不到".to_string()));
    assert!(matches!(d.take_metrics_fault(), Err(AutomationError::Timeout(_))));
    assert!(d.take_metrics_fault().is_ok());
}
