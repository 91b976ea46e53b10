//! The platform-independent part of the macOS layer.

use automation_core::macosapi::{
    self, find_window_by_owner_name_in, find_window_by_title_prefix_in, window_from_point_in,
    window_rect_in, WindowInfo, WindowRef,
};
use automation_core::ports::Rect;

#[test]
fn mod_fingerprint_is_deterministic_and_content_sensitive() {
    let a = vec![1u8, 2, 3, 4];
    let b = vec![1u8, 2, 3, 5];
    assert_eq!(macosapi::fingerprint_of(&a, 2, 2), macosapi::fingerprint_of(&a, 2, 2));
    assert_ne!(macosapi::fingerprint_of(&a, 2, 2), macosapi::fingerprint_of(&b, 2, 2));
    assert_ne!(macosapi::fingerprint_of(&a, 2, 2), macosapi::fingerprint_of(&a, 4, 1));
    assert_eq!(macosapi::fingerprint_of(&a, 2, 2).len(), 64);
}

#[test]
fn macos_contract_fingerprint_is_deterministic_and_content_sensitive() {
    let a = vec![1u8, 2, 3, 4];
    let b = vec![1u8, 2, 3, 5];
    assert_eq!(macosapi::fingerprint_of(&a, 2, 2), macosapi::fingerprint_of(&a, 2, 2));
    assert_ne!(macosapi::fingerprint_of(&a, 2, 2), macosapi::fingerprint_of(&b, 2, 2));
    assert_eq!(macosapi::fingerprint_of(&a, 2, 2).len(), 64);
}

#[test]
fn is_supported_matches_target() {
    // This library carries no real macOS desktop implementation.
    assert_eq!(macosapi::IS_SUPPORTED, false);
}

#[test]
fn fingerprint_of_an_empty_frame_is_the_hash_of_its_size() {
    // SHA-256 of the eight bytes 00 00 00 00 00 00 00 00.
    assert_eq!(
        macosapi::fingerprint_of(&[], 0, 0),
        "af5570f5a1810b7af78caf4bc70a660f0df51e42baf91d4de5b2328de0e83dfc"
    );
}

#[test]
fn every_desktop_operation_reports_the_missing_implementation() {
    let expected = "platform-macos 只能在 macOS 上执行真实桌面操作";
    let w = WindowRef { id: 1, owner_pid: 2 };
    assert_eq!(macosapi::find_window_by_owner_name("微信").unwrap_err(), expected);
    assert_eq!(macosapi::find_window_by_title_prefix("微信").unwrap_err(), expected);
    assert_eq!(macosapi::window_rect(w).unwrap_err(), expected);
    assert_eq!(macosapi::left_click().unwrap_err(), expected);
    assert!(macosapi::list_visible_windows().is_empty());
    assert!(macosapi::foreground_window().is_none());
    assert!(macosapi::is_responsive(w));
    assert!(!macosapi::accessibility_trusted());
    assert_eq!(macosapi::primary_screen_size(), (0, 0));
    assert!(macosapi::same_window(w, WindowRef { id: 1, owner_pid: 2 }));
    assert!(!macosapi::same_window(w, WindowRef { id: 3, owner_pid: 2 }));
}

fn window(id: u32, owner: &str, title: &str, rect: Rect) -> WindowInfo {
    WindowInfo {
        id,
        owner_pid: id as i32 * 10,
        owner_name: owner.into(),
        title: title.into(),
        rect,
        is_on_screen: true,
        layer: 0,
    }
}

#[test]
fn window_selection_follows_list_order_and_prefers_the_smallest_window() {
    let big = Rect { x: 0, y: 0, width: 1000, height: 800 };
    let small = Rect { x: 100, y: 100, width: 200, height: 100 };
    let windows = vec![
        window(1, "访达", "桌面", big),
        window(2, "微信", "微信 - 主窗口", small),
        window(3, "微信", "微信 - 登录", big),
    ];
    assert_eq!(find_window_by_owner_name_in(&windows, "微信").unwrap(), WindowRef { id: 2, owner_pid: 20 });
    assert_eq!(
        find_window_by_owner_name_in(&windows, "企业微信").unwrap_err(),
        "未找到所有者名为「企业微信」的可见窗口"
    );
    assert_eq!(find_window_by_title_prefix_in(&windows, "微信 - 登").unwrap().id, 3);
    assert_eq!(
        find_window_by_title_prefix_in(&windows, "聊天").unwrap_err(),
        "未找到标题以「聊天」开头的可见窗口"
    );
    assert_eq!(window_rect_in(&windows, WindowRef { id: 2, owner_pid: 0 }).unwrap(), small);
    assert_eq!(window_rect_in(&windows, WindowRef { id: 42, owner_pid: 0 }).unwrap_err(), "窗口 42 已不存在");
    assert_eq!(window_from_point_in(&windows, 150, 150).unwrap().id, 2);
    assert_eq!(window_from_point_in(&windows, 900, 700).unwrap().id, 1);
    assert!(window_from_point_in(&windows, 1000, 10).is_none());
}

#[test]
fn sha256_hex_of_known_bytes() {
    assert_eq!(
        automation_core::macosapi::sha256_hex(b"abc"),
        "ba7816bf8f01cfea414140de5dae2223b00361a396177a9cb410ff61f20015ad"
    );
    assert_eq!(
        automation_core::macosapi::sha256_hex(&[]),
        "e3b0c44298fc1c149afbf4c8996fb92427ae41e4649b934ca495991b7852b855"
    );
}
