//! The desktop's guards, as decisions: what may be captured, whether the
//! window in front is still the target, whether the cursor landed where it was
//! sent, and how each refusal reads. The desktop itself (finding windows,
//! moving the cursor, capturing) feeds them what it measured.

use vstd::prelude::*;
use crate::macosapi::{WindowMatcher, WindowRef};
use crate::ports::{spec_is_degenerate, AutomationError, ErrorView, Point, Rect};
use crate::text::{decimal, push_decimal_u64, push_signed, push_str, signed_decimal, trim};

verus! {

/// The cursor may land this many pixels away from where it was sent.
pub const CURSOR_LANDING_TOLERANCE_PX: i32 = 2;

/// Number of pixels of a rectangle with positive sides.
pub open spec fn area(r: Rect) -> int {
    r.width * r.height
}

pub open spec fn too_large_capture_text(pixels: int) -> Seq<char> {
    "捕获区域过大（"@ + decimal(pixels as nat) + " 像素），拒绝执行以免扫描整屏"@
}

/// The first checks on a capture request: a region with area, of at most
/// `max_pixels` pixels.
pub fn capture_request(region: Rect, max_pixels: u64) -> (r: Result<(), AutomationError>)
    ensures
        spec_is_degenerate(region) ==> (match r {
            Err(e) => e@ == ErrorView::NeedsHumanReview("捕获区域尺寸无效"@),
            Ok(_) => false,
        }),
        !spec_is_degenerate(region) && area(region) > max_pixels ==> (match r {
            Err(e) => e@ == ErrorView::NeedsHumanReview(too_large_capture_text(area(region))),
            Ok(_) => false,
        }),
        !spec_is_degenerate(region) && area(region) <= max_pixels ==> r is Ok,
{
    if region.is_degenerate() {
        return Err(AutomationError::NeedsHumanReview(String::from_str("捕获区域尺寸无效")));
    }
    let w = region.width as u64;
    let h = region.height as u64;
    assert(w * h <= 0x7fff_ffffu64 * 0x7fff_ffffu64) by (nonlinear_arith)
        requires
            0 < w <= 0x7fff_ffff,
            0 < h <= 0x7fff_ffff,
    ;
    let pixels = w * h;
    if pixels > max_pixels {
        let mut m = String::from_str("捕获区域过大（");
        push_decimal_u64(&mut m, pixels);
        push_str(&mut m, " 像素），拒绝执行以免扫描整屏");
        return Err(AutomationError::NeedsHumanReview(m));
    }
    Ok(())
}

pub open spec fn too_large_preview_text(pixels: int, max: int) -> Seq<char> {
    "目标窗口过大（"@ + decimal(pixels as nat) + " 像素），超过预览上限 "@ + decimal(max as nat) + "，拒绝截取"@
}

/// The checks on a read-only preview of the whole window: a window with area,
/// of at most `max_pixels` pixels.
pub fn preview_request(window: Rect, max_pixels: u64) -> (r: Result<(), AutomationError>)
    ensures
        spec_is_degenerate(window) ==> r matches Err(AutomationError::ClientNotReady),
        !spec_is_degenerate(window) && area(window) > max_pixels ==> (match r {
            Err(e) => e@ == ErrorView::NeedsHumanReview(too_large_preview_text(area(window), max_pixels as int)),
            Ok(_) => false,
        }),
        !spec_is_degenerate(window) && area(window) <= max_pixels ==> r is Ok,
{
    if window.is_degenerate() {
        return Err(AutomationError::ClientNotReady);
    }
    let w = window.width as u64;
    let h = window.height as u64;
    assert(w * h <= 0x7fff_ffffu64 * 0x7fff_ffffu64) by (nonlinear_arith)
        requires
            0 < w <= 0x7fff_ffff,
            0 < h <= 0x7fff_ffff,
    ;
    let pixels = w * h;
    if pixels > max_pixels {
        let mut m = String::from_str("目标窗口过大（");
        push_decimal_u64(&mut m, pixels);
        push_str(&mut m, " 像素），超过预览上限 ");
        push_decimal_u64(&mut m, max_pixels);
        push_str(&mut m, "，拒绝截取");
        return Err(AutomationError::NeedsHumanReview(m));
    }
    Ok(())
}

/// `region` lies inside `window` (edges included).
pub open spec fn region_inside(region: Rect, window: Rect) -> bool {
    &&& region.x >= window.x
    &&& region.y >= window.y
    &&& region.x + region.width <= window.x + window.width
    &&& region.y + region.height <= window.y + window.height
}

/// Nothing outside the target window is ever captured.
pub fn region_within(region: Rect, window: Rect) -> (r: Result<(), AutomationError>)
    ensures
        region_inside(region, window) ==> r is Ok,
        !region_inside(region, window) ==> (match r {
            Err(e) => e@ == ErrorView::NeedsHumanReview("拒绝捕获目标窗口以外的屏幕区域"@),
            Ok(_) => false,
        }),
{
    let inside = region.x >= window.x && region.y >= window.y && region.x as i64 + region.width as i64
        <= window.x as i64 + window.width as i64 && region.y as i64 + region.height as i64 <= window.y as i64
        + window.height as i64;
    if !inside {
        return Err(AutomationError::NeedsHumanReview(String::from_str("拒绝捕获目标窗口以外的屏幕区域")));
    }
    Ok(())
}

/// The guard before any input, on the application in front: it must be the
/// target's (same owner process).
pub fn front_guard(target: WindowRef, front: Option<WindowRef>) -> (r: Result<(), AutomationError>)
    ensures
        (front matches Some(f) && f.owner_pid == target.owner_pid) ==> r is Ok,
        !(front matches Some(f) && f.owner_pid == target.owner_pid) ==> r matches Err(AutomationError::ClientNotReady),
{
    match front {
        Some(f) => if f.owner_pid == target.owner_pid {
            Ok(())
        } else {
            Err(AutomationError::ClientNotReady)
        },
        None => Err(AutomationError::ClientNotReady),
    }
}

/// The guard before any input, on the target window: exactly where and as
/// large as it was when the step began.
pub fn rect_guard(current: Rect, expected: Rect) -> (r: Result<(), AutomationError>)
    ensures
        current == expected ==> r is Ok,
        current != expected ==> r matches Err(AutomationError::ScreenChanged),
{
    if current != expected {
        return Err(AutomationError::ScreenChanged);
    }
    Ok(())
}

pub open spec fn abs_gap(a: int, b: int) -> int {
    if a >= b { a - b } else { b - a }
}

pub open spec fn cursor_missed_text(at: Point, x: i32, y: i32) -> Seq<char> {
    "鼠标没有移动到目标位置：要求 ("@ + signed_decimal(at.x as int) + ", "@ + signed_decimal(at.y as int) + ")，实际停在 ("@
        + signed_decimal(x as int) + ", "@ + signed_decimal(y as int)
        + ")。滚轮/点击事件送给光标实际所在的窗口，继续等于操作别的窗口，所以拒绝执行。常见原因：未授予「辅助功能」权限，系统静默忽略了光标移动。"@
}

/// The cursor, read back at (`x`, `y`), landed within
/// [`CURSOR_LANDING_TOLERANCE_PX`] of `at`.
pub fn cursor_landed(at: Point, x: i32, y: i32) -> (r: Result<(), AutomationError>)
    ensures
        abs_gap(x as int, at.x as int) <= CURSOR_LANDING_TOLERANCE_PX && abs_gap(y as int, at.y as int)
            <= CURSOR_LANDING_TOLERANCE_PX ==> r is Ok,
        !(abs_gap(x as int, at.x as int) <= CURSOR_LANDING_TOLERANCE_PX && abs_gap(y as int, at.y as int)
            <= CURSOR_LANDING_TOLERANCE_PX) ==> (match r {
            Err(e) => e@ == ErrorView::NeedsHumanReview(cursor_missed_text(at, x, y)),
            Ok(_) => false,
        }),
{
    let dx = x as i64 - at.x as i64;
    let dy = y as i64 - at.y as i64;
    if dx > 2 || dx < -2 || dy > 2 || dy < -2 {
        let mut m = String::from_str("鼠标没有移动到目标位置：要求 (");
        push_signed(&mut m, at.x);
        push_str(&mut m, ", ");
        push_signed(&mut m, at.y);
        push_str(&mut m, ")，实际停在 (");
        push_signed(&mut m, x);
        push_str(&mut m, ", ");
        push_signed(&mut m, y);
        push_str(
            &mut m,
            ")。滚轮/点击事件送给光标实际所在的窗口，继续等于操作别的窗口，所以拒绝执行。常见原因：未授予「辅助功能」权限，系统静默忽略了光标移动。",
        );
        return Err(AutomationError::NeedsHumanReview(m));
    }
    Ok(())
}

pub open spec fn covered_text(x: i32, y: i32) -> Seq<char> {
    "鼠标位置 ("@ + signed_decimal(x as int) + ", "@ + signed_decimal(y as int) + ") 上压着的不是目标窗口，拒绝操作：常见原因：目标窗口被弹窗或其它窗口遮挡。"@
}

pub open spec fn no_window_under_text(x: i32, y: i32) -> Seq<char> {
    "鼠标位置 ("@ + signed_decimal(x as int) + ", "@ + signed_decimal(y as int) + ") 上没有窗口，拒绝操作。"@
}

/// The window under the cursor at (`x`, `y`) must belong to the target's process.
pub fn window_under_cursor(found: Option<WindowRef>, target: WindowRef, x: i32, y: i32) -> (r: Result<
    (),
    AutomationError,
>)
    ensures
        match found {
            Some(w) => if w.owner_pid == target.owner_pid {
                r is Ok
            } else {
                match r {
                    Err(e) => e@ == ErrorView::NeedsHumanReview(covered_text(x, y)),
                    Ok(_) => false,
                }
            },
            None => match r {
                Err(e) => e@ == ErrorView::NeedsHumanReview(no_window_under_text(x, y)),
                Ok(_) => false,
            },
        },
{
    let mut m = String::from_str("鼠标位置 (");
    push_signed(&mut m, x);
    push_str(&mut m, ", ");
    push_signed(&mut m, y);
    match found {
        Some(w) => {
            if w.owner_pid == target.owner_pid {
                return Ok(());
            }
            push_str(&mut m, ") 上压着的不是目标窗口，拒绝操作：常见原因：目标窗口被弹窗或其它窗口遮挡。");
            Err(AutomationError::NeedsHumanReview(m))
        },
        None => {
            push_str(&mut m, ") 上没有窗口，拒绝操作。");
            Err(AutomationError::NeedsHumanReview(m))
        },
    }
}

pub open spec fn bad_resize_text(width: i32, height: i32) -> Seq<char> {
    "标定记录的窗口尺寸不合法（"@ + signed_decimal(width as int) + "×"@ + signed_decimal(height as int)
        + "），不能拿它去调整窗口。请重新点「记录窗口尺寸」并保存配置。"@
}

/// A resize is only requested to a size with area.
pub fn resize_request(width: i32, height: i32) -> (r: Result<(), AutomationError>)
    ensures
        width > 0 && height > 0 ==> r is Ok,
        !(width > 0 && height > 0) ==> (match r {
            Err(e) => e@ == ErrorView::NeedsHumanReview(bad_resize_text(width, height)),
            Ok(_) => false,
        }),
{
    if width <= 0 || height <= 0 {
        let mut m = String::from_str("标定记录的窗口尺寸不合法（");
        push_signed(&mut m, width);
        push_str(&mut m, "×");
        push_signed(&mut m, height);
        push_str(&mut m, "），不能拿它去调整窗口。请重新点「记录窗口尺寸」并保存配置。");
        return Err(AutomationError::NeedsHumanReview(m));
    }
    Ok(())
}

pub open spec fn degenerate_rect_text(r: Rect) -> Seq<char> {
    "目标窗口的矩形退化了（"@ + signed_decimal(r.width as int) + "x"@ + signed_decimal(r.height as int) + "）——请重新指认窗口。"@
}

/// The window found and brought forward must have an area.
pub fn focused_rect(rect: Rect) -> (r: Result<Rect, AutomationError>)
    ensures
        !spec_is_degenerate(rect) ==> r == Ok::<Rect, AutomationError>(rect),
        spec_is_degenerate(rect) ==> (match r {
            Err(e) => e@ == ErrorView::NeedsHumanReview(degenerate_rect_text(rect)),
            Ok(_) => false,
        }),
{
    if rect.is_degenerate() {
        let mut m = String::from_str("目标窗口的矩形退化了（");
        push_signed(&mut m, rect.width);
        push_str(&mut m, "x");
        push_signed(&mut m, rect.height);
        push_str(&mut m, "）——请重新指认窗口。");
        return Err(AutomationError::NeedsHumanReview(m));
    }
    Ok(rect)
}

/// The code of `c` with ASCII upper-case letters folded to lower case.
pub open spec fn ascii_fold(c: char) -> u32 {
    if 'A' <= c && c <= 'Z' {
        ((c as u32) + 32) as u32
    } else {
        c as u32
    }
}

pub open spec fn eq_ignore_ascii_case(a: Seq<char>, b: Seq<char>) -> bool {
    a.len() == b.len() && forall|i: int| 0 <= i < a.len() ==> #[trigger] ascii_fold(a[i]) == ascii_fold(b[i])
}

fn fold(c: char) -> (r: u32)
    ensures
        r == ascii_fold(c),
{
    if 'A' <= c && c <= 'Z' {
        c as u32 + 32
    } else {
        c as u32
    }
}

/// Whether the executable's hash matches the configured one: the same hex
/// digits, ignoring ASCII case and the whitespace around the configured value.
pub fn hash_matches(actual: &str, expected: &str) -> (r: bool)
    ensures
        r == eq_ignore_ascii_case(actual@, trim(expected@)),
{
    let a = crate::text::chars_of(actual);
    let e = crate::text::chars_of(crate::text::trimmed(expected).as_str());
    if a.len() != e.len() {
        return false;
    }
    let mut i: usize = 0;
    while i < a.len()
        invariant
            a@ == actual@,
            e@ == trim(expected@),
            a@.len() == e@.len(),
            i <= a@.len(),
            forall|k: int| 0 <= k < i ==> #[trigger] ascii_fold(a@[k]) == ascii_fold(e@[k]),
        decreases a@.len() - i,
    {
        if fold(a[i]) != fold(e[i]) {
            return false;
        }
        i = i + 1;
    }
    true
}

// ---------------------------------------------------------------------------
// Finding the window and bringing it forward
// ---------------------------------------------------------------------------

pub open spec fn target_text(m: WindowMatcher) -> Seq<char> {
    match m {
        WindowMatcher::ClassName(owner) => "所有者名「"@ + owner@ + "」"@,
        WindowMatcher::TitlePrefix(prefix) => "标题以「"@ + prefix@ + "」开头"@,
    }
}

/// How the target window is described in refusals.
pub fn target_description(m: &WindowMatcher) -> (r: String)
    ensures
        r@ == target_text(*m),
{
    match m {
        WindowMatcher::ClassName(owner) => {
            let mut r = String::from_str("所有者名「");
            push_str(&mut r, owner.as_str());
            push_str(&mut r, "」");
            r
        },
        WindowMatcher::TitlePrefix(prefix) => {
            let mut r = String::from_str("标题以「");
            push_str(&mut r, prefix.as_str());
            push_str(&mut r, "」开头");
            r
        },
    }
}

pub open spec fn not_found_text(target: Seq<char>, owned_by: Seq<char>) -> Seq<char> {
    "找不到目标窗口：没有找到可见的顶层窗口（"@ + target + owned_by
        + "）。请确认客户端已经启动并登录，主窗口没有最小化。若尚未授权，请到「系统设置 → 隐私与安全性」开启屏幕录制与辅助功能。"@
}

/// The hand-over when no visible window matches; `owned_by` names the
/// configured program, if any (`、且属于程序「…」`).
pub fn window_not_found(target: &str, owned_by: &str) -> (e: AutomationError)
    ensures
        e@ == ErrorView::NeedsHumanReview(not_found_text(target@, owned_by@)),
{
    let mut m = String::from_str("找不到目标窗口：没有找到可见的顶层窗口（");
    push_str(&mut m, target);
    push_str(&mut m, owned_by);
    push_str(
        &mut m,
        "）。请确认客户端已经启动并登录，主窗口没有最小化。若尚未授权，请到「系统设置 → 隐私与安全性」开启屏幕录制与辅助功能。",
    );
    AutomationError::NeedsHumanReview(m)
}

pub open spec fn refused_front_text(target: Seq<char>, detail: Seq<char>) -> Seq<char> {
    "已找到目标窗口（"@ + target + "），但把它带到前台时被系统拒绝："@ + detail + "。请先手动点一下目标窗口，或检查「辅助功能」权限。"@
}

/// The hand-over when the system refused to bring the window forward.
pub fn foreground_refused(target: &str, detail: &str) -> (e: AutomationError)
    ensures
        e@ == ErrorView::NeedsHumanReview(refused_front_text(target@, detail@)),
{
    let mut m = String::from_str("已找到目标窗口（");
    push_str(&mut m, target);
    push_str(&mut m, "），但把它带到前台时被系统拒绝：");
    push_str(&mut m, detail);
    push_str(&mut m, "。请先手动点一下目标窗口，或检查「辅助功能」权限。");
    AutomationError::NeedsHumanReview(m)
}

pub open spec fn still_behind_text() -> Seq<char> {
    "已找到目标窗口并发出了置前请求，但它仍然不是前台应用。请手动点一下目标窗口再重试。"@
}

/// The hand-over when the window is still not in front after the request.
pub fn still_in_background() -> (e: AutomationError)
    ensures
        e@ == ErrorView::NeedsHumanReview(still_behind_text()),
{
    AutomationError::NeedsHumanReview(String::from_str(
        "已找到目标窗口并发出了置前请求，但它仍然不是前台应用。请手动点一下目标窗口再重试。",
    ))
}

pub open spec fn wrong_process_text(owner: Seq<char>, actual: Seq<char>, configured: Seq<char>) -> Seq<char> {
    "找到所有者名为「"@ + owner + "」的可见窗口，但它属于「"@ + actual + "」，而配置的目标程序是「"@ + configured
        + "」——拒绝操作。请确认没有指认错窗口，或更新配置后重试。"@
}

/// The refusal when the window with the configured owner name belongs to
/// another program than the configured one.
pub fn wrong_process(owner: &str, actual: &str, configured: &str) -> (e: AutomationError)
    ensures
        e@ == ErrorView::NeedsHumanReview(wrong_process_text(owner@, actual@, configured@)),
{
    let mut m = String::from_str("找到所有者名为「");
    push_str(&mut m, owner);
    push_str(&mut m, "」的可见窗口，但它属于「");
    push_str(&mut m, actual);
    push_str(&mut m, "」，而配置的目标程序是「");
    push_str(&mut m, configured);
    push_str(&mut m, "」——拒绝操作。请确认没有指认错窗口，或更新配置后重试。");
    AutomationError::NeedsHumanReview(m)
}

pub open spec fn accessibility_text() -> Seq<char> {
    "未授予「辅助功能」权限，系统会静默忽略鼠标移动与点击。请到「系统设置 → 隐私与安全性 → 辅助功能」中启用本应用；若还需要截屏/找窗口，请同时开启「屏幕录制」。"@
}

/// Input is only sent once the accessibility permission is granted.
pub fn accessibility_guard(trusted: bool) -> (r: Result<(), AutomationError>)
    ensures
        trusted ==> r is Ok,
        !trusted ==> (match r {
            Err(e) => e@ == ErrorView::NeedsHumanReview(accessibility_text()),
            Ok(_) => false,
        }),
{
    if trusted {
        return Ok(());
    }
    Err(AutomationError::NeedsHumanReview(String::from_str(
        "未授予「辅助功能」权限，系统会静默忽略鼠标移动与点击。请到「系统设置 → 隐私与安全性 → 辅助功能」中启用本应用；若还需要截屏/找窗口，请同时开启「屏幕录制」。",
    )))
}

pub open spec fn hash_mismatch_text(path: Seq<char>) -> Seq<char> {
    "可执行文件哈希与配置不一致，拒绝启动："@ + path
}

/// The launch check on the executable's hash, when one is configured:
/// `actual` is the hash of the file at `path`.
pub fn launch_hash_check(actual: &str, expected: &str, path: &str) -> (r: Result<(), AutomationError>)
    ensures
        eq_ignore_ascii_case(actual@, trim(expected@)) ==> r is Ok,
        !eq_ignore_ascii_case(actual@, trim(expected@)) ==> (match r {
            Err(e) => e@ == ErrorView::NeedsHumanReview(hash_mismatch_text(path@)),
            Ok(_) => false,
        }),
{
    if hash_matches(actual, expected) {
        return Ok(());
    }
    let mut m = String::from_str("可执行文件哈希与配置不一致，拒绝启动：");
    push_str(&mut m, path);
    Err(AutomationError::NeedsHumanReview(m))
}

} // verus!
