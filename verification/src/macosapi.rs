//! The macOS desktop layer, as far as it is platform-independent: frame
//! fingerprints, the window-selection rules applied to a window list, and the
//! operations of a target that has no real desktop implementation, which all
//! report a clear error.
//!
//! This library carries no real macOS implementation, so [`IS_SUPPORTED`] is
//! `false` and every desktop operation below answers as it does off macOS.

use vstd::prelude::*;
use std::path::{Path, PathBuf};
use std::time::Duration;
use crate::audit::{hex_lower, hex_of, lemma_hex_len, sha256_digest, sha256_of};
use crate::ports::Rect;
use crate::text::{chars_of, decimal, push_decimal, push_str, runs_equal};

verus! {

#[verifier::external_type_specification]
#[verifier::external_body]
pub struct ExPath(Path);

#[verifier::external_type_specification]
#[verifier::external_body]
pub struct ExPathBuf(PathBuf);

/// Whether this library drives a real macOS desktop. It does not.
pub const IS_SUPPORTED: bool = false;

pub type MacResult<T> = Result<T, String>;

/// One captured frame (BGRA, top-down).
pub struct CapturedFrame {
    pub pixels: Vec<u8>,
    pub width: u32,
    pub height: u32,
    pub fingerprint: String,
}

/// A snapshot of one visible top-level window.
#[derive(Debug)]
pub struct WindowInfo {
    pub id: u32,
    pub owner_pid: i32,
    pub owner_name: String,
    pub title: String,
    pub rect: Rect,
    pub is_on_screen: bool,
    pub layer: i64,
}

/// Identity of a window: its window id and the process id of its owner.
#[derive(Debug, Clone, Copy, PartialEq, Eq, Structural)]
pub struct WindowRef {
    pub id: u32,
    pub owner_pid: i32,
}

/// How the target window is located.
///
/// `ClassName` matches the window's **owner name** (the application's display
/// name) exactly; `TitlePrefix` matches the start of the window title.
#[derive(Debug)]
pub enum WindowMatcher {
    ClassName(String),
    TitlePrefix(String),
}

pub open spec fn default_owner_name() -> Seq<char> {
    "企业微信"@
}

impl Default for WindowMatcher {
    fn default() -> (m: WindowMatcher)
        ensures
            m matches WindowMatcher::ClassName(n) && n@ == default_owner_name(),
    {
        WindowMatcher::ClassName(String::from_str("企业微信"))
    }
}

/// The four little-endian bytes of `v`.
pub open spec fn le_bytes(v: u32) -> Seq<u8> {
    seq![(v % 256) as u8, ((v / 256) % 256) as u8, ((v / 65536) % 256) as u8, (v / 16777216) as u8]
}

/// The bytes a frame fingerprint hashes: width and height (little-endian), then the pixels.
pub open spec fn fingerprint_input(pixels: Seq<u8>, width: u32, height: u32) -> Seq<u8> {
    le_bytes(width) + le_bytes(height) + pixels
}

fn push_le(out: &mut Vec<u8>, v: u32)
    ensures
        final(out)@ == old(out)@ + le_bytes(v),
{
    out.push((v % 256) as u8);
    out.push(((v / 256) % 256) as u8);
    out.push(((v / 65536) % 256) as u8);
    out.push((v / 16777216) as u8);
    assert(final(out)@ =~= old(out)@ + le_bytes(v));
}

/// Fingerprint of a frame: lower-case hex SHA-256 of width, height and pixels.
pub fn fingerprint_of(pixels: &[u8], width: u32, height: u32) -> (s: String)
    ensures
        s@ == hex_of(sha256_digest(fingerprint_input(pixels@, width, height))),
        s@.len() == 64,
{
    let mut data: Vec<u8> = Vec::new();
    push_le(&mut data, width);
    push_le(&mut data, height);
    let mut i: usize = 0;
    while i < pixels.len()
        invariant
            i <= pixels@.len(),
            data@ == le_bytes(width) + le_bytes(height) + pixels@.take(i as int),
        decreases pixels@.len() - i,
    {
        data.push(pixels[i]);
        i = i + 1;
        assert(data@ =~= le_bytes(width) + le_bytes(height) + pixels@.take(i as int));
    }
    assert(pixels@.take(pixels@.len() as int) =~= pixels@);
    let hash = sha256_of(data.as_slice());
    proof {
        lemma_hex_len(hash@);
    }
    hex_lower(hash.as_slice())
}

/// Lower-case hex SHA-256 of `data` (the hash of a file's contents, for the
/// launch check on the executable).
pub fn sha256_hex(data: &[u8]) -> (s: String)
    ensures
        s@ == hex_of(sha256_digest(data@)),
        s@.len() == 64,
{
    let hash = sha256_of(data);
    proof {
        lemma_hex_len(hash@);
    }
    hex_lower(hash.as_slice())
}

/// The message of every desktop operation on a target without a real implementation.
pub open spec fn unsupported_message() -> Seq<char> {
    "platform-macos 只能在 macOS 上执行真实桌面操作"@
}

fn unsupported() -> (s: String)
    ensures
        s@ == unsupported_message(),
{
    String::from_str("platform-macos 只能在 macOS 上执行真实桌面操作")
}

/// Visible top-level windows: none without a real desktop.
pub fn list_visible_windows() -> (r: Vec<WindowInfo>)
    ensures
        r@.len() == 0,
{
    Vec::new()
}

pub fn find_window_by_owner_name(owner: &str) -> (r: MacResult<WindowRef>)
    ensures
        r matches Err(e) && e@ == unsupported_message(),
{
    Err(unsupported())
}

pub fn find_window_by_owner_in_process(owner: &str, exe: &Path) -> (r: MacResult<WindowRef>)
    ensures
        r matches Err(e) && e@ == unsupported_message(),
{
    Err(unsupported())
}

pub fn find_window_by_title_prefix(prefix: &str) -> (r: MacResult<WindowRef>)
    ensures
        r matches Err(e) && e@ == unsupported_message(),
{
    Err(unsupported())
}

pub fn window_rect(w: WindowRef) -> (r: MacResult<Rect>)
    ensures
        r matches Err(e) && e@ == unsupported_message(),
{
    Err(unsupported())
}

pub fn window_owner_name(w: WindowRef) -> (r: String)
    ensures
        r@.len() == 0,
{
    String::new()
}

pub fn window_title(w: WindowRef) -> (r: String)
    ensures
        r@.len() == 0,
{
    String::new()
}

pub fn window_process_path(w: WindowRef) -> (r: MacResult<PathBuf>)
    ensures
        r matches Err(e) && e@ == unsupported_message(),
{
    Err(unsupported())
}

pub fn process_matches(w: WindowRef, exe: &Path) -> (r: bool)
    ensures
        !r,
{
    false
}

pub fn foreground_window() -> (r: Option<WindowRef>)
    ensures
        r is None,
{
    None
}

/// Two references name the same window when their identities are equal.
pub fn same_window(a: WindowRef, b: WindowRef) -> (r: bool)
    ensures
        r == (a == b),
{
    a == b
}

pub fn bring_to_foreground(w: WindowRef) -> (r: MacResult<()>)
    ensures
        r matches Err(e) && e@ == unsupported_message(),
{
    Err(unsupported())
}

pub fn wait_until_foreground(w: WindowRef, timeout: Duration) -> (r: bool)
    ensures
        !r,
{
    false
}

pub fn resize_window(w: WindowRef, width: i32, height: i32) -> (r: MacResult<Rect>)
    ensures
        r matches Err(e) && e@ == unsupported_message(),
{
    Err(unsupported())
}

/// Without a desktop nothing can be found frozen: the window counts as responding.
pub fn is_responsive(w: WindowRef) -> (r: bool)
    ensures
        r,
{
    true
}

pub fn primary_screen_size() -> (r: (u32, u32))
    ensures
        r == (0u32, 0u32),
{
    (0, 0)
}

pub fn capture_region(region: Rect) -> (r: MacResult<CapturedFrame>)
    ensures
        r matches Err(e) && e@ == unsupported_message(),
{
    Err(unsupported())
}

pub fn cursor_position() -> (r: MacResult<(i32, i32)>)
    ensures
        r matches Err(e) && e@ == unsupported_message(),
{
    Err(unsupported())
}

pub fn window_from_point(x: i32, y: i32) -> (r: Option<WindowRef>)
    ensures
        r is None,
{
    None
}

pub fn left_click() -> (r: MacResult<()>)
    ensures
        r matches Err(e) && e@ == unsupported_message(),
{
    Err(unsupported())
}

pub fn scroll_wheel(notches: i32) -> (r: MacResult<()>)
    ensures
        r matches Err(e) && e@ == unsupported_message(),
{
    Err(unsupported())
}

pub fn set_clipboard_text(text: &str) -> (r: MacResult<()>)
    ensures
        r matches Err(e) && e@ == unsupported_message(),
{
    Err(unsupported())
}

pub fn clear_clipboard() -> (r: MacResult<()>)
    ensures
        r matches Err(e) && e@ == unsupported_message(),
{
    Err(unsupported())
}

pub fn wait_for_clipboard_release(poll: Duration, timeout: Duration) -> (r: bool)
    ensures
        !r,
{
    false
}

pub fn send_cmd_v() -> (r: MacResult<()>)
    ensures
        r matches Err(e) && e@ == unsupported_message(),
{
    Err(unsupported())
}

pub fn send_cmd_a() -> (r: MacResult<()>)
    ensures
        r matches Err(e) && e@ == unsupported_message(),
{
    Err(unsupported())
}

pub fn send_delete() -> (r: MacResult<()>)
    ensures
        r matches Err(e) && e@ == unsupported_message(),
{
    Err(unsupported())
}

pub fn send_enter() -> (r: MacResult<()>)
    ensures
        r matches Err(e) && e@ == unsupported_message(),
{
    Err(unsupported())
}

pub fn send_unicode_text(text: &str, interval: Duration) -> (r: MacResult<()>)
    ensures
        r matches Err(e) && e@ == unsupported_message(),
{
    Err(unsupported())
}

pub fn launch_process(exe: &Path) -> (r: MacResult<()>)
    ensures
        r matches Err(e) && e@ == unsupported_message(),
{
    Err(unsupported())
}

pub fn accessibility_trusted() -> (r: bool)
    ensures
        !r,
{
    false
}

// ---------------------------------------------------------------------------
// Window selection over a window list (the rules the real desktop applies to
// the list of visible windows, in list order).
// ---------------------------------------------------------------------------

pub open spec fn window_ref_of(w: WindowInfo) -> WindowRef {
    WindowRef { id: w.id, owner_pid: w.owner_pid }
}

pub open spec fn has_prefix(s: Seq<char>, prefix: Seq<char>) -> bool {
    prefix.len() <= s.len() && s.subrange(0, prefix.len() as int) == prefix
}

/// The window contains the point `(x, y)` (left and top edges included).
pub open spec fn contains_point(r: Rect, x: i32, y: i32) -> bool {
    r.x <= x && r.y <= y && x < r.x + r.width && y < r.y + r.height
}

pub open spec fn area(r: Rect) -> int {
    r.width * r.height
}

/// A window that can answer "which window is under the point".
pub open spec fn point_candidate(w: WindowInfo, x: i32, y: i32) -> bool {
    w.is_on_screen && contains_point(w.rect, x, y) && area(w.rect) > 0
}

/// The first visible window whose owner name is exactly `owner`.
pub fn find_window_by_owner_name_in(windows: &[WindowInfo], owner: &str) -> (r: MacResult<WindowRef>)
    ensures
        match r {
            Ok(found) => exists|i: int|
                0 <= i < windows@.len() && windows@[i].owner_name@ == owner@ && found == window_ref_of(
                    windows@[i],
                ) && forall|k: int| 0 <= k < i ==> #[trigger] windows@[k].owner_name@ != owner@,
            Err(e) => e@ == "未找到所有者名为「"@ + owner@ + "」的可见窗口"@ && forall|k: int|
                0 <= k < windows@.len() ==> #[trigger] windows@[k].owner_name@ != owner@,
        },
{
    let want = chars_of(owner);
    let mut i: usize = 0;
    while i < windows.len()
        invariant
            want@ == owner@,
            i <= windows@.len(),
            forall|k: int| 0 <= k < i ==> #[trigger] windows@[k].owner_name@ != owner@,
        decreases windows@.len() - i,
    {
        let name = chars_of(windows[i].owner_name.as_str());
        if runs_equal(name.as_slice(), 0, name.len(), want.as_slice(), 0, want.len()) {
            assert(name@.subrange(0, name@.len() as int) =~= name@);
            assert(want@.subrange(0, want@.len() as int) =~= want@);
            return Ok(WindowRef { id: windows[i].id, owner_pid: windows[i].owner_pid });
        }
        assert(name@.subrange(0, name@.len() as int) =~= name@);
        assert(want@.subrange(0, want@.len() as int) =~= want@);
        i = i + 1;
    }
    let mut msg = String::from_str("未找到所有者名为「");
    push_str(&mut msg, owner);
    push_str(&mut msg, "」的可见窗口");
    Err(msg)
}

/// The first visible window whose title starts with `prefix`.
pub fn find_window_by_title_prefix_in(windows: &[WindowInfo], prefix: &str) -> (r: MacResult<WindowRef>)
    ensures
        match r {
            Ok(found) => exists|i: int|
                0 <= i < windows@.len() && has_prefix(windows@[i].title@, prefix@) && found
                    == window_ref_of(windows@[i]) && forall|k: int|
                    0 <= k < i ==> !has_prefix(#[trigger] windows@[k].title@, prefix@),
            Err(e) => e@ == "未找到标题以「"@ + prefix@ + "」开头的可见窗口"@ && forall|k: int|
                0 <= k < windows@.len() ==> !has_prefix(#[trigger] windows@[k].title@, prefix@),
        },
{
    let want = chars_of(prefix);
    let mut i: usize = 0;
    while i < windows.len()
        invariant
            want@ == prefix@,
            i <= windows@.len(),
            forall|k: int| 0 <= k < i ==> !has_prefix(#[trigger] windows@[k].title@, prefix@),
        decreases windows@.len() - i,
    {
        let title = chars_of(windows[i].title.as_str());
        assert(want@.subrange(0, want@.len() as int) =~= want@);
        if want.len() <= title.len() && runs_equal(title.as_slice(), 0, want.len(), want.as_slice(), 0, want.len()) {
            return Ok(WindowRef { id: windows[i].id, owner_pid: windows[i].owner_pid });
        }
        i = i + 1;
    }
    let mut msg = String::from_str("未找到标题以「");
    push_str(&mut msg, prefix);
    push_str(&mut msg, "」开头的可见窗口");
    Err(msg)
}

/// The rectangle of the window with `w`'s id, if it is still in the list.
pub fn window_rect_in(windows: &[WindowInfo], w: WindowRef) -> (r: MacResult<Rect>)
    ensures
        match r {
            Ok(rect) => exists|i: int|
                0 <= i < windows@.len() && windows@[i].id == w.id && rect == windows@[i].rect
                    && forall|k: int| 0 <= k < i ==> #[trigger] windows@[k].id != w.id,
            Err(e) => e@ == "窗口 "@ + decimal(w.id as nat) + " 已不存在"@ && forall|k: int|
                0 <= k < windows@.len() ==> #[trigger] windows@[k].id != w.id,
        },
{
    let mut i: usize = 0;
    while i < windows.len()
        invariant
            i <= windows@.len(),
            forall|k: int| 0 <= k < i ==> #[trigger] windows@[k].id != w.id,
        decreases windows@.len() - i,
    {
        if windows[i].id == w.id {
            return Ok(windows[i].rect);
        }
        i = i + 1;
    }
    let mut msg = String::from_str("窗口 ");
    push_decimal(&mut msg, w.id as usize);
    push_str(&mut msg, " 已不存在");
    Err(msg)
}

/// The most specific window under `(x, y)`: of the on-screen windows with a
/// positive area that contain the point, the one with the smallest area (the
/// first of equals).
pub fn window_from_point_in(windows: &[WindowInfo], x: i32, y: i32) -> (r: Option<WindowRef>)
    ensures
        match r {
            Some(found) => exists|i: int|
                0 <= i < windows@.len() && point_candidate(windows@[i], x, y) && found
                    == window_ref_of(windows@[i]) && (forall|k: int|
                    0 <= k < windows@.len() && #[trigger] point_candidate(windows@[k], x, y) ==> area(
                        windows@[i].rect,
                    ) <= area(windows@[k].rect)) && (forall|k: int|
                    0 <= k < i && #[trigger] point_candidate(windows@[k], x, y) ==> area(
                        windows@[i].rect,
                    ) < area(windows@[k].rect)),
            None => forall|k: int| 0 <= k < windows@.len() ==> !#[trigger] point_candidate(windows@[k], x, y),
        },
{
    let mut best: Option<usize> = None;
    let mut best_area: i64 = 0;
    let mut i: usize = 0;
    while i < windows.len()
        invariant
            i <= windows@.len(),
            match best {
                Some(b) => b < i && point_candidate(windows@[b as int], x, y) && best_area == area(
                    windows@[b as int].rect,
                ) && (forall|k: int|
                    0 <= k < i && #[trigger] point_candidate(windows@[k], x, y) ==> best_area <= area(
                        windows@[k].rect,
                    )) && (forall|k: int|
                    0 <= k < b && #[trigger] point_candidate(windows@[k], x, y) ==> best_area < area(
                        windows@[k].rect,
                    )),
                None => forall|k: int| 0 <= k < i ==> !#[trigger] point_candidate(windows@[k], x, y),
            },
        decreases windows@.len() - i,
    {
        let w = &windows[i];
        let r = w.rect;
        let inside = (r.x as i64) <= (x as i64) && (r.y as i64) <= (y as i64) && (x as i64) < (r.x as i64)
            + (r.width as i64) && (y as i64) < (r.y as i64) + (r.height as i64);
        if w.is_on_screen && inside {
            let wd = r.width as i64;
            let ht = r.height as i64;
            assert(-0x8000_0000 <= wd <= 0x7fff_ffff && -0x8000_0000 <= ht <= 0x7fff_ffff);
            assert(-0x4000_0000_0000_0000 <= wd * ht <= 0x4000_0000_0000_0000) by (nonlinear_arith)
                requires
                    -0x8000_0000 <= wd <= 0x7fff_ffff,
                    -0x8000_0000 <= ht <= 0x7fff_ffff,
            ;
            let a = wd * ht;
            if a > 0 {
                match best {
                    Some(_) => {
                        if a < best_area {
                            best = Some(i);
                            best_area = a;
                        }
                    },
                    None => {
                        best = Some(i);
                        best_area = a;
                    },
                }
            }
        }
        i = i + 1;
    }
    match best {
        Some(b) => Some(WindowRef { id: windows[b].id, owner_pid: windows[b].owner_pid }),
        None => None,
    }
}

} // verus!
