//! Geometry and error vocabulary shared by the core and the platform ports.
//!
//! ## Coordinates
//!
//! - [`Rect`] / [`Point`] are absolute pixel positions in **screen** coordinates;
//! - [`TextBox::bounds`] lives in the **image** coordinates of the screenshot it
//!   was read from (origin at the screenshot's top-left corner); the core turns it
//!   into screen coordinates with `region origin + image coordinates`.
//!
//! ## Confidence
//!
//! A recognition confidence is carried as a `u32` **order key**: for any two
//! confidences `a` and `b`, `key(a) >= key(b)` exactly when `a >= b`. The
//! matching rules only ever compare confidences, so the key is all they read.

use vstd::prelude::*;
use std::time::SystemTime;

verus! {

/// Identifier of a send task (the 128-bit value of its UUID).
pub type TaskId = u128;

#[derive(Debug, Clone, Copy, PartialEq, Eq, Hash, Structural)]
pub struct Point {
    pub x: i32,
    pub y: i32,
}

#[derive(Debug, Clone, Copy, PartialEq, Eq, Hash, Structural)]
pub struct Rect {
    pub x: i32,
    pub y: i32,
    pub width: i32,
    pub height: i32,
}

/// Rust's integer division, which rounds toward zero.
pub open spec fn div_toward_zero(a: int, b: int) -> int
    recommends
        b > 0,
{
    if a >= 0 {
        a / b
    } else {
        -((-a) / b)
    }
}

/// Centre of a rectangle, in exact arithmetic.
pub open spec fn center_x(r: Rect) -> int {
    r.x + div_toward_zero(r.width as int, 2)
}

pub open spec fn center_y(r: Rect) -> int {
    r.y + div_toward_zero(r.height as int, 2)
}

/// The centre of `r` is representable as an `i32` point.
pub open spec fn center_fits(r: Rect) -> bool {
    i32::MIN <= center_x(r) <= i32::MAX && i32::MIN <= center_y(r) <= i32::MAX
}

/// A rectangle with no area.
pub open spec fn spec_is_degenerate(r: Rect) -> bool {
    r.width <= 0 || r.height <= 0
}

/// Half of `v`, rounded toward zero.
fn half_toward_zero(v: i32) -> (r: i32)
    ensures
        r == div_toward_zero(v as int, 2),
{
    if v >= 0 {
        v / 2
    } else if v == i32::MIN {
        -1073741824i32
    } else {
        -((-v) / 2)
    }
}

impl Rect {
    /// Centre point, used to turn a recognised text box into a click target.
    pub fn center(&self) -> (p: Point)
        requires
            center_fits(*self),
        ensures
            p.x == center_x(*self),
            p.y == center_y(*self),
    {
        Point { x: self.x + half_toward_zero(self.width), y: self.y + half_toward_zero(self.height) }
    }

    /// Converts a rectangle in screenshot image coordinates into screen coordinates.
    pub fn to_screen(&self, region_origin: Point) -> (r: Rect)
        requires
            i32::MIN <= region_origin.x + self.x <= i32::MAX,
            i32::MIN <= region_origin.y + self.y <= i32::MAX,
        ensures
            r == (Rect {
                x: (region_origin.x + self.x) as i32,
                y: (region_origin.y + self.y) as i32,
                width: self.width,
                height: self.height,
            }),
    {
        Rect {
            x: region_origin.x + self.x,
            y: region_origin.y + self.y,
            width: self.width,
            height: self.height,
        }
    }

    pub fn is_degenerate(&self) -> (r: bool)
        ensures
            r == spec_is_degenerate(*self),
    {
        self.width <= 0 || self.height <= 0
    }
}

/// One captured frame (BGRA, top-down).
#[derive(Debug)]
pub struct Screenshot {
    pub pixels: Vec<u8>,
    pub width: u32,
    pub height: u32,
    pub captured_at: SystemTime,
    /// Ties evidence to this capture; never part of an equality test.
    pub fingerprint: String,
}

/// One block of recognised text.
#[derive(Debug)]
pub struct TextBox {
    pub text: String,
    /// Image coordinates of the screenshot the text was read from.
    pub bounds: Rect,
    /// Recognition confidence, as an order key (see the module documentation).
    pub confidence: u32,
}

/// Failure vocabulary of every step of a run.
#[derive(Debug)]
pub enum AutomationError {
    ClientNotReady,
    ScreenChanged,
    AmbiguousVision(String),
    NeedsHumanReview(String),
    Platform(String),
    Cancelled,
    Timeout(String),
}

/// Stable failure code of each error kind, written to the audit trail.
pub open spec fn error_code(e: AutomationError) -> Seq<char> {
    match e {
        AutomationError::ClientNotReady => "CLIENT_NOT_READY"@,
        AutomationError::ScreenChanged => "SCREEN_CHANGED"@,
        AutomationError::AmbiguousVision(_) => "AMBIGUOUS_VISION"@,
        AutomationError::NeedsHumanReview(_) => "NEEDS_HUMAN_REVIEW"@,
        AutomationError::Platform(_) => "PLATFORM_ERROR"@,
        AutomationError::Cancelled => "CANCELLED"@,
        AutomationError::Timeout(_) => "TIMEOUT"@,
    }
}

/// Errors that hand the task to a human instead of failing it.
pub open spec fn spec_requires_human_review(e: AutomationError) -> bool {
    match e {
        AutomationError::Platform(_) | AutomationError::Cancelled => false,
        _ => true,
    }
}

/// Transient errors that may be retried: platform I/O and timeouts only.
pub open spec fn spec_is_retryable(e: AutomationError) -> bool {
    match e {
        AutomationError::Platform(_) | AutomationError::Timeout(_) => true,
        _ => false,
    }
}

/// The operator-facing message of an error.
pub open spec fn error_message(e: AutomationError) -> Seq<char> {
    match e {
        AutomationError::ClientNotReady => "企业微信窗口不可用或不是前台窗口"@,
        AutomationError::ScreenChanged => "屏幕状态在操作前发生变化"@,
        AutomationError::AmbiguousVision(t) => "本地视觉识别结果不确定："@ + t@,
        AutomationError::NeedsHumanReview(t) => "需要人工处理："@ + t@,
        AutomationError::Platform(t) => "平台操作失败："@ + t@,
        AutomationError::Cancelled => "任务已被取消"@,
        AutomationError::Timeout(t) => "步骤超时："@ + t@,
    }
}

/// Concatenation of a fixed prefix and a text.
pub fn prefixed(prefix: &str, text: &String) -> (r: String)
    ensures
        r@ == prefix@ + text@,
{
    let mut out = String::from_str(prefix);
    out.append(text.as_str());
    out
}

/// The mathematical value of a [`TextBox`].
pub struct TextBoxView {
    pub text: Seq<char>,
    pub bounds: Rect,
    pub confidence: u32,
}

impl View for TextBox {
    type V = TextBoxView;

    open spec fn view(&self) -> TextBoxView {
        TextBoxView { text: self.text@, bounds: self.bounds, confidence: self.confidence }
    }
}

/// The values of a run of text boxes.
pub open spec fn boxes_view(s: Seq<TextBox>) -> Seq<TextBoxView> {
    s.map_values(|b: TextBox| b@)
}

/// The mathematical value of an [`AutomationError`].
pub enum ErrorView {
    ClientNotReady,
    ScreenChanged,
    AmbiguousVision(Seq<char>),
    NeedsHumanReview(Seq<char>),
    Platform(Seq<char>),
    Cancelled,
    Timeout(Seq<char>),
}

impl View for AutomationError {
    type V = ErrorView;

    open spec fn view(&self) -> ErrorView {
        match self {
            AutomationError::ClientNotReady => ErrorView::ClientNotReady,
            AutomationError::ScreenChanged => ErrorView::ScreenChanged,
            AutomationError::AmbiguousVision(t) => ErrorView::AmbiguousVision(t@),
            AutomationError::NeedsHumanReview(t) => ErrorView::NeedsHumanReview(t@),
            AutomationError::Platform(t) => ErrorView::Platform(t@),
            AutomationError::Cancelled => ErrorView::Cancelled,
            AutomationError::Timeout(t) => ErrorView::Timeout(t@),
        }
    }
}

/// The value of a matching result.
pub open spec fn match_view(r: Result<TextBox, AutomationError>) -> Result<TextBoxView, ErrorView> {
    match r {
        Ok(b) => Ok(b@),
        Err(e) => Err(e@),
    }
}

impl Clone for TextBox {
    fn clone(&self) -> (r: TextBox)
        ensures
            r == *self,
    {
        TextBox { text: self.text.clone(), bounds: self.bounds, confidence: self.confidence }
    }
}

impl Clone for AutomationError {
    fn clone(&self) -> (r: AutomationError)
        ensures
            r == *self,
    {
        match self {
            AutomationError::ClientNotReady => AutomationError::ClientNotReady,
            AutomationError::ScreenChanged => AutomationError::ScreenChanged,
            AutomationError::AmbiguousVision(t) => AutomationError::AmbiguousVision(t.clone()),
            AutomationError::NeedsHumanReview(t) => AutomationError::NeedsHumanReview(t.clone()),
            AutomationError::Platform(t) => AutomationError::Platform(t.clone()),
            AutomationError::Cancelled => AutomationError::Cancelled,
            AutomationError::Timeout(t) => AutomationError::Timeout(t.clone()),
        }
    }
}

impl AutomationError {
    /// Stable failure code for the audit trail; it does not follow wording changes.
    pub fn code(&self) -> (r: &'static str)
        ensures
            r@ == error_code(*self),
    {
        match self {
            AutomationError::ClientNotReady => "CLIENT_NOT_READY",
            AutomationError::ScreenChanged => "SCREEN_CHANGED",
            AutomationError::AmbiguousVision(_) => "AMBIGUOUS_VISION",
            AutomationError::NeedsHumanReview(_) => "NEEDS_HUMAN_REVIEW",
            AutomationError::Platform(_) => "PLATFORM_ERROR",
            AutomationError::Cancelled => "CANCELLED",
            AutomationError::Timeout(_) => "TIMEOUT",
        }
    }

    /// Whether the error sends the task to human review rather than failing it:
    /// timeouts, lost focus, a replaced window, conflicting recognition, a login
    /// or risk-control screen.
    pub fn requires_human_review(&self) -> (r: bool)
        ensures
            r == spec_requires_human_review(*self),
    {
        match self {
            AutomationError::Platform(_) | AutomationError::Cancelled => false,
            _ => true,
        }
    }

    /// Whether the error is a transient one worth retrying.
    pub fn is_retryable(&self) -> (r: bool)
        ensures
            r == spec_is_retryable(*self),
    {
        match self {
            AutomationError::Platform(_) | AutomationError::Timeout(_) => true,
            _ => false,
        }
    }

    /// The operator-facing message (the text of the error's display form).
    pub fn message(&self) -> (r: String)
        ensures
            r@ == error_message(*self),
    {
        match self {
            AutomationError::ClientNotReady => String::from_str("企业微信窗口不可用或不是前台窗口"),
            AutomationError::ScreenChanged => String::from_str("屏幕状态在操作前发生变化"),
            AutomationError::AmbiguousVision(t) => prefixed("本地视觉识别结果不确定：", t),
            AutomationError::NeedsHumanReview(t) => prefixed("需要人工处理：", t),
            AutomationError::Platform(t) => prefixed("平台操作失败：", t),
            AutomationError::Cancelled => String::from_str("任务已被取消"),
            AutomationError::Timeout(t) => prefixed("步骤超时：", t),
        }
    }
}

/// A small picture used for template matching (BGRA, top-down, 32 bits per pixel).
#[derive(Debug)]
pub struct IconTemplate {
    /// Human-readable name (usually the file name), only for logs and failure messages.
    pub label: String,
    pub pixels: Vec<u8>,
    pub width: u32,
    pub height: u32,
}

/// A send request.
#[derive(Debug)]
pub struct SendTask {
    pub id: TaskId,
    pub external_contact_name: String,
    pub text: String,
    pub created_by: String,
}

} // verus!
