//! Test doubles of the desktop and of the recognition engine: nothing here
//! captures the screen or sends real input.
//!
//! The simulated desktop's frame fingerprint is a function of what the screen
//! shows (the captured region, the list's scroll offset and a screen version
//! that effective clicks and sends advance), never of how many captures were
//! made: a run tells "the screen did not move" from "it moved" by comparing
//! fingerprints, so the end of a list and a frozen client can be simulated.
//! The list's offset is clamped at both ends, so scrolling past an end leaves
//! the screen as it was.

use vstd::prelude::*;
use std::collections::VecDeque;
use crate::audit::now;
use crate::mock::{fault_error, Fault, MockFaults};
use crate::ports::{AutomationError, ErrorView, Point, Rect, Screenshot, TextBox};
use crate::text::{decimal, digit_char, push_decimal_u64, push_signed, push_str, signed_decimal};

verus! {

/// The window the simulated desktop reports until told otherwise.
pub open spec fn default_window_rect() -> Rect {
    Rect { x: 0, y: 0, width: 1280, height: 720 }
}

/// The window the simulated desktop reports until told otherwise.
pub fn default_window() -> (r: Rect)
    ensures
        r == default_window_rect(),
{
    Rect { x: 0, y: 0, width: 1280, height: 720 }
}

/// The default bottom offset of the list: further than any run scrolls.
pub const DEFAULT_SCROLL_BOTTOM: i32 = 1000;

/// A scriptable desktop.
#[derive(Debug)]
pub struct MockDesktop {
    operations: Vec<String>,
    window: Rect,
    window_sequence: VecDeque<Rect>,
    faults: MockFaults,
    stable_fingerprint: bool,
    responsive: bool,
    clicks_change_screen: bool,
    view_offset: i32,
    scroll_bottom: i32,
    screen_version: u32,
    send_count: u32,
    clicks: Vec<Point>,
    pasted: Vec<String>,
    scrolls: Vec<(Point, i32)>,
    focus_calls: u32,
    min_window: (i32, i32),
    resizes: Vec<(i32, i32)>,
    typed: Vec<String>,
}

/// What the simulated desktop shows, what it has been told, and what it has done.
pub struct DesktopView {
    /// The window that `focus_wecom` reports and that input must target.
    pub window: Rect,
    /// Windows that the next calls of `focus_wecom` report, in order.
    pub queued_windows: Seq<Rect>,
    /// Every capture gets the same fingerprint.
    pub frozen: bool,
    pub responsive: bool,
    /// Clicks change the screen.
    pub clicks_take_effect: bool,
    /// The list's scroll offset in notches (0 is the top).
    pub offset: int,
    /// The list's bottom offset.
    pub bottom: int,
    /// Advanced by every effective click and every send.
    pub version: nat,
    pub sends: nat,
    /// The failures to inject into the next operations.
    pub faults: MockFaults,
    /// Every operation performed, in order ("launch", "focus", "capture", ...).
    pub operations: Seq<String>,
    /// Every click target, in order.
    pub clicks: Seq<Point>,
    /// Every pasted text, in order.
    pub pasted: Seq<String>,
    /// Every scroll: where, and how many notches (positive = down).
    pub scrolls: Seq<(Point, i32)>,
    /// Calls of `focus_wecom` that got past fault injection (a wrapping counter).
    pub focus_calls: nat,
    /// The smallest size the client lets its window take (width, height).
    pub min_window: (i32, i32),
    /// Every requested resize (width, height), in order.
    pub resizes: Seq<(i32, i32)>,
    /// Every text typed character by character, in order.
    pub typed: Seq<String>,
}

impl View for MockDesktop {
    type V = DesktopView;

    closed spec fn view(&self) -> DesktopView {
        DesktopView {
            window: self.window,
            queued_windows: self.window_sequence@,
            frozen: self.stable_fingerprint,
            responsive: self.responsive,
            clicks_take_effect: self.clicks_change_screen,
            offset: self.view_offset as int,
            bottom: self.scroll_bottom as int,
            version: self.screen_version as nat,
            sends: self.send_count as nat,
            faults: self.faults,
            operations: self.operations@,
            clicks: self.clicks@,
            pasted: self.pasted@,
            scrolls: self.scrolls@,
            focus_calls: self.focus_calls as nat,
            min_window: self.min_window,
            resizes: self.resizes@,
            typed: self.typed@,
        }
    }
}

/// `v` held between `lo` and `hi`.
pub open spec fn clamp(v: int, lo: int, hi: int) -> int {
    if v < lo {
        lo
    } else if v > hi {
        hi
    } else {
        v
    }
}

/// A 32-bit counter advanced by one (wrapping at the top).
pub open spec fn bump(n: nat) -> nat {
    if n >= u32::MAX { 0 } else { n + 1 }
}

/// The fingerprint of a capture of `region` on screen `s`.
pub open spec fn fingerprint_text(region: Rect, s: DesktopView) -> Seq<char> {
    if s.frozen {
        "mock-stable"@
    } else {
        "mock-"@ + signed_decimal(region.x as int) + "+"@ + signed_decimal(region.y as int) + "x"@
            + signed_decimal(region.width as int) + "x"@ + signed_decimal(region.height as int) + "-o"@
            + signed_decimal(s.offset) + "-v"@ + decimal(s.version)
    }
}

/// `after` is `before` with one more entry whose text is `op`.
pub open spec fn logged(before: Seq<String>, after: Seq<String>, op: Seq<char>) -> bool {
    &&& after.len() == before.len() + 1
    &&& after.drop_last() == before
    &&& after.last()@ == op
}

/// No failure is scheduled anywhere.
pub open spec fn no_faults(f: MockFaults) -> bool {
    &&& f.launch is None && f.focus is None && f.metrics is None && f.resize is None
    &&& f.capture@.len() == 0
    &&& f.click is None && f.paste is None && f.type_text is None && f.clear is None && f.send is None
}

/// Sum of the scrolled notches (positive = down).
pub open spec fn notch_sum(s: Seq<(Point, i32)>) -> int
    decreases s.len(),
{
    if s.len() == 0 {
        0
    } else {
        notch_sum(s.drop_last()) + s.last().1
    }
}

/// Sum of the notches scrolled up, as a positive number.
pub open spec fn up_sum(s: Seq<(Point, i32)>) -> int
    decreases s.len(),
{
    if s.len() == 0 {
        0
    } else {
        up_sum(s.drop_last()) + (if s.last().1 < 0 { -s.last().1 } else { 0 })
    }
}

impl MockDesktop {
    /// The scroll bottom is never negative, nor is the offset.
    pub open spec fn wf(&self) -> bool {
        self@.bottom >= 0 && self@.offset >= 0
    }

    pub fn new() -> (d: MockDesktop)
        ensures
            d.wf(),
            d@ == (DesktopView {
                window: default_window_rect(),
                queued_windows: Seq::empty(),
                frozen: false,
                responsive: true,
                clicks_take_effect: true,
                offset: 0,
                bottom: DEFAULT_SCROLL_BOTTOM as int,
                version: 0,
                sends: 0,
                faults: d@.faults,
                operations: Seq::empty(),
                clicks: Seq::empty(),
                pasted: Seq::empty(),
                scrolls: Seq::empty(),
                focus_calls: 0,
                min_window: (0, 0),
                resizes: Seq::empty(),
                typed: Seq::empty(),
            }),
            no_faults(d@.faults),
    {
        let d = MockDesktop {
            operations: Vec::new(),
            window: default_window(),
            window_sequence: VecDeque::new(),
            faults: MockFaults::new(),
            stable_fingerprint: false,
            responsive: true,
            clicks_change_screen: true,
            view_offset: 0,
            scroll_bottom: DEFAULT_SCROLL_BOTTOM,
            screen_version: 0,
            send_count: 0,
            clicks: Vec::new(),
            pasted: Vec::new(),
            scrolls: Vec::new(),
            focus_calls: 0,
            min_window: (0, 0),
            resizes: Vec::new(),
            typed: Vec::new(),
        };
        assert(d@.operations =~= Seq::<String>::empty());
        assert(d@.typed =~= Seq::<String>::empty());
        assert(d@.queued_windows =~= Seq::<Rect>::empty());
        d
    }

    pub fn set_window(&mut self, window: Rect)
        requires
            old(self).wf(),
        ensures
            final(self).wf(),
            final(self)@ == (DesktopView { window, ..old(self)@ }),
    {
        self.window = window;
    }

    pub fn window(&self) -> (r: Rect)
        ensures
            r == self@.window,
    {
        self.window
    }

    /// The failures to inject into the next operations, to change in place.
    pub fn faults(&mut self) -> (r: &mut MockFaults)
        requires
            old(self).wf(),
        ensures
            *r == old(self)@.faults,
            final(self).wf(),
            final(self)@ == (DesktopView { faults: *final(r), ..old(self)@ }),
    {
        &mut self.faults
    }

    /// The next calls of `focus_wecom` report these windows, in order (a
    /// replaced window); after them, the last one stays.
    pub fn script_windows(&mut self, windows: Vec<Rect>)
        requires
            old(self).wf(),
        ensures
            final(self).wf(),
            final(self)@ == (DesktopView { queued_windows: windows@, ..old(self)@ }),
    {
        let mut queue: VecDeque<Rect> = VecDeque::new();
        let mut i: usize = 0;
        while i < windows.len()
            invariant
                i <= windows@.len(),
                queue@ == windows@.take(i as int),
            decreases windows@.len() - i,
        {
            queue.push_back(windows[i]);
            i = i + 1;
            assert(queue@ =~= windows@.take(i as int));
        }
        assert(windows@.take(windows@.len() as int) =~= windows@);
        self.window_sequence = queue;
    }

    /// Every later capture gets the same fingerprint (a screen that no longer reacts).
    pub fn freeze_fingerprints(&mut self)
        requires
            old(self).wf(),
        ensures
            final(self).wf(),
            final(self)@ == (DesktopView { frozen: true, ..old(self)@ }),
    {
        self.stable_fingerprint = true;
    }

    /// Sets the list's bottom offset (0: a list that fits on one screen).
    pub fn script_scroll_bottom(&mut self, bottom: i32)
        requires
            old(self).wf(),
        ensures
            final(self).wf(),
            final(self)@ == (DesktopView { bottom: if bottom < 0 { 0 } else { bottom as int }, ..old(self)@ }),
    {
        self.scroll_bottom = if bottom < 0 { 0 } else { bottom };
    }

    /// The list's current offset in notches (0 is the top).
    pub fn view_offset(&self) -> (r: i32)
        ensures
            r == self@.offset,
    {
        self.view_offset
    }

    /// Clicks no longer change the screen (a covered window, a click on nothing).
    pub fn script_clicks_without_effect(&mut self)
        requires
            old(self).wf(),
        ensures
            final(self).wf(),
            final(self)@ == (DesktopView { clicks_take_effect: false, ..old(self)@ }),
    {
        self.clicks_change_screen = false;
    }

    /// Whether `is_responsive` reports the client as responding.
    pub fn set_responsive(&mut self, responsive: bool)
        requires
            old(self).wf(),
        ensures
            final(self).wf(),
            final(self)@ == (DesktopView { responsive, ..old(self)@ }),
    {
        self.responsive = responsive;
    }

    pub fn operations(&self) -> (r: Vec<String>)
        ensures
            r@ == self@.operations,
    {
        let r = self.operations.clone();
        assert forall|i: int| 0 <= i < r@.len() implies r@[i] == self.operations@[i] by {
            assert(vstd::pervasive::cloned(self.operations@[i], r@[i]));
        }
        assert(r@ =~= self.operations@);
        r
    }

    /// Every click target, in order.
    pub fn clicks(&self) -> (r: &[Point])
        ensures
            r@ == self@.clicks,
    {
        self.clicks.as_slice()
    }

    /// Every scroll: where, and how many notches (positive = down).
    pub fn scrolls(&self) -> (r: &[(Point, i32)])
        ensures
            r@ == self@.scrolls,
    {
        self.scrolls.as_slice()
    }

    /// Calls of `focus_wecom` that got past fault injection.
    pub fn focus_calls(&self) -> (r: u32)
        ensures
            r == self@.focus_calls,
    {
        self.focus_calls
    }

    pub fn send_count(&self) -> (r: u32)
        ensures
            r == self@.sends,
    {
        self.send_count
    }

    pub fn pasted_texts(&self) -> (r: Vec<String>)
        ensures
            r@ == self@.pasted,
    {
        let r = self.pasted.clone();
        assert forall|i: int| 0 <= i < r@.len() implies r@[i] == self.pasted@[i] by {
            assert(vstd::pervasive::cloned(self.pasted@[i], r@[i]));
        }
        assert(r@ =~= self.pasted@);
        r
    }

    pub fn scroll_count(&self) -> (r: usize)
        ensures
            r == self@.scrolls.len(),
    {
        self.scrolls.len()
    }

    /// Net notches scrolled down (scrolls up count negative).
    pub fn scrolled_down_notches(&self) -> (r: i32)
        requires
            i32::MIN <= notch_sum(self@.scrolls) <= i32::MAX,
        ensures
            r == notch_sum(self@.scrolls),
    {
        let mut acc: i128 = 0;
        let mut i: usize = 0;
        while i < self.scrolls.len()
            invariant
                i <= self.scrolls@.len(),
                acc == notch_sum(self.scrolls@.take(i as int)),
                -(i as int) * 0x8000_0000 <= acc <= (i as int) * 0x8000_0000,
            decreases self.scrolls@.len() - i,
        {
            let (_, n) = self.scrolls[i];
            assert(self.scrolls@.take(i as int + 1).drop_last() =~= self.scrolls@.take(i as int));
            acc = acc + n as i128;
            i = i + 1;
        }
        assert(self.scrolls@.take(self.scrolls@.len() as int) =~= self.scrolls@);
        acc as i32
    }

    /// Notches scrolled up, as a positive number.
    pub fn scrolled_up_notches(&self) -> (r: i32)
        requires
            up_sum(self@.scrolls) <= i32::MAX,
        ensures
            r == up_sum(self@.scrolls),
    {
        let mut acc: i128 = 0;
        let mut i: usize = 0;
        while i < self.scrolls.len()
            invariant
                i <= self.scrolls@.len(),
                acc == up_sum(self.scrolls@.take(i as int)),
                0 <= acc <= (i as int) * 0x8000_0000,
            decreases self.scrolls@.len() - i,
        {
            let (_, n) = self.scrolls[i];
            assert(self.scrolls@.take(i as int + 1).drop_last() =~= self.scrolls@.take(i as int));
            if n < 0 {
                acc = acc - n as i128;
            }
            i = i + 1;
        }
        assert(self.scrolls@.take(self.scrolls@.len() as int) =~= self.scrolls@);
        acc as i32
    }

    /// The fingerprint of a capture of `region` now.
    fn fingerprint_of(&self, region: Rect) -> (r: String)
        ensures
            r@ == fingerprint_text(region, self@),
    {
        if self.stable_fingerprint {
            return String::from_str("mock-stable");
        }
        let mut r = String::from_str("mock-");
        push_signed(&mut r, region.x);
        push_str(&mut r, "+");
        push_signed(&mut r, region.y);
        push_str(&mut r, "x");
        push_signed(&mut r, region.width);
        push_str(&mut r, "x");
        push_signed(&mut r, region.height);
        push_str(&mut r, "-o");
        push_signed(&mut r, self.view_offset);
        push_str(&mut r, "-v");
        push_decimal_u64(&mut r, self.screen_version as u64);
        r
    }

    fn record(&mut self, op: &str)
        ensures
            logged(old(self)@.operations, final(self)@.operations, op@),
            final(self)@ == (DesktopView { operations: final(self)@.operations, ..old(self)@ }),
    {
        self.operations.push(String::from_str(op));
        assert(self.operations@.drop_last() =~= old(self).operations@);
    }

    /// Starts the client: the injected launch failure if there is one.
    pub fn launch_wecom(&mut self) -> (r: Result<(), AutomationError>)
        requires
            old(self).wf(),
        ensures
            final(self).wf(),
            match old(self)@.faults.launch {
                Some(f) => {
                    &&& r matches Err(e) && e@ == fault_error(f)
                    &&& final(self)@ == (DesktopView {
                        faults: MockFaults { launch: None, ..old(self)@.faults },
                        ..old(self)@
                    })
                },
                None => {
                    &&& r is Ok
                    &&& logged(old(self)@.operations, final(self)@.operations, "launch"@)
                    &&& final(self)@ == (DesktopView { operations: final(self)@.operations, ..old(self)@ })
                },
            },
    {
        if let Some(fault) = self.faults.launch.take() {
            return Err(fault.into_error());
        }
        self.record("launch");
        Ok(())
    }

    pub fn is_responsive(&self) -> (r: Result<bool, AutomationError>)
        ensures
            r == Ok::<bool, AutomationError>(self@.responsive),
    {
        Ok(self.responsive)
    }

    /// The client's window: the next scripted one if any (which stays), else
    /// the current one; or the injected focus failure.
    pub fn focus_wecom(&mut self) -> (r: Result<Rect, AutomationError>)
        requires
            old(self).wf(),
        ensures
            final(self).wf(),
            match old(self)@.faults.focus {
                Some(f) => {
                    &&& r matches Err(e) && e@ == fault_error(f)
                    &&& final(self)@ == (DesktopView {
                        faults: MockFaults { focus: None, ..old(self)@.faults },
                        ..old(self)@
                    })
                },
                None => {
                    let q = old(self)@.queued_windows;
                    let w = if q.len() > 0 { q[0] } else { old(self)@.window };
                    &&& r == Ok::<Rect, AutomationError>(w)
                    &&& logged(old(self)@.operations, final(self)@.operations, "focus"@)
                    &&& final(self)@ == (DesktopView {
                        window: w,
                        queued_windows: if q.len() > 0 { q.drop_first() } else { q },
                        operations: final(self)@.operations,
                        focus_calls: bump(old(self)@.focus_calls),
                        ..old(self)@
                    })
                },
            },
    {
        if let Some(fault) = self.faults.focus.take() {
            return Err(fault.into_error());
        }
        self.focus_calls = if self.focus_calls == u32::MAX { 0 } else { self.focus_calls + 1 };
        self.record("focus");
        match self.window_sequence.pop_front() {
            Some(window) => {
                self.window = window;
                Ok(window)
            },
            None => Ok(self.window),
        }
    }

    /// A frame of `region`: no pixels, the region's size, and the fingerprint
    /// of the screen as it is; or the next injected capture failure.
    pub fn capture(&mut self, region: Rect) -> (r: Result<Screenshot, AutomationError>)
        requires
            old(self).wf(),
        ensures
            final(self).wf(),
            old(self)@.faults.capture@.len() > 0 ==> {
                &&& r matches Err(e) && e@ == fault_error(old(self)@.faults.capture@[0])
                &&& final(self)@.faults.capture@ == old(self)@.faults.capture@.drop_first()
                &&& final(self)@ == (DesktopView {
                    faults: MockFaults { capture: final(self)@.faults.capture, ..old(self)@.faults },
                    ..old(self)@
                })
            },
            old(self)@.faults.capture@.len() == 0 ==> {
                &&& r matches Ok(shot) && shot.fingerprint@ == fingerprint_text(region, old(self)@)
                    && shot.pixels@.len() == 0 && shot.width == (if region.width < 0 {
                    0
                } else {
                    region.width as int
                }) && shot.height == (if region.height < 0 { 0 } else { region.height as int })
                &&& logged(old(self)@.operations, final(self)@.operations, "capture"@)
                &&& final(self)@ == (DesktopView { operations: final(self)@.operations, ..old(self)@ })
            },
    {
        if self.faults.capture.len() > 0 {
            if let Some(fault) = self.faults.capture.pop_front() {
                return Err(fault.into_error());
            }
        }
        self.record("capture");
        let width: u32 = if region.width < 0 { 0 } else { region.width as u32 };
        let height: u32 = if region.height < 0 { 0 } else { region.height as u32 };
        let fingerprint = self.fingerprint_of(region);
        Ok(Screenshot { pixels: Vec::new(), width, height, captured_at: now(), fingerprint })
    }

    /// A click at `target`, refused when the window is not `expected_window`;
    /// an effective click advances the screen.
    pub fn guarded_click(&mut self, target: Point, expected_window: Rect) -> (r: Result<(), AutomationError>)
        requires
            old(self).wf(),
        ensures
            final(self).wf(),
            match old(self)@.faults.click {
                Some(f) => {
                    &&& r matches Err(e) && e@ == fault_error(f)
                    &&& final(self)@ == (DesktopView {
                        faults: MockFaults { click: None, ..old(self)@.faults },
                        ..old(self)@
                    })
                },
                None => if expected_window != old(self)@.window {
                    r matches Err(e) && e@ == ErrorView::ScreenChanged && final(self)@ == old(self)@
                } else {
                    &&& r is Ok
                    &&& logged(old(self)@.operations, final(self)@.operations, "click"@)
                    &&& final(self)@ == (DesktopView {
                        operations: final(self)@.operations,
                        clicks: old(self)@.clicks.push(target),
                        version: if old(self)@.clicks_take_effect {
                            bump(old(self)@.version)
                        } else {
                            old(self)@.version
                        },
                        ..old(self)@
                    })
                },
            },
    {
        if let Some(fault) = self.faults.click.take() {
            return Err(fault.into_error());
        }
        if expected_window != self.window {
            return Err(AutomationError::ScreenChanged);
        }
        self.record("click");
        self.clicks.push(target);
        if self.clicks_change_screen {
            self.screen_version = if self.screen_version == u32::MAX { 0 } else { self.screen_version + 1 };
        }
        Ok(())
    }

    /// Scrolls the list by `notches` (positive = down), clamped at both
    /// ends; refused when the window is not `expected_window`.
    pub fn scroll(&mut self, at: Point, notches: i32, expected_window: Rect) -> (r: Result<(), AutomationError>)
        requires
            old(self).wf(),
        ensures
            final(self).wf(),
            expected_window != old(self)@.window ==> (r matches Err(e) && e@ == ErrorView::ScreenChanged)
                && final(self)@ == old(self)@,
            expected_window == old(self)@.window ==> {
                &&& r is Ok
                &&& logged(old(self)@.operations, final(self)@.operations, "scroll"@)
                &&& final(self)@ == (DesktopView {
                    operations: final(self)@.operations,
                    scrolls: old(self)@.scrolls.push((at, notches)),
                    offset: clamp(old(self)@.offset + notches, 0, old(self)@.bottom),
                    ..old(self)@
                })
            },
    {
        if expected_window != self.window {
            return Err(AutomationError::ScreenChanged);
        }
        self.record("scroll");
        self.scrolls.push((at, notches));
        let moved: i64 = self.view_offset as i64 + notches as i64;
        let bottom: i64 = self.scroll_bottom as i64;
        self.view_offset = if moved < 0 { 0 } else if moved > bottom { self.scroll_bottom } else { moved as i32 };
        Ok(())
    }

    /// Pastes `text`, refused when the window is not `expected_window`.
    pub fn paste_text(&mut self, text: &str, expected_window: Rect) -> (r: Result<(), AutomationError>)
        requires
            old(self).wf(),
        ensures
            final(self).wf(),
            match old(self)@.faults.paste {
                Some(f) => {
                    &&& r matches Err(e) && e@ == fault_error(f)
                    &&& final(self)@ == (DesktopView {
                        faults: MockFaults { paste: None, ..old(self)@.faults },
                        ..old(self)@
                    })
                },
                None => if expected_window != old(self)@.window {
                    r matches Err(e) && e@ == ErrorView::ScreenChanged && final(self)@ == old(self)@
                } else {
                    &&& r is Ok
                    &&& logged(old(self)@.operations, final(self)@.operations, "paste"@)
                    &&& logged(old(self)@.pasted, final(self)@.pasted, text@)
                    &&& final(self)@ == (DesktopView {
                        operations: final(self)@.operations,
                        pasted: final(self)@.pasted,
                        ..old(self)@
                    })
                },
            },
    {
        if let Some(fault) = self.faults.paste.take() {
            return Err(fault.into_error());
        }
        if expected_window != self.window {
            return Err(AutomationError::ScreenChanged);
        }
        self.record("paste");
        let ghost before = self.pasted@;
        self.pasted.push(String::from_str(text));
        assert(self.pasted@.drop_last() =~= before);
        Ok(())
    }

    /// Sends the message; refused when the window is not `expected_window`.
    /// A send adds a message to the chat, so it advances the screen.
    pub fn send_message_shortcut(&mut self, expected_window: Rect) -> (r: Result<(), AutomationError>)
        requires
            old(self).wf(),
        ensures
            final(self).wf(),
            match old(self)@.faults.send {
                Some(f) => {
                    &&& r matches Err(e) && e@ == fault_error(f)
                    &&& final(self)@ == (DesktopView {
                        faults: MockFaults { send: None, ..old(self)@.faults },
                        ..old(self)@
                    })
                },
                None => if expected_window != old(self)@.window {
                    r matches Err(e) && e@ == ErrorView::ScreenChanged && final(self)@ == old(self)@
                } else {
                    &&& r is Ok
                    &&& logged(old(self)@.operations, final(self)@.operations, "send"@)
                    &&& final(self)@ == (DesktopView {
                        operations: final(self)@.operations,
                        sends: bump(old(self)@.sends),
                        version: bump(old(self)@.version),
                        ..old(self)@
                    })
                },
            },
    {
        if let Some(fault) = self.faults.send.take() {
            return Err(fault.into_error());
        }
        if expected_window != self.window {
            return Err(AutomationError::ScreenChanged);
        }
        self.record("send");
        self.send_count = if self.send_count == u32::MAX { 0 } else { self.send_count + 1 };
        self.screen_version = if self.screen_version == u32::MAX { 0 } else { self.screen_version + 1 };
        Ok(())
    }

    /// The client keeps its window at least this large: a resize to less is
    /// clamped, and still reported as done.
    pub fn set_min_window_size(&mut self, min: (i32, i32))
        requires
            old(self).wf(),
        ensures
            final(self).wf(),
            final(self)@ == (DesktopView { min_window: min, ..old(self)@ }),
    {
        self.min_window = min;
    }

    /// Every requested resize (width, height), in order.
    pub fn resizes(&self) -> (r: &[(i32, i32)])
        ensures
            r@ == self@.resizes,
    {
        self.resizes.as_slice()
    }

    /// Every text typed character by character, in order.
    pub fn typed_texts(&self) -> (r: Vec<String>)
        ensures
            r@ == self@.typed,
    {
        let r = self.typed.clone();
        assert forall|i: int| 0 <= i < r@.len() implies r@[i] == self.typed@[i] by {
            assert(vstd::pervasive::cloned(self.typed@[i], r@[i]));
        }
        assert(r@ =~= self.typed@);
        r
    }

    /// The injected failure of a display reading, if one is scheduled (it is
    /// consumed); the reading itself is the caller's.
    pub fn take_metrics_fault(&mut self) -> (r: Result<(), AutomationError>)
        requires
            old(self).wf(),
        ensures
            final(self).wf(),
            final(self)@ == (DesktopView { faults: MockFaults { metrics: None, ..old(self)@.faults }, ..old(self)@ }),
            match old(self)@.faults.metrics {
                Some(f) => r matches Err(e) && e@ == fault_error(f),
                None => r is Ok,
            },
    {
        match self.faults.metrics.take() {
            Some(fault) => Err(fault.into_error()),
            None => Ok(()),
        }
    }

    /// Resizes the window to `width` x `height`, kept at least the minimum
    /// size; the request is recorded, and the window as it now is returned.
    pub fn resize_wecom(&mut self, width: i32, height: i32) -> (r: Result<Rect, AutomationError>)
        requires
            old(self).wf(),
        ensures
            final(self).wf(),
            match old(self)@.faults.resize {
                Some(f) => {
                    &&& r matches Err(e) && e@ == fault_error(f)
                    &&& final(self)@ == (DesktopView {
                        faults: MockFaults { resize: None, ..old(self)@.faults },
                        ..old(self)@
                    })
                },
                None => {
                    let w = Rect {
                        width: if width < old(self)@.min_window.0 { old(self)@.min_window.0 } else { width },
                        height: if height < old(self)@.min_window.1 { old(self)@.min_window.1 } else { height },
                        ..old(self)@.window
                    };
                    &&& r == Ok::<Rect, AutomationError>(w)
                    &&& logged(old(self)@.operations, final(self)@.operations, "resize"@)
                    &&& final(self)@ == (DesktopView {
                        window: w,
                        operations: final(self)@.operations,
                        resizes: old(self)@.resizes.push((width, height)),
                        ..old(self)@
                    })
                },
            },
    {
        if let Some(fault) = self.faults.resize.take() {
            return Err(fault.into_error());
        }
        self.record("resize");
        self.resizes.push((width, height));
        let w = Rect {
            x: self.window.x,
            y: self.window.y,
            width: if width < self.min_window.0 { self.min_window.0 } else { width },
            height: if height < self.min_window.1 { self.min_window.1 } else { height },
        };
        self.window = w;
        Ok(w)
    }

    /// Moves the pointer; the simulated screen does not change.
    pub fn move_pointer(&mut self, target: Point) -> (r: Result<(), AutomationError>)
        requires
            old(self).wf(),
        ensures
            final(self).wf(),
            final(self)@ == old(self)@,
            r is Ok,
    {
        Ok(())
    }

    /// Types `text` character by character, refused when the window is not `expected_window`.
    pub fn type_text(&mut self, text: &str, expected_window: Rect) -> (r: Result<(), AutomationError>)
        requires
            old(self).wf(),
        ensures
            final(self).wf(),
            match old(self)@.faults.type_text {
                Some(f) => {
                    &&& r matches Err(e) && e@ == fault_error(f)
                    &&& final(self)@ == (DesktopView {
                        faults: MockFaults { type_text: None, ..old(self)@.faults },
                        ..old(self)@
                    })
                },
                None => if expected_window != old(self)@.window {
                    r matches Err(e) && e@ == ErrorView::ScreenChanged && final(self)@ == old(self)@
                } else {
                    &&& r is Ok
                    &&& logged(old(self)@.operations, final(self)@.operations, "type"@)
                    &&& logged(old(self)@.typed, final(self)@.typed, text@)
                    &&& final(self)@ == (DesktopView {
                        operations: final(self)@.operations,
                        typed: final(self)@.typed,
                        ..old(self)@
                    })
                },
            },
    {
        if let Some(fault) = self.faults.type_text.take() {
            return Err(fault.into_error());
        }
        if expected_window != self.window {
            return Err(AutomationError::ScreenChanged);
        }
        self.record("type");
        let ghost before = self.typed@;
        self.typed.push(String::from_str(text));
        assert(self.typed@.drop_last() =~= before);
        Ok(())
    }

    /// Clears the focused input field, refused when the window is not `expected_window`.
    pub fn clear_text_field(&mut self, expected_window: Rect) -> (r: Result<(), AutomationError>)
        requires
            old(self).wf(),
        ensures
            final(self).wf(),
            match old(self)@.faults.clear {
                Some(f) => {
                    &&& r matches Err(e) && e@ == fault_error(f)
                    &&& final(self)@ == (DesktopView {
                        faults: MockFaults { clear: None, ..old(self)@.faults },
                        ..old(self)@
                    })
                },
                None => if expected_window != old(self)@.window {
                    r matches Err(e) && e@ == ErrorView::ScreenChanged && final(self)@ == old(self)@
                } else {
                    &&& r is Ok
                    &&& logged(old(self)@.operations, final(self)@.operations, "clear"@)
                    &&& final(self)@ == (DesktopView { operations: final(self)@.operations, ..old(self)@ })
                },
            },
    {
        if let Some(fault) = self.faults.clear.take() {
            return Err(fault.into_error());
        }
        if expected_window != self.window {
            return Err(AutomationError::ScreenChanged);
        }
        self.record("clear");
        Ok(())
    }
}

impl Default for MockDesktop {
    fn default() -> (d: MockDesktop)
        ensures
            d.wf(),
            d@.window == default_window_rect(),
            d@.offset == 0,
            d@.bottom == DEFAULT_SCROLL_BOTTOM,
            no_faults(d@.faults),
    {
        MockDesktop::new()
    }
}

/// Scrolling past either end of the list changes nothing on screen: at the
/// bottom a scroll down, and at the top a scroll up, leave the offset, and so
/// every fingerprint, as they were.
pub proof fn lemma_scrolling_past_an_end_changes_nothing(s: DesktopView, notches: int, region: Rect)
    requires
        s.bottom >= 0,
        0 <= s.offset <= s.bottom,
        (s.offset == s.bottom && notches >= 0) || (s.offset == 0 && notches <= 0),
    ensures
        clamp(s.offset + notches, 0, s.bottom) == s.offset,
        fingerprint_text(region, DesktopView { offset: clamp(s.offset + notches, 0, s.bottom), ..s })
            == fingerprint_text(region, s),
{
}

/// However the list is scrolled, its offset stays between the top and the bottom.
pub proof fn lemma_offset_stays_in_the_list(s: DesktopView, notches: int)
    requires
        s.bottom >= 0,
    ensures
        0 <= clamp(s.offset + notches, 0, s.bottom) <= s.bottom,
{
}

/// A scroll that stays inside the list is undone by the opposite scroll.
pub proof fn lemma_scrolling_back_restores_the_view(s: DesktopView, notches: int)
    requires
        0 <= s.offset <= s.bottom,
        0 <= s.offset + notches <= s.bottom,
    ensures
        clamp(clamp(s.offset + notches, 0, s.bottom) - notches, 0, s.bottom) == s.offset,
{
}

/// A frozen screen gives every capture of a region one fingerprint, whatever
/// has happened on it.
pub proof fn lemma_frozen_screen_never_changes(a: DesktopView, b: DesktopView, region: Rect)
    requires
        a.frozen,
        b.frozen,
    ensures
        fingerprint_text(region, a) == fingerprint_text(region, b),
{
}

/// Every character of a decimal notation is a digit.
proof fn lemma_decimal_digits(n: nat)
    ensures
        decimal(n).len() >= 1,
        n >= 10 ==> decimal(n).len() >= 2,
        forall|i: int| 0 <= i < decimal(n).len() ==> '0' <= #[trigger] decimal(n)[i] <= '9',
    decreases n,
{
    if n >= 10 {
        lemma_decimal_digits(n / 10);
        let d = decimal(n);
        assert forall|i: int| 0 <= i < d.len() implies '0' <= #[trigger] d[i] <= '9' by {
            if i < d.len() - 1 {
                assert(d[i] == decimal(n / 10)[i]);
            }
        }
    }
}

/// Different digits have different characters.
proof fn lemma_digit_char_injective(d: nat, e: nat)
    requires
        d < 10,
        e < 10,
        digit_char(d) == digit_char(e),
    ensures
        d == e,
{
}

/// Two numbers with the same decimal notation are equal.
proof fn lemma_decimal_injective(n: nat, m: nat)
    requires
        decimal(n) == decimal(m),
    ensures
        n == m,
    decreases n,
{
    lemma_decimal_digits(n);
    lemma_decimal_digits(m);
    let a = decimal(n);
    let b = decimal(m);
    if n < 10 && m < 10 {
        assert(a[0] == digit_char(n));
        assert(b[0] == digit_char(m));
        lemma_digit_char_injective(n, m);
    } else if n >= 10 && m >= 10 {
        assert(a.drop_last() =~= decimal(n / 10));
        assert(b.drop_last() =~= decimal(m / 10));
        lemma_decimal_injective(n / 10, m / 10);
        assert(a.last() == digit_char(n % 10));
        assert(b.last() == digit_char(m % 10));
        lemma_digit_char_injective(n % 10, m % 10);
    }
}

/// Cutting `a + "-v" + b` at its first non-digit: the digits `a` and the rest `b`.
proof fn lemma_split_at_the_marker(a: Seq<char>, b: Seq<char>, c: Seq<char>, d: Seq<char>)
    requires
        forall|i: int| 0 <= i < a.len() ==> '0' <= #[trigger] a[i] <= '9',
        forall|i: int| 0 <= i < c.len() ==> '0' <= #[trigger] c[i] <= '9',
        a + "-v"@ + b == c + "-v"@ + d,
    ensures
        a == c,
        b == d,
{
    reveal_strlit("-v");
    let x = a + "-v"@ + b;
    let y = c + "-v"@ + d;
    if a.len() < c.len() {
        assert(x[a.len() as int] == '-');
        assert(y[a.len() as int] == c[a.len() as int]);
    } else if c.len() < a.len() {
        assert(y[c.len() as int] == '-');
        assert(x[c.len() as int] == a[c.len() as int]);
    }
    assert(a =~= x.subrange(0, a.len() as int));
    assert(c =~= y.subrange(0, c.len() as int));
    assert(b =~= x.subrange(a.len() as int + 2, x.len() as int));
    assert(d =~= y.subrange(c.len() as int + 2, y.len() as int));
}

/// Fingerprints tell screens apart: two unfrozen screens whose list offsets
/// or versions differ give different fingerprints for every region. This is
/// what lets a run tell a screen that moved from one that did not.
pub proof fn lemma_fingerprints_tell_screens_apart(region: Rect, s: DesktopView, t: DesktopView)
    requires
        !s.frozen,
        !t.frozen,
        s.offset >= 0,
        t.offset >= 0,
        s.offset != t.offset || s.version != t.version,
    ensures
        fingerprint_text(region, s) != fingerprint_text(region, t),
{
    let head = "mock-"@ + signed_decimal(region.x as int) + "+"@ + signed_decimal(region.y as int) + "x"@
        + signed_decimal(region.width as int) + "x"@ + signed_decimal(region.height as int) + "-o"@;
    let a = decimal(s.offset as nat);
    let c = decimal(t.offset as nat);
    let b = decimal(s.version);
    let d = decimal(t.version);
    assert(fingerprint_text(region, s) =~= head + (a + "-v"@ + b));
    assert(fingerprint_text(region, t) =~= head + (c + "-v"@ + d));
    if fingerprint_text(region, s) == fingerprint_text(region, t) {
        let x = a + "-v"@ + b;
        let y = c + "-v"@ + d;
        assert(x =~= (head + x).subrange(head.len() as int, (head + x).len() as int));
        assert(y =~= (head + y).subrange(head.len() as int, (head + y).len() as int));
        lemma_decimal_digits(s.offset as nat);
        lemma_decimal_digits(t.offset as nat);
        lemma_split_at_the_marker(a, b, c, d);
        lemma_decimal_injective(s.offset as nat, t.offset as nat);
        lemma_decimal_injective(s.version, t.version);
    }
}

// ---------------------------------------------------------------------------
// The recognition engine
// ---------------------------------------------------------------------------

/// One scripted answer of the recognition engine.
#[derive(Debug)]
pub enum ScriptedCall {
    /// These text blocks are read.
    Read(Vec<TextBox>),
    /// The recognition fails.
    Fail(Fault),
}

impl ScriptedCall {
    pub fn boxes(boxes: Vec<TextBox>) -> (c: ScriptedCall)
        ensures
            c == ScriptedCall::Read(boxes),
    {
        ScriptedCall::Read(boxes)
    }

    pub fn err(fault: Fault) -> (c: ScriptedCall)
        ensures
            c == ScriptedCall::Fail(fault),
    {
        ScriptedCall::Fail(fault)
    }
}

/// A recognition engine that answers from a script, in order; once the
/// script runs out it reads nothing.
#[derive(Debug)]
pub struct MockOcr {
    script: VecDeque<ScriptedCall>,
    calls: Vec<(u32, u32)>,
    fingerprints: Vec<String>,
}

/// The script still to answer from, and the images seen so far.
pub struct OcrView {
    pub pending: Seq<ScriptedCall>,
    /// The size of every image given, in order.
    pub calls: Seq<(u32, u32)>,
    /// The fingerprint of every image given, in order.
    pub fingerprints: Seq<String>,
}

impl View for MockOcr {
    type V = OcrView;

    closed spec fn view(&self) -> OcrView {
        OcrView { pending: self.script@, calls: self.calls@, fingerprints: self.fingerprints@ }
    }
}

impl MockOcr {
    pub fn new(script: Vec<ScriptedCall>) -> (m: MockOcr)
        ensures
            m@.pending == script@,
            m@.calls.len() == 0,
            m@.fingerprints.len() == 0,
    {
        let mut queue: VecDeque<ScriptedCall> = VecDeque::new();
        let mut rest = script;
        let ghost all = rest@;
        assert(queue@ + rest@ =~= all);
        while rest.len() > 0
            invariant
                queue@ + rest@ == all,
            decreases rest@.len(),
        {
            let x = rest.remove(0);
            queue.push_back(x);
            assert(queue@ + rest@ =~= all);
        }
        assert(queue@ =~= all);
        MockOcr { script: queue, calls: Vec::new(), fingerprints: Vec::new() }
    }

    pub fn call_count(&self) -> (n: usize)
        ensures
            n == self@.calls.len(),
    {
        self.calls.len()
    }

    /// The size of every image given, in order.
    pub fn calls(&self) -> (r: &[(u32, u32)])
        ensures
            r@ == self@.calls,
    {
        self.calls.as_slice()
    }

    /// The fingerprint of every image given, in order.
    pub fn fingerprints(&self) -> (r: &[String])
        ensures
            r@ == self@.fingerprints,
    {
        self.fingerprints.as_slice()
    }

    pub fn remaining_script(&self) -> (n: usize)
        ensures
            n == self@.pending.len(),
    {
        self.script.len()
    }

    /// Records the image and gives the next scripted answer (nothing once the script is done).
    pub fn recognize(&mut self, image: &Screenshot) -> (r: Result<Vec<TextBox>, AutomationError>)
        ensures
            final(self)@.calls == old(self)@.calls.push((image.width, image.height)),
            logged(old(self)@.fingerprints, final(self)@.fingerprints, image.fingerprint@),
            old(self)@.pending.len() == 0 ==> final(self)@.pending.len() == 0 && (r matches Ok(b) && b@.len() == 0),
            old(self)@.pending.len() > 0 ==> final(self)@.pending == old(self)@.pending.drop_first() && match old(
                self,
            )@.pending[0] {
                ScriptedCall::Read(boxes) => r == Ok::<Vec<TextBox>, AutomationError>(boxes),
                ScriptedCall::Fail(f) => r matches Err(e) && e@ == fault_error(f),
            },
    {
        self.calls.push((image.width, image.height));
        self.fingerprints.push(image.fingerprint.clone());
        assert(self.fingerprints@.drop_last() =~= old(self).fingerprints@);
        match self.script.pop_front() {
            Some(ScriptedCall::Read(boxes)) => Ok(boxes),
            Some(ScriptedCall::Fail(fault)) => Err(fault.into_error()),
            None => Ok(Vec::new()),
        }
    }
}

} // verus!
