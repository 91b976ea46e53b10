//! The decisions of a run, apart from the desktop work they steer.
//!
//! A run alternates desktop work (capture, recognise, click, scroll, type)
//! with decisions. The desktop work belongs to the platform; the decisions are
//! here, each a function from what the work returned to what happens next:
//! which state comes after which, when a sweep of the contact list stops, when
//! scrolling has reached an end, whether the window still matches its
//! calibration, and what each verification concludes.

use vstd::prelude::*;
use crate::candidates::{described, describe_candidates};
use crate::dropdown::{containing_title_flags, normalize_text, top_flagged};
use crate::policy::ConfidenceThreshold;
use crate::ports::{
    boxes_view, error_message, match_view, prefixed, AutomationError, ErrorView, Rect, TextBox,
    TextBoxView,
};
use crate::runner::Workflow;
use crate::state::{is_run, spec_is_terminal, state_name, step_result, StateError, TaskMachine, TaskState};
use crate::text::{
    chars_of, contains, decimal, normalize, normalized_chars, push_decimal, push_signed, push_str,
    seq_contains, signed_decimal, trim, trimmed,
};

verus! {

// ---------------------------------------------------------------------------
// The route of a run
// ---------------------------------------------------------------------------

/// What decides the states a successful run passes through.
#[derive(Debug, Clone, Copy)]
pub struct RouteChoice {
    pub workflow: Workflow,
    /// Stop once the text is typed, never send.
    pub stop_before_send: bool,
    /// (search workflow) The profile page showed the target, so the chat is
    /// opened from it; otherwise the client opened the existing chat directly.
    pub profile_verified: bool,
}

/// The states a successful run passes through, from `Draft` to its end.
pub open spec fn route(c: RouteChoice) -> Seq<TaskState> {
    let attach = seq![TaskState::Draft, TaskState::LaunchingClient, TaskState::WaitingForClient];
    if c.workflow == Workflow::NavigateOnly {
        attach + seq![TaskState::NavigatingToView, TaskState::Navigated]
    } else {
        let search = seq![TaskState::NavigatingToView, TaskState::SearchingContact, TaskState::VerifyingCandidate];
        let open = if c.workflow == Workflow::SearchContact {
            if c.profile_verified {
                seq![TaskState::VerifyingProfile, TaskState::OpeningChatFromProfile]
            } else {
                seq![TaskState::VerifyingProfile]
            }
        } else {
            Seq::empty()
        };
        let finish = if c.stop_before_send {
            seq![TaskState::Prepared]
        } else {
            seq![TaskState::Sending, TaskState::VerifyingDelivery, TaskState::Completed]
        };
        attach + search + open + seq![TaskState::VerifyingChatHeader, TaskState::PreparingMessage] + finish
    }
}

/// The state a run enters after finishing the step at `at`; `None` when the
/// run has ended (or `at` is not on its route).
pub fn next_stage(c: RouteChoice, at: TaskState) -> (r: Option<TaskState>)
    ensures
        r == after_in(route(c), at),
{
    proof {
        lemma_step_is_next_on_route(c, at);
    }
    let search = c.workflow == Workflow::SearchContact;
    let r = match at {
        TaskState::Draft => Some(TaskState::LaunchingClient),
        TaskState::LaunchingClient => Some(TaskState::WaitingForClient),
        TaskState::WaitingForClient => Some(TaskState::NavigatingToView),
        TaskState::NavigatingToView => if c.workflow == Workflow::NavigateOnly {
            Some(TaskState::Navigated)
        } else {
            Some(TaskState::SearchingContact)
        },
        TaskState::SearchingContact => if c.workflow == Workflow::NavigateOnly {
            None
        } else {
            Some(TaskState::VerifyingCandidate)
        },
        TaskState::VerifyingCandidate => if c.workflow == Workflow::NavigateOnly {
            None
        } else if search {
            Some(TaskState::VerifyingProfile)
        } else {
            Some(TaskState::VerifyingChatHeader)
        },
        TaskState::VerifyingProfile => if !search {
            None
        } else if c.profile_verified {
            Some(TaskState::OpeningChatFromProfile)
        } else {
            Some(TaskState::VerifyingChatHeader)
        },
        TaskState::OpeningChatFromProfile => if search && c.profile_verified {
            Some(TaskState::VerifyingChatHeader)
        } else {
            None
        },
        TaskState::VerifyingChatHeader => if c.workflow == Workflow::NavigateOnly {
            None
        } else {
            Some(TaskState::PreparingMessage)
        },
        TaskState::PreparingMessage => if c.workflow == Workflow::NavigateOnly {
            None
        } else if c.stop_before_send {
            Some(TaskState::Prepared)
        } else {
            Some(TaskState::Sending)
        },
        TaskState::Sending => if c.workflow == Workflow::NavigateOnly || c.stop_before_send {
            None
        } else {
            Some(TaskState::VerifyingDelivery)
        },
        TaskState::VerifyingDelivery => if c.workflow == Workflow::NavigateOnly || c.stop_before_send {
            None
        } else {
            Some(TaskState::Completed)
        },
        _ => None,
    };
    r
}

/// The state that follows `at` in `s` (at its first place), or `None` when
/// `at` is not in `s` or comes last.
pub open spec fn after_in(s: Seq<TaskState>, at: TaskState) -> Option<TaskState> {
    if exists|i: int| 0 <= i < s.len() - 1 && s[i] == at {
        Some(s[(choose|i: int| 0 <= i < s.len() - 1 && s[i] == at) + 1])
    } else {
        None
    }
}

/// The successor on the route, state by state (how [`next_stage`] computes it).
spec fn route_step(c: RouteChoice, at: TaskState) -> Option<TaskState> {
    let search = c.workflow == Workflow::SearchContact;
    let nav_only = c.workflow == Workflow::NavigateOnly;
    match at {
        TaskState::Draft => Some(TaskState::LaunchingClient),
        TaskState::LaunchingClient => Some(TaskState::WaitingForClient),
        TaskState::WaitingForClient => Some(TaskState::NavigatingToView),
        TaskState::NavigatingToView => if nav_only {
            Some(TaskState::Navigated)
        } else {
            Some(TaskState::SearchingContact)
        },
        TaskState::SearchingContact => if nav_only { None } else { Some(TaskState::VerifyingCandidate) },
        TaskState::VerifyingCandidate => if nav_only {
            None
        } else if search {
            Some(TaskState::VerifyingProfile)
        } else {
            Some(TaskState::VerifyingChatHeader)
        },
        TaskState::VerifyingProfile => if !search {
            None
        } else if c.profile_verified {
            Some(TaskState::OpeningChatFromProfile)
        } else {
            Some(TaskState::VerifyingChatHeader)
        },
        TaskState::OpeningChatFromProfile => if search && c.profile_verified {
            Some(TaskState::VerifyingChatHeader)
        } else {
            None
        },
        TaskState::VerifyingChatHeader => if nav_only { None } else { Some(TaskState::PreparingMessage) },
        TaskState::PreparingMessage => if nav_only {
            None
        } else if c.stop_before_send {
            Some(TaskState::Prepared)
        } else {
            Some(TaskState::Sending)
        },
        TaskState::Sending => if nav_only || c.stop_before_send { None } else { Some(TaskState::VerifyingDelivery) },
        TaskState::VerifyingDelivery => if nav_only || c.stop_before_send {
            None
        } else {
            Some(TaskState::Completed)
        },
        _ => None,
    }
}

/// Stepping state by state agrees with reading the route.
proof fn lemma_step_is_next_on_route(c: RouteChoice, at: TaskState)
    ensures
        route_step(c, at) == after_in(route(c), at),
{
    let r = route(c);
    assert forall|i: int| 0 <= i < r.len() - 1 implies #[trigger] route_step(c, r[i]) == Some(r[i + 1]) by {}
    assert(route_step(c, r.last()) is None);
    if exists|i: int| 0 <= i < r.len() - 1 && r[i] == at {
        let i = choose|i: int| 0 <= i < r.len() - 1 && r[i] == at;
        assert(route_step(c, r[i]) == Some(r[i + 1]));
    } else {
        assert(0 < r.len() - 1 ==> r[0] != at);
        assert(1 < r.len() - 1 ==> r[1] != at);
        assert(2 < r.len() - 1 ==> r[2] != at);
        assert(3 < r.len() - 1 ==> r[3] != at);
        assert(4 < r.len() - 1 ==> r[4] != at);
        assert(5 < r.len() - 1 ==> r[5] != at);
        assert(6 < r.len() - 1 ==> r[6] != at);
        assert(7 < r.len() - 1 ==> r[7] != at);
        assert(8 < r.len() - 1 ==> r[8] != at);
        assert(9 < r.len() - 1 ==> r[9] != at);
        assert(10 < r.len() - 1 ==> r[10] != at);
        assert(11 < r.len() - 1 ==> r[11] != at);
        assert(12 < r.len() - 1 ==> r[12] != at);
        assert(13 < r.len() - 1 ==> r[13] != at);
        assert(14 < r.len() - 1 ==> r[14] != at);
    }
}

/// A successful run is a run of the state machine: it starts at `Draft`, every
/// step is a transition the machine accepts, and it ends in `Navigated`,
/// `Prepared` or `Completed`. With "stop before send" (and when only
/// navigating) it never enters `Sending`; a search run always passes the
/// profile check. Stepping with [`next_stage`] from `Draft` walks exactly
/// this route.
pub proof fn lemma_route_is_a_run(c: RouteChoice)
    ensures
        is_run(route(c)),
        forall|i: int| 0 <= i < route(c).len() - 1 ==> #[trigger] after_in(route(c), route(c)[i]) == Some(route(c)[i + 1]),
        after_in(route(c), route(c).last()) is None,
        route(c).last() == (if c.workflow == Workflow::NavigateOnly {
            TaskState::Navigated
        } else if c.stop_before_send {
            TaskState::Prepared
        } else {
            TaskState::Completed
        }),
        spec_is_terminal(route(c).last()),
        (c.stop_before_send || c.workflow == Workflow::NavigateOnly) ==> !route(c).contains(TaskState::Sending),
        c.workflow == Workflow::SearchContact ==> route(c).contains(TaskState::VerifyingProfile),
{
    let r = route(c);
    assert forall|i: int| 0 <= i < r.len() - 1 implies #[trigger] step_result(r[i], r[i + 1]) == Ok::<
        TaskState,
        StateError,
    >(r[i + 1]) by {}
    assert forall|i: int| 0 <= i < r.len() - 1 implies #[trigger] after_in(r, r[i]) == Some(r[i + 1]) by {
        lemma_step_is_next_on_route(c, r[i]);
    }
    lemma_step_is_next_on_route(c, r.last());
    if c.workflow == Workflow::SearchContact {
        assert(r[6] == TaskState::VerifyingProfile);
    }
    if c.stop_before_send || c.workflow == Workflow::NavigateOnly {
        assert forall|i: int| 0 <= i < r.len() implies r[i] != TaskState::Sending by {}
    }
}

// ---------------------------------------------------------------------------
// Moving the state machine
// ---------------------------------------------------------------------------

/// The message of a refused transition.
pub open spec fn state_error_text(e: StateError) -> Seq<char> {
    match e {
        StateError::TerminalState { from } => "不能从终态 "@ + state_name(from) + " 转换"@,
        StateError::InvalidTransition { from, to } => "不允许的状态转换："@ + state_name(from) + " → "@ + state_name(to),
    }
}

impl StateError {
    /// The message of the refusal.
    pub fn message(&self) -> (r: String)
        ensures
            r@ == state_error_text(*self),
    {
        match self {
            StateError::TerminalState { from } => {
                let mut r = String::from_str("不能从终态 ");
                push_str(&mut r, from.as_str());
                push_str(&mut r, " 转换");
                r
            },
            StateError::InvalidTransition { from, to } => {
                let mut r = String::from_str("不允许的状态转换：");
                push_str(&mut r, from.as_str());
                push_str(&mut r, " → ");
                push_str(&mut r, to.as_str());
                r
            },
        }
    }
}

/// What one step of a run does to the state machine.
///
/// A run that has already ended stays where it is (`Ok(false)`); otherwise
/// the machine takes the transition (`Ok(true)`), and a transition it refuses
/// fails the step with a platform error naming the refusal.
pub fn advance_machine(machine: &mut TaskMachine, to: TaskState) -> (r: Result<bool, AutomationError>)
    ensures
        spec_is_terminal(old(machine).current()) ==> r == Ok::<bool, AutomationError>(false)
            && final(machine).current() == old(machine).current(),
        !spec_is_terminal(old(machine).current()) ==> match step_result(old(machine).current(), to) {
            Ok(next) => r == Ok::<bool, AutomationError>(true) && final(machine).current() == next,
            Err(e) => final(machine).current() == old(machine).current() && (match r {
                Err(AutomationError::Platform(t)) => t@ == "状态机拒绝转换："@ + state_error_text(e),
                _ => false,
            }),
        },
{
    if machine.state().is_terminal() {
        return Ok(false);
    }
    match machine.transition(to) {
        Ok(()) => Ok(true),
        Err(e) => {
            let text = e.message();
            Err(AutomationError::Platform(prefixed("状态机拒绝转换：", &text)))
        },
    }
}

// ---------------------------------------------------------------------------
// Sweeping the contact list
// ---------------------------------------------------------------------------

/// What a sweep of the contact list does after reading one frame.
#[derive(Debug)]
pub enum SweepStep {
    /// The contact is on this frame.
    Found(TextBox),
    /// The recognition is ambiguous; scrolling changes what is visible, not
    /// whether the name is unique, so the run stops here.
    Stop(AutomationError),
    /// This sweep has reached its end without finding the contact.
    End,
    /// The last scroll left the list unchanged: scroll the other way once to
    /// tell the bottom of the list from a frozen client.
    ProbeBack,
    /// Scroll down one step and read again.
    Scroll,
}

/// One downward sweep of the contact list: the frame seen last and the
/// scrolls made so far, bounded by the configured maximum.
#[derive(Debug)]
pub struct ListSweep {
    previous: Option<String>,
    scrolled: u32,
    max_scrolls: u32,
}

/// The value of a [`ListSweep`].
pub struct SweepView {
    /// The fingerprint of the frame read before the last scroll.
    pub last_seen: Option<Seq<char>>,
    /// Scrolls made so far.
    pub scrolls: nat,
    /// The most scrolls one sweep makes.
    pub limit: nat,
}

/// What the matcher answered on a frame, as far as a sweep cares.
pub enum FrameAnswer {
    Found,
    Ambiguous,
    Missing,
}

/// The kind of a [`SweepStep`].
pub enum StepKind {
    Found,
    Stop,
    End,
    ProbeBack,
    Scroll,
}

pub open spec fn answer_of(found: Result<TextBox, AutomationError>) -> FrameAnswer {
    match found {
        Ok(_) => FrameAnswer::Found,
        Err(AutomationError::AmbiguousVision(_)) => FrameAnswer::Ambiguous,
        Err(_) => FrameAnswer::Missing,
    }
}

pub open spec fn step_kind(s: SweepStep) -> StepKind {
    match s {
        SweepStep::Found(_) => StepKind::Found,
        SweepStep::Stop(_) => StepKind::Stop,
        SweepStep::End => StepKind::End,
        SweepStep::ProbeBack => StepKind::ProbeBack,
        SweepStep::Scroll => StepKind::Scroll,
    }
}

/// One step of a sweep: the frame `fp` with answer `a` seen in state `s`.
pub open spec fn sweep_next(s: SweepView, fp: Seq<char>, a: FrameAnswer) -> (SweepView, StepKind) {
    match a {
        FrameAnswer::Found => (s, StepKind::Found),
        FrameAnswer::Ambiguous => (s, StepKind::Stop),
        FrameAnswer::Missing => if s.scrolls >= s.limit {
            (s, StepKind::End)
        } else if s.last_seen == Some(fp) {
            (s, StepKind::ProbeBack)
        } else {
            (SweepView { last_seen: Some(fp), scrolls: s.scrolls + 1, limit: s.limit }, StepKind::Scroll)
        },
    }
}

/// The sweep state after feeding `frames` in order; the sweep stops at the
/// first step that is not a scroll.
pub open spec fn sweep_after(s: SweepView, frames: Seq<(Seq<char>, FrameAnswer)>) -> SweepView
    decreases frames.len(),
{
    if frames.len() == 0 {
        s
    } else {
        let (n, k) = sweep_next(s, frames[0].0, frames[0].1);
        if k is Scroll {
            sweep_after(n, frames.drop_first())
        } else {
            n
        }
    }
}

impl View for ListSweep {
    type V = SweepView;

    closed spec fn view(&self) -> SweepView {
        SweepView {
            last_seen: match self.previous {
                Some(f) => Some(f@),
                None => None,
            },
            scrolls: self.scrolled as nat,
            limit: self.max_scrolls as nat,
        }
    }
}

impl ListSweep {
    /// The sweep never scrolls past its maximum.
    pub open spec fn wf(&self) -> bool {
        self@.scrolls <= self@.limit
    }

    /// A sweep from the current position, scrolling at most `max_scroll_attempts` times.
    pub fn new(max_scroll_attempts: u32) -> (s: ListSweep)
        ensures
            s.wf(),
            s@ == (SweepView { last_seen: None, scrolls: 0, limit: max_scroll_attempts as nat }),
    {
        ListSweep { previous: None, scrolled: 0, max_scrolls: max_scroll_attempts }
    }

    /// Decides what follows a frame with fingerprint `fingerprint` on which the
    /// matcher answered `found`: the contact itself, the ambiguity, or (the
    /// contact missing) the end of the sweep, a probe the other way, or a scroll.
    pub fn on_frame(&mut self, fingerprint: String, found: Result<TextBox, AutomationError>) -> (r: SweepStep)
        requires
            old(self).wf(),
        ensures
            final(self).wf(),
            (final(self)@, step_kind(r)) == sweep_next(old(self)@, fingerprint@, answer_of(found)),
            found matches Ok(m) ==> r == SweepStep::Found(m),
            found matches Err(AutomationError::AmbiguousVision(t)) ==> r == SweepStep::Stop(
                AutomationError::AmbiguousVision(t),
            ),
    {
        match found {
            Ok(m) => SweepStep::Found(m),
            Err(AutomationError::AmbiguousVision(t)) => SweepStep::Stop(AutomationError::AmbiguousVision(t)),
            Err(_) => {
                if self.scrolled >= self.max_scrolls {
                    return SweepStep::End;
                }
                let same = match &self.previous {
                    Some(p) => p.eq(&fingerprint),
                    None => false,
                };
                if same {
                    return SweepStep::ProbeBack;
                }
                self.previous = Some(fingerprint);
                self.scrolled = self.scrolled + 1;
                SweepStep::Scroll
            },
        }
    }
}

/// However the frames and the matcher's answers fall, one sweep scrolls at
/// most its maximum number of times.
pub proof fn lemma_sweep_scrolls_are_bounded(s: SweepView, frames: Seq<(Seq<char>, FrameAnswer)>)
    requires
        s.scrolls <= s.limit,
    ensures
        sweep_after(s, frames).scrolls <= s.limit,
        sweep_after(s, frames).limit == s.limit,
        sweep_after(s, frames).scrolls >= s.scrolls,
    decreases frames.len(),
{
    if frames.len() > 0 {
        let (n, k) = sweep_next(s, frames[0].0, frames[0].1);
        if k is Scroll {
            lemma_sweep_scrolls_are_bounded(n, frames.drop_first());
        }
    }
}

/// The run gives up after this many full sweeps (at least one).
pub fn sweep_count(max_search_sweeps: u32) -> (r: u32)
    ensures
        r == (if max_search_sweeps < 1 { 1 } else { max_search_sweeps }),
{
    if max_search_sweeps < 1 { 1 } else { max_search_sweeps }
}

pub open spec fn sweeps_exhausted_text(sweeps: nat, name: Seq<char>) -> Seq<char> {
    "已把联系人列表从头到尾完整扫描 "@ + decimal(sweeps) + " 轮，仍未找到「"@ + trim(name)
        + "」。请确认该联系人确实存在，且列表没有被搜索框或筛选条件限制。"@
}

/// The refusal after every sweep missed the contact.
pub fn sweeps_exhausted(sweeps: u32, name: &str) -> (e: AutomationError)
    ensures
        e@ == ErrorView::NeedsHumanReview(sweeps_exhausted_text(sweeps as nat, name@)),
{
    let mut r = String::from_str("已把联系人列表从头到尾完整扫描 ");
    push_decimal(&mut r, sweeps as usize);
    push_str(&mut r, " 轮，仍未找到「");
    let n = trimmed(name);
    push_str(&mut r, n.as_str());
    push_str(&mut r, "」。请确认该联系人确实存在，且列表没有被搜索框或筛选条件限制。");
    AutomationError::NeedsHumanReview(r)
}

pub open spec fn frozen_text(what: Seq<char>) -> Seq<char> {
    "客户端疑似卡死："@ + what + "，且系统判定该窗口未响应消息。请确认程序没有卡住（必要时重启客户端并重新登录）后重试。"@
}

/// The liveness guard's verdict once the system has answered whether the
/// client window responds; `what` names the action given up.
pub fn frozen_verdict(responsive: bool, what: &str) -> (r: Result<(), AutomationError>)
    ensures
        responsive ==> r is Ok,
        !responsive ==> (match r {
            Err(e) => e@ == ErrorView::NeedsHumanReview(frozen_text(what@)),
            Ok(_) => false,
        }),
{
    if responsive {
        return Ok(());
    }
    let mut r = String::from_str("客户端疑似卡死：");
    push_str(&mut r, what);
    push_str(&mut r, "，且系统判定该窗口未响应消息。请确认程序没有卡住（必要时重启客户端并重新登录）后重试。");
    Err(AutomationError::NeedsHumanReview(r))
}

// ---------------------------------------------------------------------------
// Scrolling to an end (top of the list, bottom of the profile)
// ---------------------------------------------------------------------------

/// Scrolling one way until the view stops changing: the frame seen last and
/// the scrolls made so far. The bound is one more than the configured number
/// of scrolls (only one more scroll that changes nothing shows the end), and
/// the loop makes one round more than its bound.
#[derive(Debug)]
pub struct ScrollToEnd {
    previous: Option<String>,
    rounds: u64,
    limit: u32,
}

/// The value of a [`ScrollToEnd`].
pub struct EndProbeView {
    pub last_seen: Option<Seq<char>>,
    /// Scrolls made so far.
    pub rounds: nat,
    /// The bound reported when the end is never reached.
    pub bound: nat,
}

/// Looking at frame `fp`: the new state, and whether the view stood still.
pub open spec fn probe_next(s: EndProbeView, fp: Seq<char>) -> (EndProbeView, bool) {
    if s.last_seen == Some(fp) {
        (s, true)
    } else {
        (EndProbeView { last_seen: Some(fp), rounds: s.rounds + 1, bound: s.bound }, false)
    }
}

/// The state after the frames `fps`, one per round, until the view stands
/// still or every round is used.
pub open spec fn probe_after(s: EndProbeView, fps: Seq<Seq<char>>) -> EndProbeView
    decreases fps.len(),
{
    if fps.len() == 0 || s.rounds > s.bound {
        s
    } else {
        let (n, still) = probe_next(s, fps[0]);
        if still {
            n
        } else {
            probe_after(n, fps.drop_first())
        }
    }
}

impl View for ScrollToEnd {
    type V = EndProbeView;

    closed spec fn view(&self) -> EndProbeView {
        EndProbeView {
            last_seen: match self.previous {
                Some(f) => Some(f@),
                None => None,
            },
            rounds: self.rounds as nat,
            bound: self.limit as nat,
        }
    }
}

impl ScrollToEnd {
    pub open spec fn wf(&self) -> bool {
        self@.rounds <= self@.bound + 1
    }

    /// A new attempt; `max_scroll_attempts` is the configured number of scrolls.
    pub fn new(max_scroll_attempts: u32) -> (s: ScrollToEnd)
        requires
            max_scroll_attempts < u32::MAX,
        ensures
            s.wf(),
            s@ == (EndProbeView {
                last_seen: None,
                rounds: 0,
                bound: ((if max_scroll_attempts < 1 { 1 } else { max_scroll_attempts }) + 1) as nat,
            }),
    {
        let m = if max_scroll_attempts < 1 { 1 } else { max_scroll_attempts };
        ScrollToEnd { previous: None, rounds: 0, limit: m + 1 }
    }

    /// The number of scrolls after which the attempt gives up.
    pub fn limit(&self) -> (r: u32)
        ensures
            r == self@.bound,
    {
        self.limit
    }

    /// Every allowed round has been used.
    pub fn exhausted(&self) -> (r: bool)
        ensures
            r == (self@.rounds > self@.bound),
    {
        self.rounds > self.limit as u64
    }

    /// Looks at a new frame: `true` when it repeats the frame before the last
    /// scroll (the end is reached); otherwise it is remembered and a scroll follows.
    pub fn observe(&mut self, fingerprint: String) -> (still: bool)
        requires
            old(self).wf(),
            old(self)@.rounds <= old(self)@.bound,
        ensures
            final(self).wf(),
            (final(self)@, still) == probe_next(old(self)@, fingerprint@),
    {
        let same = match &self.previous {
            Some(p) => p.eq(&fingerprint),
            None => false,
        };
        if same {
            return true;
        }
        self.previous = Some(fingerprint);
        self.rounds = self.rounds + 1;
        false
    }
}

/// However the frames fall, scrolling to an end makes at most one scroll
/// more than its bound before it gives up.
pub proof fn lemma_scrolling_to_an_end_is_bounded(s: EndProbeView, fps: Seq<Seq<char>>)
    requires
        s.rounds <= s.bound + 1,
    ensures
        probe_after(s, fps).rounds <= s.bound + 1,
        probe_after(s, fps).bound == s.bound,
    decreases fps.len(),
{
    if fps.len() > 0 && s.rounds <= s.bound {
        let (n, still) = probe_next(s, fps[0]);
        if !still {
            lemma_scrolling_to_an_end_is_bounded(n, fps.drop_first());
        }
    }
}

pub open spec fn top_not_reached_text(limit: nat) -> Seq<char> {
    "向上滚动 "@ + decimal(limit) + " 次仍未回到联系人列表顶部，拒绝继续猜测扫描起点。"@
}

pub open spec fn bottom_not_reached_text(limit: nat) -> Seq<char> {
    "向下滚动 "@ + decimal(limit) + " 次仍未让资料页画面稳定下来，拒绝继续猜测滚动位置。"@
}

/// The refusal when the contact list never stopped moving upwards.
pub fn top_not_reached(limit: u32) -> (e: AutomationError)
    ensures
        e@ == ErrorView::NeedsHumanReview(top_not_reached_text(limit as nat)),
{
    let mut r = String::from_str("向上滚动 ");
    push_decimal(&mut r, limit as usize);
    push_str(&mut r, " 次仍未回到联系人列表顶部，拒绝继续猜测扫描起点。");
    AutomationError::NeedsHumanReview(r)
}

/// The refusal when the profile page never stopped moving downwards.
pub fn bottom_not_reached(limit: u32) -> (e: AutomationError)
    ensures
        e@ == ErrorView::NeedsHumanReview(bottom_not_reached_text(limit as nat)),
{
    let mut r = String::from_str("向下滚动 ");
    push_decimal(&mut r, limit as usize);
    push_str(&mut r, " 次仍未让资料页画面稳定下来，拒绝继续猜测滚动位置。");
    AutomationError::NeedsHumanReview(r)
}

// ---------------------------------------------------------------------------
// The window against its calibration
// ---------------------------------------------------------------------------

/// Between the calibration and a click the window may move this many pixels on each axis.
pub const POSITION_SLOP_PX: i32 = 4;

/// Window sizes within this many pixels count as the same (DPI rounding).
pub const WINDOW_SIZE_TOLERANCE_PX: i32 = 1;

pub open spec fn abs_diff(a: int, b: int) -> int {
    if a >= b { a - b } else { b - a }
}

/// The window in front is still the calibrated one: the same size, and within
/// [`POSITION_SLOP_PX`] of the same place.
pub open spec fn window_unchanged(expected: Rect, current: Rect) -> bool {
    &&& current.width == expected.width
    &&& current.height == expected.height
    &&& abs_diff(current.x as int, expected.x as int) <= POSITION_SLOP_PX
    &&& abs_diff(current.y as int, expected.y as int) <= POSITION_SLOP_PX
}

/// The guard before a click, on the window: the current rectangle when it is
/// still the calibrated one, `ScreenChanged` otherwise.
pub fn window_guard(expected: Rect, current: Rect) -> (r: Result<Rect, AutomationError>)
    ensures
        window_unchanged(expected, current) ==> r == Ok::<Rect, AutomationError>(current),
        !window_unchanged(expected, current) ==> r matches Err(AutomationError::ScreenChanged),
{
    if current.width != expected.width || current.height != expected.height {
        return Err(AutomationError::ScreenChanged);
    }
    let dx = current.x as i64 - expected.x as i64;
    let dy = current.y as i64 - expected.y as i64;
    if dx > 4 || dx < -4 || dy > 4 || dy < -4 {
        return Err(AutomationError::ScreenChanged);
    }
    Ok(current)
}

/// The guard before a click, on the display: against the metrics taken when
/// the run attached (if any), the size must be the same and the scale
/// (`scale_unchanged`, within 0.01) too.
pub fn screen_guard(attached: Option<(u32, u32)>, width: u32, height: u32, scale_unchanged: bool) -> (r: Result<
    (),
    AutomationError,
>)
    ensures
        match attached {
            None => r is Ok,
            Some((w, h)) => if w == width && h == height && scale_unchanged {
                r is Ok
            } else {
                r matches Err(AutomationError::ScreenChanged)
            },
        },
{
    match attached {
        None => Ok(()),
        Some((w, h)) => {
            if w != width || h != height {
                return Err(AutomationError::ScreenChanged);
            }
            if !scale_unchanged {
                return Err(AutomationError::ScreenChanged);
            }
            Ok(())
        },
    }
}

/// The window's size is the calibrated `width` x `height`, within [`WINDOW_SIZE_TOLERANCE_PX`].
pub open spec fn size_close(window: Rect, width: i32, height: i32) -> bool {
    abs_diff(window.width as int, width as int) <= WINDOW_SIZE_TOLERANCE_PX && abs_diff(
        window.height as int,
        height as int,
    ) <= WINDOW_SIZE_TOLERANCE_PX
}

pub fn size_within_tolerance(window: Rect, width: i32, height: i32) -> (r: bool)
    ensures
        r == size_close(window, width, height),
{
    let dw = window.width as i64 - width as i64;
    let dh = window.height as i64 - height as i64;
    -1 <= dw && dw <= 1 && -1 <= dh && dh <= 1
}

/// What to do about the window's size before the run starts.
#[derive(Debug)]
pub enum SizePlan {
    /// The window matches its calibration.
    Keep,
    /// Resize the window to the given size, then measure again.
    Resize { width: i32, height: i32 },
    /// The size cannot be fixed by resizing.
    Refuse(AutomationError),
}

pub open spec fn scale_mismatch_text(recorded: Seq<char>, current: Seq<char>) -> Seq<char> {
    "显示器缩放与标定记录不一致：记录 "@ + recorded + "，当前 "@ + current
        + "。缩放不同意味着同一物理尺寸下的界面布局本来就不同，调整窗口尺寸解决不了——请把窗口移回标定时那块显示器，或重新点「记录窗口尺寸」并保存配置。"@
}

/// Plans the window's size against the calibration `width` x `height`.
///
/// `scale_ok` says whether the display scale matches the calibration's;
/// when it does not, `alternative` is the size of another calibration made at
/// the current scale, if there is one. `recorded_scale` and `current_scale`
/// are how the two scales read in the refusal.
pub fn plan_window_size(
    window: Rect,
    width: i32,
    height: i32,
    scale_ok: bool,
    alternative: Option<(i32, i32)>,
    recorded_scale: &str,
    current_scale: &str,
) -> (r: SizePlan)
    ensures
        size_close(window, width, height) && scale_ok ==> r is Keep,
        !(size_close(window, width, height) && scale_ok) ==> if scale_ok {
            r == (SizePlan::Resize { width, height })
        } else {
            match alternative {
                Some((w, h)) => r == (SizePlan::Resize { width: w, height: h }),
                None => match r {
                    SizePlan::Refuse(e) => e@ == ErrorView::NeedsHumanReview(
                        scale_mismatch_text(recorded_scale@, current_scale@),
                    ),
                    _ => false,
                },
            }
        },
{
    if size_within_tolerance(window, width, height) && scale_ok {
        return SizePlan::Keep;
    }
    if !scale_ok {
        return match alternative {
            Some((w, h)) => SizePlan::Resize { width: w, height: h },
            None => {
                let mut r = String::from_str("显示器缩放与标定记录不一致：记录 ");
                push_str(&mut r, recorded_scale);
                push_str(&mut r, "，当前 ");
                push_str(&mut r, current_scale);
                push_str(
                    &mut r,
                    "。缩放不同意味着同一物理尺寸下的界面布局本来就不同，调整窗口尺寸解决不了——请把窗口移回标定时那块显示器，或重新点「记录窗口尺寸」并保存配置。",
                );
                SizePlan::Refuse(AutomationError::NeedsHumanReview(r))
            },
        };
    }
    SizePlan::Resize { width, height }
}

pub open spec fn dims(w: int, h: int) -> Seq<char> {
    signed_decimal(w) + "×"@ + signed_decimal(h)
}

pub open spec fn resize_failed_text(width: int, height: int, before: Rect, after: Rect) -> Seq<char> {
    "窗口尺寸与标定记录不一致，且自动调整没有生效：标定 "@ + dims(width, height) + "，调整前 "@ + dims(
        before.width as int,
        before.height as int,
    ) + "，调整后 "@ + dims(after.width as int, after.height as int)
        + "。客户端通常会限制最小窗口尺寸，标定值比它小时就会被夹住。请把窗口手工调到 "@ + dims(width, height)
        + "，或重新点「记录窗口尺寸」并保存配置。"@
}

fn push_dims(out: &mut String, w: i32, h: i32)
    ensures
        final(out)@ == old(out)@ + dims(w as int, h as int),
{
    push_signed(out, w);
    push_str(out, "×");
    push_signed(out, h);
}

/// The verdict on a resized window, measured again: the size the run works
/// at, or the refusal naming the calibration and both measurements. (The
/// scale of the calibration resized to always matches the display.)
pub fn check_resized(before: Rect, after: Rect, width: i32, height: i32) -> (r: Result<Rect, AutomationError>)
    ensures
        size_close(after, width, height) ==> r == Ok::<Rect, AutomationError>(after),
        !size_close(after, width, height) ==> (match r {
            Err(e) => e@ == ErrorView::NeedsHumanReview(
                resize_failed_text(width as int, height as int, before, after),
            ),
            Ok(_) => false,
        }),
{
    if size_within_tolerance(after, width, height) {
        return Ok(after);
    }
    let mut r = String::from_str("窗口尺寸与标定记录不一致，且自动调整没有生效：标定 ");
    push_dims(&mut r, width, height);
    push_str(&mut r, "，调整前 ");
    push_dims(&mut r, before.width, before.height);
    push_str(&mut r, "，调整后 ");
    push_dims(&mut r, after.width, after.height);
    push_str(&mut r, "。客户端通常会限制最小窗口尺寸，标定值比它小时就会被夹住。请把窗口手工调到 ");
    push_dims(&mut r, width, height);
    push_str(&mut r, "，或重新点「记录窗口尺寸」并保存配置。");
    Err(AutomationError::NeedsHumanReview(r))
}

// ---------------------------------------------------------------------------
// Attaching to the client
// ---------------------------------------------------------------------------

pub open spec fn no_window_text() -> Seq<char> {
    "未能接管目标窗口：找不到可见的目标窗口，或它无法被带到前台。请先手动启动并登录客户端，确认它的主窗口可见、未被最小化，然后重试。"@
}

/// How a failure to bring the client's window forward is reported: the
/// platform's own explanation when it gave one, a hand-over naming the usual
/// causes when it only said the client was not ready, any other error as it was.
pub fn attach_failure(err: AutomationError) -> (r: AutomationError)
    ensures
        match err {
            AutomationError::ClientNotReady => r@ == ErrorView::NeedsHumanReview(no_window_text()),
            _ => r == err,
        },
{
    match err {
        AutomationError::ClientNotReady => AutomationError::NeedsHumanReview(
            String::from_str(
                "未能接管目标窗口：找不到可见的目标窗口，或它无法被带到前台。请先手动启动并登录客户端，确认它的主窗口可见、未被最小化，然后重试。",
            ),
        ),
        other => other,
    }
}

pub open spec fn degenerate_window_text() -> Seq<char> {
    "目标窗口尺寸为 0，不能作为标定基准。请先让客户端主窗口正常显示。"@
}

/// The refusal of a window with no area as the run's reference.
pub fn degenerate_window() -> (e: AutomationError)
    ensures
        e@ == ErrorView::NeedsHumanReview(degenerate_window_text()),
{
    AutomationError::NeedsHumanReview(String::from_str("目标窗口尺寸为 0，不能作为标定基准。请先让客户端主窗口正常显示。"))
}

pub open spec fn attached_text(window: Rect, first_seen: Rect, scale: Seq<char>) -> Seq<char> {
    "窗口 "@ + signed_decimal(window.width as int) + "x"@ + signed_decimal(window.height as int) + " @("@
        + signed_decimal(window.x as int) + ","@ + signed_decimal(window.y as int) + ")，缩放 "@ + scale + if window.width
        != first_seen.width || window.height != first_seen.height {
        "（已自动从 "@ + signed_decimal(first_seen.width as int) + "x"@ + signed_decimal(first_seen.height as int)
            + " 调整到标定尺寸）"@
    } else {
        Seq::empty()
    }
}

/// The detail recorded when the run has attached to `window` (measured as
/// `first_seen` before any resize); `scale` is how the display scale reads.
pub fn attached_detail(window: Rect, first_seen: Rect, scale: &str) -> (r: String)
    ensures
        r@ == attached_text(window, first_seen, scale@),
{
    let mut r = String::from_str("窗口 ");
    push_signed(&mut r, window.width);
    push_str(&mut r, "x");
    push_signed(&mut r, window.height);
    push_str(&mut r, " @(");
    push_signed(&mut r, window.x);
    push_str(&mut r, ",");
    push_signed(&mut r, window.y);
    push_str(&mut r, ")，缩放 ");
    push_str(&mut r, scale);
    if window.width != first_seen.width || window.height != first_seen.height {
        push_str(&mut r, "（已自动从 ");
        push_signed(&mut r, first_seen.width);
        push_str(&mut r, "x");
        push_signed(&mut r, first_seen.height);
        push_str(&mut r, " 调整到标定尺寸）");
    }
    r
}

// ---------------------------------------------------------------------------
// Verifications
// ---------------------------------------------------------------------------

pub open spec fn candidate_refused_text(text: Seq<char>, name: Seq<char>) -> Seq<char> {
    "候选人文字「"@ + trim(text) + "」不被当前的姓名匹配策略接受（目标「"@ + trim(name) + "」）"@
}

pub open spec fn candidate_unsure_text(confidence: Seq<char>, threshold: Seq<char>) -> Seq<char> {
    "候选人置信度 "@ + confidence + " 低于阈值 "@ + threshold
}

/// The check of the selected candidate: the matching policy must accept it
/// (`accepted`, the policy's answer) and its confidence must reach the
/// minimum. `shown_confidence` is how the candidate's confidence reads.
pub fn candidate_verdict(
    accepted: bool,
    matched: &TextBox,
    expected_name: &str,
    min: &ConfidenceThreshold,
    shown_confidence: &str,
) -> (r: Result<(), AutomationError>)
    ensures
        !accepted ==> (match r {
            Err(e) => e@ == ErrorView::AmbiguousVision(candidate_refused_text(matched.text@, expected_name@)),
            Ok(_) => false,
        }),
        accepted && matched.confidence < min.key ==> (match r {
            Err(e) => e@ == ErrorView::AmbiguousVision(candidate_unsure_text(shown_confidence@, min.shown@)),
            Ok(_) => false,
        }),
        accepted && matched.confidence >= min.key ==> r is Ok,
{
    if !accepted {
        let mut r = String::from_str("候选人文字「");
        let t = trimmed(matched.text.as_str());
        push_str(&mut r, t.as_str());
        push_str(&mut r, "」不被当前的姓名匹配策略接受（目标「");
        let n = trimmed(expected_name);
        push_str(&mut r, n.as_str());
        push_str(&mut r, "」）");
        return Err(AutomationError::AmbiguousVision(r));
    }
    if matched.confidence < min.key {
        let mut r = String::from_str("候选人置信度 ");
        push_str(&mut r, shown_confidence);
        push_str(&mut r, " 低于阈值 ");
        push_str(&mut r, min.shown.as_str());
        return Err(AutomationError::AmbiguousVision(r));
    }
    Ok(())
}

pub open spec fn chat_click_ineffective_text(name: Seq<char>) -> Seq<char> {
    "为「"@ + trim(name) + "」打开聊天的那个点击之后，画面没有任何变化——这次点击可能没有生效。请检查客户端是否卡死、是否被其它窗口遮挡，然后重试。"@
}

pub open spec fn header_mismatch_text(found: Seq<char>, name: Seq<char>) -> Seq<char> {
    "聊天页标题「"@ + trim(found) + "」与目标「"@ + trim(name) + "」不一致"@
}

/// The check of the chat page's title. `header` is the matcher's pick among
/// the title's blocks and `accepted` the policy's answer on it; when the title
/// does not show the target and the click that opened the chat changed
/// nothing on screen, the click is blamed rather than the title.
pub fn chat_header_verdict(
    header: Result<TextBox, AutomationError>,
    accepted: bool,
    last_click_reacted: Option<bool>,
    expected_name: &str,
) -> (r: Result<(), AutomationError>)
    ensures
        header is Ok && accepted ==> r is Ok,
        !(header is Ok && accepted) && last_click_reacted == Some(false) ==> (match r {
            Err(e) => e@ == ErrorView::NeedsHumanReview(chat_click_ineffective_text(expected_name@)),
            Ok(_) => false,
        }),
        !(header is Ok && accepted) && last_click_reacted != Some(false) ==> match header {
            Err(e) => r == Err::<(), AutomationError>(e),
            Ok(b) => match r {
                Err(e) => e@ == ErrorView::AmbiguousVision(header_mismatch_text(b.text@, expected_name@)),
                Ok(_) => false,
            },
        },
{
    let matched = header.is_ok() && accepted;
    if matched {
        return Ok(());
    }
    if last_click_reacted == Some(false) {
        let mut r = String::from_str("为「");
        let n = trimmed(expected_name);
        push_str(&mut r, n.as_str());
        push_str(
            &mut r,
            "」打开聊天的那个点击之后，画面没有任何变化——这次点击可能没有生效。请检查客户端是否卡死、是否被其它窗口遮挡，然后重试。",
        );
        return Err(AutomationError::NeedsHumanReview(r));
    }
    match header {
        Err(e) => Err(e),
        Ok(b) => {
            let mut r = String::from_str("聊天页标题「");
            let t = trimmed(b.text.as_str());
            push_str(&mut r, t.as_str());
            push_str(&mut r, "」与目标「");
            let n = trimmed(expected_name);
            push_str(&mut r, n.as_str());
            push_str(&mut r, "」不一致");
            Err(AutomationError::AmbiguousVision(r))
        },
    }
}

/// The conclusion of the profile-page check.
#[derive(Debug)]
pub enum ProfileReview {
    /// The profile shows the target; its chat entry can be clicked.
    Verified,
    /// The profile does not show the target, for the given reason. Whether
    /// that fails the run is decided by the next step (the client may have
    /// opened the existing chat directly).
    NotFound(AutomationError),
}

pub open spec fn profile_click_ineffective_text(name: Seq<char>) -> Seq<char> {
    "点搜索下拉里那一行之后，资料区画面没有任何变化——这次点击可能没有生效。请检查客户端是否卡死、是否被其它窗口遮挡，然后重试。（目标「"@
        + trim(name) + "」）"@
}

pub open spec fn profile_mismatch_text(found: Seq<char>, name: Seq<char>) -> Seq<char> {
    "资料页上读到的是「"@ + trim(found) + "」，与目标「"@ + trim(name) + "」不一致——可能点错了人"@
}

/// The check of the profile page. `found` is the matcher's pick among the
/// profile's blocks and `accepted` the policy's answer on it.
pub fn profile_verdict(
    found: Result<TextBox, AutomationError>,
    accepted: bool,
    last_click_reacted: Option<bool>,
    expected_name: &str,
) -> (r: Result<ProfileReview, AutomationError>)
    ensures
        found is Ok && accepted ==> r matches Ok(ProfileReview::Verified),
        !(found is Ok && accepted) && last_click_reacted == Some(false) ==> (match r {
            Err(e) => e@ == ErrorView::NeedsHumanReview(profile_click_ineffective_text(expected_name@)),
            Ok(_) => false,
        }),
        !(found is Ok && accepted) && last_click_reacted != Some(false) ==> match found {
            Err(e) => r == Ok::<ProfileReview, AutomationError>(ProfileReview::NotFound(e)),
            Ok(b) => match r {
                Ok(ProfileReview::NotFound(e)) => e@ == ErrorView::AmbiguousVision(
                    profile_mismatch_text(b.text@, expected_name@),
                ),
                _ => false,
            },
        },
{
    let matched = found.is_ok() && accepted;
    if matched {
        return Ok(ProfileReview::Verified);
    }
    if last_click_reacted == Some(false) {
        let mut r = String::from_str(
            "点搜索下拉里那一行之后，资料区画面没有任何变化——这次点击可能没有生效。请检查客户端是否卡死、是否被其它窗口遮挡，然后重试。（目标「",
        );
        let n = trimmed(expected_name);
        push_str(&mut r, n.as_str());
        push_str(&mut r, "」）");
        return Err(AutomationError::NeedsHumanReview(r));
    }
    match found {
        Err(e) => Ok(ProfileReview::NotFound(e)),
        Ok(b) => {
            let mut r = String::from_str("资料页上读到的是「");
            let t = trimmed(b.text.as_str());
            push_str(&mut r, t.as_str());
            push_str(&mut r, "」，与目标「");
            let n = trimmed(expected_name);
            push_str(&mut r, n.as_str());
            push_str(&mut r, "」不一致——可能点错了人");
            Ok(ProfileReview::NotFound(AutomationError::AmbiguousVision(r)))
        },
    }
}

pub open spec fn skipped_profile_text(profile_reason: Seq<char>) -> Seq<char> {
    "资料页上没认到目标（"@ + profile_reason + "），但聊天页标题就是目标 ⇒ 判定客户端直接打开了已有的会话，已跳过「资料页 / 点发消息」两步。"@
}

pub open spec fn header_also_missed_text(header_reason: Seq<char>) -> Seq<char> {
    "（跳过资料页之后，聊天页标题也没认下来："@ + header_reason + "）"@
}

/// When the profile page did not show the target, the chat title decides:
/// if it shows the target, the client opened the existing chat directly and
/// the run goes on; otherwise the profile's reason fails the run. Either way
/// the returned line records what happened.
pub fn without_profile(profile_reason: AutomationError, header: Result<(), AutomationError>) -> (r: (
    Result<(), AutomationError>,
    String,
))
    ensures
        match header {
            Ok(()) => r.0 is Ok && r.1@ == skipped_profile_text(error_message(profile_reason)),
            Err(h) => r.0 == Err::<(), AutomationError>(profile_reason) && r.1@ == header_also_missed_text(
                error_message(h),
            ),
        },
{
    match header {
        Ok(()) => {
            let mut note = String::from_str("资料页上没认到目标（");
            let reason = profile_reason.message();
            push_str(&mut note, reason.as_str());
            push_str(&mut note, "），但聊天页标题就是目标 ⇒ 判定客户端直接打开了已有的会话，已跳过「资料页 / 点发消息」两步。");
            (Ok(()), note)
        },
        Err(h) => {
            let mut note = String::from_str("（跳过资料页之后，聊天页标题也没认下来：");
            let reason = h.message();
            push_str(&mut note, reason.as_str());
            push_str(&mut note, "）");
            (Err(profile_reason), note)
        },
    }
}

pub open spec fn field_read_text(read: Result<Seq<TextBoxView>, ErrorView>) -> Seq<char> {
    match read {
        Ok(c) => described(c),
        Err(e) => "（核对失败："@ + view_message(e) + "）"@,
    }
}

/// The operator-facing message of an error value.
pub open spec fn view_message(e: ErrorView) -> Seq<char> {
    match e {
        ErrorView::ClientNotReady => "企业微信窗口不可用或不是前台窗口"@,
        ErrorView::ScreenChanged => "屏幕状态在操作前发生变化"@,
        ErrorView::AmbiguousVision(t) => "本地视觉识别结果不确定："@ + t,
        ErrorView::NeedsHumanReview(t) => "需要人工处理："@ + t,
        ErrorView::Platform(t) => "平台操作失败："@ + t,
        ErrorView::Cancelled => "任务已被取消"@,
        ErrorView::Timeout(t) => "步骤超时："@ + t,
    }
}

pub open spec fn field_diagnosis_text(reason: Seq<char>, read: Seq<char>, keyword: Seq<char>) -> Seq<char> {
    reason + "；另外核对了一次搜索框，读到："@ + read + "。若这里面没有「"@ + keyword + "」，说明关键词没有落进搜索框，而不是「没有这个联系人」。"@
}

/// Whether a failed dropdown pick is worth checking the search box for: only
/// hand-overs are (other errors keep their own failure codes).
pub fn needs_field_check(err: &AutomationError) -> (r: bool)
    ensures
        r == (err is NeedsHumanReview),
{
    match err {
        AutomationError::NeedsHumanReview(_) => true,
        _ => false,
    }
}

/// A hand-over from the dropdown, completed with what the search box was read
/// to contain (`read`: its blocks, or why reading them failed); other errors
/// are kept as they are.
pub fn search_field_diagnosis(
    err: AutomationError,
    read: Result<Vec<TextBox>, AutomationError>,
    keyword: &str,
) -> (r: AutomationError)
    ensures
        match err {
            AutomationError::NeedsHumanReview(reason) => r@ == ErrorView::NeedsHumanReview(
                field_diagnosis_text(
                    reason@,
                    field_read_text(
                        match read {
                            Ok(b) => Ok(boxes_view(b@)),
                            Err(e) => Err(e@),
                        },
                    ),
                    keyword@,
                ),
            ),
            _ => r == err,
        },
{
    match err {
        AutomationError::NeedsHumanReview(reason) => {
            let seen = match &read {
                Ok(b) => describe_candidates(b.as_slice()),
                Err(cause) => {
                    let mut s = String::from_str("（核对失败：");
                    let m = cause.message();
                    push_str(&mut s, m.as_str());
                    push_str(&mut s, "）");
                    s
                },
            };
            let mut r = reason;
            push_str(&mut r, "；另外核对了一次搜索框，读到：");
            push_str(&mut r, seen.as_str());
            push_str(&mut r, "。若这里面没有「");
            push_str(&mut r, keyword);
            push_str(&mut r, "」，说明关键词没有落进搜索框，而不是「没有这个联系人」。");
            AutomationError::NeedsHumanReview(r)
        },
        other => other,
    }
}

// ---------------------------------------------------------------------------
// The profile page's chat entry
// ---------------------------------------------------------------------------

pub open spec fn entry_missing_text(entry: Seq<char>) -> Seq<char> {
    "资料页里没有找到「"@ + entry + "」这个入口（已经滚到最下面）。请确认这一项文字与当前客户端对得上，或到「界面标定」页核对「联系人资料区域」。"@
}

/// The block of the chat entry on the (fully scrolled) profile page: the
/// topmost block above the minimum confidence whose visible characters contain
/// those of the configured entry text.
pub open spec fn entry_index(c: Seq<TextBoxView>, entry_text: Seq<char>, min: u32) -> int {
    top_flagged(c, containing_title_flags(c, min, normalize(trim(entry_text))), c.len() as int)
}

/// Finds the chat entry on the profile page (see [`entry_index`]); its absence
/// is a hand-over naming the entry text.
pub fn find_profile_entry(boxes: &[TextBox], entry_text: &str, min: u32) -> (r: Result<TextBox, AutomationError>)
    ensures
        entry_index(boxes_view(boxes@), entry_text@, min) >= 0 ==> (match r {
            Ok(b) => b@ == boxes_view(boxes@)[entry_index(boxes_view(boxes@), entry_text@, min)],
            Err(_) => false,
        }),
        entry_index(boxes_view(boxes@), entry_text@, min) < 0 ==> (match r {
            Err(e) => e@ == ErrorView::NeedsHumanReview(entry_missing_text(trim(entry_text@))),
            Ok(_) => false,
        }),
{
    let entry = trimmed(entry_text);
    let chars = chars_of(entry.as_str());
    let needle = normalized_chars(chars.as_slice());
    let nt = crate::dropdown::normalized_texts(boxes);
    let flags = crate::dropdown::title_flags(boxes, &nt, min, needle.as_slice(), false);
    match crate::dropdown::top_of(boxes, &flags) {
        Some(t) => {
            assert(boxes_view(boxes@)[t as int] == boxes@[t as int]@);
            Ok(boxes[t].clone())
        },
        None => {
            let mut r = String::from_str("资料页里没有找到「");
            push_str(&mut r, entry.as_str());
            push_str(&mut r, "」这个入口（已经滚到最下面）。请确认这一项文字与当前客户端对得上，或到「界面标定」页核对「联系人资料区域」。");
            Err(AutomationError::NeedsHumanReview(r))
        },
    }
}

// ---------------------------------------------------------------------------
// Preparing and delivering the message
// ---------------------------------------------------------------------------

pub open spec fn prepared_text(text: Seq<char>) -> Seq<char> {
    "已把 "@ + decimal(text.len()) + " 个字符逐字填入输入框，未发送"@
}

/// The detail recorded when the run stops with the text typed and not sent.
pub fn prepared_detail(text: &str) -> (r: String)
    ensures
        r@ == prepared_text(text@),
{
    let n = text.unicode_len();
    let mut r = String::from_str("已把 ");
    push_decimal(&mut r, n);
    push_str(&mut r, " 个字符逐字填入输入框，未发送");
    r
}

pub open spec fn unchanged_after_send_text(frozen: bool) -> Seq<char> {
    "发送后聊天区截图未发生变化"@ + (if frozen { "（且系统判定客户端未响应，疑似卡死）"@ } else { Seq::empty() })
        + "，无法确认消息已出现"@
}

/// The refusal when the chat area looks the same after sending as before;
/// `frozen` says the system reported the client as not responding.
pub fn unchanged_after_send(frozen: bool) -> (e: AutomationError)
    ensures
        e@ == ErrorView::NeedsHumanReview(unchanged_after_send_text(frozen)),
{
    let mut r = String::from_str("发送后聊天区截图未发生变化");
    if frozen {
        push_str(&mut r, "（且系统判定客户端未响应，疑似卡死）");
    }
    push_str(&mut r, "，无法确认消息已出现");
    AutomationError::NeedsHumanReview(r)
}

/// Some block read after sending, above the minimum confidence, contains `wanted`.
pub open spec fn message_appears(c: Seq<TextBoxView>, wanted: Seq<char>, min: u32) -> bool {
    exists|i: int| 0 <= i < c.len() && c[i].confidence >= min && #[trigger] seq_contains(c[i].text, wanted)
}

pub open spec fn empty_message_text() -> Seq<char> {
    "消息正文为空"@
}

pub open spec fn not_delivered_text() -> Seq<char> {
    "聊天区未识别到本条消息，拒绝判定为已送达"@
}

/// The delivery check on the chat area read after sending (once it is known
/// to have changed): the trimmed text must appear in a block above the
/// minimum confidence. An empty text is never reported as delivered.
pub fn delivery_verdict(text: &str, after: &[TextBox], min: u32) -> (r: Result<(), AutomationError>)
    ensures
        trim(text@).len() == 0 ==> (match r {
            Err(e) => e@ == ErrorView::NeedsHumanReview(empty_message_text()),
            Ok(_) => false,
        }),
        trim(text@).len() > 0 ==> if message_appears(boxes_view(after@), trim(text@), min) {
            r is Ok
        } else {
            match r {
                Err(e) => e@ == ErrorView::NeedsHumanReview(not_delivered_text()),
                Ok(_) => false,
            }
        },
{
    let ghost c = boxes_view(after@);
    let wanted_s = trimmed(text);
    let wanted = chars_of(wanted_s.as_str());
    if wanted.len() == 0 {
        return Err(AutomationError::NeedsHumanReview(String::from_str("消息正文为空")));
    }
    let mut i: usize = 0;
    while i < after.len()
        invariant
            c == boxes_view(after@),
            wanted@ == trim(text@),
            wanted@.len() > 0,
            i <= after@.len(),
            forall|k: int| 0 <= k < i ==> !(c[k].confidence >= min && #[trigger] seq_contains(c[k].text, wanted@)),
        decreases after@.len() - i,
    {
        assert(c[i as int] == after@[i as int]@);
        if after[i].confidence >= min {
            let t = chars_of(after[i].text.as_str());
            if contains(t.as_slice(), wanted.as_slice()) {
                assert(c[i as int].confidence >= min && seq_contains(c[i as int].text, wanted@));
                return Ok(());
            }
        }
        i = i + 1;
    }
    Err(AutomationError::NeedsHumanReview(String::from_str("聊天区未识别到本条消息，拒绝判定为已送达")))
}

// ---------------------------------------------------------------------------
// Configuration gaps
// ---------------------------------------------------------------------------

pub open spec fn uncalibrated_text(label: Seq<char>) -> Seq<char> {
    "「"@ + label + "」还没有标定，无法继续。请到「界面标定」页把这一块框出来，保存配置后再跑。"@
}

/// The hand-over when a region the workflow needs was never calibrated.
pub fn uncalibrated_region(label: &str) -> (e: AutomationError)
    ensures
        e@ == ErrorView::NeedsHumanReview(uncalibrated_text(label@)),
{
    let mut r = String::from_str("「");
    push_str(&mut r, label);
    push_str(&mut r, "」还没有标定，无法继续。请到「界面标定」页把这一块框出来，保存配置后再跑。");
    AutomationError::NeedsHumanReview(r)
}

pub open spec fn invalid_region_text(label: Seq<char>, why: Seq<char>) -> Seq<char> {
    label + " 区域标定无效："@ + why
}

/// The hand-over when a calibrated region does not fit the window; `why` is
/// the region's own complaint.
pub fn invalid_region(label: &str, why: &str) -> (e: AutomationError)
    ensures
        e@ == ErrorView::NeedsHumanReview(invalid_region_text(label@, why@)),
{
    let mut r = String::from_str(label);
    push_str(&mut r, " 区域标定无效：");
    push_str(&mut r, why);
    AutomationError::NeedsHumanReview(r)
}

pub open spec fn no_templates_text(what: Seq<char>) -> Seq<char> {
    "没有「"@ + what + "」图标的模板，无法定位它。到「图标库」页对着那个图标截一张图存下来，再回到「任务」页选它。"@
}

/// The hand-over when the icon to click has no template to match.
pub fn no_icon_templates(what: &str) -> (e: AutomationError)
    ensures
        e@ == ErrorView::NeedsHumanReview(no_templates_text(what@)),
{
    let mut r = String::from_str("没有「");
    push_str(&mut r, what);
    push_str(&mut r, "」图标的模板，无法定位它。到「图标库」页对着那个图标截一张图存下来，再回到「任务」页选它。");
    AutomationError::NeedsHumanReview(r)
}

/// The keyword typed into the search box: the trimmed target name, which
/// must not be empty.
pub fn search_keyword(name: &str) -> (r: Result<String, AutomationError>)
    ensures
        trim(name@).len() > 0 ==> (match r {
            Ok(k) => k@ == trim(name@),
            Err(_) => false,
        }),
        trim(name@).len() == 0 ==> (match r {
            Err(e) => e@ == ErrorView::NeedsHumanReview("目标联系人为空"@),
            Ok(_) => false,
        }),
{
    let k = trimmed(name);
    if k.as_str().unicode_len() == 0 {
        return Err(AutomationError::NeedsHumanReview(String::from_str("目标联系人为空")));
    }
    Ok(k)
}

// ---------------------------------------------------------------------------
// The name-matching decision record
// ---------------------------------------------------------------------------

pub open spec fn name_question_text(name: Seq<char>) -> Seq<char> {
    "这一屏的文字块里，哪一块是目标联系人「"@ + trim(name) + "」？"@
}

/// The question a name match answers, for the decision record.
pub fn name_match_question(expected_name: &str) -> (r: String)
    ensures
        r@ == name_question_text(expected_name@),
{
    let mut r = String::from_str("这一屏的文字块里，哪一块是目标联系人「");
    let n = trimmed(expected_name);
    push_str(&mut r, n.as_str());
    push_str(&mut r, "」？");
    r
}

pub open spec fn name_outcome_text(result: Result<TextBoxView, ErrorView>, shown_confidence: Seq<char>) -> Seq<char> {
    match result {
        Ok(b) => "选中「"@ + trim(b.text) + "」（置信度 "@ + shown_confidence + "）"@,
        Err(e) => "转人工："@ + view_message(e),
    }
}

/// The outcome line of a name match; `shown_confidence` is how the selected
/// block's confidence reads.
pub fn name_match_outcome(result: &Result<TextBox, AutomationError>, shown_confidence: &str) -> (r: String)
    ensures
        r@ == name_outcome_text(match_view(*result), shown_confidence@),
{
    match result {
        Ok(found) => {
            let mut r = String::from_str("选中「");
            let t = trimmed(found.text.as_str());
            push_str(&mut r, t.as_str());
            push_str(&mut r, "」（置信度 ");
            push_str(&mut r, shown_confidence);
            push_str(&mut r, "）");
            r
        },
        Err(err) => {
            let mut r = String::from_str("转人工：");
            let m = err.message();
            push_str(&mut r, m.as_str());
            r
        },
    }
}

} // verus!
