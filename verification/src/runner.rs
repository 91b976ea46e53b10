//! The decisions of a run that do not depend on the desktop: which workflow
//! does what, how a failure settles the task, when a step is retried, how long
//! to wait between settle polls, and what the outcome of a run says.

use vstd::prelude::*;
use std::time::{Duration, SystemTime};
use crate::ports::{error_code, error_message, spec_is_retryable, spec_requires_human_review, AutomationError, TaskId};
use crate::state::{is_failure_target, spec_is_terminal, TaskState};

verus! {

/// Which path a task takes.
///
/// Finding a contact has two different paths (the search box and its
/// suggestion dropdown, or scrolling the chat list and reading names); their
/// failures look alike ("contact not found") but call for opposite remedies, so
/// they are kept apart. `NavigateOnly` only finds and clicks the navigation icon.
#[derive(Debug, Clone, Copy, PartialEq, Eq, Structural)]
pub enum Workflow {
    /// Find and click the navigation icon, then stop at `Navigated`.
    NavigateOnly,
    /// Search box -> dropdown -> profile page -> chat -> type the text -> `Prepared`.
    SearchContact,
    /// Navigate back to the chat list, scroll and read until the contact is found, open the chat.
    ScrollListContact,
}

pub open spec fn workflow_description(w: Workflow) -> Seq<char> {
    match w {
        Workflow::NavigateOnly => "只做导航（找到图标并点击）"@,
        Workflow::SearchContact => "搜索式查找联系人"@,
        Workflow::ScrollListContact => "列表扫描式查找联系人"@,
    }
}

impl Workflow {
    /// Every workflow, in the order the UI lists them.
    pub const ALL: [Workflow; 3] = [Workflow::SearchContact, Workflow::ScrollListContact, Workflow::NavigateOnly];

    /// Operator-facing name; it tells the three paths apart.
    pub fn describe(self) -> (r: &'static str)
        ensures
            r@ == workflow_description(self),
    {
        match self {
            Workflow::NavigateOnly => "只做导航（找到图标并点击）",
            Workflow::SearchContact => "搜索式查找联系人",
            Workflow::ScrollListContact => "列表扫描式查找联系人",
        }
    }

    /// Whether the run clicks a navigation icon before searching: always for the
    /// two search workflows, and whenever the configuration asks for it.
    pub fn navigates_before_search(self, navigate_before_search: bool) -> (r: bool)
        ensures
            r == (self == Workflow::SearchContact || self == Workflow::ScrollListContact || navigate_before_search),
    {
        match self {
            Workflow::SearchContact | Workflow::ScrollListContact => true,
            Workflow::NavigateOnly => navigate_before_search,
        }
    }
}

/// The state a failure settles the task in.
pub open spec fn spec_failure_state(e: AutomationError) -> TaskState {
    match e {
        AutomationError::Cancelled => TaskState::Cancelled,
        _ => if spec_requires_human_review(e) {
            TaskState::NeedsHumanReview
        } else {
            TaskState::Failed
        },
    }
}

/// Where a failure ends the task: cancelled, handed to a human, or failed.
pub fn failure_state(err: &AutomationError) -> (s: TaskState)
    ensures
        s == spec_failure_state(*err),
{
    match err {
        AutomationError::Cancelled => TaskState::Cancelled,
        other => if other.requires_human_review() {
            TaskState::NeedsHumanReview
        } else {
            TaskState::Failed
        },
    }
}

/// A failure always settles in a terminal failure state, which every live state can reach.
pub proof fn lemma_failure_settles_in_a_terminal_state(e: AutomationError)
    ensures
        is_failure_target(spec_failure_state(e)),
        spec_is_terminal(spec_failure_state(e)),
{
}

/// Failure code and reason, as recorded on a failed run.
#[derive(Debug)]
pub struct Failure {
    pub code: String,
    pub reason: String,
}

/// The failure record of an error: its stable code and its message.
pub fn failure_of(err: &AutomationError) -> (f: Failure)
    ensures
        f.code@ == error_code(*err),
        f.reason@ == error_message(*err),
{
    Failure { code: String::from_str(err.code()), reason: err.message() }
}

/// Whether a step that just failed with `err` on attempt `attempt` of
/// `max_attempts` (counted from 1, at least one attempt) is tried again:
/// only transient errors, and only while attempts are left.
pub fn should_retry(err: &AutomationError, attempt: u32, max_attempts: u32) -> (r: bool)
    ensures
        r == (spec_is_retryable(*err) && attempt < (if max_attempts < 1 { 1 } else { max_attempts })),
{
    let attempts = if max_attempts < 1 { 1 } else { max_attempts };
    err.is_retryable() && attempt < attempts
}

/// Total nanoseconds of a duration (what `Duration::as_nanos` reports).
pub uninterp spec fn duration_nanos(d: Duration) -> u128;

/// `Duration::as_nanos`: the total number of whole nanoseconds in `d` (a
/// duration holds `u64` seconds and fewer than 10^9 extra nanoseconds).
#[verifier::external_body]
fn as_nanos(d: Duration) -> (r: u128)
    ensures
        r == duration_nanos(d),
        r <= u64::MAX as int * 1_000_000_000 + 999_999_999,
{
    d.as_nanos()
}

/// `Duration::new(secs, nanos)`: `secs` seconds plus `nanos` nanoseconds
/// (with `nanos < 10^9` the carry never overflows).
#[verifier::external_body]
fn duration_new(secs: u64, nanos: u32) -> (r: Duration)
    requires
        nanos < 1_000_000_000,
    ensures
        duration_nanos(r) == secs as int * 1_000_000_000 + nanos as int,
{
    Duration::new(secs, nanos)
}

/// The text on the profile page's entry into the chat (WeChat 4.x: "发消息").
pub const DEFAULT_PROFILE_CHAT_ENTRY_TEXT: &'static str = "发消息";

/// The dropdown group titles that hold contacts, by default (see
/// [`crate::dropdown::parse_search_contact_group_labels`]).
pub const DEFAULT_SEARCH_CONTACT_GROUP_LABEL: &'static str = "联系人 / 最常使用";

/// Polls per settle window: the poll interval is the timeout divided by this.
pub const SETTLE_POLL_DIVISOR: u32 = 8;
/// Lower bound of the poll interval, in nanoseconds (20 ms).
pub const MIN_SETTLE_POLL_NANOS: u32 = 20_000_000;

/// The poll interval of "wait until the screen settles": an eighth of the
/// timeout, but never below 20 ms.
pub fn settle_poll_interval(timeout: Duration) -> (r: Duration)
    ensures
        duration_nanos(r) == if duration_nanos(timeout) / 8 > MIN_SETTLE_POLL_NANOS {
            duration_nanos(timeout) / 8
        } else {
            MIN_SETTLE_POLL_NANOS as u128
        },
{
    let total = as_nanos(timeout);
    let eighth = total / 8;
    let wanted = if eighth > MIN_SETTLE_POLL_NANOS as u128 { eighth } else { MIN_SETTLE_POLL_NANOS as u128 };
    let secs = wanted / 1_000_000_000;
    let nanos = wanted % 1_000_000_000;
    assert(secs <= u64::MAX);
    duration_new(secs as u64, nanos as u32)
}

/// One state change of a run, as reported to the progress sink.
#[derive(Debug)]
pub struct StateChange {
    pub task_id: TaskId,
    pub from: TaskState,
    pub to: TaskState,
    pub at: SystemTime,
    pub detail: Option<String>,
    /// Only on the change that settles a failure: the failure code, sent
    /// together with the terminal state so that both arrive at once.
    pub failure_code: Option<String>,
}

/// A progress sink that ignores every change.
#[derive(Debug, Default)]
pub struct NoopProgress;

impl NoopProgress {
    /// Ignores the change.
    pub fn state_changed(&self, change: &StateChange) {
    }
}

/// How one run ended.
#[derive(Debug)]
pub struct RunOutcome {
    pub task_id: TaskId,
    pub state: TaskState,
    pub failure: Option<Failure>,
    /// Evidence references (screenshot fingerprints and the like), no images, no message text.
    pub evidence: Vec<String>,
}

impl RunOutcome {
    /// Whether the message was really sent and its delivery verified. `Prepared`
    /// (stopped before sending, by configuration) does not count.
    pub fn succeeded(&self) -> (r: bool)
        ensures
            r == (self.state == TaskState::Completed),
    {
        self.state == TaskState::Completed
    }

    /// Whether the run ended normally at "typed but not sent".
    pub fn stopped_before_send(&self) -> (r: bool)
        ensures
            r == (self.state == TaskState::Prepared),
    {
        self.state == TaskState::Prepared
    }
}

} // verus!
