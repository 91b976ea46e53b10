//! The task state machine.
//!
//! Every run walks a `TaskMachine` from `Draft` to one of six terminal
//! states. Only the edges listed in [`allowed_edge`] are accepted; the three
//! failure states (`NeedsHumanReview`, `Failed`, `Cancelled`) can be entered
//! from any non-terminal state, and nothing leaves a terminal state.
//!
//! The identifier `"AwaitingHumanConfirmation"` belongs to a retired state: it
//! is no longer produced, but audit records written under it are still read
//! back (as `PreparingMessage`, the closest predecessor in meaning).

use vstd::prelude::*;
use crate::text::{chars_of, runs_equal};

verus! {

/// Stages of one send task.
#[derive(Debug, Clone, Copy, PartialEq, Eq, Hash, Structural)]
pub enum TaskState {
    Draft,
    /// Attach to the client window the operator has already started and logged in.
    /// The identifier keeps its historical name: audit records are stored under it.
    LaunchingClient,
    WaitingForClient,
    /// Optional: click the navigation icon that switches to the view where the contact can be found.
    NavigatingToView,
    SearchingContact,
    VerifyingCandidate,
    /// Verify the name on the contact's profile page (search workflow).
    VerifyingProfile,
    /// Click the chat entry on the profile page (profile page -> chat page).
    OpeningChatFromProfile,
    VerifyingChatHeader,
    PreparingMessage,
    Sending,
    VerifyingDelivery,
    Completed,
    /// Terminal: the contact was located and the text typed, but nothing was sent.
    Prepared,
    /// Terminal: only the navigation icon was found and clicked.
    Navigated,
    NeedsHumanReview,
    Failed,
    Cancelled,
}

/// Errors of [`TaskMachine::transition`].
#[derive(Debug, Clone, Copy, PartialEq, Eq, Structural)]
pub enum StateError {
    /// Nothing leaves a terminal state.
    TerminalState { from: TaskState },
    /// The edge `from -> to` is not part of the machine.
    InvalidTransition { from: TaskState, to: TaskState },
}

/// The six states at which a task has ended.
pub open spec fn spec_is_terminal(s: TaskState) -> bool {
    match s {
        TaskState::Completed | TaskState::Prepared | TaskState::Navigated
        | TaskState::NeedsHumanReview | TaskState::Failed | TaskState::Cancelled => true,
        _ => false,
    }
}

/// The failure states, reachable from any non-terminal state.
pub open spec fn is_failure_target(s: TaskState) -> bool {
    match s {
        TaskState::NeedsHumanReview | TaskState::Failed | TaskState::Cancelled => true,
        _ => false,
    }
}

/// The ordinary (non-failure) edges of the machine.
pub open spec fn allowed_edge(from: TaskState, to: TaskState) -> bool {
    match (from, to) {
        (TaskState::Draft, TaskState::LaunchingClient) => true,
        (TaskState::LaunchingClient, TaskState::WaitingForClient) => true,
        (TaskState::WaitingForClient, TaskState::NavigatingToView) => true,
        (TaskState::WaitingForClient, TaskState::SearchingContact) => true,
        (TaskState::NavigatingToView, TaskState::SearchingContact) => true,
        (TaskState::NavigatingToView, TaskState::Navigated) => true,
        (TaskState::SearchingContact, TaskState::VerifyingCandidate) => true,
        (TaskState::VerifyingCandidate, TaskState::VerifyingChatHeader) => true,
        (TaskState::VerifyingCandidate, TaskState::VerifyingProfile) => true,
        (TaskState::VerifyingProfile, TaskState::OpeningChatFromProfile) => true,
        (TaskState::VerifyingProfile, TaskState::VerifyingChatHeader) => true,
        (TaskState::OpeningChatFromProfile, TaskState::VerifyingChatHeader) => true,
        (TaskState::VerifyingChatHeader, TaskState::PreparingMessage) => true,
        (TaskState::PreparingMessage, TaskState::Sending) => true,
        (TaskState::PreparingMessage, TaskState::Prepared) => true,
        (TaskState::Sending, TaskState::VerifyingDelivery) => true,
        (TaskState::VerifyingDelivery, TaskState::Completed) => true,
        _ => false,
    }
}

/// What a transition request `from -> to` yields: the new state, or the error.
pub open spec fn step_result(from: TaskState, to: TaskState) -> Result<TaskState, StateError> {
    if spec_is_terminal(from) {
        Err(StateError::TerminalState { from })
    } else if is_failure_target(to) || allowed_edge(from, to) {
        Ok(to)
    } else {
        Err(StateError::InvalidTransition { from, to })
    }
}

/// Stable identifier of each state (used by the UI and by audit records).
pub open spec fn state_name(s: TaskState) -> Seq<char> {
    match s {
        TaskState::Draft => "Draft"@,
        TaskState::LaunchingClient => "LaunchingClient"@,
        TaskState::WaitingForClient => "WaitingForClient"@,
        TaskState::NavigatingToView => "NavigatingToView"@,
        TaskState::SearchingContact => "SearchingContact"@,
        TaskState::VerifyingCandidate => "VerifyingCandidate"@,
        TaskState::VerifyingProfile => "VerifyingProfile"@,
        TaskState::OpeningChatFromProfile => "OpeningChatFromProfile"@,
        TaskState::VerifyingChatHeader => "VerifyingChatHeader"@,
        TaskState::PreparingMessage => "PreparingMessage"@,
        TaskState::Sending => "Sending"@,
        TaskState::VerifyingDelivery => "VerifyingDelivery"@,
        TaskState::Completed => "Completed"@,
        TaskState::Prepared => "Prepared"@,
        TaskState::Navigated => "Navigated"@,
        TaskState::NeedsHumanReview => "NeedsHumanReview"@,
        TaskState::Failed => "Failed"@,
        TaskState::Cancelled => "Cancelled"@,
    }
}

/// The identifier of the retired confirmation state, still read back from old records.
pub open spec fn retired_confirmation_name() -> Seq<char> {
    "AwaitingHumanConfirmation"@
}

/// The state an identifier names, if any.
pub open spec fn state_of_name(name: Seq<char>) -> Option<TaskState> {
    if name == "Draft"@ { Some(TaskState::Draft) }
    else if name == "LaunchingClient"@ { Some(TaskState::LaunchingClient) }
    else if name == "WaitingForClient"@ { Some(TaskState::WaitingForClient) }
    else if name == "NavigatingToView"@ { Some(TaskState::NavigatingToView) }
    else if name == "SearchingContact"@ { Some(TaskState::SearchingContact) }
    else if name == "VerifyingCandidate"@ { Some(TaskState::VerifyingCandidate) }
    else if name == "VerifyingProfile"@ { Some(TaskState::VerifyingProfile) }
    else if name == "OpeningChatFromProfile"@ { Some(TaskState::OpeningChatFromProfile) }
    else if name == "VerifyingChatHeader"@ { Some(TaskState::VerifyingChatHeader) }
    else if name == "PreparingMessage"@ { Some(TaskState::PreparingMessage) }
    else if name == "AwaitingHumanConfirmation"@ { Some(TaskState::PreparingMessage) }
    else if name == "Sending"@ { Some(TaskState::Sending) }
    else if name == "VerifyingDelivery"@ { Some(TaskState::VerifyingDelivery) }
    else if name == "Completed"@ { Some(TaskState::Completed) }
    else if name == "Prepared"@ { Some(TaskState::Prepared) }
    else if name == "Navigated"@ { Some(TaskState::Navigated) }
    else if name == "NeedsHumanReview"@ { Some(TaskState::NeedsHumanReview) }
    else if name == "Failed"@ { Some(TaskState::Failed) }
    else if name == "Cancelled"@ { Some(TaskState::Cancelled) }
    else { None }
}

/// Operator-facing description of each state.
pub open spec fn state_description(s: TaskState) -> Seq<char> {
    match s {
        TaskState::Draft => "草稿"@,
        TaskState::LaunchingClient => "正在接入客户端"@,
        TaskState::WaitingForClient => "客户端已就绪"@,
        TaskState::NavigatingToView => "正在切换视图"@,
        TaskState::SearchingContact => "正在查找联系人"@,
        TaskState::VerifyingCandidate => "正在核验联系人"@,
        TaskState::VerifyingProfile => "正在核验联系人资料"@,
        TaskState::OpeningChatFromProfile => "正在从资料页打开聊天"@,
        TaskState::VerifyingChatHeader => "正在核验聊天页标题"@,
        TaskState::PreparingMessage => "正在准备消息"@,
        TaskState::Sending => "正在发送"@,
        TaskState::VerifyingDelivery => "正在核验送达"@,
        TaskState::Completed => "已完成"@,
        TaskState::Prepared => "已填入正文，未发送"@,
        TaskState::Navigated => "已切换视图，未打开会话"@,
        TaskState::NeedsHumanReview => "需要人工处理"@,
        TaskState::Failed => "已失败"@,
        TaskState::Cancelled => "已取消"@,
    }
}


/// States that every run must have passed through before it can stand at `s`.
pub open spec fn must_precede(x: TaskState, s: TaskState) -> bool {
    let opening = x == TaskState::Draft || x == TaskState::LaunchingClient;
    let attached = opening || x == TaskState::WaitingForClient;
    let searched = attached || x == TaskState::SearchingContact;
    let picked = searched || x == TaskState::VerifyingCandidate;
    let headed = picked || x == TaskState::VerifyingChatHeader;
    let prepared = headed || x == TaskState::PreparingMessage;
    match s {
        TaskState::Draft => false,
        TaskState::LaunchingClient => x == TaskState::Draft,
        TaskState::WaitingForClient => opening,
        TaskState::NavigatingToView => attached,
        TaskState::SearchingContact => attached,
        TaskState::VerifyingCandidate => searched,
        TaskState::VerifyingProfile => picked,
        TaskState::OpeningChatFromProfile => picked || x == TaskState::VerifyingProfile,
        TaskState::VerifyingChatHeader => picked,
        TaskState::PreparingMessage => headed,
        TaskState::Sending => prepared,
        TaskState::VerifyingDelivery => prepared || x == TaskState::Sending,
        TaskState::Completed => prepared || x == TaskState::Sending
            || x == TaskState::VerifyingDelivery,
        TaskState::Prepared => prepared,
        TaskState::Navigated => attached || x == TaskState::NavigatingToView,
        TaskState::NeedsHumanReview | TaskState::Failed | TaskState::Cancelled => false,
    }
}

/// A run: a sequence of states starting at `Draft` in which every step is a
/// transition the machine accepts.
pub open spec fn is_run(path: Seq<TaskState>) -> bool {
    &&& path.len() >= 1
    &&& path[0] == TaskState::Draft
    &&& forall|i: int|
        0 <= i < path.len() - 1 ==> #[trigger] step_result(path[i], path[i + 1]) == Ok::<
            TaskState,
            StateError,
        >(path[i + 1])
}

proof fn lemma_edge_keeps_requirements(a: TaskState, b: TaskState, x: TaskState)
    requires
        step_result(a, b) == Ok::<TaskState, StateError>(b),
        must_precede(x, b),
    ensures
        must_precede(x, a) || x == a,
{
}

proof fn lemma_run_visits_requirements(path: Seq<TaskState>, n: int)
    requires
        is_run(path),
        1 <= n <= path.len(),
    ensures
        forall|x: TaskState|
            #[trigger] must_precede(x, path[n - 1]) ==> exists|i: int|
                0 <= i < n - 1 && path[i] == x,
    decreases n,
{
    if n > 1 {
        let m = n - 1;
        lemma_run_visits_requirements(path, m);
        let a = path[m - 1];
        let b = path[n - 1];
        assert(step_result(path[n - 2], path[n - 2 + 1]) == Ok::<TaskState, StateError>(
            path[n - 2 + 1],
        ));
        assert forall|x: TaskState| #[trigger] must_precede(x, b) implies exists|i: int|
            0 <= i < n - 1 && path[i] == x by {
            lemma_edge_keeps_requirements(a, b, x);
            if x == a {
                assert(path[n - 2] == x);
            } else {
                assert(must_precede(x, path[m - 1]));
                let i = choose|i: int| 0 <= i < m - 1 && path[i] == x;
                assert(0 <= i < n - 1 && path[i] == x);
            }
        }
    }
}

/// A task can only complete after it verified a candidate, verified the chat
/// header, prepared the message, sent it and verified its delivery.
pub proof fn lemma_completed_run_went_through_every_check(path: Seq<TaskState>)
    requires
        is_run(path),
        path.last() == TaskState::Completed,
    ensures
        path.contains(TaskState::VerifyingCandidate),
        path.contains(TaskState::VerifyingChatHeader),
        path.contains(TaskState::PreparingMessage),
        path.contains(TaskState::Sending),
        path.contains(TaskState::VerifyingDelivery),
{
    lemma_run_visits_requirements(path, path.len() as int);
    assert(must_precede(TaskState::VerifyingCandidate, path[path.len() - 1]));
    assert(must_precede(TaskState::VerifyingChatHeader, path[path.len() - 1]));
    assert(must_precede(TaskState::PreparingMessage, path[path.len() - 1]));
    assert(must_precede(TaskState::Sending, path[path.len() - 1]));
    assert(must_precede(TaskState::VerifyingDelivery, path[path.len() - 1]));
}

/// A message can only be sent from a run that verified the candidate, verified
/// the chat header and prepared the message first.
pub proof fn lemma_sending_run_went_through_preparation(path: Seq<TaskState>)
    requires
        is_run(path),
        path.last() == TaskState::Sending,
    ensures
        path.contains(TaskState::VerifyingCandidate),
        path.contains(TaskState::VerifyingChatHeader),
        path.contains(TaskState::PreparingMessage),
{
    lemma_run_visits_requirements(path, path.len() as int);
    assert(must_precede(TaskState::VerifyingCandidate, path[path.len() - 1]));
    assert(must_precede(TaskState::VerifyingChatHeader, path[path.len() - 1]));
    assert(must_precede(TaskState::PreparingMessage, path[path.len() - 1]));
}

/// A terminal state ends every run: nothing follows it.
pub proof fn lemma_terminal_state_ends_the_run(path: Seq<TaskState>, i: int)
    requires
        is_run(path),
        0 <= i < path.len(),
        spec_is_terminal(path[i]),
    ensures
        i == path.len() - 1,
{
    if i < path.len() - 1 {
        assert(step_result(path[i], path[i + 1]) == Ok::<TaskState, StateError>(path[i + 1]));
    }
}

/// Nothing leaves a terminal state: every request from one is refused with
/// `TerminalState`, whatever its target.
pub proof fn lemma_terminal_states_are_absorbing(from: TaskState, to: TaskState)
    requires
        spec_is_terminal(from),
    ensures
        step_result(from, to) == Err::<TaskState, StateError>(StateError::TerminalState { from }),
{
}

/// Each successful-end state has exactly one way in: `Sending` and `Prepared`
/// only from `PreparingMessage`, `Completed` only from `VerifyingDelivery`,
/// `Navigated` only from `NavigatingToView`, and the profile page only right
/// after a verified candidate.
pub proof fn lemma_guarded_states_have_one_entry(from: TaskState)
    ensures
        step_result(from, TaskState::Sending) is Ok ==> from == TaskState::PreparingMessage,
        step_result(from, TaskState::Prepared) is Ok ==> from == TaskState::PreparingMessage,
        step_result(from, TaskState::Completed) is Ok ==> from == TaskState::VerifyingDelivery,
        step_result(from, TaskState::Navigated) is Ok ==> from == TaskState::NavigatingToView,
        step_result(from, TaskState::VerifyingProfile) is Ok ==> from
            == TaskState::VerifyingCandidate,
{
}

/// The failure states can be entered from every state that has not ended yet.
pub proof fn lemma_failure_reachable_from_any_live_state(from: TaskState, to: TaskState)
    requires
        !spec_is_terminal(from),
        is_failure_target(to),
    ensures
        step_result(from, to) == Ok::<TaskState, StateError>(to),
{
}

/// Every state reads back from its own identifier, so identifiers are also distinct.
pub proof fn lemma_state_names_round_trip(s: TaskState)
    ensures
        state_of_name(state_name(s)) == Some(s),
        state_description(s).len() > 0,
{
    reveal_strlit("草稿");
    reveal_strlit("正在接入客户端");
    reveal_strlit("客户端已就绪");
    reveal_strlit("正在切换视图");
    reveal_strlit("正在查找联系人");
    reveal_strlit("正在核验联系人");
    reveal_strlit("正在核验联系人资料");
    reveal_strlit("正在从资料页打开聊天");
    reveal_strlit("正在核验聊天页标题");
    reveal_strlit("正在准备消息");
    reveal_strlit("正在发送");
    reveal_strlit("正在核验送达");
    reveal_strlit("已完成");
    reveal_strlit("已填入正文，未发送");
    reveal_strlit("已切换视图，未打开会话");
    reveal_strlit("需要人工处理");
    reveal_strlit("已失败");
    reveal_strlit("已取消");
    match s {
        TaskState::Draft => {
            reveal_strlit("Draft");
        },
        TaskState::LaunchingClient => {
            reveal_strlit("LaunchingClient");
            reveal_strlit("Draft");
            assert("Draft"@.len() != "LaunchingClient"@.len());
        },
        TaskState::WaitingForClient => {
            reveal_strlit("WaitingForClient");
            reveal_strlit("Draft");
            assert("Draft"@.len() != "WaitingForClient"@.len());
            reveal_strlit("LaunchingClient");
            assert("LaunchingClient"@.len() != "WaitingForClient"@.len());
        },
        TaskState::NavigatingToView => {
            reveal_strlit("NavigatingToView");
            reveal_strlit("Draft");
            assert("Draft"@.len() != "NavigatingToView"@.len());
            reveal_strlit("LaunchingClient");
            assert("LaunchingClient"@.len() != "NavigatingToView"@.len());
            reveal_strlit("WaitingForClient");
            assert("WaitingForClient"@[0] != "NavigatingToView"@[0]);
        },
        TaskState::SearchingContact => {
            reveal_strlit("SearchingContact");
            reveal_strlit("Draft");
            assert("Draft"@.len() != "SearchingContact"@.len());
            reveal_strlit("LaunchingClient");
            assert("LaunchingClient"@.len() != "SearchingContact"@.len());
            reveal_strlit("WaitingForClient");
            assert("WaitingForClient"@[0] != "SearchingContact"@[0]);
            reveal_strlit("NavigatingToView");
            assert("NavigatingToView"@[0] != "SearchingContact"@[0]);
        },
        TaskState::VerifyingCandidate => {
            reveal_strlit("VerifyingCandidate");
            reveal_strlit("Draft");
            assert("Draft"@.len() != "VerifyingCandidate"@.len());
            reveal_strlit("LaunchingClient");
            assert("LaunchingClient"@.len() != "VerifyingCandidate"@.len());
            reveal_strlit("WaitingForClient");
            assert("WaitingForClient"@.len() != "VerifyingCandidate"@.len());
            reveal_strlit("NavigatingToView");
            assert("NavigatingToView"@.len() != "VerifyingCandidate"@.len());
            reveal_strlit("SearchingContact");
            assert("SearchingContact"@.len() != "VerifyingCandidate"@.len());
        },
        TaskState::VerifyingProfile => {
            reveal_strlit("VerifyingProfile");
            reveal_strlit("Draft");
            assert("Draft"@.len() != "VerifyingProfile"@.len());
            reveal_strlit("LaunchingClient");
            assert("LaunchingClient"@.len() != "VerifyingProfile"@.len());
            reveal_strlit("WaitingForClient");
            assert("WaitingForClient"@[0] != "VerifyingProfile"@[0]);
            reveal_strlit("NavigatingToView");
            assert("NavigatingToView"@[0] != "VerifyingProfile"@[0]);
            reveal_strlit("SearchingContact");
            assert("SearchingContact"@[0] != "VerifyingProfile"@[0]);
            reveal_strlit("VerifyingCandidate");
            assert("VerifyingCandidate"@.len() != "VerifyingProfile"@.len());
        },
        TaskState::OpeningChatFromProfile => {
            reveal_strlit("OpeningChatFromProfile");
            reveal_strlit("Draft");
            assert("Draft"@.len() != "OpeningChatFromProfile"@.len());
            reveal_strlit("LaunchingClient");
            assert("LaunchingClient"@.len() != "OpeningChatFromProfile"@.len());
            reveal_strlit("WaitingForClient");
            assert("WaitingForClient"@.len() != "OpeningChatFromProfile"@.len());
            reveal_strlit("NavigatingToView");
            assert("NavigatingToView"@.len() != "OpeningChatFromProfile"@.len());
            reveal_strlit("SearchingContact");
            assert("SearchingContact"@.len() != "OpeningChatFromProfile"@.len());
            reveal_strlit("VerifyingCandidate");
            assert("VerifyingCandidate"@.len() != "OpeningChatFromProfile"@.len());
            reveal_strlit("VerifyingProfile");
            assert("VerifyingProfile"@.len() != "OpeningChatFromProfile"@.len());
        },
        TaskState::VerifyingChatHeader => {
            reveal_strlit("VerifyingChatHeader");
            reveal_strlit("Draft");
            assert("Draft"@.len() != "VerifyingChatHeader"@.len());
            reveal_strlit("LaunchingClient");
            assert("LaunchingClient"@.len() != "VerifyingChatHeader"@.len());
            reveal_strlit("WaitingForClient");
            assert("WaitingForClient"@.len() != "VerifyingChatHeader"@.len());
            reveal_strlit("NavigatingToView");
            assert("NavigatingToView"@.len() != "VerifyingChatHeader"@.len());
            reveal_strlit("SearchingContact");
            assert("SearchingContact"@.len() != "VerifyingChatHeader"@.len());
            reveal_strlit("VerifyingCandidate");
            assert("VerifyingCandidate"@.len() != "VerifyingChatHeader"@.len());
            reveal_strlit("VerifyingProfile");
            assert("VerifyingProfile"@.len() != "VerifyingChatHeader"@.len());
            reveal_strlit("OpeningChatFromProfile");
            assert("OpeningChatFromProfile"@.len() != "VerifyingChatHeader"@.len());
        },
        TaskState::PreparingMessage => {
            reveal_strlit("PreparingMessage");
            reveal_strlit("Draft");
            assert("Draft"@.len() != "PreparingMessage"@.len());
            reveal_strlit("LaunchingClient");
            assert("LaunchingClient"@.len() != "PreparingMessage"@.len());
            reveal_strlit("WaitingForClient");
            assert("WaitingForClient"@[0] != "PreparingMessage"@[0]);
            reveal_strlit("NavigatingToView");
            assert("NavigatingToView"@[0] != "PreparingMessage"@[0]);
            reveal_strlit("SearchingContact");
            assert("SearchingContact"@[0] != "PreparingMessage"@[0]);
            reveal_strlit("VerifyingCandidate");
            assert("VerifyingCandidate"@.len() != "PreparingMessage"@.len());
            reveal_strlit("VerifyingProfile");
            assert("VerifyingProfile"@[0] != "PreparingMessage"@[0]);
            reveal_strlit("OpeningChatFromProfile");
            assert("OpeningChatFromProfile"@.len() != "PreparingMessage"@.len());
            reveal_strlit("VerifyingChatHeader");
            assert("VerifyingChatHeader"@.len() != "PreparingMessage"@.len());
        },
        TaskState::Sending => {
            reveal_strlit("Sending");
            reveal_strlit("Draft");
            assert("Draft"@.len() != "Sending"@.len());
            reveal_strlit("LaunchingClient");
            assert("LaunchingClient"@.len() != "Sending"@.len());
            reveal_strlit("WaitingForClient");
            assert("WaitingForClient"@.len() != "Sending"@.len());
            reveal_strlit("NavigatingToView");
            assert("NavigatingToView"@.len() != "Sending"@.len());
            reveal_strlit("SearchingContact");
            assert("SearchingContact"@.len() != "Sending"@.len());
            reveal_strlit("VerifyingCandidate");
            assert("VerifyingCandidate"@.len() != "Sending"@.len());
            reveal_strlit("VerifyingProfile");
            assert("VerifyingProfile"@.len() != "Sending"@.len());
            reveal_strlit("OpeningChatFromProfile");
            assert("OpeningChatFromProfile"@.len() != "Sending"@.len());
            reveal_strlit("VerifyingChatHeader");
            assert("VerifyingChatHeader"@.len() != "Sending"@.len());
            reveal_strlit("PreparingMessage");
            assert("PreparingMessage"@.len() != "Sending"@.len());
            reveal_strlit("AwaitingHumanConfirmation");
            assert("AwaitingHumanConfirmation"@.len() != "Sending"@.len());
        },
        TaskState::VerifyingDelivery => {
            reveal_strlit("VerifyingDelivery");
            reveal_strlit("Draft");
            assert("Draft"@.len() != "VerifyingDelivery"@.len());
            reveal_strlit("LaunchingClient");
            assert("LaunchingClient"@.len() != "VerifyingDelivery"@.len());
            reveal_strlit("WaitingForClient");
            assert("WaitingForClient"@.len() != "VerifyingDelivery"@.len());
            reveal_strlit("NavigatingToView");
            assert("NavigatingToView"@.len() != "VerifyingDelivery"@.len());
            reveal_strlit("SearchingContact");
            assert("SearchingContact"@.len() != "VerifyingDelivery"@.len());
            reveal_strlit("VerifyingCandidate");
            assert("VerifyingCandidate"@.len() != "VerifyingDelivery"@.len());
            reveal_strlit("VerifyingProfile");
            assert("VerifyingProfile"@.len() != "VerifyingDelivery"@.len());
            reveal_strlit("OpeningChatFromProfile");
            assert("OpeningChatFromProfile"@.len() != "VerifyingDelivery"@.len());
            reveal_strlit("VerifyingChatHeader");
            assert("VerifyingChatHeader"@.len() != "VerifyingDelivery"@.len());
            reveal_strlit("PreparingMessage");
            assert("PreparingMessage"@.len() != "VerifyingDelivery"@.len());
            reveal_strlit("AwaitingHumanConfirmation");
            assert("AwaitingHumanConfirmation"@.len() != "VerifyingDelivery"@.len());
            reveal_strlit("Sending");
            assert("Sending"@.len() != "VerifyingDelivery"@.len());
        },
        TaskState::Completed => {
            reveal_strlit("Completed");
            reveal_strlit("Draft");
            assert("Draft"@.len() != "Completed"@.len());
            reveal_strlit("LaunchingClient");
            assert("LaunchingClient"@.len() != "Completed"@.len());
            reveal_strlit("WaitingForClient");
            assert("WaitingForClient"@.len() != "Completed"@.len());
            reveal_strlit("NavigatingToView");
            assert("NavigatingToView"@.len() != "Completed"@.len());
            reveal_strlit("SearchingContact");
            assert("SearchingContact"@.len() != "Completed"@.len());
            reveal_strlit("VerifyingCandidate");
            assert("VerifyingCandidate"@.len() != "Completed"@.len());
            reveal_strlit("VerifyingProfile");
            assert("VerifyingProfile"@.len() != "Completed"@.len());
            reveal_strlit("OpeningChatFromProfile");
            assert("OpeningChatFromProfile"@.len() != "Completed"@.len());
            reveal_strlit("VerifyingChatHeader");
            assert("VerifyingChatHeader"@.len() != "Completed"@.len());
            reveal_strlit("PreparingMessage");
            assert("PreparingMessage"@.len() != "Completed"@.len());
            reveal_strlit("AwaitingHumanConfirmation");
            assert("AwaitingHumanConfirmation"@.len() != "Completed"@.len());
            reveal_strlit("Sending");
            assert("Sending"@.len() != "Completed"@.len());
            reveal_strlit("VerifyingDelivery");
            assert("VerifyingDelivery"@.len() != "Completed"@.len());
        },
        TaskState::Prepared => {
            reveal_strlit("Prepared");
            reveal_strlit("Draft");
            assert("Draft"@.len() != "Prepared"@.len());
            reveal_strlit("LaunchingClient");
            assert("LaunchingClient"@.len() != "Prepared"@.len());
            reveal_strlit("WaitingForClient");
            assert("WaitingForClient"@.len() != "Prepared"@.len());
            reveal_strlit("NavigatingToView");
            assert("NavigatingToView"@.len() != "Prepared"@.len());
            reveal_strlit("SearchingContact");
            assert("SearchingContact"@.len() != "Prepared"@.len());
            reveal_strlit("VerifyingCandidate");
            assert("VerifyingCandidate"@.len() != "Prepared"@.len());
            reveal_strlit("VerifyingProfile");
            assert("VerifyingProfile"@.len() != "Prepared"@.len());
            reveal_strlit("OpeningChatFromProfile");
            assert("OpeningChatFromProfile"@.len() != "Prepared"@.len());
            reveal_strlit("VerifyingChatHeader");
            assert("VerifyingChatHeader"@.len() != "Prepared"@.len());
            reveal_strlit("PreparingMessage");
            assert("PreparingMessage"@.len() != "Prepared"@.len());
            reveal_strlit("AwaitingHumanConfirmation");
            assert("AwaitingHumanConfirmation"@.len() != "Prepared"@.len());
            reveal_strlit("Sending");
            assert("Sending"@.len() != "Prepared"@.len());
            reveal_strlit("VerifyingDelivery");
            assert("VerifyingDelivery"@.len() != "Prepared"@.len());
            reveal_strlit("Completed");
            assert("Completed"@.len() != "Prepared"@.len());
        },
        TaskState::Navigated => {
            reveal_strlit("Navigated");
            reveal_strlit("Draft");
            assert("Draft"@.len() != "Navigated"@.len());
            reveal_strlit("LaunchingClient");
            assert("LaunchingClient"@.len() != "Navigated"@.len());
            reveal_strlit("WaitingForClient");
            assert("WaitingForClient"@.len() != "Navigated"@.len());
            reveal_strlit("NavigatingToView");
            assert("NavigatingToView"@.len() != "Navigated"@.len());
            reveal_strlit("SearchingContact");
            assert("SearchingContact"@.len() != "Navigated"@.len());
            reveal_strlit("VerifyingCandidate");
            assert("VerifyingCandidate"@.len() != "Navigated"@.len());
            reveal_strlit("VerifyingProfile");
            assert("VerifyingProfile"@.len() != "Navigated"@.len());
            reveal_strlit("OpeningChatFromProfile");
            assert("OpeningChatFromProfile"@.len() != "Navigated"@.len());
            reveal_strlit("VerifyingChatHeader");
            assert("VerifyingChatHeader"@.len() != "Navigated"@.len());
            reveal_strlit("PreparingMessage");
            assert("PreparingMessage"@.len() != "Navigated"@.len());
            reveal_strlit("AwaitingHumanConfirmation");
            assert("AwaitingHumanConfirmation"@.len() != "Navigated"@.len());
            reveal_strlit("Sending");
            assert("Sending"@.len() != "Navigated"@.len());
            reveal_strlit("VerifyingDelivery");
            assert("VerifyingDelivery"@.len() != "Navigated"@.len());
            reveal_strlit("Completed");
            assert("Completed"@[0] != "Navigated"@[0]);
            reveal_strlit("Prepared");
            assert("Prepared"@.len() != "Navigated"@.len());
        },
        TaskState::NeedsHumanReview => {
            reveal_strlit("NeedsHumanReview");
            reveal_strlit("Draft");
            assert("Draft"@.len() != "NeedsHumanReview"@.len());
            reveal_strlit("LaunchingClient");
            assert("LaunchingClient"@.len() != "NeedsHumanReview"@.len());
            reveal_strlit("WaitingForClient");
            assert("WaitingForClient"@[0] != "NeedsHumanReview"@[0]);
            reveal_strlit("NavigatingToView");
            assert("NavigatingToView"@[1] != "NeedsHumanReview"@[1]);
            reveal_strlit("SearchingContact");
            assert("SearchingContact"@[0] != "NeedsHumanReview"@[0]);
            reveal_strlit("VerifyingCandidate");
            assert("VerifyingCandidate"@.len() != "NeedsHumanReview"@.len());
            reveal_strlit("VerifyingProfile");
            assert("VerifyingProfile"@[0] != "NeedsHumanReview"@[0]);
            reveal_strlit("OpeningChatFromProfile");
            assert("OpeningChatFromProfile"@.len() != "NeedsHumanReview"@.len());
            reveal_strlit("VerifyingChatHeader");
            assert("VerifyingChatHeader"@.len() != "NeedsHumanReview"@.len());
            reveal_strlit("PreparingMessage");
            assert("PreparingMessage"@[0] != "NeedsHumanReview"@[0]);
            reveal_strlit("AwaitingHumanConfirmation");
            assert("AwaitingHumanConfirmation"@.len() != "NeedsHumanReview"@.len());
            reveal_strlit("Sending");
            assert("Sending"@.len() != "NeedsHumanReview"@.len());
            reveal_strlit("VerifyingDelivery");
            assert("VerifyingDelivery"@.len() != "NeedsHumanReview"@.len());
            reveal_strlit("Completed");
            assert("Completed"@.len() != "NeedsHumanReview"@.len());
            reveal_strlit("Prepared");
            assert("Prepared"@.len() != "NeedsHumanReview"@.len());
            reveal_strlit("Navigated");
            assert("Navigated"@.len() != "NeedsHumanReview"@.len());
        },
        TaskState::Failed => {
            reveal_strlit("Failed");
            reveal_strlit("Draft");
            assert("Draft"@.len() != "Failed"@.len());
            reveal_strlit("LaunchingClient");
            assert("LaunchingClient"@.len() != "Failed"@.len());
            reveal_strlit("WaitingForClient");
            assert("WaitingForClient"@.len() != "Failed"@.len());
            reveal_strlit("NavigatingToView");
            assert("NavigatingToView"@.len() != "Failed"@.len());
            reveal_strlit("SearchingContact");
            assert("SearchingContact"@.len() != "Failed"@.len());
            reveal_strlit("VerifyingCandidate");
            assert("VerifyingCandidate"@.len() != "Failed"@.len());
            reveal_strlit("VerifyingProfile");
            assert("VerifyingProfile"@.len() != "Failed"@.len());
            reveal_strlit("OpeningChatFromProfile");
            assert("OpeningChatFromProfile"@.len() != "Failed"@.len());
            reveal_strlit("VerifyingChatHeader");
            assert("VerifyingChatHeader"@.len() != "Failed"@.len());
            reveal_strlit("PreparingMessage");
            assert("PreparingMessage"@.len() != "Failed"@.len());
            reveal_strlit("AwaitingHumanConfirmation");
            assert("AwaitingHumanConfirmation"@.len() != "Failed"@.len());
            reveal_strlit("Sending");
            assert("Sending"@.len() != "Failed"@.len());
            reveal_strlit("VerifyingDelivery");
            assert("VerifyingDelivery"@.len() != "Failed"@.len());
            reveal_strlit("Completed");
            assert("Completed"@.len() != "Failed"@.len());
            reveal_strlit("Prepared");
            assert("Prepared"@.len() != "Failed"@.len());
            reveal_strlit("Navigated");
            assert("Navigated"@.len() != "Failed"@.len());
            reveal_strlit("NeedsHumanReview");
            assert("NeedsHumanReview"@.len() != "Failed"@.len());
        },
        TaskState::Cancelled => {
            reveal_strlit("Cancelled");
            reveal_strlit("Draft");
            assert("Draft"@.len() != "Cancelled"@.len());
            reveal_strlit("LaunchingClient");
            assert("LaunchingClient"@.len() != "Cancelled"@.len());
            reveal_strlit("WaitingForClient");
            assert("WaitingForClient"@.len() != "Cancelled"@.len());
            reveal_strlit("NavigatingToView");
            assert("NavigatingToView"@.len() != "Cancelled"@.len());
            reveal_strlit("SearchingContact");
            assert("SearchingContact"@.len() != "Cancelled"@.len());
            reveal_strlit("VerifyingCandidate");
            assert("VerifyingCandidate"@.len() != "Cancelled"@.len());
            reveal_strlit("VerifyingProfile");
            assert("VerifyingProfile"@.len() != "Cancelled"@.len());
            reveal_strlit("OpeningChatFromProfile");
            assert("OpeningChatFromProfile"@.len() != "Cancelled"@.len());
            reveal_strlit("VerifyingChatHeader");
            assert("VerifyingChatHeader"@.len() != "Cancelled"@.len());
            reveal_strlit("PreparingMessage");
            assert("PreparingMessage"@.len() != "Cancelled"@.len());
            reveal_strlit("AwaitingHumanConfirmation");
            assert("AwaitingHumanConfirmation"@.len() != "Cancelled"@.len());
            reveal_strlit("Sending");
            assert("Sending"@.len() != "Cancelled"@.len());
            reveal_strlit("VerifyingDelivery");
            assert("VerifyingDelivery"@.len() != "Cancelled"@.len());
            reveal_strlit("Completed");
            assert("Completed"@[1] != "Cancelled"@[1]);
            reveal_strlit("Prepared");
            assert("Prepared"@.len() != "Cancelled"@.len());
            reveal_strlit("Navigated");
            assert("Navigated"@[0] != "Cancelled"@[0]);
            reveal_strlit("NeedsHumanReview");
            assert("NeedsHumanReview"@.len() != "Cancelled"@.len());
            reveal_strlit("Failed");
            assert("Failed"@.len() != "Cancelled"@.len());
        },
    }
}

/// Distinct states have distinct identifiers.
pub proof fn lemma_state_names_are_distinct(a: TaskState, b: TaskState)
    ensures
        state_name(a) == state_name(b) ==> a == b,
{
    lemma_state_names_round_trip(a);
    lemma_state_names_round_trip(b);
}

/// Equality of two string slices, character by character.
fn str_equals(a: &str, b: &str) -> (r: bool)
    ensures
        r == (a@ == b@),
{
    let x = chars_of(a);
    let y = chars_of(b);
    let r = runs_equal(x.as_slice(), 0, x.len(), y.as_slice(), 0, y.len());
    assert(x@.subrange(0, x@.len() as int) =~= x@);
    assert(y@.subrange(0, y@.len() as int) =~= y@);
    r
}

impl TaskState {
    /// Every state, in the order the UI lists them.
    pub const ALL: [TaskState; 18] = [
        TaskState::Draft,
        TaskState::LaunchingClient,
        TaskState::WaitingForClient,
        TaskState::NavigatingToView,
        TaskState::SearchingContact,
        TaskState::VerifyingCandidate,
        TaskState::VerifyingProfile,
        TaskState::OpeningChatFromProfile,
        TaskState::VerifyingChatHeader,
        TaskState::PreparingMessage,
        TaskState::Sending,
        TaskState::VerifyingDelivery,
        TaskState::Completed,
        TaskState::Prepared,
        TaskState::Navigated,
        TaskState::NeedsHumanReview,
        TaskState::Failed,
        TaskState::Cancelled,
    ];

    pub fn is_terminal(self) -> (r: bool)
        ensures
            r == spec_is_terminal(self),
    {
        match self {
            TaskState::Completed | TaskState::Prepared | TaskState::Navigated
            | TaskState::NeedsHumanReview | TaskState::Failed | TaskState::Cancelled => true,
            _ => false,
        }
    }

    /// Stable identifier for the UI and for audit records; it does not follow wording changes.
    pub fn as_str(self) -> (r: &'static str)
        ensures
            r@ == state_name(self),
    {
        match self {
            TaskState::Draft => "Draft",
            TaskState::LaunchingClient => "LaunchingClient",
            TaskState::WaitingForClient => "WaitingForClient",
            TaskState::NavigatingToView => "NavigatingToView",
            TaskState::SearchingContact => "SearchingContact",
            TaskState::VerifyingCandidate => "VerifyingCandidate",
            TaskState::VerifyingProfile => "VerifyingProfile",
            TaskState::OpeningChatFromProfile => "OpeningChatFromProfile",
            TaskState::VerifyingChatHeader => "VerifyingChatHeader",
            TaskState::PreparingMessage => "PreparingMessage",
            TaskState::Sending => "Sending",
            TaskState::VerifyingDelivery => "VerifyingDelivery",
            TaskState::Completed => "Completed",
            TaskState::Prepared => "Prepared",
            TaskState::Navigated => "Navigated",
            TaskState::NeedsHumanReview => "NeedsHumanReview",
            TaskState::Failed => "Failed",
            TaskState::Cancelled => "Cancelled",
        }
    }

    /// Reads a state back from an identifier produced by [`TaskState::as_str`]
    /// (or the retired confirmation identifier, read as `PreparingMessage`).
    pub fn from_str_name(name: &str) -> (r: Option<TaskState>)
        ensures
            r == state_of_name(name@),
    {
        if str_equals(name, "Draft") { return Some(TaskState::Draft); }
        if str_equals(name, "LaunchingClient") { return Some(TaskState::LaunchingClient); }
        if str_equals(name, "WaitingForClient") { return Some(TaskState::WaitingForClient); }
        if str_equals(name, "NavigatingToView") { return Some(TaskState::NavigatingToView); }
        if str_equals(name, "SearchingContact") { return Some(TaskState::SearchingContact); }
        if str_equals(name, "VerifyingCandidate") { return Some(TaskState::VerifyingCandidate); }
        if str_equals(name, "VerifyingProfile") { return Some(TaskState::VerifyingProfile); }
        if str_equals(name, "OpeningChatFromProfile") {
            return Some(TaskState::OpeningChatFromProfile);
        }
        if str_equals(name, "VerifyingChatHeader") { return Some(TaskState::VerifyingChatHeader); }
        if str_equals(name, "PreparingMessage") { return Some(TaskState::PreparingMessage); }
        if str_equals(name, "AwaitingHumanConfirmation") {
            return Some(TaskState::PreparingMessage);
        }
        if str_equals(name, "Sending") { return Some(TaskState::Sending); }
        if str_equals(name, "VerifyingDelivery") { return Some(TaskState::VerifyingDelivery); }
        if str_equals(name, "Completed") { return Some(TaskState::Completed); }
        if str_equals(name, "Prepared") { return Some(TaskState::Prepared); }
        if str_equals(name, "Navigated") { return Some(TaskState::Navigated); }
        if str_equals(name, "NeedsHumanReview") { return Some(TaskState::NeedsHumanReview); }
        if str_equals(name, "Failed") { return Some(TaskState::Failed); }
        if str_equals(name, "Cancelled") { return Some(TaskState::Cancelled); }
        None
    }

    /// Operator-facing description, used in task history and failure reasons.
    pub fn describe(self) -> (r: &'static str)
        ensures
            r@ == state_description(self),
    {
        match self {
            TaskState::Draft => "草稿",
            TaskState::LaunchingClient => "正在接入客户端",
            TaskState::WaitingForClient => "客户端已就绪",
            TaskState::NavigatingToView => "正在切换视图",
            TaskState::SearchingContact => "正在查找联系人",
            TaskState::VerifyingCandidate => "正在核验联系人",
            TaskState::VerifyingProfile => "正在核验联系人资料",
            TaskState::OpeningChatFromProfile => "正在从资料页打开聊天",
            TaskState::VerifyingChatHeader => "正在核验聊天页标题",
            TaskState::PreparingMessage => "正在准备消息",
            TaskState::Sending => "正在发送",
            TaskState::VerifyingDelivery => "正在核验送达",
            TaskState::Completed => "已完成",
            TaskState::Prepared => "已填入正文，未发送",
            TaskState::Navigated => "已切换视图，未打开会话",
            TaskState::NeedsHumanReview => "需要人工处理",
            TaskState::Failed => "已失败",
            TaskState::Cancelled => "已取消",
        }
    }
}

/// The state machine of one task. It starts at `Draft`.
#[derive(Debug)]
pub struct TaskMachine {
    state: TaskState,
}

impl TaskMachine {
    /// The current state.
    pub closed spec fn current(&self) -> TaskState {
        self.state
    }

    /// A machine at `Draft`.
    pub fn new() -> (m: TaskMachine)
        ensures
            m.current() == TaskState::Draft,
    {
        TaskMachine { state: TaskState::Draft }
    }

    pub fn state(&self) -> (s: TaskState)
        ensures
            s == self.current(),
    {
        self.state
    }

    /// Moves to `to` when the machine allows it; otherwise leaves the state as it was.
    pub fn transition(&mut self, to: TaskState) -> (r: Result<(), StateError>)
        ensures
            match step_result(old(self).current(), to) {
                Ok(next) => r == Ok::<(), StateError>(()) && final(self).current() == next,
                Err(e) => r == Err::<(), StateError>(e) && final(self).current() == old(self).current(),
            },
    {
        let from = self.state;
        if from.is_terminal() {
            return Err(StateError::TerminalState { from });
        }
        match to {
            TaskState::NeedsHumanReview | TaskState::Failed | TaskState::Cancelled => {
                self.state = to;
                return Ok(());
            },
            _ => {},
        }
        let allowed = match (from, to) {
            (TaskState::Draft, TaskState::LaunchingClient) => true,
            (TaskState::LaunchingClient, TaskState::WaitingForClient) => true,
            (TaskState::WaitingForClient, TaskState::NavigatingToView) => true,
            (TaskState::WaitingForClient, TaskState::SearchingContact) => true,
            (TaskState::NavigatingToView, TaskState::SearchingContact) => true,
            (TaskState::NavigatingToView, TaskState::Navigated) => true,
            (TaskState::SearchingContact, TaskState::VerifyingCandidate) => true,
            (TaskState::VerifyingCandidate, TaskState::VerifyingChatHeader) => true,
            (TaskState::VerifyingCandidate, TaskState::VerifyingProfile) => true,
            (TaskState::VerifyingProfile, TaskState::OpeningChatFromProfile) => true,
            (TaskState::VerifyingProfile, TaskState::VerifyingChatHeader) => true,
            (TaskState::OpeningChatFromProfile, TaskState::VerifyingChatHeader) => true,
            (TaskState::VerifyingChatHeader, TaskState::PreparingMessage) => true,
            (TaskState::PreparingMessage, TaskState::Sending) => true,
            (TaskState::PreparingMessage, TaskState::Prepared) => true,
            (TaskState::Sending, TaskState::VerifyingDelivery) => true,
            (TaskState::VerifyingDelivery, TaskState::Completed) => true,
            _ => false,
        };
        if !allowed {
            return Err(StateError::InvalidTransition { from, to });
        }
        self.state = to;
        Ok(())
    }
}

impl Default for TaskMachine {
    fn default() -> (m: TaskMachine)
        ensures
            m.current() == TaskState::Draft,
    {
        TaskMachine { state: TaskState::Draft }
    }
}

} // verus!
