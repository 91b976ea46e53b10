//! Test doubles for the workflow: scripted faults for the ports, and a contact
//! matcher that applies the real strict policy while allowing an injected
//! failure.

use vstd::prelude::*;
use std::collections::VecDeque;
use crate::policy::{
    accepted_terms, is_exact_text, strict_outcome, ConfidenceThreshold, StrictContactMatcher,
    DEFAULT_MIN_SEPARATION_PX,
};
use crate::ports::{boxes_view, match_view, AutomationError, ErrorView, TextBox, TextBoxView};
use crate::trail::{is_strict_judgement, strict_judge, MatchTrail};

verus! {

/// A scripted port failure.
#[derive(Debug)]
pub enum Fault {
    ClientNotReady,
    ScreenChanged,
    AmbiguousVision(String),
    NeedsHumanReview(String),
    Platform(String),
    Timeout(String),
}

/// The error a fault turns into: the variant of the same name, same text.
pub open spec fn fault_error(f: Fault) -> ErrorView {
    match f {
        Fault::ClientNotReady => ErrorView::ClientNotReady,
        Fault::ScreenChanged => ErrorView::ScreenChanged,
        Fault::AmbiguousVision(t) => ErrorView::AmbiguousVision(t@),
        Fault::NeedsHumanReview(t) => ErrorView::NeedsHumanReview(t@),
        Fault::Platform(t) => ErrorView::Platform(t@),
        Fault::Timeout(t) => ErrorView::Timeout(t@),
    }
}

impl Fault {
    pub fn ambiguous(text: String) -> (f: Fault)
        ensures
            f == Fault::AmbiguousVision(text),
    {
        Fault::AmbiguousVision(text)
    }

    pub fn needs_human(text: String) -> (f: Fault)
        ensures
            f == Fault::NeedsHumanReview(text),
    {
        Fault::NeedsHumanReview(text)
    }

    pub fn platform(text: String) -> (f: Fault)
        ensures
            f == Fault::Platform(text),
    {
        Fault::Platform(text)
    }

    pub fn timeout(text: String) -> (f: Fault)
        ensures
            f == Fault::Timeout(text),
    {
        Fault::Timeout(text)
    }

    pub fn into_error(self) -> (e: AutomationError)
        ensures
            e@ == fault_error(self),
    {
        match self {
            Fault::ClientNotReady => AutomationError::ClientNotReady,
            Fault::ScreenChanged => AutomationError::ScreenChanged,
            Fault::AmbiguousVision(text) => AutomationError::AmbiguousVision(text),
            Fault::NeedsHumanReview(text) => AutomationError::NeedsHumanReview(text),
            Fault::Platform(text) => AutomationError::Platform(text),
            Fault::Timeout(text) => AutomationError::Timeout(text),
        }
    }
}

/// The failures to inject, one slot per port operation.
#[derive(Debug)]
pub struct MockFaults {
    pub launch: Option<Fault>,
    pub focus: Option<Fault>,
    pub metrics: Option<Fault>,
    /// Resizing the window (separate from `focus`: "found but cannot resize"
    /// and "cannot find" must be told apart).
    pub resize: Option<Fault>,
    /// Capture failures, used in call order; captures succeed once they run out.
    pub capture: VecDeque<Fault>,
    pub click: Option<Fault>,
    pub paste: Option<Fault>,
    /// Typing character by character (a different input path from pasting).
    pub type_text: Option<Fault>,
    /// Clearing an input field (separate from typing).
    pub clear: Option<Fault>,
    pub send: Option<Fault>,
}

impl MockFaults {
    /// No failure anywhere.
    pub fn new() -> (f: MockFaults)
        ensures
            f.launch is None && f.focus is None && f.metrics is None && f.resize is None,
            f.capture@.len() == 0,
            f.click is None && f.paste is None && f.type_text is None && f.clear is None && f.send is None,
    {
        MockFaults {
            launch: None,
            focus: None,
            metrics: None,
            resize: None,
            capture: VecDeque::new(),
            click: None,
            paste: None,
            type_text: None,
            clear: None,
            send: None,
        }
    }

    /// Replaces the capture failures with `faults`, in order.
    pub fn with_capture(self, faults: Vec<Fault>) -> (f: MockFaults)
        ensures
            f.capture@ == faults@,
            f.launch == self.launch && f.focus == self.focus && f.metrics == self.metrics,
            f.resize == self.resize && f.click == self.click && f.paste == self.paste,
            f.type_text == self.type_text && f.clear == self.clear && f.send == self.send,
    {
        let mut f = self;
        let mut queue: VecDeque<Fault> = VecDeque::new();
        let mut rest = faults;
        let ghost all = rest@;
        assert(queue@ + rest@ =~= all);
        while rest.len() > 0
            invariant
                queue@ + rest@ == all,
            decreases rest@.len(),
        {
            let ghost before = rest@;
            let x = rest.remove(0);
            queue.push_back(x);
            assert(queue@ + rest@ =~= all);
        }
        assert(queue@ =~= all);
        f.capture = queue;
        f
    }
}

impl Default for MockFaults {
    fn default() -> (f: MockFaults)
        ensures
            f.launch is None && f.focus is None && f.metrics is None && f.resize is None,
            f.capture@.len() == 0,
            f.click is None && f.paste is None && f.type_text is None && f.clear is None && f.send is None,
    {
        MockFaults::new()
    }
}

/// What a matching call sees and leaves of the test matcher: the injected
/// failure waiting, and the calls counted so far.
pub struct MatchState {
    pub pending: Option<Fault>,
    pub calls: nat,
}

/// One matching call of the test matcher, where the strict policy would
/// answer `strict`: the call is counted, an injected failure is returned and
/// consumed, and without one the strict policy's answer is returned.
pub open spec fn match_call(s: MatchState, strict: Result<TextBoxView, ErrorView>) -> (MatchState, Result<TextBoxView, ErrorView>) {
    (
        MatchState { pending: None, calls: s.calls + 1 },
        match s.pending {
            Some(f) => Err(fault_error(f)),
            None => strict,
        },
    )
}

/// An injected failure is returned by the next matching call only: that call
/// is counted and consumes it, and the call after it is counted and gets the
/// strict policy's answer.
pub proof fn lemma_forced_failure_is_returned_once(
    f: Fault,
    calls: nat,
    first: Result<TextBoxView, ErrorView>,
    second: Result<TextBoxView, ErrorView>,
)
    ensures
        match_call(MatchState { pending: Some(f), calls }, first).1 == Err::<TextBoxView, ErrorView>(fault_error(f)),
        match_call(MatchState { pending: Some(f), calls }, first).0.pending is None,
        match_call(match_call(MatchState { pending: Some(f), calls }, first).0, second).1 == second,
        match_call(match_call(MatchState { pending: Some(f), calls }, first).0, second).0.calls == calls + 2,
{
}

/// The rule named on the trail of a match that an injected failure cut short.
pub const FORCED_FAILURE_RULE: &'static str = "（替身注入了故障，没有走到判据）";

/// A contact matcher that applies the real strict policy, counts its calls,
/// and can be told to fail the next match.
pub struct MockContactMatcher {
    inner: StrictContactMatcher,
    forced: Option<Fault>,
    calls: usize,
}

impl MockContactMatcher {
    /// The strict policy it applies.
    pub closed spec fn policy(&self) -> StrictContactMatcher {
        self.inner
    }

    /// Number of match calls so far.
    pub closed spec fn call_total(&self) -> usize {
        self.calls
    }

    /// The strict policy it applies.
    pub fn inner(&self) -> (r: &StrictContactMatcher)
        ensures
            *r == self.policy(),
    {
        &self.inner
    }

    /// The failure injected for the next match, if any.
    pub closed spec fn pending(&self) -> Option<Fault> {
        self.forced
    }

    pub fn new() -> (m: MockContactMatcher)
        ensures
            m.policy().entries() == Seq::<(Seq<char>, Seq<Seq<char>>)>::empty(),
            m.policy().min_separation_px == DEFAULT_MIN_SEPARATION_PX,
            m.pending() is None,
            m.call_total() == 0,
    {
        MockContactMatcher { inner: StrictContactMatcher::new(), forced: None, calls: 0 }
    }

    /// A matcher whose strict policy uses the given alias rules.
    pub fn with_aliases(aliases: Vec<(String, Vec<String>)>) -> (m: MockContactMatcher)
        ensures
            m.policy().entries() == crate::policy::alias_entries(aliases@),
            m.policy().min_separation_px == DEFAULT_MIN_SEPARATION_PX,
            m.pending() is None,
            m.call_total() == 0,
    {
        MockContactMatcher { inner: StrictContactMatcher::with_aliases(aliases), forced: None, calls: 0 }
    }

    /// Makes the next match fail with `fault`.
    pub fn force_failure(&mut self, fault: Fault)
        ensures
            final(self).pending() == Some(fault),
            final(self).call_total() == old(self).call_total(),
            final(self).policy() == old(self).policy(),
    {
        self.forced = Some(fault);
    }

    pub fn call_count(&self) -> (n: usize)
        ensures
            n == self.call_total(),
    {
        self.calls
    }

    /// Counts one call and consumes the injected failure, if any.
    fn guard(&mut self) -> (r: Result<(), AutomationError>)
        requires
            old(self).call_total() < usize::MAX,
        ensures
            final(self).call_total() == old(self).call_total() + 1,
            final(self).pending() is None,
            final(self).policy() == old(self).policy(),
            match old(self).pending() {
                Some(f) => r matches Err(e) && e@ == fault_error(f),
                None => r is Ok,
            },
    {
        self.calls = self.calls + 1;
        match self.forced.take() {
            Some(fault) => Err(fault.into_error()),
            None => Ok(()),
        }
    }

    /// The injected failure if there is one, otherwise the strict policy's answer.
    pub fn find_unique_exact_match(
        &mut self,
        expected_name: &str,
        candidates: &[TextBox],
        min_confidence: &ConfidenceThreshold,
    ) -> (r: Result<TextBox, AutomationError>)
        requires
            old(self).call_total() < usize::MAX,
        ensures
            final(self).call_total() == old(self).call_total() + 1,
            final(self).pending() is None,
            final(self).policy() == old(self).policy(),
            (MatchState { pending: final(self).pending(), calls: final(self).call_total() as nat }, match_view(r))
                == match_call(
                MatchState { pending: old(self).pending(), calls: old(self).call_total() as nat },
                strict_outcome(
                    boxes_view(candidates@),
                    min_confidence.key,
                    min_confidence.shown@,
                    old(self).policy().entries(),
                    expected_name@,
                    old(self).policy().min_separation_px,
                ),
            ),
            match old(self).pending() {
                Some(f) => r matches Err(e) && e@ == fault_error(f),
                None => match_view(r) == strict_outcome(
                    boxes_view(candidates@),
                    min_confidence.key,
                    min_confidence.shown@,
                    old(self).policy().entries(),
                    expected_name@,
                    old(self).policy().min_separation_px,
                ),
            },
    {
        self.guard()?;
        self.inner.find_unique_exact_match(expected_name, candidates, min_confidence)
    }

    /// The injected failure, with an empty trail, if there is one; otherwise
    /// the strict policy's answer with its trail. Counts one call either way.
    pub fn find_unique_exact_match_with_trail(
        &mut self,
        expected_name: &str,
        candidates: &[TextBox],
        min_confidence: &ConfidenceThreshold,
    ) -> (r: (Result<TextBox, AutomationError>, MatchTrail))
        requires
            old(self).call_total() < usize::MAX,
        ensures
            final(self).call_total() == old(self).call_total() + 1,
            final(self).pending() is None,
            final(self).policy() == old(self).policy(),
            (MatchState { pending: final(self).pending(), calls: final(self).call_total() as nat }, match_view(r.0))
                == match_call(
                MatchState { pending: old(self).pending(), calls: old(self).call_total() as nat },
                strict_outcome(
                    boxes_view(candidates@),
                    min_confidence.key,
                    min_confidence.shown@,
                    old(self).policy().entries(),
                    expected_name@,
                    old(self).policy().min_separation_px,
                ),
            ),
            match old(self).pending() {
                Some(f) => {
                    &&& r.0 matches Err(e) && e@ == fault_error(f)
                    &&& r.1.rule@ == FORCED_FAILURE_RULE@
                    &&& !r.1.relaxed
                    &&& r.1.candidates@.len() == 0
                },
                None => is_strict_judgement(old(self).policy(), expected_name@, candidates@, *min_confidence, r),
            },
    {
        if let Err(e) = self.guard() {
            return (Err(e), MatchTrail { rule: FORCED_FAILURE_RULE, relaxed: false, candidates: Vec::new() });
        }
        strict_judge(&self.inner, expected_name, candidates, min_confidence)
    }

    /// The strict policy's test of one candidate; an injected failure does not apply here.
    pub fn accepts(&self, expected_name: &str, candidate: &TextBox) -> (r: bool)
        ensures
            r == is_exact_text(candidate.text@, accepted_terms(self.policy().entries(), expected_name@)),
    {
        self.inner.accepts(expected_name, candidate)
    }
}

impl Default for MockContactMatcher {
    fn default() -> (m: MockContactMatcher)
        ensures
            m.policy().entries() == Seq::<(Seq<char>, Seq<Seq<char>>)>::empty(),
            m.pending() is None,
            m.call_total() == 0,
    {
        MockContactMatcher::new()
    }
}

} // verus!
