//! Audit records and the send-once guard.
//!
//! Audit records keep only what a task needs: a message is never stored, only
//! its digest (character count, SHA-256, time). Clipboard contents, account
//! tokens and chat history are never recorded.

use vstd::prelude::*;
use vstd::string::StringSliceAdditionalSpecFns;
use std::collections::BTreeSet;
use std::time::SystemTime;
use sha2::Digest;
use crate::ports::{AutomationError, ErrorView, TaskId};
use crate::state::TaskState;
use crate::text::{chars_of, push_char, push_str, string_of};

verus! {

#[verifier::external_type_specification]
#[verifier::external_body]
pub struct ExSystemTime(SystemTime);

/// The SHA-256 digest of a byte sequence.
pub uninterp spec fn sha256_digest(data: Seq<u8>) -> Seq<u8>;

/// SHA-256 of `data` (`sha2::Sha256::digest`); a SHA-256 digest has 32 bytes.
#[verifier::external_body]
pub(crate) fn sha256_of(data: &[u8]) -> (r: Vec<u8>)
    ensures
        r@ == sha256_digest(data@),
        r@.len() == 32,
{
    sha2::Sha256::digest(data).to_vec()
}

/// The current wall-clock time (`SystemTime::now`); nothing is promised about its value.
#[verifier::external_body]
pub(crate) fn now() -> SystemTime {
    SystemTime::now()
}

/// Lower-case hexadecimal digit of `d` (for `d < 16`).
pub open spec fn hex_char(d: nat) -> char {
    if d < 10 {
        crate::text::digit_char(d)
    } else if d == 10 { 'a' } else if d == 11 { 'b' } else if d == 12 { 'c' }
    else if d == 13 { 'd' } else if d == 14 { 'e' } else { 'f' }
}

/// Two lower-case hexadecimal digits per byte, most significant first.
pub open spec fn hex_of(bytes: Seq<u8>) -> Seq<char>
    decreases bytes.len(),
{
    if bytes.len() == 0 {
        Seq::empty()
    } else {
        hex_of(bytes.drop_last()) + seq![hex_char((bytes.last() / 16) as nat), hex_char((bytes.last() % 16) as nat)]
    }
}

pub proof fn lemma_hex_len(bytes: Seq<u8>)
    ensures
        hex_of(bytes).len() == 2 * bytes.len(),
    decreases bytes.len(),
{
    if bytes.len() > 0 {
        lemma_hex_len(bytes.drop_last());
    }
}

pub(crate) fn hex_digit(d: u8) -> (c: char)
    requires
        d < 16,
    ensures
        c == hex_char(d as nat),
{
    if d == 0 { '0' } else if d == 1 { '1' } else if d == 2 { '2' } else if d == 3 { '3' }
    else if d == 4 { '4' } else if d == 5 { '5' } else if d == 6 { '6' } else if d == 7 { '7' }
    else if d == 8 { '8' } else if d == 9 { '9' } else if d == 10 { 'a' } else if d == 11 { 'b' }
    else if d == 12 { 'c' } else if d == 13 { 'd' } else if d == 14 { 'e' } else { 'f' }
}

/// Lower-case hexadecimal notation of `bytes`.
pub fn hex_lower(bytes: &[u8]) -> (s: String)
    ensures
        s@ == hex_of(bytes@),
{
    let mut s = String::new();
    let mut i: usize = 0;
    while i < bytes.len()
        invariant
            i <= bytes@.len(),
            s@ == hex_of(bytes@.take(i as int)),
        decreases bytes@.len() - i,
    {
        let b = bytes[i];
        proof {
            assert(bytes@.take(i + 1).drop_last() =~= bytes@.take(i as int));
            assert(bytes@.take(i + 1).last() == b);
        }
        push_char(&mut s, hex_digit(b / 16));
        push_char(&mut s, hex_digit(b % 16));
        i = i + 1;
        assert(s@ =~= hex_of(bytes@.take(i as int)));
    }
    assert(bytes@.take(bytes@.len() as int) =~= bytes@);
    s
}

/// A message digest: length, hash and time, never the text.
#[derive(Debug)]
pub struct MessageDigest {
    pub char_count: usize,
    pub sha256: String,
    pub recorded_at: SystemTime,
}

impl MessageDigest {
    /// The digest of `text`: its character count and the lower-case hex SHA-256 of its UTF-8 bytes.
    pub fn of(text: &str) -> (d: MessageDigest)
        ensures
            d.char_count == text@.len(),
            d.sha256@ == hex_of(sha256_digest(text.spec_bytes())),
            d.sha256@.len() == 64,
    {
        let hash = sha256_of(text.as_bytes());
        let sha256 = hex_lower(hash.as_slice());
        proof {
            lemma_hex_len(hash@);
        }
        MessageDigest { char_count: text.unicode_len(), sha256, recorded_at: now() }
    }
}

/// One audited state transition.
#[derive(Debug)]
pub struct AuditEntry {
    pub task_id: TaskId,
    pub actor: String,
    pub platform: String,
    pub from: TaskState,
    pub to: TaskState,
    pub at: SystemTime,
    /// Time of the operator's confirmation, only on tasks that went through one.
    pub confirmation_at: Option<SystemTime>,
    pub failure_code: Option<String>,
    pub failure_reason: Option<String>,
    /// Evidence references (such as screenshot fingerprints); never image data or message text.
    pub evidence: Vec<String>,
    /// Message digest; never the text.
    pub message: Option<MessageDigest>,
}

/// An audit sink that records nothing (for runs that need no audit).
#[derive(Debug, Default)]
pub struct NoopAudit;

impl NoopAudit {
    /// Records nothing, and never fails.
    pub fn record(&self, entry: &AuditEntry) -> (r: Result<(), AutomationError>)
        ensures
            r is Ok,
    {
        Ok(())
    }
}

/// An in-memory audit trail, for tests and local previews.
#[derive(Debug)]
pub struct MemoryAudit {
    entries: Vec<AuditEntry>,
}

impl View for MemoryAudit {
    type V = Seq<AuditEntry>;

    closed spec fn view(&self) -> Seq<AuditEntry> {
        self.entries@
    }
}

impl MemoryAudit {
    pub fn new() -> (a: MemoryAudit)
        ensures
            a@ == Seq::<AuditEntry>::empty(),
    {
        MemoryAudit { entries: Vec::new() }
    }

    /// The recorded entries, oldest first.
    pub fn entries(&self) -> (r: &[AuditEntry])
        ensures
            r@ == self@,
    {
        self.entries.as_slice()
    }

    pub fn len(&self) -> (n: usize)
        ensures
            n == self@.len(),
    {
        self.entries.len()
    }

    pub fn is_empty(&self) -> (r: bool)
        ensures
            r == (self@.len() == 0),
    {
        self.entries.len() == 0
    }

    /// Appends an entry; recording in memory never fails.
    pub fn record(&mut self, entry: AuditEntry) -> (r: Result<(), AutomationError>)
        ensures
            final(self)@ == old(self)@.push(entry),
            r is Ok,
    {
        self.entries.push(entry);
        Ok(())
    }
}

/// The `count` hexadecimal digits of `v`'s lowest `4 * count` bits, most significant first.
pub open spec fn hex_digits(v: nat, count: nat) -> Seq<char>
    decreases count,
{
    if count == 0 {
        Seq::empty()
    } else {
        hex_digits(v / 16, (count - 1) as nat).push(hex_char(v % 16))
    }
}

/// The canonical text of a task identifier: 32 lower-case hex digits grouped 8-4-4-4-12.
pub open spec fn task_id_text(id: TaskId) -> Seq<char> {
    let d = hex_digits(id as nat, 32);
    d.subrange(0, 8) + "-"@ + d.subrange(8, 12) + "-"@ + d.subrange(12, 16) + "-"@ + d.subrange(16, 20)
        + "-"@ + d.subrange(20, 32)
}

proof fn lemma_hex_digits_len(v: nat, count: nat)
    ensures
        hex_digits(v, count).len() == count,
    decreases count,
{
    if count > 0 {
        lemma_hex_digits_len(v / 16, (count - 1) as nat);
    }
}

fn push_hex_digits(out: &mut Vec<char>, v: u128, count: u32)
    ensures
        final(out)@ == old(out)@ + hex_digits(v as nat, count as nat),
    decreases count,
{
    if count > 0 {
        push_hex_digits(out, v / 16, count - 1);
        out.push(hex_digit((v % 16) as u8));
        proof {
            assert(final(out)@ =~= old(out)@ + hex_digits(v as nat, count as nat));
        }
    } else {
        assert(old(out)@ + hex_digits(v as nat, 0) =~= old(out)@);
    }
}

/// The canonical hyphenated text of a task identifier.
pub fn task_id_string(id: TaskId) -> (s: String)
    ensures
        s@ == task_id_text(id),
{
    let mut digits: Vec<char> = Vec::new();
    push_hex_digits(&mut digits, id, 32);
    proof {
        lemma_hex_digits_len(id as nat, 32);
        assert(digits@ =~= hex_digits(id as nat, 32));
    }
    let mut s = string_of(digits.as_slice(), 0, 8);
    push_str(&mut s, "-");
    push_str(&mut s, string_of(digits.as_slice(), 8, 12).as_str());
    push_str(&mut s, "-");
    push_str(&mut s, string_of(digits.as_slice(), 12, 16).as_str());
    push_str(&mut s, "-");
    push_str(&mut s, string_of(digits.as_slice(), 16, 20).as_str());
    push_str(&mut s, "-");
    push_str(&mut s, string_of(digits.as_slice(), 20, 32).as_str());
    s
}

/// The refusal of a second claim of the same task.
pub open spec fn duplicate_claim_error(id: TaskId) -> ErrorView {
    ErrorView::NeedsHumanReview("任务 "@ + task_id_text(id) + " 已进入过发送流程，拒绝重复发送"@)
}

/// Send-once guard: a task may enter the sending step once. A claim is never
/// released: once sending has started, a task would rather stop for human
/// review than be retried into a duplicate message.
#[derive(Debug)]
pub struct MemorySendLedger {
    claimed: BTreeSet<TaskId>,
}

impl MemorySendLedger {
    /// The claimed task identifiers.
    pub closed spec fn claimed_ids(&self) -> Set<TaskId> {
        self.claimed@
    }

    pub fn new() -> (l: MemorySendLedger)
        ensures
            l.claimed_ids() == Set::<TaskId>::empty(),
    {
        MemorySendLedger { claimed: BTreeSet::new() }
    }

    /// The first claim of a task succeeds; any later claim is refused for human review.
    pub fn claim(&mut self, task_id: TaskId) -> (r: Result<(), AutomationError>)
        ensures
            final(self).claimed_ids() == old(self).claimed_ids().insert(task_id),
            !old(self).claimed_ids().contains(task_id) ==> r is Ok,
            old(self).claimed_ids().contains(task_id) ==> (r matches Err(e) && e@ == duplicate_claim_error(
                task_id,
            )),
    {
        broadcast use vstd::laws_cmp::group_laws_cmp;

        if !self.claimed.insert(task_id) {
            let mut msg = String::from_str("任务 ");
            push_str(&mut msg, task_id_string(task_id).as_str());
            push_str(&mut msg, " 已进入过发送流程，拒绝重复发送");
            return Err(AutomationError::NeedsHumanReview(msg));
        }
        Ok(())
    }

    pub fn is_claimed(&self, task_id: TaskId) -> (r: bool)
        ensures
            r == self.claimed_ids().contains(task_id),
    {
        broadcast use vstd::laws_cmp::group_laws_cmp;
        broadcast use vstd::std_specs::btree::axiom_set_contains_deref_key;

        self.claimed.contains(&task_id)
    }
}

} // verus!
