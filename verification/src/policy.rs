//! Contact matching policies.
//!
//! The name of the target contact is matched **character for character**
//! (after trimming surrounding whitespace); alias rules apply only when an
//! administrator configured them. Low confidence, several exact matches, or
//! text boxes too close to tell apart are refused: the policy never guesses.
//!
//! [`ContainsNameMatcher`] is a temporary relaxation layer on top of the strict
//! rule: it falls back to "the text contains the name" only when no candidate
//! matched exactly, and keeps every safety check of the strict rule.

use vstd::prelude::*;
use crate::ports::{
    boxes_view, center_x, center_y, div_toward_zero, match_view, spec_is_degenerate,
    AutomationError, ErrorView, Rect, TextBox, TextBoxView,
};
use crate::text::{
    contains, chars_of, decimal, push_decimal, push_str, runs_equal, seq_contains, string_of, trim,
    trim_bounds, trimmed_equal,
};

verus! {

/// Default refusal distance: two candidate centres closer than this many pixels
/// (on both axes) cannot be told apart.
pub const DEFAULT_MIN_SEPARATION_PX: i32 = 8;

/// The minimum confidence of a matching call: its order key (see
/// [`crate::ports`]) and the way the threshold reads in messages.
#[derive(Debug)]
pub struct ConfidenceThreshold {
    pub key: u32,
    pub shown: String,
}

/// The exact-name policy.
pub struct StrictContactMatcher {
    /// Alias rules configured by an administrator: target name -> accepted
    /// spellings. Looked up by the exact target name; when a name has several
    /// entries the last one counts, as when the rules are collected into a
    /// map. Empty by default: nothing is relaxed.
    pub aliases: Vec<(String, Vec<String>)>,
    pub min_separation_px: i32,
}

/// The relaxed policy: strict first, containment only when nothing matched exactly.
pub struct ContainsNameMatcher {
    strict: StrictContactMatcher,
}

// ---------------------------------------------------------------------------
// Model
// ---------------------------------------------------------------------------

pub open spec fn alias_entries(a: Seq<(String, Vec<String>)>) -> Seq<(Seq<char>, Seq<Seq<char>>)> {
    a.map_values(|e: (String, Vec<String>)| (e.0@, e.1@.map_values(|s: String| s@)))
}

/// The aliases configured for `name`: those of the last entry whose key is
/// exactly `name` (a later rule for the same name replaces an earlier one).
pub open spec fn configured_aliases(entries: Seq<(Seq<char>, Seq<Seq<char>>)>, name: Seq<char>) -> Seq<Seq<char>>
    decreases entries.len(),
{
    if entries.len() == 0 {
        Seq::empty()
    } else if entries.last().0 == name {
        entries.last().1
    } else {
        configured_aliases(entries.drop_last(), name)
    }
}

/// The spellings that count as the target: the name itself, then its aliases.
pub open spec fn accepted_terms(entries: Seq<(Seq<char>, Seq<Seq<char>>)>, name: Seq<char>) -> Seq<Seq<char>> {
    seq![name] + configured_aliases(entries, name)
}

/// `text` equals one of `terms` once both are trimmed.
pub open spec fn is_exact_text(text: Seq<char>, terms: Seq<Seq<char>>) -> bool {
    exists|k: int| 0 <= k < terms.len() && #[trigger] trim(terms[k]) == trim(text)
}

/// How many `i` in `[0, n)` satisfy `p`.
pub open spec fn count_where(p: spec_fn(int) -> bool, n: int) -> nat
    decreases n,
{
    if n <= 0 {
        0
    } else {
        count_where(p, n - 1) + if p(n - 1) { 1nat } else { 0nat }
    }
}

/// The smallest `i` in `[0, n)` satisfying `p`, or `-1`.
pub open spec fn first_where(p: spec_fn(int) -> bool, n: int) -> int
    decreases n,
{
    if n <= 0 {
        -1
    } else if first_where(p, n - 1) >= 0 {
        first_where(p, n - 1)
    } else if p(n - 1) {
        n - 1
    } else {
        -1
    }
}

/// The smallest `len(i)` over the `i` in `[0, n)` satisfying `p`, or `-1`.
pub open spec fn min_len_where(p: spec_fn(int) -> bool, len: spec_fn(int) -> nat, n: int) -> int
    decreases n,
{
    if n <= 0 {
        -1
    } else {
        let m = min_len_where(p, len, n - 1);
        if p(n - 1) && (m < 0 || len(n - 1) < m) {
            len(n - 1) as int
        } else {
            m
        }
    }
}

/// Candidate `i` reaches the minimum confidence.
pub open spec fn acc_pred(c: Seq<TextBoxView>, min: u32) -> spec_fn(int) -> bool {
    |i: int| 0 <= i < c.len() && c[i].confidence >= min
}

/// Candidate `i` reaches the minimum confidence and its text equals one of the terms.
pub open spec fn exact_pred(c: Seq<TextBoxView>, min: u32, terms: Seq<Seq<char>>) -> spec_fn(int) -> bool {
    |i: int| 0 <= i < c.len() && c[i].confidence >= min && is_exact_text(c[i].text, terms)
}

/// Candidate `i` reaches the minimum confidence and its text contains `name`.
pub open spec fn hit_pred(c: Seq<TextBoxView>, min: u32, name: Seq<char>) -> spec_fn(int) -> bool {
    |i: int| 0 <= i < c.len() && c[i].confidence >= min && seq_contains(c[i].text, name)
}

/// Number of characters of candidate `i`'s trimmed text.
pub open spec fn trimmed_len(c: Seq<TextBoxView>) -> spec_fn(int) -> nat {
    |i: int| trim(c[i].text).len()
}

/// A containment hit whose trimmed text has exactly `s` characters.
pub open spec fn tie_pred(c: Seq<TextBoxView>, min: u32, name: Seq<char>, s: int) -> spec_fn(int) -> bool {
    |i: int| hit_pred(c, min, name)(i) && trim(c[i].text).len() == s
}

pub open spec fn abs_int(v: int) -> int {
    if v < 0 { -v } else { v }
}

/// The centres of `a` and `b` are closer than `sep` pixels on both axes
/// (a negative `sep` counts as 0).
pub open spec fn centers_close(a: Rect, b: Rect, sep: i32) -> bool {
    let thr: int = if sep > 0 { sep as int } else { 0 };
    abs_int(center_x(a) - center_x(b)) < thr && abs_int(center_y(a) - center_y(b)) < thr
}

/// Another accepted candidate sits too close to candidate `h`.
pub open spec fn has_close_neighbour(c: Seq<TextBoxView>, min: u32, h: int, sep: i32) -> bool {
    exists|j: int|
        0 <= j < c.len() && j != h && c[j].confidence >= min && #[trigger] centers_close(
            c[j].bounds,
            c[h].bounds,
            sep,
        )
}

pub open spec fn empty_name_error() -> ErrorView {
    ErrorView::NeedsHumanReview("目标联系人名称为空"@)
}

pub open spec fn no_candidate_error(shown: Seq<char>) -> ErrorView {
    ErrorView::NeedsHumanReview("该区域没有达到最低置信度 "@ + shown + " 的文字候选"@)
}

pub open spec fn no_exact_error(name: Seq<char>) -> ErrorView {
    ErrorView::NeedsHumanReview("未找到与「"@ + trim(name) + "」逐字匹配的联系人"@)
}

pub open spec fn duplicate_error(n: nat, name: Seq<char>) -> ErrorView {
    ErrorView::AmbiguousVision("存在 "@ + decimal(n) + " 个与「"@ + trim(name) + "」逐字匹配的联系人，拒绝猜测"@)
}

pub open spec fn degenerate_error() -> ErrorView {
    ErrorView::AmbiguousVision("匹配到的联系人文字框尺寸无效"@)
}

pub open spec fn too_close_error(text: Seq<char>) -> ErrorView {
    ErrorView::AmbiguousVision("「"@ + trim(text) + "」附近存在过于接近的候选文字框，无法确定点击目标"@)
}

pub open spec fn no_hit_error(name: Seq<char>) -> ErrorView {
    ErrorView::NeedsHumanReview("未找到名称包含「"@ + trim(name) + "」的联系人（已放宽为包含匹配）"@)
}

pub open spec fn tie_error(hits: nat, name: Seq<char>, shortest: nat) -> ErrorView {
    ErrorView::AmbiguousVision(
        "有 "@ + decimal(hits) + " 个候选都包含「"@ + trim(name) + "」，且其中最短的几个一样长（"@
            + decimal(shortest) + " 字），无法确定点击目标"@,
    )
}

/// The last two checks on a selected candidate: a usable box, and nobody too close.
pub open spec fn confirm_outcome(c: Seq<TextBoxView>, min: u32, h: int, sep: i32) -> Result<TextBoxView, ErrorView> {
    if spec_is_degenerate(c[h].bounds) {
        Err(degenerate_error())
    } else if has_close_neighbour(c, min, h, sep) {
        Err(too_close_error(c[h].text))
    } else {
        Ok(c[h])
    }
}

/// The strict rule: the unique candidate, above the minimum confidence, whose
/// trimmed text equals the trimmed target name or one of its aliases.
pub open spec fn strict_outcome(
    c: Seq<TextBoxView>,
    min: u32,
    shown: Seq<char>,
    entries: Seq<(Seq<char>, Seq<Seq<char>>)>,
    name: Seq<char>,
    sep: i32,
) -> Result<TextBoxView, ErrorView> {
    let terms = accepted_terms(entries, name);
    let n = count_where(exact_pred(c, min, terms), c.len() as int);
    if trim(name).len() == 0 {
        Err(empty_name_error())
    } else if count_where(acc_pred(c, min), c.len() as int) == 0 {
        Err(no_candidate_error(shown))
    } else if n == 0 {
        Err(no_exact_error(name))
    } else if n == 1 {
        confirm_outcome(c, min, first_where(exact_pred(c, min, terms), c.len() as int), sep)
    } else {
        Err(duplicate_error(n, name))
    }
}

/// The relaxed rule. Strict first; a strict selection or a strict ambiguity
/// stands. Otherwise the candidates above the minimum confidence whose text
/// contains the trimmed name are the hits: one hit is selected; of several, the
/// one with the fewest characters, unless that minimum is shared.
pub open spec fn relaxed_outcome(
    c: Seq<TextBoxView>,
    min: u32,
    shown: Seq<char>,
    entries: Seq<(Seq<char>, Seq<Seq<char>>)>,
    name: Seq<char>,
    sep: i32,
) -> Result<TextBoxView, ErrorView> {
    let strict = strict_outcome(c, min, shown, entries, name, sep);
    let hits = hit_pred(c, min, trim(name));
    let h = count_where(hits, c.len() as int);
    let s = min_len_where(hits, trimmed_len(c), c.len() as int);
    let ties = tie_pred(c, min, trim(name), s);
    if trim(name).len() == 0 {
        Err(empty_name_error())
    } else if strict is Ok || strict matches Err(ErrorView::AmbiguousVision(_)) {
        strict
    } else if count_where(acc_pred(c, min), c.len() as int) == 0 {
        Err(no_candidate_error(shown))
    } else if h == 0 {
        Err(no_hit_error(name))
    } else if h == 1 {
        confirm_outcome(c, min, first_where(hits, c.len() as int), sep)
    } else if count_where(ties, c.len() as int) >= 2 {
        Err(tie_error(h, name, s as nat))
    } else {
        confirm_outcome(c, min, first_where(ties, c.len() as int), sep)
    }
}

// ---------------------------------------------------------------------------
// Lemmas on counting
// ---------------------------------------------------------------------------

pub(crate) proof fn lemma_count_zero(p: spec_fn(int) -> bool, n: int)
    ensures
        count_where(p, n) == 0 <==> forall|i: int| 0 <= i < n ==> !#[trigger] p(i),
    decreases n,
{
    if n > 0 {
        lemma_count_zero(p, n - 1);
    }
}

pub(crate) proof fn lemma_first(p: spec_fn(int) -> bool, n: int)
    ensures
        first_where(p, n) >= 0 ==> first_where(p, n) < n && p(first_where(p, n)) && forall|i: int|
            0 <= i < first_where(p, n) ==> !#[trigger] p(i),
        first_where(p, n) < 0 ==> first_where(p, n) == -1 && forall|i: int| 0 <= i < n ==> !#[trigger] p(i),
    decreases n,
{
    if n > 0 {
        lemma_first(p, n - 1);
    }
}

pub(crate) proof fn lemma_count_one(p: spec_fn(int) -> bool, n: int)
    requires
        count_where(p, n) == 1,
    ensures
        0 <= first_where(p, n) < n,
        p(first_where(p, n)),
        forall|i: int| 0 <= i < n && #[trigger] p(i) ==> i == first_where(p, n),
    decreases n,
{
    lemma_first(p, n);
    if n > 0 {
        if count_where(p, n - 1) == 1 {
            lemma_count_one(p, n - 1);
        } else {
            lemma_count_zero(p, n - 1);
        }
    }
}

pub(crate) proof fn lemma_min_len(p: spec_fn(int) -> bool, len: spec_fn(int) -> nat, n: int)
    ensures
        min_len_where(p, len, n) >= 0 ==> exists|i: int|
            0 <= i < n && #[trigger] p(i) && len(i) == min_len_where(p, len, n),
        min_len_where(p, len, n) >= 0 ==> forall|i: int|
            0 <= i < n && #[trigger] p(i) ==> min_len_where(p, len, n) <= len(i),
        min_len_where(p, len, n) < 0 ==> min_len_where(p, len, n) == -1 && forall|i: int|
            0 <= i < n ==> !#[trigger] p(i),
    decreases n,
{
    if n > 0 {
        lemma_min_len(p, len, n - 1);
    }
}


// ---------------------------------------------------------------------------
// Laws
// ---------------------------------------------------------------------------

/// A blank target name is refused before anything else, by both policies.
pub proof fn lemma_blank_name_is_refused(
    c: Seq<TextBoxView>,
    min: u32,
    shown: Seq<char>,
    entries: Seq<(Seq<char>, Seq<Seq<char>>)>,
    name: Seq<char>,
    sep: i32,
)
    requires
        trim(name).len() == 0,
    ensures
        strict_outcome(c, min, shown, entries, name, sep) == Err::<TextBoxView, ErrorView>(empty_name_error()),
        relaxed_outcome(c, min, shown, entries, name, sep) == Err::<TextBoxView, ErrorView>(empty_name_error()),
{
}

/// The relaxation layer changes nothing when the strict rule selected someone
/// or reported an ambiguity: relaxing can only make an ambiguity worse.
pub proof fn lemma_relaxed_keeps_strict_decisions(
    c: Seq<TextBoxView>,
    min: u32,
    shown: Seq<char>,
    entries: Seq<(Seq<char>, Seq<Seq<char>>)>,
    name: Seq<char>,
    sep: i32,
)
    requires
        strict_outcome(c, min, shown, entries, name, sep) is Ok
            || strict_outcome(c, min, shown, entries, name, sep) matches Err(ErrorView::AmbiguousVision(_)),
    ensures
        relaxed_outcome(c, min, shown, entries, name, sep) == strict_outcome(c, min, shown, entries, name, sep),
{
}

/// What the strict rule selects is one of the candidates, reaches the minimum
/// confidence, is accepted by the same policy's `accepts` test, has a usable
/// box, and no other accepted candidate sits too close to it; no other
/// accepted candidate matches exactly.
pub proof fn lemma_strict_selection_is_sound(
    c: Seq<TextBoxView>,
    min: u32,
    shown: Seq<char>,
    entries: Seq<(Seq<char>, Seq<Seq<char>>)>,
    name: Seq<char>,
    sep: i32,
)
    requires
        strict_outcome(c, min, shown, entries, name, sep) is Ok,
    ensures
        ({
            let v = strict_outcome(c, min, shown, entries, name, sep)->Ok_0;
            let terms = accepted_terms(entries, name);
            exists|h: int|
                0 <= h < c.len() && c[h] == v && v.confidence >= min && is_exact_text(v.text, terms)
                    && !spec_is_degenerate(v.bounds) && !has_close_neighbour(c, min, h, sep)
                    && forall|j: int|
                    0 <= j < c.len() && j != h && c[j].confidence >= min ==> !is_exact_text(
                        #[trigger] c[j].text,
                        terms,
                    )
        }),
{
    let terms = accepted_terms(entries, name);
    let p = exact_pred(c, min, terms);
    lemma_count_one(p, c.len() as int);
    let h = first_where(p, c.len() as int);
    assert forall|j: int| 0 <= j < c.len() && j != h && c[j].confidence >= min implies !is_exact_text(
        #[trigger] c[j].text,
        terms,
    ) by {
        if is_exact_text(c[j].text, terms) {
            assert(p(j));
        }
    }
}

/// Without configured aliases, the strict rule only ever selects a candidate
/// whose trimmed text is the trimmed target name.
pub proof fn lemma_no_alias_means_exact_name(
    c: Seq<TextBoxView>,
    min: u32,
    shown: Seq<char>,
    name: Seq<char>,
    sep: i32,
)
    requires
        strict_outcome(c, min, shown, Seq::empty(), name, sep) is Ok,
    ensures
        trim(strict_outcome(c, min, shown, Seq::empty(), name, sep)->Ok_0.text) == trim(name),
{
    lemma_strict_selection_is_sound(c, min, shown, Seq::empty(), name, sep);
    let terms = accepted_terms(Seq::empty(), name);
    assert(terms =~= seq![name]);
}

/// What the relaxed rule selects is one of the candidates above the minimum
/// confidence that the relaxed `accepts` test accepts, with a usable box and
/// no accepted candidate too close to it.
pub proof fn lemma_relaxed_selection_is_sound(
    c: Seq<TextBoxView>,
    min: u32,
    shown: Seq<char>,
    entries: Seq<(Seq<char>, Seq<Seq<char>>)>,
    name: Seq<char>,
    sep: i32,
)
    requires
        relaxed_outcome(c, min, shown, entries, name, sep) is Ok,
    ensures
        ({
            let v = relaxed_outcome(c, min, shown, entries, name, sep)->Ok_0;
            &&& trim(name).len() > 0
            &&& v.confidence >= min
            &&& !spec_is_degenerate(v.bounds)
            &&& (is_exact_text(v.text, accepted_terms(entries, name)) || seq_contains(v.text, trim(name)))
            &&& exists|h: int| 0 <= h < c.len() && c[h] == v && !has_close_neighbour(c, min, h, sep)
        }),
{
    let strict = strict_outcome(c, min, shown, entries, name, sep);
    if strict is Ok {
        lemma_strict_selection_is_sound(c, min, shown, entries, name, sep);
    } else {
        let hits = hit_pred(c, min, trim(name));
        let n = c.len() as int;
        let h = count_where(hits, n);
        if h == 1 {
            lemma_count_one(hits, n);
        } else {
            let s = min_len_where(hits, trimmed_len(c), n);
            let ties = tie_pred(c, min, trim(name), s);
            lemma_count_zero(hits, n);
            lemma_min_len(hits, trimmed_len(c), n);
            let w = choose|i: int| 0 <= i < n && #[trigger] hits(i) && trimmed_len(c)(i) == s;
            assert(ties(w));
            lemma_count_zero(ties, n);
            lemma_count_one(ties, n);
        }
    }
}

/// Of several rows that contain the target name, the relaxed rule takes the
/// shortest: whatever it selects is a candidate that either matches the name
/// (or an alias) exactly, or is strictly shorter, once trimmed, than every
/// other candidate above the minimum confidence whose text contains the
/// trimmed name.
pub proof fn lemma_relaxed_selection_is_the_shortest_hit(
    c: Seq<TextBoxView>,
    min: u32,
    shown: Seq<char>,
    entries: Seq<(Seq<char>, Seq<Seq<char>>)>,
    name: Seq<char>,
    sep: i32,
)
    requires
        relaxed_outcome(c, min, shown, entries, name, sep) is Ok,
    ensures
        exists|h: int|
            0 <= h < c.len() && c[h] == relaxed_outcome(c, min, shown, entries, name, sep)->Ok_0 && (is_exact_text(
                c[h].text,
                accepted_terms(entries, name),
            ) || forall|j: int|
                0 <= j < c.len() && j != h && c[j].confidence >= min && #[trigger] seq_contains(
                    c[j].text,
                    trim(name),
                ) ==> trim(c[h].text).len() < trim(c[j].text).len()),
{
    let strict = strict_outcome(c, min, shown, entries, name, sep);
    let n = c.len() as int;
    if strict is Ok {
        let terms = accepted_terms(entries, name);
        let p = exact_pred(c, min, terms);
        lemma_count_one(p, n);
        let h = first_where(p, n);
        assert(c[h] == relaxed_outcome(c, min, shown, entries, name, sep)->Ok_0);
        assert(is_exact_text(c[h].text, terms));
    } else {
        let hits = hit_pred(c, min, trim(name));
        let k = count_where(hits, n);
        if k == 1 {
            lemma_count_one(hits, n);
            let h = first_where(hits, n);
            assert forall|j: int|
                0 <= j < c.len() && j != h && c[j].confidence >= min && #[trigger] seq_contains(
                    c[j].text,
                    trim(name),
                ) implies trim(c[h].text).len() < trim(c[j].text).len() by {
                assert(hits(j));
            }
        } else {
            let s = min_len_where(hits, trimmed_len(c), n);
            let ties = tie_pred(c, min, trim(name), s);
            lemma_count_zero(hits, n);
            lemma_min_len(hits, trimmed_len(c), n);
            let w = choose|i: int| 0 <= i < n && #[trigger] hits(i) && trimmed_len(c)(i) == s;
            assert(ties(w));
            lemma_count_zero(ties, n);
            lemma_count_one(ties, n);
            let h = first_where(ties, n);
            assert forall|j: int|
                0 <= j < c.len() && j != h && c[j].confidence >= min && #[trigger] seq_contains(
                    c[j].text,
                    trim(name),
                ) implies trim(c[h].text).len() < trim(c[j].text).len() by {
                assert(hits(j));
                assert(s <= trimmed_len(c)(j));
                if trim(c[j].text).len() == s {
                    assert(ties(j));
                }
            }
        }
    }
}

// ---------------------------------------------------------------------------
// Executable rules
// ---------------------------------------------------------------------------

/// Half of `v` rounded toward zero, widened.
fn half(v: i32) -> (r: i64)
    ensures
        r == div_toward_zero(v as int, 2),
{
    if v >= 0 {
        (v / 2) as i64
    } else {
        -(((-(v as i64)) / 2))
    }
}

impl StrictContactMatcher {
    pub closed spec fn entries(&self) -> Seq<(Seq<char>, Seq<Seq<char>>)> {
        alias_entries(self.aliases@)
    }

    /// A matcher with no aliases and the default separation.
    pub fn new() -> (m: StrictContactMatcher)
        ensures
            m.entries() == Seq::<(Seq<char>, Seq<Seq<char>>)>::empty(),
            m.min_separation_px == DEFAULT_MIN_SEPARATION_PX,
    {
        let m = StrictContactMatcher { aliases: Vec::new(), min_separation_px: DEFAULT_MIN_SEPARATION_PX };
        assert(m.entries() =~= Seq::<(Seq<char>, Seq<Seq<char>>)>::empty());
        m
    }

    /// A matcher with the given alias rules and the default separation.
    pub fn with_aliases(aliases: Vec<(String, Vec<String>)>) -> (m: StrictContactMatcher)
        ensures
            m.entries() == alias_entries(aliases@),
            m.min_separation_px == DEFAULT_MIN_SEPARATION_PX,
    {
        StrictContactMatcher { aliases, min_separation_px: DEFAULT_MIN_SEPARATION_PX }
    }

    /// Whether the centres of `a` and `b` are closer than `min_separation_px` on both axes.
    pub fn centers_too_close(a: Rect, b: Rect, min_separation_px: i32) -> (r: bool)
        ensures
            r == centers_close(a, b, min_separation_px),
    {
        let ax = a.x as i64 + half(a.width);
        let ay = a.y as i64 + half(a.height);
        let bx = b.x as i64 + half(b.width);
        let by = b.y as i64 + half(b.height);
        let dx = if ax >= bx { ax - bx } else { bx - ax };
        let dy = if ay >= by { ay - by } else { by - ay };
        let thr: i64 = if min_separation_px > 0 { min_separation_px as i64 } else { 0 };
        dx < thr && dy < thr
    }

    /// The spellings that count as `name`: the name, then its configured aliases.
    pub(crate) fn term_chars(&self, name: &str) -> (r: Vec<Vec<char>>)
        ensures
            r@.len() == accepted_terms(self.entries(), name@).len(),
            forall|k: int| 0 <= k < r@.len() ==> #[trigger] r@[k]@ == accepted_terms(self.entries(), name@)[k],
    {
        let ghost entries = self.entries();
        let name_chars = chars_of(name);
        let mut terms: Vec<Vec<char>> = Vec::new();
        terms.push(chars_of(name));
        let n = self.aliases.len();
        let mut i: usize = n;
        assert(entries.subrange(0, n as int) =~= entries);
        while i > 0
            invariant
                n == self.aliases@.len() == entries.len(),
                entries == self.entries(),
                i <= n,
                name_chars@ == name@,
                terms@.len() == 1,
                terms@[0]@ == name@,
                configured_aliases(entries, name@) == configured_aliases(entries.subrange(0, i as int), name@),
            decreases i,
        {
            let j = i - 1;
            proof {
                let before = entries.subrange(0, i as int);
                assert(before.drop_last() =~= entries.subrange(0, j as int));
                assert(before.last() == entries[j as int]);
            }
            let key = chars_of(self.aliases[j].0.as_str());
            assert(entries[j as int].0 == key@);
            if runs_equal(key.as_slice(), 0, key.len(), name_chars.as_slice(), 0, name_chars.len()) {
                assert(key@.subrange(0, key@.len() as int) =~= key@);
                assert(name_chars@.subrange(0, name_chars@.len() as int) =~= name_chars@);
                let spellings = &self.aliases[j].1;
                let m = spellings.len();
                let mut k: usize = 0;
                while k < m
                    invariant
                        j < n == entries.len(),
                        m == spellings@.len(),
                        entries[j as int].1 == spellings@.map_values(|s: String| s@),
                        k <= m,
                        terms@.len() == 1 + k,
                        terms@[0]@ == name@,
                        forall|q: int| 0 <= q < k ==> #[trigger] terms@[q + 1]@ == entries[j as int].1[q],
                    decreases m - k,
                {
                    terms.push(chars_of(spellings[k].as_str()));
                    k = k + 1;
                }
                proof {
                    let want = accepted_terms(entries, name@);
                    assert(configured_aliases(entries.subrange(0, i as int), name@) == entries[j as int].1);
                    assert forall|q: int| 0 <= q < terms@.len() implies #[trigger] terms@[q]@ == want[q] by {
                        if q > 0 {
                            assert(terms@[(q - 1) + 1]@ == entries[j as int].1[q - 1]);
                        }
                    }
                }
                return terms;
            }
            i = j;
        }
        proof {
            assert(entries.subrange(0, 0).len() == 0);
            assert(accepted_terms(entries, name@) =~= seq![name@]);
        }
        terms
    }

    /// Whether `text` equals one of `terms` once both are trimmed.
    pub(crate) fn matches_a_term(text: &[char], terms: &Vec<Vec<char>>) -> (r: bool)
        ensures
            r == is_exact_text(text@, terms@.map_values(|v: Vec<char>| v@)),
    {
        let ghost tv = terms@.map_values(|v: Vec<char>| v@);
        let mut k: usize = 0;
        while k < terms.len()
            invariant
                tv == terms@.map_values(|v: Vec<char>| v@),
                k <= terms@.len(),
                forall|j: int| 0 <= j < k ==> trim(#[trigger] tv[j]) != trim(text@),
            decreases terms@.len() - k,
        {
            if trimmed_equal(terms[k].as_slice(), text) {
                assert(trim(tv[k as int]) == trim(text@));
                return true;
            }
            k = k + 1;
        }
        false
    }

    /// Whether one candidate is accepted as the target by this policy (the same
    /// test `find_unique_exact_match` applies to each candidate's text).
    pub fn accepts(&self, expected_name: &str, candidate: &TextBox) -> (r: bool)
        ensures
            r == is_exact_text(candidate.text@, accepted_terms(self.entries(), expected_name@)),
    {
        let terms = self.term_chars(expected_name);
        let text = chars_of(candidate.text.as_str());
        let r = Self::matches_a_term(text.as_slice(), &terms);
        proof {
            assert(terms@.map_values(|v: Vec<char>| v@) =~= accepted_terms(self.entries(), expected_name@));
        }
        r
    }

    /// The final two checks on the selected candidate `h`.
    fn confirm(&self, candidates: &[TextBox], min: u32, h: usize) -> (r: Result<TextBox, AutomationError>)
        requires
            h < candidates@.len(),
        ensures
            match_view(r) == confirm_outcome(boxes_view(candidates@), min, h as int, self.min_separation_px),
    {
        let ghost c = boxes_view(candidates@);
        if candidates[h].bounds.is_degenerate() {
            return Err(AutomationError::AmbiguousVision(String::from_str("匹配到的联系人文字框尺寸无效")));
        }
        let n = candidates.len();
        let mut j: usize = 0;
        while j < n
            invariant
                n == candidates@.len() == c.len(),
                c == boxes_view(candidates@),
                h < n,
                j <= n,
                !spec_is_degenerate(c[h as int].bounds),
                forall|k: int|
                    0 <= k < j && k != h && c[k].confidence >= min ==> !#[trigger] centers_close(
                        c[k].bounds,
                        c[h as int].bounds,
                        self.min_separation_px,
                    ),
            decreases n - j,
        {
            if j != h && candidates[j].confidence >= min && Self::centers_too_close(
                candidates[j].bounds,
                candidates[h].bounds,
                self.min_separation_px,
            ) {
                let text = chars_of(candidates[h].text.as_str());
                let (a, b) = trim_bounds(text.as_slice());
                let mut msg = String::from_str("「");
                push_str(&mut msg, string_of(text.as_slice(), a, b).as_str());
                push_str(&mut msg, "」附近存在过于接近的候选文字框，无法确定点击目标");
                proof {
                    assert(c[j as int] == candidates@[j as int]@);
                    assert(c[h as int] == candidates@[h as int]@);
                    assert(centers_close(c[j as int].bounds, c[h as int].bounds, self.min_separation_px));
                    assert(has_close_neighbour(c, min, h as int, self.min_separation_px));
                    assert(!spec_is_degenerate(c[h as int].bounds));
                    assert(msg@ == too_close_error(c[h as int].text)->AmbiguousVision_0);
                }
                return Err(AutomationError::AmbiguousVision(msg));
            }
            j = j + 1;
        }
        Ok(candidates[h].clone())
    }

    /// Counts the accepted and the exactly matching candidates, and finds the first exact one.
    pub(crate) fn scan_exact(&self, candidates: &[TextBox], min: u32, terms: &Vec<Vec<char>>) -> (r: (usize, usize, Option<usize>))
        ensures
            r.0 == count_where(acc_pred(boxes_view(candidates@), min), candidates@.len() as int),
            r.1 == count_where(
                exact_pred(boxes_view(candidates@), min, terms@.map_values(|v: Vec<char>| v@)),
                candidates@.len() as int,
            ),
            match r.2 {
                Some(f) => f as int == first_where(
                    exact_pred(boxes_view(candidates@), min, terms@.map_values(|v: Vec<char>| v@)),
                    candidates@.len() as int,
                ),
                None => first_where(
                    exact_pred(boxes_view(candidates@), min, terms@.map_values(|v: Vec<char>| v@)),
                    candidates@.len() as int,
                ) == -1,
            },
    {
        let ghost c = boxes_view(candidates@);
        let ghost tv = terms@.map_values(|v: Vec<char>| v@);
        let ghost ap = acc_pred(c, min);
        let ghost ep = exact_pred(c, min, tv);
        let n = candidates.len();
        let mut accepted: usize = 0;
        let mut exact: usize = 0;
        let mut first: Option<usize> = None;
        let mut i: usize = 0;
        while i < n
            invariant
                n == candidates@.len() == c.len(),
                c == boxes_view(candidates@),
                tv == terms@.map_values(|v: Vec<char>| v@),
                ap == acc_pred(c, min),
                ep == exact_pred(c, min, tv),
                i <= n,
                accepted == count_where(ap, i as int),
                exact == count_where(ep, i as int),
                accepted <= i,
                exact <= i,
                match first {
                    Some(f) => f as int == first_where(ep, i as int),
                    None => first_where(ep, i as int) == -1,
                },
            decreases n - i,
        {
            let ok = candidates[i].confidence >= min;
            let mut is_exact = false;
            if ok {
                let text = chars_of(candidates[i].text.as_str());
                is_exact = Self::matches_a_term(text.as_slice(), terms);
            }
            assert(ap(i as int) == ok);
            assert(ep(i as int) == is_exact);
            if ok {
                accepted = accepted + 1;
            }
            if is_exact {
                exact = exact + 1;
                if first.is_none() {
                    first = Some(i);
                }
            }
            i = i + 1;
        }
        (accepted, exact, first)
    }

    /// The strict rule (see [`strict_outcome`]).
    pub fn find_unique_exact_match(
        &self,
        expected_name: &str,
        candidates: &[TextBox],
        min_confidence: &ConfidenceThreshold,
    ) -> (r: Result<TextBox, AutomationError>)
        ensures
            match_view(r) == strict_outcome(
                boxes_view(candidates@),
                min_confidence.key,
                min_confidence.shown@,
                self.entries(),
                expected_name@,
                self.min_separation_px,
            ),
    {
        let ghost c = boxes_view(candidates@);
        let name = chars_of(expected_name);
        let (a, b) = trim_bounds(name.as_slice());
        if a == b {
            return Err(AutomationError::NeedsHumanReview(String::from_str("目标联系人名称为空")));
        }
        let min = min_confidence.key;
        let terms = self.term_chars(expected_name);
        proof {
            assert(terms@.map_values(|v: Vec<char>| v@) =~= accepted_terms(self.entries(), expected_name@));
        }
        let (accepted, exact, first) = self.scan_exact(candidates, min, &terms);
        if accepted == 0 {
            let mut msg = String::from_str("该区域没有达到最低置信度 ");
            push_str(&mut msg, min_confidence.shown.as_str());
            push_str(&mut msg, " 的文字候选");
            return Err(AutomationError::NeedsHumanReview(msg));
        }
        let trimmed_name = string_of(name.as_slice(), a, b);
        if exact == 0 {
            let mut msg = String::from_str("未找到与「");
            push_str(&mut msg, trimmed_name.as_str());
            push_str(&mut msg, "」逐字匹配的联系人");
            return Err(AutomationError::NeedsHumanReview(msg));
        }
        if exact == 1 {
            let ghost ep = exact_pred(c, min, accepted_terms(self.entries(), expected_name@));
            proof {
                lemma_count_one(ep, c.len() as int);
            }
            let h = match first {
                Some(f) => f,
                None => 0,
            };
            return self.confirm(candidates, min, h);
        }
        let mut msg = String::from_str("存在 ");
        push_decimal(&mut msg, exact);
        push_str(&mut msg, " 个与「");
        push_str(&mut msg, trimmed_name.as_str());
        push_str(&mut msg, "」逐字匹配的联系人，拒绝猜测");
        Err(AutomationError::AmbiguousVision(msg))
    }
}

impl Default for StrictContactMatcher {
    fn default() -> (m: StrictContactMatcher)
        ensures
            m.entries() == Seq::<(Seq<char>, Seq<Seq<char>>)>::empty(),
            m.min_separation_px == DEFAULT_MIN_SEPARATION_PX,
    {
        StrictContactMatcher::new()
    }
}

impl ContainsNameMatcher {
    /// The strict policy this layer runs first.
    pub closed spec fn inner(&self) -> StrictContactMatcher {
        self.strict
    }

    pub fn new(strict: StrictContactMatcher) -> (m: ContainsNameMatcher)
        ensures
            m.inner() == strict,
    {
        ContainsNameMatcher { strict }
    }

    /// The inner strict matcher, whose aliases and separation this layer reuses.
    pub fn strict(&self) -> (r: &StrictContactMatcher)
        ensures
            *r == self.inner(),
    {
        &self.strict
    }

    /// Counts the accepted candidates and the containment hits, finds the first
    /// hit and the fewest characters of a hit's trimmed text.
    pub(crate) fn scan_hits(candidates: &[TextBox], min: u32, name: &[char]) -> (r: (usize, usize, Option<usize>, Option<usize>))
        ensures
            r.0 == count_where(acc_pred(boxes_view(candidates@), min), candidates@.len() as int),
            r.1 == count_where(hit_pred(boxes_view(candidates@), min, name@), candidates@.len() as int),
            match r.2 {
                Some(f) => f as int == first_where(hit_pred(boxes_view(candidates@), min, name@), candidates@.len() as int),
                None => first_where(hit_pred(boxes_view(candidates@), min, name@), candidates@.len() as int) == -1,
            },
            match r.3 {
                Some(m) => m as int == min_len_where(
                    hit_pred(boxes_view(candidates@), min, name@),
                    trimmed_len(boxes_view(candidates@)),
                    candidates@.len() as int,
                ),
                None => min_len_where(
                    hit_pred(boxes_view(candidates@), min, name@),
                    trimmed_len(boxes_view(candidates@)),
                    candidates@.len() as int,
                ) == -1,
            },
    {
        let ghost c = boxes_view(candidates@);
        let ghost ap = acc_pred(c, min);
        let ghost hp = hit_pred(c, min, name@);
        let ghost tl = trimmed_len(c);
        let n = candidates.len();
        let mut accepted: usize = 0;
        let mut hits: usize = 0;
        let mut first: Option<usize> = None;
        let mut shortest: Option<usize> = None;
        let mut i: usize = 0;
        while i < n
            invariant
                n == candidates@.len() == c.len(),
                c == boxes_view(candidates@),
                ap == acc_pred(c, min),
                hp == hit_pred(c, min, name@),
                tl == trimmed_len(c),
                i <= n,
                accepted == count_where(ap, i as int),
                hits == count_where(hp, i as int),
                accepted <= i,
                hits <= i,
                match first {
                    Some(f) => f as int == first_where(hp, i as int),
                    None => first_where(hp, i as int) == -1,
                },
                match shortest {
                    Some(m) => m as int == min_len_where(hp, tl, i as int),
                    None => min_len_where(hp, tl, i as int) == -1,
                },
            decreases n - i,
        {
            let ok = candidates[i].confidence >= min;
            let text = chars_of(candidates[i].text.as_str());
            let mut hit = false;
            if ok {
                hit = contains(text.as_slice(), name);
            }
            let (a, b) = trim_bounds(text.as_slice());
            let len = b - a;
            assert(c[i as int] == candidates@[i as int]@);
            assert(ap(i as int) == ok);
            assert(hp(i as int) == hit);
            assert(tl(i as int) == len);
            if ok {
                accepted = accepted + 1;
            }
            if hit {
                hits = hits + 1;
                if first.is_none() {
                    first = Some(i);
                }
                match shortest {
                    Some(m) => {
                        if len < m {
                            shortest = Some(len);
                        }
                    },
                    None => {
                        shortest = Some(len);
                    },
                }
            }
            i = i + 1;
        }
        (accepted, hits, first, shortest)
    }

    /// Counts the hits whose trimmed text has exactly `s` characters and finds the first.
    pub(crate) fn scan_ties(candidates: &[TextBox], min: u32, name: &[char], s: usize) -> (r: (usize, Option<usize>))
        ensures
            r.0 == count_where(tie_pred(boxes_view(candidates@), min, name@, s as int), candidates@.len() as int),
            match r.1 {
                Some(f) => f as int == first_where(
                    tie_pred(boxes_view(candidates@), min, name@, s as int),
                    candidates@.len() as int,
                ),
                None => first_where(
                    tie_pred(boxes_view(candidates@), min, name@, s as int),
                    candidates@.len() as int,
                ) == -1,
            },
    {
        let ghost c = boxes_view(candidates@);
        let ghost tp = tie_pred(c, min, name@, s as int);
        let n = candidates.len();
        let mut ties: usize = 0;
        let mut first: Option<usize> = None;
        let mut i: usize = 0;
        while i < n
            invariant
                n == candidates@.len() == c.len(),
                c == boxes_view(candidates@),
                tp == tie_pred(c, min, name@, s as int),
                i <= n,
                ties == count_where(tp, i as int),
                ties <= i,
                match first {
                    Some(f) => f as int == first_where(tp, i as int),
                    None => first_where(tp, i as int) == -1,
                },
            decreases n - i,
        {
            let ok = candidates[i].confidence >= min;
            let text = chars_of(candidates[i].text.as_str());
            let mut tie = false;
            if ok && contains(text.as_slice(), name) {
                let (a, b) = trim_bounds(text.as_slice());
                tie = b - a == s;
            }
            assert(c[i as int] == candidates@[i as int]@);
            assert(tp(i as int) == tie);
            if tie {
                ties = ties + 1;
                if first.is_none() {
                    first = Some(i);
                }
            }
            i = i + 1;
        }
        (ties, first)
    }

    /// The relaxed rule (see [`relaxed_outcome`]).
    pub fn find_unique_exact_match(
        &self,
        expected_name: &str,
        candidates: &[TextBox],
        min_confidence: &ConfidenceThreshold,
    ) -> (r: Result<TextBox, AutomationError>)
        ensures
            match_view(r) == relaxed_outcome(
                boxes_view(candidates@),
                min_confidence.key,
                min_confidence.shown@,
                self.inner().entries(),
                expected_name@,
                self.inner().min_separation_px,
            ),
    {
        let ghost c = boxes_view(candidates@);
        let name = chars_of(expected_name);
        let (a, b) = trim_bounds(name.as_slice());
        if a == b {
            return Err(AutomationError::NeedsHumanReview(String::from_str("目标联系人名称为空")));
        }
        match self.strict.find_unique_exact_match(expected_name, candidates, min_confidence) {
            Ok(found) => {
                return Ok(found);
            },
            Err(AutomationError::AmbiguousVision(m)) => {
                return Err(AutomationError::AmbiguousVision(m));
            },
            Err(_) => {},
        }
        let min = min_confidence.key;
        let trimmed_name = string_of(name.as_slice(), a, b);
        let tn = chars_of(trimmed_name.as_str());
        let ghost hp = hit_pred(c, min, tn@);
        let (accepted, hits, first, shortest) = Self::scan_hits(candidates, min, tn.as_slice());
        if accepted == 0 {
            let mut msg = String::from_str("该区域没有达到最低置信度 ");
            push_str(&mut msg, min_confidence.shown.as_str());
            push_str(&mut msg, " 的文字候选");
            return Err(AutomationError::NeedsHumanReview(msg));
        }
        if hits == 0 {
            let mut msg = String::from_str("未找到名称包含「");
            push_str(&mut msg, trimmed_name.as_str());
            push_str(&mut msg, "」的联系人（已放宽为包含匹配）");
            return Err(AutomationError::NeedsHumanReview(msg));
        }
        proof {
            lemma_count_zero(hp, c.len() as int);
            lemma_min_len(hp, trimmed_len(c), c.len() as int);
        }
        if hits == 1 {
            proof {
                lemma_count_one(hp, c.len() as int);
            }
            let h = match first {
                Some(f) => f,
                None => 0,
            };
            return self.strict.confirm(candidates, min, h);
        }
        let s = match shortest {
            Some(m) => m,
            None => 0,
        };
        let ghost tp = tie_pred(c, min, tn@, s as int);
        let (ties, first_tie) = Self::scan_ties(candidates, min, tn.as_slice(), s);
        if ties >= 2 {
            let mut msg = String::from_str("有 ");
            push_decimal(&mut msg, hits);
            push_str(&mut msg, " 个候选都包含「");
            push_str(&mut msg, trimmed_name.as_str());
            push_str(&mut msg, "」，且其中最短的几个一样长（");
            push_decimal(&mut msg, s);
            push_str(&mut msg, " 字），无法确定点击目标");
            return Err(AutomationError::AmbiguousVision(msg));
        }
        proof {
            let w = choose|i: int| 0 <= i < c.len() && #[trigger] hp(i) && trimmed_len(c)(i) == s;
            assert(tp(w));
            lemma_count_zero(tp, c.len() as int);
            lemma_count_one(tp, c.len() as int);
        }
        let h = match first_tie {
            Some(f) => f,
            None => 0,
        };
        self.strict.confirm(candidates, min, h)
    }

    /// Whether one candidate is accepted as the target: never for a blank name;
    /// otherwise when the strict policy accepts it or its text contains the trimmed name.
    pub fn accepts(&self, expected_name: &str, candidate: &TextBox) -> (r: bool)
        ensures
            r == (trim(expected_name@).len() > 0 && (is_exact_text(
                candidate.text@,
                accepted_terms(self.inner().entries(), expected_name@),
            ) || seq_contains(candidate.text@, trim(expected_name@)))),
    {
        let name = chars_of(expected_name);
        let (a, b) = trim_bounds(name.as_slice());
        if a == b {
            return false;
        }
        if self.strict.accepts(expected_name, candidate) {
            return true;
        }
        let tn = chars_of(string_of(name.as_slice(), a, b).as_str());
        let text = chars_of(candidate.text.as_str());
        contains(text.as_slice(), tn.as_slice())
    }
}

impl Default for ContainsNameMatcher {
    fn default() -> (m: ContainsNameMatcher)
        ensures
            m.inner().entries() == Seq::<(Seq<char>, Seq<Seq<char>>)>::empty(),
            m.inner().min_separation_px == DEFAULT_MIN_SEPARATION_PX,
    {
        ContainsNameMatcher { strict: StrictContactMatcher::new() }
    }
}

} // verus!
