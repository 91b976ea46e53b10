//! Picking the contact out of the search box's suggestion dropdown.
//!
//! The dropdown is grouped: a group title row, then the matching entries, then
//! possibly further sections ("群聊", "聊天记录", ...). For each configured
//! contact-group label the judgement finds the group's title, collects the rows
//! between that title and the next known section title that contain the
//! keyword, and unites the hits of all groups. With several hits the topmost
//! row wins (the client ranks the best match first).
//!
//! Text is compared in a normal form that keeps only the visible characters
//! (recognition often inserts spaces between characters); titles are matched
//! exactly first and only then by containment, and sections are cut only at an
//! exact known title.

use vstd::prelude::*;
use crate::candidates::{described, describe_candidates, join, join_strings};
use crate::diagnostics::ReplayInput;
use crate::policy::ConfidenceThreshold;
use crate::ports::{boxes_view, match_view, AutomationError, ErrorView, Rect, TextBox, TextBoxView};
use crate::text::{
    chars_of, contains, decimal, is_ws, normalize, normalized_chars, push_char, push_decimal,
    push_str, runs_equal, seq_contains, string_of, trim, trim_bounds, trimmed, char_is_whitespace,
    push_signed, signed_decimal,
};

verus! {

// ---------------------------------------------------------------------------
// Tokens
// ---------------------------------------------------------------------------

/// A separator between group labels: `/`, `、` or whitespace.
pub open spec fn is_label_separator(c: char) -> bool {
    c == '/' || c == '、' || is_ws(c)
}

/// The tokens of `s[i..]`, given the finished tokens `done` and the token `cur` in progress.
pub open spec fn tokens_from(s: Seq<char>, sep: spec_fn(char) -> bool, i: int, done: Seq<Seq<char>>, cur: Seq<char>) -> Seq<Seq<char>>
    decreases s.len() - i,
{
    if i >= s.len() {
        if cur.len() > 0 { done.push(cur) } else { done }
    } else if sep(s[i]) {
        tokens_from(s, sep, i + 1, if cur.len() > 0 { done.push(cur) } else { done }, Seq::empty())
    } else {
        tokens_from(s, sep, i + 1, done, cur.push(s[i]))
    }
}

/// The non-empty runs of `s` between separators, in order.
pub open spec fn tokens(s: Seq<char>, sep: spec_fn(char) -> bool) -> Seq<Seq<char>> {
    tokens_from(s, sep, 0, Seq::empty(), Seq::empty())
}

pub open spec fn label_sep() -> spec_fn(char) -> bool {
    |c: char| is_label_separator(c)
}

pub open spec fn ws_sep() -> spec_fn(char) -> bool {
    |c: char| is_ws(c)
}

/// The configured group labels: the non-empty pieces between `/`, `、` and whitespace.
pub open spec fn group_labels_of(raw: Seq<char>) -> Seq<Seq<char>> {
    tokens(raw, label_sep())
}

/// `text` on one line: whitespace runs collapsed to one space, no leading or trailing space.
pub open spec fn one_line_text(text: Seq<char>) -> Seq<char> {
    join(tokens(text, ws_sep()), " "@)
}

pub open spec fn strings_view(v: Seq<String>) -> Seq<Seq<char>> {
    v.map_values(|s: String| s@)
}

/// Splits `s` at the separators of `sep_kind` (`true`: label separators, `false`: whitespace).
fn split_tokens(s: &[char], labels: bool) -> (r: Vec<String>)
    ensures
        strings_view(r@) == tokens(s@, if labels { label_sep() } else { ws_sep() }),
{
    let ghost sep = if labels { label_sep() } else { ws_sep() };
    let mut done: Vec<String> = Vec::new();
    let mut cur = String::new();
    let mut i: usize = 0;
    assert(strings_view(done@) =~= Seq::<Seq<char>>::empty());
    while i < s.len()
        invariant
            sep == (if labels { label_sep() } else { ws_sep() }),
            i <= s@.len(),
            tokens(s@, sep) == tokens_from(s@, sep, i as int, strings_view(done@), cur@),
        decreases s@.len() - i,
    {
        let c = s[i];
        let is_sep = if labels { c == '/' || c == '、' || char_is_whitespace(c) } else { char_is_whitespace(c) };
        assert(is_sep == sep(c));
        if is_sep {
            if cur.as_str().unicode_len() > 0 {
                let ghost before = strings_view(done@);
                done.push(cur);
                assert(strings_view(done@) =~= before.push(cur@));
            }
            cur = String::new();
        } else {
            push_char(&mut cur, c);
        }
        i = i + 1;
    }
    if cur.as_str().unicode_len() > 0 {
        let ghost before = strings_view(done@);
        done.push(cur);
        assert(strings_view(done@) =~= before.push(cur@));
    }
    done
}

/// Splits the configured contact-group title into its labels.
pub fn parse_search_contact_group_labels(raw: &str) -> (r: Vec<String>)
    ensures
        strings_view(r@) == group_labels_of(raw@),
{
    let chars = chars_of(raw);
    split_tokens(chars.as_slice(), true)
}

/// The visible characters of `text` (no whitespace, no control characters).
pub fn normalize_text(text: &str) -> (r: String)
    ensures
        r@ == normalize(text@),
{
    let chars = chars_of(text);
    let n = normalized_chars(chars.as_slice());
    string_of(n.as_slice(), 0, n.len())
}

/// `text` on one line (see [`one_line_text`]).
pub fn one_line(text: &str) -> (r: String)
    ensures
        r@ == one_line_text(text@),
{
    let chars = chars_of(text);
    let parts = split_tokens(chars.as_slice(), false);
    join_strings(&parts, " ")
}

// ---------------------------------------------------------------------------
// The judgement, as a model
// ---------------------------------------------------------------------------

/// The section titles other than the contact groups, at which a group is cut.
pub open spec fn fixed_section_headers() -> Seq<Seq<char>> {
    seq!["群聊"@, "聊天记录"@, "公众号"@, "小程序"@]
}

/// Normalised text of candidate `i`.
pub open spec fn ntext(c: Seq<TextBoxView>, i: int) -> Seq<char> {
    normalize(c[i].text)
}

/// Among the flagged candidates of `[0, n)`, the first with the smallest `y`; `-1` if none.
pub open spec fn top_flagged(c: Seq<TextBoxView>, f: Seq<bool>, n: int) -> int
    decreases n,
{
    if n <= 0 {
        -1
    } else {
        let b = top_flagged(c, f, n - 1);
        if f[n - 1] && (b < 0 || c[n - 1].bounds.y < c[b].bounds.y) {
            n - 1
        } else {
            b
        }
    }
}

pub open spec fn exact_title_flags(c: Seq<TextBoxView>, min: u32, gn: Seq<char>) -> Seq<bool> {
    Seq::new(c.len(), |i: int| c[i].confidence >= min && ntext(c, i) == gn)
}

pub open spec fn containing_title_flags(c: Seq<TextBoxView>, min: u32, gn: Seq<char>) -> Seq<bool> {
    Seq::new(c.len(), |i: int| c[i].confidence >= min && seq_contains(ntext(c, i), gn))
}

/// `t` is the normal form of a configured label or one of the fixed section titles.
pub open spec fn is_known_header(labels: Seq<Seq<char>>, t: Seq<char>) -> bool {
    (exists|k: int| 0 <= k < labels.len() && #[trigger] normalize(labels[k]) == t) || (exists|k: int|
        0 <= k < 4 && #[trigger] fixed_section_headers()[k] == t)
}

pub open spec fn section_flags(c: Seq<TextBoxView>, min: u32, labels: Seq<Seq<char>>, top: int) -> Seq<bool> {
    Seq::new(
        c.len(),
        |i: int| c[i].confidence >= min && c[i].bounds.y >= top && is_known_header(labels, ntext(c, i)),
    )
}

/// What the judgement found out about one contact group.
pub struct GroupView {
    pub label: Seq<char>,
    /// Index of the candidate taken as the group's title.
    pub title: int,
    /// The title was matched exactly (otherwise by containment).
    pub title_exact: bool,
    /// Lower edge of the title: the group's entries start here.
    pub body_top: int,
    /// Index of the next known section title below, or `-1`.
    pub section: int,
    /// The trimmed text of that section title (empty if there is none).
    pub section_header: Seq<char>,
}

/// The group of `label`, if its title is on screen.
pub open spec fn group_of(c: Seq<TextBoxView>, min: u32, labels: Seq<Seq<char>>, label: Seq<char>) -> Option<GroupView> {
    let gn = normalize(label);
    let e = top_flagged(c, exact_title_flags(c, min, gn), c.len() as int);
    let t = if e >= 0 { e } else { top_flagged(c, containing_title_flags(c, min, gn), c.len() as int) };
    if t < 0 {
        None
    } else {
        let top = c[t].bounds.y + c[t].bounds.height;
        let s = top_flagged(c, section_flags(c, min, labels, top), c.len() as int);
        Some(GroupView {
            label,
            title: t,
            title_exact: e >= 0,
            body_top: top,
            section: s,
            section_header: if s >= 0 { trim(c[s].text) } else { Seq::empty() },
        })
    }
}

/// Candidate `i` lies in the body of group `g` (below its title, above its section cut).
pub open spec fn in_body(c: Seq<TextBoxView>, g: GroupView, i: int) -> bool {
    c[i].bounds.y >= g.body_top && !(g.section >= 0 && c[i].bounds.y >= c[g.section].bounds.y)
}

/// Candidate `i` is a hit of group `g` for the normalised keyword `nk`.
pub open spec fn group_hit(c: Seq<TextBoxView>, min: u32, g: GroupView, nk: Seq<char>, i: int) -> bool {
    c[i].confidence >= min && in_body(c, g, i) && seq_contains(ntext(c, i), nk)
}

/// An earlier hit shows the same text in the same box as candidate `i`.
pub open spec fn repeats_a_hit(c: Seq<TextBoxView>, hits: Seq<int>, i: int) -> bool {
    exists|j: int| 0 <= j < hits.len() && c[#[trigger] hits[j]].text == c[i].text && c[hits[j]].bounds == c[i].bounds
}

/// `hits` extended with the hits of group `g` among `[0, n)`, in order, without repeats.
pub open spec fn add_group_hits(c: Seq<TextBoxView>, min: u32, g: GroupView, nk: Seq<char>, hits: Seq<int>, n: int) -> Seq<int>
    decreases n,
{
    if n <= 0 {
        hits
    } else {
        let h = add_group_hits(c, min, g, nk, hits, n - 1);
        if group_hit(c, min, g, nk, n - 1) && !repeats_a_hit(c, h, n - 1) {
            h.push(n - 1)
        } else {
            h
        }
    }
}

/// The groups found and the hits collected for the first `k` labels.
pub open spec fn scan_groups(c: Seq<TextBoxView>, min: u32, labels: Seq<Seq<char>>, nk: Seq<char>, k: int) -> (Seq<GroupView>, Seq<int>)
    decreases k,
{
    if k <= 0 {
        (Seq::empty(), Seq::empty())
    } else {
        let (gs, hs) = scan_groups(c, min, labels, nk, k - 1);
        match group_of(c, min, labels, labels[k - 1]) {
            None => (gs, hs),
            Some(g) => (gs.push(g), add_group_hits(c, min, g, nk, hs, c.len() as int)),
        }
    }
}

/// Position in `hits[0..m]` of the topmost hit (smallest `y`, then smallest `x`; the first of equals).
pub open spec fn topmost_hit(c: Seq<TextBoxView>, hits: Seq<int>, m: int) -> int
    decreases m,
{
    if m <= 1 {
        0
    } else {
        let b = topmost_hit(c, hits, m - 1);
        let p = c[hits[m - 1]].bounds;
        let q = c[hits[b]].bounds;
        if p.y < q.y || (p.y == q.y && p.x < q.x) {
            m - 1
        } else {
            b
        }
    }
}

/// Candidate `i`'s text mentions the title of one of the found groups.
pub open spec fn mentions_a_group(c: Seq<TextBoxView>, gs: Seq<GroupView>, i: int) -> bool {
    exists|k: int| 0 <= k < gs.len() && seq_contains(ntext(c, i), #[trigger] normalize(gs[k].label))
}

/// The smallest `y` of a candidate in `[0, n)` that mentions a found group, or 0 if none does.
pub open spec fn min_mention_y(c: Seq<TextBoxView>, gs: Seq<GroupView>, n: int) -> int
    decreases n,
{
    if n <= 0 {
        0
    } else {
        let m = min_mention_y(c, gs, n - 1);
        let seen = exists|i: int| 0 <= i < n - 1 && mentions_a_group(c, gs, i);
        if mentions_a_group(c, gs, n - 1) && (!seen || c[n - 1].bounds.y < m) {
            c[n - 1].bounds.y as int
        } else {
            m
        }
    }
}

pub open spec fn below_pred(y0: int) -> spec_fn(TextBoxView) -> bool {
    |b: TextBoxView| b.bounds.y > y0
}

pub open spec fn group_labels_view(gs: Seq<GroupView>) -> Seq<Seq<char>> {
    gs.map_values(|g: GroupView| g.label)
}

pub open spec fn no_group_reason(groups_desc: Seq<char>, n: nat) -> Seq<char> {
    "搜索下拉列表里没有找到「"@ + groups_desc + "」中的任何一组，读到 "@ + decimal(n)
        + " 块文字。常见原因：关键词没匹配到任何联系人（下拉里只有聊天记录或群聊），或者「搜索下拉列表」区域标定偏了。"@
}

pub open spec fn no_row_reason(tried: Seq<char>, keyword: Seq<char>, below: Seq<char>) -> Seq<char> {
    "「"@ + tried + "」分组下方没有匹配「"@ + keyword + "」的那一行。这一组下方的文字是："@ + below
}

/// The result of the judgement: the selection or the refusal, the selected
/// candidate's index, and the one-line outcome written to the decision record.
pub struct DropdownView {
    pub result: Result<TextBoxView, ErrorView>,
    pub picked: int,
    pub outcome: Seq<char>,
}

/// The whole judgement (see the module documentation).
pub open spec fn dropdown_outcome(c: Seq<TextBoxView>, min: u32, keyword: Seq<char>, raw_labels: Seq<char>) -> DropdownView {
    let labels = group_labels_of(raw_labels);
    let (gs, hits) = scan_groups(c, min, labels, normalize(keyword), labels.len() as int);
    if gs.len() == 0 {
        let reason = no_group_reason(join(labels, " / "@), c.len());
        DropdownView {
            result: Err(ErrorView::NeedsHumanReview(reason)),
            picked: -1,
            outcome: "转人工："@ + one_line_text(reason),
        }
    } else if hits.len() == 1 {
        DropdownView {
            result: Ok(c[hits[0]]),
            picked: hits[0],
            outcome: "选中「"@ + trim(c[hits[0]].text) + "」（"@ + gs[0].label + "）"@,
        }
    } else if hits.len() == 0 {
        let below = c.filter(below_pred(min_mention_y(c, gs, c.len() as int)));
        let reason = no_row_reason(join(group_labels_view(gs), " / "@), keyword, described(below));
        DropdownView {
            result: Err(ErrorView::NeedsHumanReview(reason)),
            picked: -1,
            outcome: "转人工："@ + one_line_text(reason),
        }
    } else {
        let top = hits[topmost_hit(c, hits, hits.len() as int)];
        DropdownView {
            result: Ok(c[top]),
            picked: top,
            outcome: "选中「"@ + trim(c[top].text) + "」（同时命中 "@ + decimal((hits.len() - 1) as nat)
                + " 行，取最上面那一行）"@,
        }
    }
}

// ---------------------------------------------------------------------------
// The judgement, executable
// ---------------------------------------------------------------------------

/// What the judgement found out about one contact group.
#[derive(Debug)]
pub struct GroupFact {
    pub label: String,
    /// Index of the candidate taken as the group's title.
    pub title: usize,
    /// The title was matched exactly (otherwise by containment).
    pub title_exact: bool,
    /// Lower edge of the title: the group's entries start here.
    pub body_top: i64,
    /// Index of the next known section title below the group, if any.
    pub section: Option<usize>,
    /// The trimmed text of that section title.
    pub section_header: Option<String>,
}

pub open spec fn group_fact_view(g: GroupFact) -> GroupView {
    GroupView {
        label: g.label@,
        title: g.title as int,
        title_exact: g.title_exact,
        body_top: g.body_top as int,
        section: match g.section {
            Some(s) => s as int,
            None => -1,
        },
        section_header: match g.section_header {
            Some(h) => h@,
            None => Seq::empty(),
        },
    }
}

pub open spec fn groups_view(v: Seq<GroupFact>) -> Seq<GroupView> {
    v.map_values(|g: GroupFact| group_fact_view(g))
}

pub open spec fn hits_view(v: Seq<usize>) -> Seq<int> {
    v.map_values(|i: usize| i as int)
}

/// One dropdown judgement: the selection or the refusal, and what it was based on.
#[derive(Debug)]
pub struct DropdownJudgement {
    /// The selected row, or why none was selected.
    pub result: Result<TextBox, AutomationError>,
    /// Index of the selected row.
    pub picked: Option<usize>,
    /// The conclusion in one line, for the decision record.
    pub outcome: String,
    /// Whether the judgement selected a row.
    pub passed: bool,
    /// The groups whose titles were found, in label order.
    pub groups: Vec<GroupFact>,
    /// The rows that contain the keyword inside a group, in collection order.
    pub hits: Vec<usize>,
    /// Every candidate, in screen order, with why it was kept or dropped.
    pub candidates: Vec<Verdict>,
    /// The keyword the judgement looked for (kept for replaying the judgement).
    pub keyword: String,
    /// The configured group titles, as written in the configuration.
    pub group_labels: String,
    /// The minimum confidence the judgement used.
    pub min_confidence: ConfidenceThreshold,
}

/// Why one candidate was kept or dropped by the dropdown judgement.
#[derive(Debug, Clone, Copy)]
pub enum Why {
    /// Below the minimum confidence: it took no part in the judgement.
    BelowThreshold,
    /// The selected row.
    Selected,
    /// Taken as the title of found group `group`.
    GroupTitle { group: usize, exact: bool },
    /// Repeats the title of found group `group`; only the topmost block counts.
    DuplicateTitle { group: usize },
    /// Contains the keyword too, but is not the topmost hit; `picked_y` is the
    /// selected row's `y` when that row does not lie below this one.
    LowerHit { picked_y: Option<i32> },
    /// In the body of found group `group`, without the keyword.
    NoKeyword { group: usize },
    /// Past the section title that ends found group `group`.
    PastSection { group: usize },
    /// None of the configured group titles is on screen.
    NoGroups,
    /// Not under any found group's title.
    OutsideGroups,
}

/// One candidate of the judgement and why it was kept or dropped.
#[derive(Debug)]
pub struct Verdict {
    /// The candidate's text, as read.
    pub text: String,
    pub bounds: Rect,
    pub confidence: u32,
    /// Whether it passed the test it was put to.
    pub passed: bool,
    pub why: Why,
}

/// The normal forms of every candidate's text.
pub(crate) fn normalized_texts(boxes: &[TextBox]) -> (r: Vec<Vec<char>>)
    ensures
        r@.len() == boxes@.len(),
        forall|i: int| 0 <= i < r@.len() ==> #[trigger] r@[i]@ == ntext(boxes_view(boxes@), i),
{
    let mut r: Vec<Vec<char>> = Vec::new();
    let mut i: usize = 0;
    while i < boxes.len()
        invariant
            i <= boxes@.len(),
            r@.len() == i,
            forall|k: int| 0 <= k < i ==> #[trigger] r@[k]@ == ntext(boxes_view(boxes@), k),
        decreases boxes@.len() - i,
    {
        let chars = chars_of(boxes[i].text.as_str());
        r.push(normalized_chars(chars.as_slice()));
        i = i + 1;
    }
    r
}

/// Whether two runs of characters are equal.
fn same_chars(a: &[char], b: &[char]) -> (r: bool)
    ensures
        r == (a@ == b@),
{
    let r = runs_equal(a, 0, a.len(), b, 0, b.len());
    assert(a@.subrange(0, a@.len() as int) =~= a@);
    assert(b@.subrange(0, b@.len() as int) =~= b@);
    r
}

/// The first flagged candidate with the smallest `y`.
pub(crate) fn top_of(boxes: &[TextBox], flags: &Vec<bool>) -> (r: Option<usize>)
    requires
        flags@.len() == boxes@.len(),
    ensures
        match r {
            Some(t) => t as int == top_flagged(boxes_view(boxes@), flags@, boxes@.len() as int) && t < boxes@.len(),
            None => top_flagged(boxes_view(boxes@), flags@, boxes@.len() as int) == -1,
        },
{
    let ghost c = boxes_view(boxes@);
    let mut best: Option<usize> = None;
    let mut i: usize = 0;
    while i < boxes.len()
        invariant
            c == boxes_view(boxes@),
            flags@.len() == boxes@.len(),
            i <= boxes@.len(),
            match best {
                Some(t) => t as int == top_flagged(c, flags@, i as int) && t < i,
                None => top_flagged(c, flags@, i as int) == -1,
            },
        decreases boxes@.len() - i,
    {
        if flags[i] {
            match best {
                Some(t) => {
                    if boxes[i].bounds.y < boxes[t].bounds.y {
                        best = Some(i);
                    }
                },
                None => {
                    best = Some(i);
                },
            }
        }
        i = i + 1;
    }
    best
}

/// Whether `t` is the normal form of a configured label or a fixed section title.
fn is_known(t: &[char], nlabels: &Vec<Vec<char>>, fixed: &Vec<Vec<char>>, labels: Ghost<Seq<Seq<char>>>) -> (r: bool)
    requires
        nlabels@.len() == labels@.len(),
        forall|k: int| 0 <= k < nlabels@.len() ==> #[trigger] nlabels@[k]@ == normalize(labels@[k]),
        fixed@.len() == 4,
        forall|k: int| 0 <= k < 4 ==> #[trigger] fixed@[k]@ == fixed_section_headers()[k],
    ensures
        r == is_known_header(labels@, t@),
{
    let mut k: usize = 0;
    while k < nlabels.len()
        invariant
            nlabels@.len() == labels@.len(),
            forall|j: int| 0 <= j < nlabels@.len() ==> #[trigger] nlabels@[j]@ == normalize(labels@[j]),
            k <= nlabels@.len(),
            forall|j: int| 0 <= j < k ==> #[trigger] normalize(labels@[j]) != t@,
        decreases nlabels@.len() - k,
    {
        if same_chars(nlabels[k].as_slice(), t) {
            return true;
        }
        k = k + 1;
    }
    let mut k: usize = 0;
    while k < 4
        invariant
            fixed@.len() == 4,
            forall|j: int| 0 <= j < 4 ==> #[trigger] fixed@[j]@ == fixed_section_headers()[j],
            k <= 4,
            forall|j: int| 0 <= j < nlabels@.len() ==> #[trigger] normalize(labels@[j]) != t@,
            forall|j: int| 0 <= j < k ==> #[trigger] fixed_section_headers()[j] != t@,
        decreases 4 - k,
    {
        if same_chars(fixed[k].as_slice(), t) {
            return true;
        }
        k = k + 1;
    }
    false
}

/// The flags of candidates above the minimum confidence whose normal form equals (`exact`) or contains `gn`.
pub(crate) fn title_flags(boxes: &[TextBox], nt: &Vec<Vec<char>>, min: u32, gn: &[char], exact: bool) -> (r: Vec<bool>)
    requires
        nt@.len() == boxes@.len(),
        forall|i: int| 0 <= i < nt@.len() ==> #[trigger] nt@[i]@ == ntext(boxes_view(boxes@), i),
    ensures
        r@ == if exact {
            exact_title_flags(boxes_view(boxes@), min, gn@)
        } else {
            containing_title_flags(boxes_view(boxes@), min, gn@)
        },
{
    let ghost c = boxes_view(boxes@);
    let ghost want = if exact { exact_title_flags(c, min, gn@) } else { containing_title_flags(c, min, gn@) };
    let mut r: Vec<bool> = Vec::new();
    let mut i: usize = 0;
    while i < boxes.len()
        invariant
            c == boxes_view(boxes@),
            want == (if exact { exact_title_flags(c, min, gn@) } else { containing_title_flags(c, min, gn@) }),
            nt@.len() == boxes@.len(),
            forall|i: int| 0 <= i < nt@.len() ==> #[trigger] nt@[i]@ == ntext(c, i),
            i <= boxes@.len(),
            r@.len() == i,
            forall|k: int| 0 <= k < i ==> #[trigger] r@[k] == want[k],
        decreases boxes@.len() - i,
    {
        let ok = boxes[i].confidence >= min;
        let f = ok && if exact { same_chars(nt[i].as_slice(), gn) } else { contains(nt[i].as_slice(), gn) };
        assert(c[i as int].confidence == boxes@[i as int].confidence);
        r.push(f);
        i = i + 1;
    }
    assert(r@ =~= want);
    r
}

/// The flags of known section titles at or below `top`, above the minimum confidence.
fn section_flags_of(
    boxes: &[TextBox],
    nt: &Vec<Vec<char>>,
    min: u32,
    top: i64,
    nlabels: &Vec<Vec<char>>,
    fixed: &Vec<Vec<char>>,
    labels: Ghost<Seq<Seq<char>>>,
) -> (r: Vec<bool>)
    requires
        nt@.len() == boxes@.len(),
        forall|i: int| 0 <= i < nt@.len() ==> #[trigger] nt@[i]@ == ntext(boxes_view(boxes@), i),
        nlabels@.len() == labels@.len(),
        forall|k: int| 0 <= k < nlabels@.len() ==> #[trigger] nlabels@[k]@ == normalize(labels@[k]),
        fixed@.len() == 4,
        forall|k: int| 0 <= k < 4 ==> #[trigger] fixed@[k]@ == fixed_section_headers()[k],
    ensures
        r@ == section_flags(boxes_view(boxes@), min, labels@, top as int),
{
    let ghost c = boxes_view(boxes@);
    let ghost want = section_flags(c, min, labels@, top as int);
    let mut r: Vec<bool> = Vec::new();
    let mut i: usize = 0;
    while i < boxes.len()
        invariant
            c == boxes_view(boxes@),
            want == section_flags(c, min, labels@, top as int),
            nt@.len() == boxes@.len(),
            forall|i: int| 0 <= i < nt@.len() ==> #[trigger] nt@[i]@ == ntext(c, i),
            nlabels@.len() == labels@.len(),
            forall|k: int| 0 <= k < nlabels@.len() ==> #[trigger] nlabels@[k]@ == normalize(labels@[k]),
            fixed@.len() == 4,
            forall|k: int| 0 <= k < 4 ==> #[trigger] fixed@[k]@ == fixed_section_headers()[k],
            i <= boxes@.len(),
            r@.len() == i,
            forall|k: int| 0 <= k < i ==> #[trigger] r@[k] == want[k],
        decreases boxes@.len() - i,
    {
        let f = boxes[i].confidence >= min && boxes[i].bounds.y as i64 >= top && is_known(
            nt[i].as_slice(),
            nlabels,
            fixed,
            labels,
        );
        assert(c[i as int] == boxes@[i as int]@);
        r.push(f);
        i = i + 1;
    }
    assert(r@ =~= want);
    r
}

/// The group of `label`, if its title is on screen.
fn find_group(
    boxes: &[TextBox],
    nt: &Vec<Vec<char>>,
    min: u32,
    label: &String,
    nlabels: &Vec<Vec<char>>,
    fixed: &Vec<Vec<char>>,
    labels: Ghost<Seq<Seq<char>>>,
) -> (r: Option<GroupFact>)
    requires
        nt@.len() == boxes@.len(),
        forall|i: int| 0 <= i < nt@.len() ==> #[trigger] nt@[i]@ == ntext(boxes_view(boxes@), i),
        nlabels@.len() == labels@.len(),
        forall|k: int| 0 <= k < nlabels@.len() ==> #[trigger] nlabels@[k]@ == normalize(labels@[k]),
        fixed@.len() == 4,
        forall|k: int| 0 <= k < 4 ==> #[trigger] fixed@[k]@ == fixed_section_headers()[k],
    ensures
        match group_of(boxes_view(boxes@), min, labels@, label@) {
            Some(g) => r matches Some(f) && group_fact_view(f) == g && f.title < boxes@.len()
                && (f.section matches Some(s) ==> s < boxes@.len()),
            None => r is None,
        },
{
    let ghost c = boxes_view(boxes@);
    let chars = chars_of(label.as_str());
    let gn = normalized_chars(chars.as_slice());
    let ef = title_flags(boxes, nt, min, gn.as_slice(), true);
    let exact = top_of(boxes, &ef);
    let title = match exact {
        Some(t) => Some(t),
        None => {
            let cf = title_flags(boxes, nt, min, gn.as_slice(), false);
            top_of(boxes, &cf)
        },
    };
    match title {
        None => None,
        Some(t) => {
            let top = boxes[t].bounds.y as i64 + boxes[t].bounds.height as i64;
            let sf = section_flags_of(boxes, nt, min, top, nlabels, fixed, labels);
            let section = top_of(boxes, &sf);
            let section_header = match section {
                Some(s) => {
                    assert(c[s as int] == boxes@[s as int]@);
                    Some(trimmed(boxes[s].text.as_str()))
                },
                None => None,
            };
            assert(c[t as int] == boxes@[t as int]@);
            Some(
                GroupFact {
                    label: label.clone(),
                    title: t,
                    title_exact: exact.is_some(),
                    body_top: top,
                    section,
                    section_header,
                },
            )
        },
    }
}

/// Whether an earlier hit shows the same text in the same box as candidate `i`.
fn repeats(boxes: &[TextBox], hits: &Vec<usize>, i: usize) -> (r: bool)
    requires
        i < boxes@.len(),
        forall|j: int| 0 <= j < hits@.len() ==> #[trigger] hits@[j] < boxes@.len(),
    ensures
        r == repeats_a_hit(boxes_view(boxes@), hits_view(hits@), i as int),
{
    let ghost c = boxes_view(boxes@);
    let mut j: usize = 0;
    while j < hits.len()
        invariant
            c == boxes_view(boxes@),
            i < boxes@.len(),
            forall|j: int| 0 <= j < hits@.len() ==> #[trigger] hits@[j] < boxes@.len(),
            j <= hits@.len(),
            forall|k: int|
                0 <= k < j ==> !(c[#[trigger] hits_view(hits@)[k]].text == c[i as int].text && c[hits_view(
                    hits@,
                )[k]].bounds == c[i as int].bounds),
        decreases hits@.len() - j,
    {
        let h = hits[j];
        assert(hits_view(hits@)[j as int] == h as int);
        assert(c[h as int] == boxes@[h as int]@);
        assert(c[i as int] == boxes@[i as int]@);
        if boxes[h].text == boxes[i].text && boxes[h].bounds == boxes[i].bounds {
            return true;
        }
        j = j + 1;
    }
    false
}

/// Adds the hits of group `g` to `hits`, in order, without repeats.
fn add_hits(boxes: &[TextBox], nt: &Vec<Vec<char>>, min: u32, g: &GroupFact, nk: &[char], hits: &mut Vec<usize>)
    requires
        nt@.len() == boxes@.len(),
        forall|i: int| 0 <= i < nt@.len() ==> #[trigger] nt@[i]@ == ntext(boxes_view(boxes@), i),
        g.section matches Some(s) ==> s < boxes@.len(),
        forall|j: int| 0 <= j < old(hits)@.len() ==> #[trigger] old(hits)@[j] < boxes@.len(),
    ensures
        hits_view(final(hits)@) == add_group_hits(
            boxes_view(boxes@),
            min,
            group_fact_view(*g),
            nk@,
            hits_view(old(hits)@),
            boxes@.len() as int,
        ),
        forall|j: int| 0 <= j < final(hits)@.len() ==> #[trigger] final(hits)@[j] < boxes@.len(),
{
    let ghost c = boxes_view(boxes@);
    let ghost gv = group_fact_view(*g);
    let ghost start = hits_view(hits@);
    let mut i: usize = 0;
    while i < boxes.len()
        invariant
            c == boxes_view(boxes@),
            gv == group_fact_view(*g),
            nt@.len() == boxes@.len(),
            forall|i: int| 0 <= i < nt@.len() ==> #[trigger] nt@[i]@ == ntext(c, i),
            g.section matches Some(s) ==> s < boxes@.len(),
            i <= boxes@.len(),
            hits_view(hits@) == add_group_hits(c, min, gv, nk@, start, i as int),
            forall|j: int| 0 <= j < hits@.len() ==> #[trigger] hits@[j] < boxes@.len(),
        decreases boxes@.len() - i,
    {
        let y = boxes[i].bounds.y as i64;
        let below_cut = match g.section {
            Some(s) => y >= boxes[s].bounds.y as i64,
            None => false,
        };
        let hit = boxes[i].confidence >= min && y >= g.body_top && !below_cut && contains(
            nt[i].as_slice(),
            nk,
        );
        proof {
            assert(c[i as int] == boxes@[i as int]@);
            if let Some(s) = g.section {
                assert(c[s as int] == boxes@[s as int]@);
            }
            assert(hit == group_hit(c, min, gv, nk@, i as int));
        }
        if hit && !repeats(boxes, hits, i) {
            let ghost before = hits@;
            hits.push(i);
            assert(hits_view(hits@) =~= hits_view(before).push(i as int));
        }
        i = i + 1;
    }
}


/// The fixed section titles, as characters.
fn fixed_headers() -> (r: Vec<Vec<char>>)
    ensures
        r@.len() == 4,
        forall|k: int| 0 <= k < 4 ==> #[trigger] r@[k]@ == fixed_section_headers()[k],
{
    let mut r: Vec<Vec<char>> = Vec::new();
    r.push(chars_of("群聊"));
    r.push(chars_of("聊天记录"));
    r.push(chars_of("公众号"));
    r.push(chars_of("小程序"));
    r
}

/// The normal forms of the configured labels.
fn normalized_labels(labels: &Vec<String>) -> (r: Vec<Vec<char>>)
    ensures
        r@.len() == labels@.len(),
        forall|k: int| 0 <= k < r@.len() ==> #[trigger] r@[k]@ == normalize(labels@[k]@),
{
    let mut r: Vec<Vec<char>> = Vec::new();
    let mut k: usize = 0;
    while k < labels.len()
        invariant
            k <= labels@.len(),
            r@.len() == k,
            forall|j: int| 0 <= j < k ==> #[trigger] r@[j]@ == normalize(labels@[j]@),
        decreases labels@.len() - k,
    {
        let chars = chars_of(labels[k].as_str());
        r.push(normalized_chars(chars.as_slice()));
        k = k + 1;
    }
    r
}

/// Position in `hits` of the topmost hit (see [`topmost_hit`]).
fn topmost_position(boxes: &[TextBox], hits: &Vec<usize>) -> (r: usize)
    requires
        hits@.len() >= 1,
        forall|j: int| 0 <= j < hits@.len() ==> #[trigger] hits@[j] < boxes@.len(),
    ensures
        r as int == topmost_hit(boxes_view(boxes@), hits_view(hits@), hits@.len() as int),
        r < hits@.len(),
{
    let ghost c = boxes_view(boxes@);
    let ghost hv = hits_view(hits@);
    let mut best: usize = 0;
    let mut m: usize = 1;
    while m < hits.len()
        invariant
            c == boxes_view(boxes@),
            hv == hits_view(hits@),
            forall|j: int| 0 <= j < hits@.len() ==> #[trigger] hits@[j] < boxes@.len(),
            1 <= m <= hits@.len(),
            best < m,
            best as int == topmost_hit(c, hv, m as int),
        decreases hits@.len() - m,
    {
        let p = boxes[hits[m]].bounds;
        let q = boxes[hits[best]].bounds;
        proof {
            assert(hv[m as int] == hits@[m as int] as int);
            assert(hv[best as int] == hits@[best as int] as int);
            assert(c[hv[m as int]] == boxes@[hits@[m as int] as int]@);
            assert(c[hv[best as int]] == boxes@[hits@[best as int] as int]@);
        }
        if p.y < q.y || (p.y == q.y && p.x < q.x) {
            best = m;
        }
        m = m + 1;
    }
    best
}

/// Whether `t` contains the normal form of one of the found groups' labels.
fn mentions_group(t: &[char], ngl: &Vec<Vec<char>>, gs: Ghost<Seq<GroupView>>) -> (r: bool)
    requires
        ngl@.len() == gs@.len(),
        forall|k: int| 0 <= k < ngl@.len() ==> #[trigger] ngl@[k]@ == normalize(gs@[k].label),
    ensures
        r == exists|k: int| 0 <= k < gs@.len() && seq_contains(t@, #[trigger] normalize(gs@[k].label)),
{
    let mut k: usize = 0;
    while k < ngl.len()
        invariant
            ngl@.len() == gs@.len(),
            forall|j: int| 0 <= j < ngl@.len() ==> #[trigger] ngl@[j]@ == normalize(gs@[j].label),
            k <= ngl@.len(),
            forall|j: int| 0 <= j < k ==> !seq_contains(t@, #[trigger] normalize(gs@[j].label)),
        decreases ngl@.len() - k,
    {
        if contains(t, ngl[k].as_slice()) {
            assert(seq_contains(t@, normalize(gs@[k as int].label)));
            return true;
        }
        k = k + 1;
    }
    false
}

/// The smallest `y` of a candidate that mentions a found group (see [`min_mention_y`]).
fn mention_floor(boxes: &[TextBox], nt: &Vec<Vec<char>>, ngl: &Vec<Vec<char>>, gs: Ghost<Seq<GroupView>>) -> (y: i32)
    requires
        nt@.len() == boxes@.len(),
        forall|i: int| 0 <= i < nt@.len() ==> #[trigger] nt@[i]@ == ntext(boxes_view(boxes@), i),
        ngl@.len() == gs@.len(),
        forall|k: int| 0 <= k < ngl@.len() ==> #[trigger] ngl@[k]@ == normalize(gs@[k].label),
    ensures
        y as int == min_mention_y(boxes_view(boxes@), gs@, boxes@.len() as int),
{
    let ghost c = boxes_view(boxes@);
    let mut m: i32 = 0;
    let mut seen = false;
    let mut i: usize = 0;
    while i < boxes.len()
        invariant
            c == boxes_view(boxes@),
            nt@.len() == boxes@.len(),
            forall|i: int| 0 <= i < nt@.len() ==> #[trigger] nt@[i]@ == ntext(c, i),
            ngl@.len() == gs@.len(),
            forall|k: int| 0 <= k < ngl@.len() ==> #[trigger] ngl@[k]@ == normalize(gs@[k].label),
            i <= boxes@.len(),
            m as int == min_mention_y(c, gs@, i as int),
            seen == exists|j: int| 0 <= j < i && mentions_a_group(c, gs@, j),
        decreases boxes@.len() - i,
    {
        let hit = mentions_group(nt[i].as_slice(), ngl, gs);
        let y = boxes[i].bounds.y;
        proof {
            assert(c[i as int] == boxes@[i as int]@);
            assert(hit == mentions_a_group(c, gs@, i as int));
        }
        if hit && (!seen || y < m) {
            m = y;
        }
        proof {
            if hit {
                assert(mentions_a_group(c, gs@, i as int));
            }
        }
        seen = seen || hit;
        i = i + 1;
    }
    m
}

/// The candidates strictly below `y0`, in order.
fn boxes_below(boxes: &[TextBox], y0: i32) -> (r: Vec<TextBox>)
    ensures
        boxes_view(r@) == boxes_view(boxes@).filter(below_pred(y0 as int)),
{
    let ghost c = boxes_view(boxes@);
    let ghost p = below_pred(y0 as int);
    let mut r: Vec<TextBox> = Vec::new();
    let mut i: usize = 0;
    while i < boxes.len()
        invariant
            c == boxes_view(boxes@),
            p == below_pred(y0 as int),
            i <= boxes@.len(),
            boxes_view(r@) == c.take(i as int).filter(p),
        decreases boxes@.len() - i,
    {
        proof {
            reveal_with_fuel(Seq::<_>::filter, 1);
            let t = c.take(i + 1);
            assert(t.drop_last() =~= c.take(i as int));
            assert(t.last() == boxes@[i as int]@);
            assert(t.filter(p) == (if p(t.last()) {
                t.drop_last().filter(p).push(t.last())
            } else {
                t.drop_last().filter(p)
            }));
        }
        if boxes[i].bounds.y > y0 {
            let ghost before = boxes_view(r@);
            r.push(boxes[i].clone());
            assert(boxes_view(r@) =~= before.push(boxes@[i as int]@));
        }
        i = i + 1;
    }
    assert(c.take(boxes@.len() as int) =~= c);
    r
}

/// The labels of the found groups.
fn labels_of(groups: &Vec<GroupFact>) -> (r: Vec<String>)
    ensures
        strings_view(r@) == group_labels_view(groups_view(groups@)),
{
    let mut r: Vec<String> = Vec::new();
    let mut k: usize = 0;
    while k < groups.len()
        invariant
            k <= groups@.len(),
            strings_view(r@) == group_labels_view(groups_view(groups@)).take(k as int),
        decreases groups@.len() - k,
    {
        let ghost before = strings_view(r@);
        r.push(groups[k].label.clone());
        assert(strings_view(r@) =~= before.push(groups@[k as int].label@));
        assert(group_labels_view(groups_view(groups@)).take(k + 1) =~= group_labels_view(groups_view(groups@)).take(
            k as int,
        ).push(groups@[k as int].label@));
        k = k + 1;
    }
    assert(group_labels_view(groups_view(groups@)).take(groups@.len() as int) =~= group_labels_view(
        groups_view(groups@),
    ));
    r
}

/// `parts` joined with `" / "`.
fn slash_joined(parts: &Vec<String>) -> (r: String)
    ensures
        r@ == join(strings_view(parts@), " / "@),
{
    let r = join_strings(parts, " / ");
    assert(parts@.map_values(|p: String| p@) =~= strings_view(parts@));
    r
}

/// The refusal text when none of the configured group titles is on screen.
fn no_group_message(groups_desc: &String, n: usize) -> (r: String)
    ensures
        r@ == no_group_reason(groups_desc@, n as nat),
{
    let mut r = String::from_str("搜索下拉列表里没有找到「");
    push_str(&mut r, groups_desc.as_str());
    push_str(&mut r, "」中的任何一组，读到 ");
    push_decimal(&mut r, n);
    push_str(
        &mut r,
        " 块文字。常见原因：关键词没匹配到任何联系人（下拉里只有聊天记录或群聊），或者「搜索下拉列表」区域标定偏了。",
    );
    r
}

/// The refusal text when no row under the found groups contains the keyword.
fn no_row_message(tried: &String, keyword: &str, below: &String) -> (r: String)
    ensures
        r@ == no_row_reason(tried@, keyword@, below@),
{
    let mut r = String::from_str("「");
    push_str(&mut r, tried.as_str());
    push_str(&mut r, "」分组下方没有匹配「");
    push_str(&mut r, keyword);
    push_str(&mut r, "」的那一行。这一组下方的文字是：");
    push_str(&mut r, below.as_str());
    r
}

/// The outcome line of a refusal.
fn handed_over(reason: &String) -> (r: String)
    ensures
        r@ == "转人工："@ + one_line_text(reason@),
{
    let mut r = String::from_str("转人工：");
    let flat = one_line(reason.as_str());
    push_str(&mut r, flat.as_str());
    r
}

/// The index of the picked row, `-1` for none.
pub open spec fn picked_index(p: Option<usize>) -> int {
    match p {
        Some(i) => i as int,
        None => -1,
    }
}

/// The groups found and the hits collected by the judgement.
pub open spec fn scanned(c: Seq<TextBoxView>, min: u32, keyword: Seq<char>, raw_labels: Seq<char>) -> (Seq<GroupView>, Seq<int>) {
    let labels = group_labels_of(raw_labels);
    scan_groups(c, min, labels, normalize(keyword), labels.len() as int)
}

// ---------------------------------------------------------------------------
// Why each candidate was kept or dropped
// ---------------------------------------------------------------------------

/// The first `k` in `[from, n)` with `p(k)`, or `-1`.
pub open spec fn first_from(from: int, n: int, p: spec_fn(int) -> bool) -> int
    decreases n - from,
{
    if from >= n {
        -1
    } else if p(from) {
        from
    } else {
        first_from(from + 1, n, p)
    }
}

/// Group `k` has candidate `i` as its title.
pub open spec fn titled_by(gs: Seq<GroupView>, i: int) -> spec_fn(int) -> bool {
    |k: int| gs[k].title == i
}

/// Candidate `i` repeats the title of group `k`.
pub open spec fn repeats_title(c: Seq<TextBoxView>, gs: Seq<GroupView>, i: int) -> spec_fn(int) -> bool {
    |k: int| gs[k].title != i && seq_contains(ntext(c, i), normalize(gs[k].label))
}

/// Candidate `i` lies in the body of group `k`.
pub open spec fn inside_group(c: Seq<TextBoxView>, gs: Seq<GroupView>, i: int) -> spec_fn(int) -> bool {
    |k: int| in_body(c, gs[k], i)
}

/// Candidate `i` lies at or below the section title that ends group `k`.
pub open spec fn past_section_of(c: Seq<TextBoxView>, gs: Seq<GroupView>, i: int) -> spec_fn(int) -> bool {
    |k: int| gs[k].section >= 0 && c[i].bounds.y >= c[gs[k].section].bounds.y
}

/// Why candidate `i` was kept or dropped, given the groups, the hits and the pick.
pub open spec fn why_of(c: Seq<TextBoxView>, min: u32, gs: Seq<GroupView>, hits: Seq<int>, picked: int, i: int) -> Why {
    let n = gs.len() as int;
    let ti = first_from(0, n, titled_by(gs, i));
    let di = first_from(0, n, repeats_title(c, gs, i));
    let bi = first_from(0, n, inside_group(c, gs, i));
    let si = first_from(0, n, past_section_of(c, gs, i));
    if c[i].confidence < min {
        Why::BelowThreshold
    } else if i == picked {
        Why::Selected
    } else if ti >= 0 {
        Why::GroupTitle { group: ti as usize, exact: gs[ti].title_exact }
    } else if di >= 0 {
        Why::DuplicateTitle { group: di as usize }
    } else if bi >= 0 {
        if hits.contains(i) {
            Why::LowerHit {
                picked_y: if picked >= 0 && c[picked].bounds.y <= c[i].bounds.y {
                    Some(c[picked].bounds.y)
                } else {
                    None
                },
            }
        } else {
            Why::NoKeyword { group: bi as usize }
        }
    } else if si >= 0 {
        Why::PastSection { group: si as usize }
    } else if n == 0 {
        Why::NoGroups
    } else {
        Why::OutsideGroups
    }
}

/// The kept verdicts: the selected row and the group titles.
pub open spec fn why_passes(w: Why) -> bool {
    w is Selected || w is GroupTitle
}

/// The group indices a verdict names are those of found groups.
pub open spec fn why_fits(w: Why, n: int) -> bool {
    match w {
        Why::GroupTitle { group, .. } => group < n,
        Why::DuplicateTitle { group } => group < n,
        Why::NoKeyword { group } => group < n,
        Why::PastSection { group } => group < n,
        _ => true,
    }
}

/// Candidate `i`'s verdict matches the judgement's facts.
pub open spec fn verdict_matches(v: Verdict, c: Seq<TextBoxView>, min: u32, gs: Seq<GroupView>, hits: Seq<int>, picked: int, i: int) -> bool {
    &&& v.text@ == c[i].text
    &&& v.bounds == c[i].bounds
    &&& v.confidence == c[i].confidence
    &&& v.why == why_of(c, min, gs, hits, picked, i)
    &&& v.passed == why_passes(v.why)
}

/// Runs `first_from` over the found groups with an executable test.
fn first_group_title(groups: &Vec<GroupFact>, i: usize) -> (r: Option<usize>)
    ensures
        picked_index(r) == first_from(0, groups@.len() as int, titled_by(groups_view(groups@), i as int)),
        r matches Some(k) ==> k < groups@.len(),
{
    let ghost gs = groups_view(groups@);
    let ghost p = titled_by(gs, i as int);
    let n = groups.len();
    let mut k: usize = 0;
    while k < n
        invariant
            n == groups@.len() == gs.len(),
            gs == groups_view(groups@),
            p == titled_by(gs, i as int),
            k <= n,
            first_from(0, n as int, p) == first_from(k as int, n as int, p),
        decreases n - k,
    {
        assert(gs[k as int].title == groups@[k as int].title as int);
        if groups[k].title == i {
            return Some(k);
        }
        k = k + 1;
    }
    None
}

/// The first found group whose title candidate `i` repeats.
fn first_group_repeated(groups: &Vec<GroupFact>, ngl: &Vec<Vec<char>>, t: &[char], i: usize, c: Ghost<Seq<TextBoxView>>) -> (r: Option<usize>)
    requires
        ngl@.len() == groups@.len(),
        forall|k: int| 0 <= k < ngl@.len() ==> #[trigger] ngl@[k]@ == normalize(groups@[k].label@),
        t@ == ntext(c@, i as int),
    ensures
        picked_index(r) == first_from(0, groups@.len() as int, repeats_title(c@, groups_view(groups@), i as int)),
        r matches Some(k) ==> k < groups@.len(),
{
    let ghost gs = groups_view(groups@);
    let ghost p = repeats_title(c@, gs, i as int);
    let n = groups.len();
    let mut k: usize = 0;
    while k < n
        invariant
            n == groups@.len() == gs.len() == ngl@.len(),
            gs == groups_view(groups@),
            p == repeats_title(c@, gs, i as int),
            forall|k: int| 0 <= k < ngl@.len() ==> #[trigger] ngl@[k]@ == normalize(groups@[k].label@),
            t@ == ntext(c@, i as int),
            k <= n,
            first_from(0, n as int, p) == first_from(k as int, n as int, p),
        decreases n - k,
    {
        assert(gs[k as int].title == groups@[k as int].title as int);
        assert(gs[k as int].label == groups@[k as int].label@);
        if groups[k].title != i && contains(t, ngl[k].as_slice()) {
            return Some(k);
        }
        k = k + 1;
    }
    None
}

/// The first found group whose body holds candidate `i`.
fn first_group_holding(boxes: &[TextBox], groups: &Vec<GroupFact>, i: usize) -> (r: Option<usize>)
    requires
        i < boxes@.len(),
        forall|k: int| 0 <= k < groups@.len() ==> (#[trigger] groups@[k].section matches Some(s) ==> s < boxes@.len()),
    ensures
        picked_index(r) == first_from(0, groups@.len() as int, inside_group(boxes_view(boxes@), groups_view(groups@), i as int)),
        r matches Some(k) ==> k < groups@.len(),
{
    let ghost c = boxes_view(boxes@);
    let ghost gs = groups_view(groups@);
    let ghost p = inside_group(c, gs, i as int);
    let n = groups.len();
    let y = boxes[i].bounds.y as i64;
    assert(c[i as int] == boxes@[i as int]@);
    let mut k: usize = 0;
    while k < n
        invariant
            n == groups@.len() == gs.len(),
            c == boxes_view(boxes@),
            gs == groups_view(groups@),
            p == inside_group(c, gs, i as int),
            i < boxes@.len(),
            y == c[i as int].bounds.y,
            forall|k: int| 0 <= k < groups@.len() ==> (#[trigger] groups@[k].section matches Some(s) ==> s < boxes@.len()),
            k <= n,
            first_from(0, n as int, p) == first_from(k as int, n as int, p),
        decreases n - k,
    {
        let g = &groups[k];
        let cut = match g.section {
            Some(s) => {
                assert(c[s as int] == boxes@[s as int]@);
                y >= boxes[s].bounds.y as i64
            },
            None => false,
        };
        assert(gs[k as int] == group_fact_view(groups@[k as int]));
        if y >= g.body_top && !cut {
            return Some(k);
        }
        k = k + 1;
    }
    None
}

/// The first found group whose section cut lies at or above candidate `i`.
fn first_group_cut(boxes: &[TextBox], groups: &Vec<GroupFact>, i: usize) -> (r: Option<usize>)
    requires
        i < boxes@.len(),
        forall|k: int| 0 <= k < groups@.len() ==> (#[trigger] groups@[k].section matches Some(s) ==> s < boxes@.len()),
    ensures
        picked_index(r) == first_from(0, groups@.len() as int, past_section_of(boxes_view(boxes@), groups_view(groups@), i as int)),
        r matches Some(k) ==> k < groups@.len(),
{
    let ghost c = boxes_view(boxes@);
    let ghost gs = groups_view(groups@);
    let ghost p = past_section_of(c, gs, i as int);
    let n = groups.len();
    let y = boxes[i].bounds.y;
    assert(c[i as int] == boxes@[i as int]@);
    let mut k: usize = 0;
    while k < n
        invariant
            n == groups@.len() == gs.len(),
            c == boxes_view(boxes@),
            gs == groups_view(groups@),
            p == past_section_of(c, gs, i as int),
            i < boxes@.len(),
            y == c[i as int].bounds.y,
            forall|k: int| 0 <= k < groups@.len() ==> (#[trigger] groups@[k].section matches Some(s) ==> s < boxes@.len()),
            k <= n,
            first_from(0, n as int, p) == first_from(k as int, n as int, p),
        decreases n - k,
    {
        assert(gs[k as int] == group_fact_view(groups@[k as int]));
        if let Some(s) = groups[k].section {
            assert(c[s as int] == boxes@[s as int]@);
            if y >= boxes[s].bounds.y {
                return Some(k);
            }
        }
        k = k + 1;
    }
    None
}

/// Whether `i` is among the hits.
fn is_hit(hits: &Vec<usize>, i: usize) -> (r: bool)
    ensures
        r == hits_view(hits@).contains(i as int),
{
    let mut j: usize = 0;
    while j < hits.len()
        invariant
            j <= hits@.len(),
            forall|k: int| 0 <= k < j ==> #[trigger] hits@[k] != i,
        decreases hits@.len() - j,
    {
        if hits[j] == i {
            assert(hits_view(hits@)[j as int] == i as int);
            return true;
        }
        j = j + 1;
    }
    assert forall|k: int| 0 <= k < hits_view(hits@).len() implies #[trigger] hits_view(hits@)[k] != i as int by {
        assert(hits@[k] != i);
    }
    false
}

/// The verdicts of every candidate, in screen order.
fn trail(
    boxes: &[TextBox],
    nt: &Vec<Vec<char>>,
    min: u32,
    groups: &Vec<GroupFact>,
    hits: &Vec<usize>,
    picked: Option<usize>,
) -> (r: Vec<Verdict>)
    requires
        nt@.len() == boxes@.len(),
        forall|i: int| 0 <= i < nt@.len() ==> #[trigger] nt@[i]@ == ntext(boxes_view(boxes@), i),
        forall|k: int| 0 <= k < groups@.len() ==> (#[trigger] groups@[k].section matches Some(s) ==> s < boxes@.len()),
        picked matches Some(p) ==> p < boxes@.len(),
    ensures
        r@.len() == boxes@.len(),
        forall|i: int|
            0 <= i < r@.len() ==> verdict_matches(
                #[trigger] r@[i],
                boxes_view(boxes@),
                min,
                groups_view(groups@),
                hits_view(hits@),
                picked_index(picked),
                i,
            ),
        forall|i: int| 0 <= i < r@.len() ==> why_fits(#[trigger] r@[i].why, groups@.len() as int),
{
    let ghost c = boxes_view(boxes@);
    let ghost gs = groups_view(groups@);
    let ghost hv = hits_view(hits@);
    let ghost pk = picked_index(picked);
    let mut ngl: Vec<Vec<char>> = Vec::new();
    let mut j: usize = 0;
    while j < groups.len()
        invariant
            j <= groups@.len(),
            ngl@.len() == j,
            forall|k: int| 0 <= k < j ==> #[trigger] ngl@[k]@ == normalize(groups@[k].label@),
        decreases groups@.len() - j,
    {
        let chars = chars_of(groups[j].label.as_str());
        ngl.push(normalized_chars(chars.as_slice()));
        j = j + 1;
    }
    let mut r: Vec<Verdict> = Vec::new();
    let mut i: usize = 0;
    while i < boxes.len()
        invariant
            c == boxes_view(boxes@),
            gs == groups_view(groups@),
            hv == hits_view(hits@),
            pk == picked_index(picked),
            nt@.len() == boxes@.len(),
            forall|i: int| 0 <= i < nt@.len() ==> #[trigger] nt@[i]@ == ntext(c, i),
            ngl@.len() == groups@.len(),
            forall|k: int| 0 <= k < ngl@.len() ==> #[trigger] ngl@[k]@ == normalize(groups@[k].label@),
            forall|k: int| 0 <= k < groups@.len() ==> (#[trigger] groups@[k].section matches Some(s) ==> s < boxes@.len()),
            picked matches Some(p) ==> p < boxes@.len(),
            i <= boxes@.len(),
            r@.len() == i,
            forall|k: int| 0 <= k < i ==> verdict_matches(#[trigger] r@[k], c, min, gs, hv, pk, k),
            forall|k: int| 0 <= k < i ==> why_fits(#[trigger] r@[k].why, groups@.len() as int),
        decreases boxes@.len() - i,
    {
        let b = &boxes[i];
        assert(c[i as int] == boxes@[i as int]@);
        let ti = first_group_title(groups, i);
        let di = first_group_repeated(groups, &ngl, nt[i].as_slice(), i, Ghost(c));
        let bi = first_group_holding(boxes, groups, i);
        let si = first_group_cut(boxes, groups, i);
        let why = if b.confidence < min {
            Why::BelowThreshold
        } else if picked == Some(i) {
            Why::Selected
        } else if let Some(k) = ti {
            assert(gs[k as int].title_exact == groups@[k as int].title_exact);
            Why::GroupTitle { group: k, exact: groups[k].title_exact }
        } else if let Some(k) = di {
            Why::DuplicateTitle { group: k }
        } else if let Some(k) = bi {
            if is_hit(hits, i) {
                let picked_y = match picked {
                    Some(p) => {
                        assert(c[p as int] == boxes@[p as int]@);
                        if boxes[p].bounds.y <= b.bounds.y {
                            Some(boxes[p].bounds.y)
                        } else {
                            None
                        }
                    },
                    None => None,
                };
                Why::LowerHit { picked_y }
            } else {
                Why::NoKeyword { group: k }
            }
        } else if let Some(k) = si {
            Why::PastSection { group: k }
        } else if groups.len() == 0 {
            Why::NoGroups
        } else {
            Why::OutsideGroups
        };
        let passed = match why {
            Why::Selected | Why::GroupTitle { .. } => true,
            _ => false,
        };
        r.push(Verdict { text: b.text.clone(), bounds: b.bounds, confidence: b.confidence, passed, why });
        i = i + 1;
    }
    r
}

// ---------------------------------------------------------------------------
// The conclusion
// ---------------------------------------------------------------------------

/// The conclusion drawn from the groups and hits: result, picked row, outcome line.
fn conclude(
    boxes: &[TextBox],
    nt: &Vec<Vec<char>>,
    min: u32,
    keyword: &str,
    group_labels: &str,
    labels: &Vec<String>,
    groups: &Vec<GroupFact>,
    hits: &Vec<usize>,
) -> (r: (Result<TextBox, AutomationError>, Option<usize>, String))
    requires
        nt@.len() == boxes@.len(),
        forall|i: int| 0 <= i < nt@.len() ==> #[trigger] nt@[i]@ == ntext(boxes_view(boxes@), i),
        strings_view(labels@) == group_labels_of(group_labels@),
        groups_view(groups@) == scanned(boxes_view(boxes@), min, keyword@, group_labels@).0,
        hits_view(hits@) == scanned(boxes_view(boxes@), min, keyword@, group_labels@).1,
        forall|j: int| 0 <= j < hits@.len() ==> #[trigger] hits@[j] < boxes@.len(),
    ensures
        match_view(r.0) == dropdown_outcome(boxes_view(boxes@), min, keyword@, group_labels@).result,
        picked_index(r.1) == dropdown_outcome(boxes_view(boxes@), min, keyword@, group_labels@).picked,
        r.2@ == dropdown_outcome(boxes_view(boxes@), min, keyword@, group_labels@).outcome,
        r.1 matches Some(i) ==> i < boxes@.len(),
        r.0 is Ok <==> r.1 is Some,
{
    let ghost c = boxes_view(boxes@);
    if groups.len() == 0 {
        let desc = slash_joined(labels);
        let reason = no_group_message(&desc, boxes.len());
        let outcome = handed_over(&reason);
        return (Err(AutomationError::NeedsHumanReview(reason)), None, outcome);
    }
    if hits.len() == 1 {
        let index = hits[0];
        assert(hits_view(hits@)[0] == index as int);
        assert(c[index as int] == boxes@[index as int]@);
        let mut outcome = String::from_str("选中「");
        let name = trimmed(boxes[index].text.as_str());
        push_str(&mut outcome, name.as_str());
        push_str(&mut outcome, "」（");
        push_str(&mut outcome, groups[0].label.as_str());
        push_str(&mut outcome, "）");
        assert(groups_view(groups@)[0].label == groups@[0].label@);
        return (Ok(boxes[index].clone()), Some(index), outcome);
    }
    if hits.len() == 0 {
        let mut ngl: Vec<Vec<char>> = Vec::new();
        let mut j: usize = 0;
        while j < groups.len()
            invariant
                j <= groups@.len(),
                ngl@.len() == j,
                forall|i: int| 0 <= i < j ==> #[trigger] ngl@[i]@ == normalize(groups_view(groups@)[i].label),
            decreases groups@.len() - j,
        {
            let chars = chars_of(groups[j].label.as_str());
            ngl.push(normalized_chars(chars.as_slice()));
            j = j + 1;
        }
        let floor = mention_floor(boxes, nt, &ngl, Ghost(groups_view(groups@)));
        let below = boxes_below(boxes, floor);
        let listed = describe_candidates(below.as_slice());
        let tried = slash_joined(&labels_of(groups));
        let reason = no_row_message(&tried, keyword, &listed);
        let outcome = handed_over(&reason);
        return (Err(AutomationError::NeedsHumanReview(reason)), None, outcome);
    }
    let pos = topmost_position(boxes, hits);
    let top = hits[pos];
    assert(hits_view(hits@)[pos as int] == top as int);
    assert(c[top as int] == boxes@[top as int]@);
    let mut outcome = String::from_str("选中「");
    let name = trimmed(boxes[top].text.as_str());
    push_str(&mut outcome, name.as_str());
    push_str(&mut outcome, "」（同时命中 ");
    push_decimal(&mut outcome, hits.len() - 1);
    push_str(&mut outcome, " 行，取最上面那一行）");
    (Ok(boxes[top].clone()), Some(top), outcome)
}

/// Picks the target contact out of the search dropdown (see the module documentation).
///
/// The conclusion (`result`, `picked`, `outcome`, `passed`), the facts it
/// rests on (`groups`, `hits`) and every candidate's verdict come out of the
/// same pass.
pub fn judge_dropdown(
    boxes: &[TextBox],
    keyword: &str,
    group_labels: &str,
    min_confidence: &ConfidenceThreshold,
) -> (r: DropdownJudgement)
    ensures
        match_view(r.result) == dropdown_outcome(
            boxes_view(boxes@),
            min_confidence.key,
            keyword@,
            group_labels@,
        ).result,
        picked_index(r.picked) == dropdown_outcome(
            boxes_view(boxes@),
            min_confidence.key,
            keyword@,
            group_labels@,
        ).picked,
        r.outcome@ == dropdown_outcome(
            boxes_view(boxes@),
            min_confidence.key,
            keyword@,
            group_labels@,
        ).outcome,
        r.passed == r.result is Ok,
        groups_view(r.groups@) == scanned(boxes_view(boxes@), min_confidence.key, keyword@, group_labels@).0,
        hits_view(r.hits@) == scanned(boxes_view(boxes@), min_confidence.key, keyword@, group_labels@).1,
        r.candidates@.len() == boxes@.len(),
        forall|i: int|
            0 <= i < boxes@.len() ==> verdict_matches(
                #[trigger] r.candidates@[i],
                boxes_view(boxes@),
                min_confidence.key,
                groups_view(r.groups@),
                hits_view(r.hits@),
                picked_index(r.picked),
                i,
            ),
        forall|i: int| 0 <= i < boxes@.len() ==> why_fits(#[trigger] r.candidates@[i].why, r.groups@.len() as int),
        r.keyword@ == keyword@,
        r.group_labels@ == group_labels@,
        r.min_confidence.key == min_confidence.key,
        r.min_confidence.shown@ == min_confidence.shown@,
        r.picked matches Some(i) ==> i < boxes@.len(),
        forall|j: int| 0 <= j < r.hits@.len() ==> #[trigger] r.hits@[j] < boxes@.len(),
        forall|j: int| 0 <= j < r.groups@.len() ==> #[trigger] r.groups@[j].title < boxes@.len(),
{
    let ghost c = boxes_view(boxes@);
    let min = min_confidence.key;
    let labels = parse_search_contact_group_labels(group_labels);
    let ghost lv = strings_view(labels@);
    let kchars = chars_of(keyword);
    let nk = normalized_chars(kchars.as_slice());
    let nt = normalized_texts(boxes);
    let nlabels = normalized_labels(&labels);
    let fixed = fixed_headers();
    proof {
        assert forall|k: int| 0 <= k < nlabels@.len() implies #[trigger] nlabels@[k]@ == normalize(lv[k]) by {
            assert(lv[k] == labels@[k]@);
        }
    }

    let mut groups: Vec<GroupFact> = Vec::new();
    let mut hits: Vec<usize> = Vec::new();
    let mut k: usize = 0;
    while k < labels.len()
        invariant
            c == boxes_view(boxes@),
            lv == strings_view(labels@),
            nt@.len() == boxes@.len(),
            forall|i: int| 0 <= i < nt@.len() ==> #[trigger] nt@[i]@ == ntext(c, i),
            nlabels@.len() == lv.len(),
            forall|j: int| 0 <= j < nlabels@.len() ==> #[trigger] nlabels@[j]@ == normalize(lv[j]),
            fixed@.len() == 4,
            forall|j: int| 0 <= j < 4 ==> #[trigger] fixed@[j]@ == fixed_section_headers()[j],
            k <= labels@.len(),
            groups_view(groups@) == scan_groups(c, min, lv, nk@, k as int).0,
            hits_view(hits@) == scan_groups(c, min, lv, nk@, k as int).1,
            forall|j: int| 0 <= j < hits@.len() ==> #[trigger] hits@[j] < boxes@.len(),
            forall|j: int| 0 <= j < groups@.len() ==> #[trigger] groups@[j].title < boxes@.len(),
            forall|j: int|
                0 <= j < groups@.len() ==> (#[trigger] groups@[j].section matches Some(s) ==> s < boxes@.len()),
        decreases labels@.len() - k,
    {
        assert(labels@[k as int]@ == lv[k as int]);
        let found = find_group(boxes, &nt, min, &labels[k], &nlabels, &fixed, Ghost(lv));
        match found {
            None => {},
            Some(g) => {
                add_hits(boxes, &nt, min, &g, nk.as_slice(), &mut hits);
                let ghost before = groups_view(groups@);
                groups.push(g);
                assert(groups_view(groups@) =~= before.push(group_fact_view(g)));
            },
        }
        k = k + 1;
    }
    assert(lv.len() == labels@.len());
    let (result, picked, outcome) = conclude(boxes, &nt, min, keyword, group_labels, &labels, &groups, &hits);
    let passed = result.is_ok();
    let candidates = trail(boxes, &nt, min, &groups, &hits, picked);
    DropdownJudgement {
        result,
        picked,
        outcome,
        passed,
        groups,
        hits,
        candidates,
        keyword: String::from_str(keyword),
        group_labels: String::from_str(group_labels),
        min_confidence: ConfidenceThreshold { key: min_confidence.key, shown: min_confidence.shown.clone() },
    }
}

// ---------------------------------------------------------------------------
// The decision record's wording
// ---------------------------------------------------------------------------

/// The question a dropdown judgement answers.
pub open spec fn question_text(keyword: Seq<char>) -> Seq<char> {
    "下拉列表里哪一行是目标联系人「"@ + keyword + "」？"@
}

/// The rule a dropdown judgement applies, in words.
pub open spec fn rule_text(groups_desc: Seq<char>, shown_threshold: Seq<char>) -> Seq<char> {
    "在「"@ + groups_desc + "」分组标题下方、下一个已知分区标题（"@ + join(fixed_section_headers(), " / "@)
        + "）之前，取文本包含关键词、置信度 ≥ "@ + shown_threshold + " 的最上面一行"@
}

/// The section title named when a candidate lies past a group's cut.
pub open spec fn cut_name(g: GroupView) -> Seq<char> {
    if g.section >= 0 {
        g.section_header
    } else {
        "下一个分区"@
    }
}

/// Why a candidate was kept or dropped, in words.
pub open spec fn verdict_reason(
    w: Why,
    gs: Seq<GroupView>,
    keyword: Seq<char>,
    groups_desc: Seq<char>,
    shown_confidence: Seq<char>,
    shown_threshold: Seq<char>,
) -> Seq<char> {
    match w {
        Why::BelowThreshold => "置信度 "@ + shown_confidence + " 低于阈值 "@ + shown_threshold
            + "，没参与判定（阈值由「最低 OCR 置信度」决定）"@,
        Why::Selected => "含关键词「"@ + keyword + "」，且在命中的行里排在最上面 → 选中"@,
        Why::GroupTitle { group, exact } => "被认作「"@ + gs[group as int].label + "」分组的标题行"@ + (if exact {
            "（逐字相等）"@
        } else {
            "（靠包含命中）"@
        }) + "（标题下面才是候选项）"@,
        Why::DuplicateTitle { group } => "与「"@ + gs[group as int].label + "」的标题重复，同一分组只取最上面那一块当标题"@,
        Why::LowerHit { picked_y } => match picked_y {
            Some(y) => "同样含关键词，但它排在被选中那一行（y="@ + signed_decimal(y as int) + "）下面，按「取最上面」落选"@,
            None => "同样含关键词，但不是最上面那一行"@,
        },
        Why::NoKeyword { group } => "在「"@ + gs[group as int].label + "」分组下方，但文本不含关键词「"@ + keyword + "」"@,
        Why::PastSection { group } => "在「"@ + gs[group as int].label + "」分组下方、过了「"@ + cut_name(gs[group as int])
            + "」这个分区标题，不再算联系人"@,
        Why::NoGroups => "整屏没有出现「"@ + groups_desc + "」的标题，这一块没有参与判定"@,
        Why::OutsideGroups => "不在「"@ + join(group_labels_view(gs), " / "@) + "」任何一组的标题下方（也不含关键词「"@ + keyword
            + "」）"@,
    }
}

impl DropdownJudgement {
    /// The inputs that replay this judgement: the keyword and the group titles.
    pub fn replay(&self) -> (r: ReplayInput)
        ensures
            match r {
                ReplayInput::Dropdown { keyword, group_labels } => keyword@ == self.keyword@
                    && group_labels@ == self.group_labels@,
                _ => false,
            },
    {
        ReplayInput::Dropdown { keyword: self.keyword.clone(), group_labels: self.group_labels.clone() }
    }

    /// What the judgement asks, for the decision record.
    pub fn question(&self) -> (r: String)
        ensures
            r@ == question_text(self.keyword@),
    {
        let mut r = String::from_str("下拉列表里哪一行是目标联系人「");
        push_str(&mut r, self.keyword.as_str());
        push_str(&mut r, "」？");
        r
    }

    /// The rule the judgement applied, for the decision record.
    pub fn rule(&self) -> (r: String)
        ensures
            r@ == rule_text(join(group_labels_of(self.group_labels@), " / "@), self.min_confidence.shown@),
    {
        let labels = parse_search_contact_group_labels(self.group_labels.as_str());
        let desc = slash_joined(&labels);
        let mut fixed: Vec<String> = Vec::new();
        fixed.push(String::from_str("群聊"));
        fixed.push(String::from_str("聊天记录"));
        fixed.push(String::from_str("公众号"));
        fixed.push(String::from_str("小程序"));
        assert(strings_view(fixed@) =~= fixed_section_headers());
        let headers = slash_joined(&fixed);
        let mut r = String::from_str("在「");
        push_str(&mut r, desc.as_str());
        push_str(&mut r, "」分组标题下方、下一个已知分区标题（");
        push_str(&mut r, headers.as_str());
        push_str(&mut r, "）之前，取文本包含关键词、置信度 ≥ ");
        push_str(&mut r, self.min_confidence.shown.as_str());
        push_str(&mut r, " 的最上面一行");
        r
    }

    /// Why `verdict` was kept or dropped, in words; `shown_confidence` is how
    /// the candidate's own confidence reads.
    pub fn reason(&self, verdict: &Verdict, shown_confidence: &str) -> (r: String)
        requires
            why_fits(verdict.why, self.groups@.len() as int),
        ensures
            r@ == verdict_reason(
                verdict.why,
                groups_view(self.groups@),
                self.keyword@,
                join(group_labels_of(self.group_labels@), " / "@),
                shown_confidence@,
                self.min_confidence.shown@,
            ),
    {
        let ghost gs = groups_view(self.groups@);
        let keyword = self.keyword.as_str();
        match verdict.why {
            Why::BelowThreshold => {
                let mut r = String::from_str("置信度 ");
                push_str(&mut r, shown_confidence);
                push_str(&mut r, " 低于阈值 ");
                push_str(&mut r, self.min_confidence.shown.as_str());
                push_str(&mut r, "，没参与判定（阈值由「最低 OCR 置信度」决定）");
                r
            },
            Why::Selected => {
                let mut r = String::from_str("含关键词「");
                push_str(&mut r, keyword);
                push_str(&mut r, "」，且在命中的行里排在最上面 → 选中");
                r
            },
            Why::GroupTitle { group, exact } => {
                assert(gs[group as int].label == self.groups@[group as int].label@);
                let mut r = String::from_str("被认作「");
                push_str(&mut r, self.groups[group].label.as_str());
                push_str(&mut r, "」分组的标题行");
                if exact {
                    push_str(&mut r, "（逐字相等）");
                } else {
                    push_str(&mut r, "（靠包含命中）");
                }
                push_str(&mut r, "（标题下面才是候选项）");
                r
            },
            Why::DuplicateTitle { group } => {
                assert(gs[group as int].label == self.groups@[group as int].label@);
                let mut r = String::from_str("与「");
                push_str(&mut r, self.groups[group].label.as_str());
                push_str(&mut r, "」的标题重复，同一分组只取最上面那一块当标题");
                r
            },
            Why::LowerHit { picked_y } => match picked_y {
                Some(y) => {
                    let mut r = String::from_str("同样含关键词，但它排在被选中那一行（y=");
                    push_signed(&mut r, y);
                    push_str(&mut r, "）下面，按「取最上面」落选");
                    r
                },
                None => String::from_str("同样含关键词，但不是最上面那一行"),
            },
            Why::NoKeyword { group } => {
                assert(gs[group as int].label == self.groups@[group as int].label@);
                let mut r = String::from_str("在「");
                push_str(&mut r, self.groups[group].label.as_str());
                push_str(&mut r, "」分组下方，但文本不含关键词「");
                push_str(&mut r, keyword);
                push_str(&mut r, "」");
                r
            },
            Why::PastSection { group } => {
                let g = &self.groups[group];
                assert(gs[group as int] == group_fact_view(*g));
                let mut r = String::from_str("在「");
                push_str(&mut r, g.label.as_str());
                push_str(&mut r, "」分组下方、过了「");
                if g.section.is_some() {
                    match &g.section_header {
                        Some(h) => push_str(&mut r, h.as_str()),
                        None => {},
                    }
                } else {
                    push_str(&mut r, "下一个分区");
                }
                push_str(&mut r, "」这个分区标题，不再算联系人");
                r
            },
            Why::NoGroups => {
                let labels = parse_search_contact_group_labels(self.group_labels.as_str());
                let desc = slash_joined(&labels);
                let mut r = String::from_str("整屏没有出现「");
                push_str(&mut r, desc.as_str());
                push_str(&mut r, "」的标题，这一块没有参与判定");
                r
            },
            Why::OutsideGroups => {
                let found = slash_joined(&labels_of(&self.groups));
                let mut r = String::from_str("不在「");
                push_str(&mut r, found.as_str());
                push_str(&mut r, "」任何一组的标题下方（也不含关键词「");
                push_str(&mut r, keyword);
                push_str(&mut r, "」）");
                r
            },
        }
    }
}

// ---------------------------------------------------------------------------
// Laws of the judgement
// ---------------------------------------------------------------------------

/// Extending `hits` with a group's hits keeps what was there, adds only hits
/// of that group, and leaves every hit of the group shown (itself, or an
/// earlier entry with the same text in the same box).
proof fn lemma_add_group_hits(c: Seq<TextBoxView>, min: u32, g: GroupView, nk: Seq<char>, hits: Seq<int>, n: int)
    requires
        0 <= n <= c.len(),
    ensures
        add_group_hits(c, min, g, nk, hits, n).len() >= hits.len(),
        forall|j: int| 0 <= j < hits.len() ==> add_group_hits(c, min, g, nk, hits, n)[j] == hits[j],
        forall|j: int|
            hits.len() <= j < add_group_hits(c, min, g, nk, hits, n).len() ==> 0 <= add_group_hits(
                c,
                min,
                g,
                nk,
                hits,
                n,
            )[j] < n && group_hit(c, min, g, nk, add_group_hits(c, min, g, nk, hits, n)[j]),
        forall|i: int|
            0 <= i < n && #[trigger] group_hit(c, min, g, nk, i) ==> repeats_a_hit(
                c,
                add_group_hits(c, min, g, nk, hits, n),
                i,
            ),
    decreases n,
{
    if n > 0 {
        lemma_add_group_hits(c, min, g, nk, hits, n - 1);
        let h = add_group_hits(c, min, g, nk, hits, n - 1);
        let r = add_group_hits(c, min, g, nk, hits, n);
        if group_hit(c, min, g, nk, n - 1) && !repeats_a_hit(c, h, n - 1) {
            assert(r == h.push(n - 1));
            assert forall|i: int| 0 <= i < n && #[trigger] group_hit(c, min, g, nk, i) implies repeats_a_hit(c, r, i) by {
                if i == n - 1 {
                    assert(r[h.len() as int] == n - 1);
                } else {
                    let j = choose|j: int| 0 <= j < h.len() && c[#[trigger] h[j]].text == c[i].text && c[h[j]].bounds == c[i].bounds;
                    assert(r[j] == h[j]);
                }
            }
        }
    }
}

/// Every label's group is searched: the hits collected over the first `k`
/// labels are hits of found groups, and every hit of a found group among
/// them is shown.
proof fn lemma_scan_groups(c: Seq<TextBoxView>, min: u32, labels: Seq<Seq<char>>, nk: Seq<char>, k: int)
    requires
        0 <= k <= labels.len(),
    ensures
        forall|j: int|
            0 <= j < scan_groups(c, min, labels, nk, k).1.len() ==> {
                let x = #[trigger] scan_groups(c, min, labels, nk, k).1[j];
                &&& 0 <= x < c.len()
                &&& exists|q: int|
                    0 <= q < k && (#[trigger] group_of(c, min, labels, labels[q])) is Some && group_hit(
                        c,
                        min,
                        group_of(c, min, labels, labels[q])->Some_0,
                        nk,
                        x,
                    )
            },
        forall|q: int, i: int|
            0 <= q < k && (#[trigger] group_of(c, min, labels, labels[q])) is Some && 0 <= i < c.len()
                && #[trigger] group_hit(c, min, group_of(c, min, labels, labels[q])->Some_0, nk, i) ==> repeats_a_hit(
                c,
                scan_groups(c, min, labels, nk, k).1,
                i,
            ),
        (exists|q: int| 0 <= q < k && (#[trigger] group_of(c, min, labels, labels[q])) is Some) ==> scan_groups(
            c,
            min,
            labels,
            nk,
            k,
        ).0.len() > 0,
    decreases k,
{
    if k > 0 {
        lemma_scan_groups(c, min, labels, nk, k - 1);
        let (gs, hs) = scan_groups(c, min, labels, nk, k - 1);
        let r = scan_groups(c, min, labels, nk, k).1;
        match group_of(c, min, labels, labels[k - 1]) {
            None => {},
            Some(g) => {
                lemma_add_group_hits(c, min, g, nk, hs, c.len() as int);
                assert(r == add_group_hits(c, min, g, nk, hs, c.len() as int));
                assert forall|j: int| 0 <= j < r.len() implies {
                    let x = #[trigger] r[j];
                    &&& 0 <= x < c.len()
                    &&& exists|q: int|
                        0 <= q < k && (#[trigger] group_of(c, min, labels, labels[q])) is Some && group_hit(
                            c,
                            min,
                            group_of(c, min, labels, labels[q])->Some_0,
                            nk,
                            x,
                        )
                } by {
                    if j < hs.len() {
                        assert(r[j] == hs[j]);
                    } else {
                        assert(group_of(c, min, labels, labels[k - 1]) is Some);
                    }
                }
                assert forall|q: int, i: int|
                    0 <= q < k && (#[trigger] group_of(c, min, labels, labels[q])) is Some && 0 <= i < c.len()
                        && #[trigger] group_hit(c, min, group_of(c, min, labels, labels[q])->Some_0, nk, i)
                    implies repeats_a_hit(c, r, i) by {
                    if q < k - 1 {
                        let w = choose|w: int| 0 <= w < hs.len() && c[#[trigger] hs[w]].text == c[i].text && c[hs[w]].bounds == c[i].bounds;
                        assert(r[w] == hs[w]);
                    }
                }
            },
        }
    }
}

/// The topmost hit is one of the hits.
proof fn lemma_topmost_in_range(c: Seq<TextBoxView>, hits: Seq<int>, m: int)
    requires
        m >= 1,
    ensures
        0 <= topmost_hit(c, hits, m) < m,
    decreases m,
{
    if m > 1 {
        lemma_topmost_in_range(c, hits, m - 1);
    }
}

/// Every configured group that is on screen is searched. A row above the
/// minimum confidence whose normalised text contains the normalised keyword,
/// in the body of any found group (below its title, above the next known
/// section title), makes the judgement select a row; and when it is the only
/// such row over all found groups, that row is the one selected.
pub proof fn lemma_a_row_under_any_found_group_is_selected(
    c: Seq<TextBoxView>,
    min: u32,
    keyword: Seq<char>,
    raw_labels: Seq<char>,
    k: int,
    i: int,
)
    requires
        0 <= k < group_labels_of(raw_labels).len(),
        group_of(c, min, group_labels_of(raw_labels), group_labels_of(raw_labels)[k]) is Some,
        0 <= i < c.len(),
        c[i].confidence >= min,
        in_body(c, group_of(c, min, group_labels_of(raw_labels), group_labels_of(raw_labels)[k])->Some_0, i),
        seq_contains(normalize(c[i].text), normalize(keyword)),
    ensures
        dropdown_outcome(c, min, keyword, raw_labels).result is Ok,
        (forall|q: int, j: int|
            0 <= q < group_labels_of(raw_labels).len() && (#[trigger] group_of(
                c,
                min,
                group_labels_of(raw_labels),
                group_labels_of(raw_labels)[q],
            )) is Some && 0 <= j < c.len() && c[j].confidence >= min && in_body(
                c,
                group_of(c, min, group_labels_of(raw_labels), group_labels_of(raw_labels)[q])->Some_0,
                j,
            ) && #[trigger] seq_contains(normalize(c[j].text), normalize(keyword)) ==> j == i)
            ==> dropdown_outcome(c, min, keyword, raw_labels).result == Ok::<TextBoxView, ErrorView>(c[i]),
{
    let labels = group_labels_of(raw_labels);
    let nk = normalize(keyword);
    let n = labels.len() as int;
    lemma_scan_groups(c, min, labels, nk, n);
    let (gs, hits) = scan_groups(c, min, labels, nk, n);
    let g = group_of(c, min, labels, labels[k])->Some_0;
    assert(group_hit(c, min, g, nk, i));
    assert(repeats_a_hit(c, hits, i));
    assert(gs.len() > 0);
    assert(hits.len() > 0);
    if forall|q: int, j: int|
        0 <= q < labels.len() && (#[trigger] group_of(c, min, labels, labels[q])) is Some && 0 <= j < c.len()
            && c[j].confidence >= min && in_body(c, group_of(c, min, labels, labels[q])->Some_0, j)
            && #[trigger] seq_contains(normalize(c[j].text), nk) ==> j == i {
        assert forall|j: int| 0 <= j < hits.len() implies #[trigger] hits[j] == i by {
            let x = hits[j];
            let q = choose|q: int|
                0 <= q < n && (#[trigger] group_of(c, min, labels, labels[q])) is Some && group_hit(
                    c,
                    min,
                    group_of(c, min, labels, labels[q])->Some_0,
                    nk,
                    x,
                );
            assert(seq_contains(normalize(c[x].text), nk));
        }
        if hits.len() > 1 {
            lemma_topmost_in_range(c, hits, hits.len() as int);
            let t = topmost_hit(c, hits, hits.len() as int);
            assert(hits[t] == i);
        } else {
            assert(hits[0] == i);
        }
    }
}

/// What the judgement selects is a row of a found group: above the minimum
/// confidence, in the group's body, with the keyword in its normalised text.
pub proof fn lemma_the_selection_lies_under_a_found_group(
    c: Seq<TextBoxView>,
    min: u32,
    keyword: Seq<char>,
    raw_labels: Seq<char>,
)
    requires
        dropdown_outcome(c, min, keyword, raw_labels).result is Ok,
    ensures
        exists|q: int, j: int|
            0 <= q < group_labels_of(raw_labels).len() && (#[trigger] group_of(
                c,
                min,
                group_labels_of(raw_labels),
                group_labels_of(raw_labels)[q],
            )) is Some && 0 <= j < c.len() && c[j] == dropdown_outcome(c, min, keyword, raw_labels).result->Ok_0
                && c[j].confidence >= min && in_body(
                c,
                group_of(c, min, group_labels_of(raw_labels), group_labels_of(raw_labels)[q])->Some_0,
                j,
            ) && #[trigger] seq_contains(normalize(c[j].text), normalize(keyword)),
{
    let labels = group_labels_of(raw_labels);
    let nk = normalize(keyword);
    let n = labels.len() as int;
    lemma_scan_groups(c, min, labels, nk, n);
    let (gs, hits) = scan_groups(c, min, labels, nk, n);
    let p = if hits.len() == 1 {
        0
    } else {
        lemma_topmost_in_range(c, hits, hits.len() as int);
        topmost_hit(c, hits, hits.len() as int)
    };
    let x = hits[p];
    let q = choose|q: int|
        0 <= q < n && (#[trigger] group_of(c, min, labels, labels[q])) is Some && group_hit(
            c,
            min,
            group_of(c, min, labels, labels[q])->Some_0,
            nk,
            x,
        );
    assert(seq_contains(normalize(c[x].text), nk));
}


} // verus!
