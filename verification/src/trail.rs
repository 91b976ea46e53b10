//! Why each candidate of a name match was kept or dropped.
//!
//! The judges here return the match's conclusion (the same one the matchers
//! of [`crate::policy`] give) together with one verdict per candidate, in
//! screen order. Both come from the same intermediate facts: which candidates
//! reached the minimum confidence, which equal the name exactly (or contain
//! it, for the relaxed layer), and what, if anything, blocked the selection.

use vstd::prelude::*;
use crate::policy::{
    acc_pred, accepted_terms, centers_close, confirm_outcome, has_close_neighbour, count_where, exact_pred, first_where, hit_pred,
    is_exact_text, lemma_count_one, lemma_count_zero, lemma_first, lemma_min_len, min_len_where,
    relaxed_outcome, strict_outcome, tie_pred, trimmed_len, ConfidenceThreshold,
    ContainsNameMatcher, StrictContactMatcher,
};
use crate::ports::{
    boxes_view, match_view, spec_is_degenerate, AutomationError, ErrorView, Rect, TextBox, TextBoxView,
};
use crate::text::{
    chars_of, contains, decimal, push_decimal, push_signed, push_str, seq_contains, signed_decimal,
    string_of, trim, trim_bounds, trimmed, trimmed_equal,
};

verus! {

/// The name of the strict rule, as written in the decision record.
pub const STRICT_RULE: &'static str = "姓名逐字精确匹配";

/// The name of the relaxed layer's rule (it runs the strict rule first).
pub const CONTAINS_RULE: &'static str = "姓名包含匹配（临时放宽层）";

/// Why a match selected nobody.
#[derive(Debug, Clone, Copy)]
pub enum Blocked {
    /// No candidate reached the minimum confidence.
    NoCandidate,
    /// None of those equals the name exactly.
    NoExactMatch,
    /// This many equal it exactly: no guessing.
    Duplicate(usize),
    /// The one selected block has no area.
    Degenerate,
    /// The one selected block has candidate `other` too close to it.
    TooClose { other: usize },
}

/// Candidate `j` is accepted, is not `h`, and its centre is too close to `h`'s.
pub open spec fn crowd_pred(c: Seq<TextBoxView>, min: u32, h: int, sep: i32) -> spec_fn(int) -> bool {
    |j: int| 0 <= j < c.len() && j != h && c[j].confidence >= min && centers_close(c[j].bounds, c[h].bounds, sep)
}

/// The last two checks on the selected candidate `h`, as a reason to block it.
pub open spec fn confirm_blocked(c: Seq<TextBoxView>, min: u32, h: int, sep: i32) -> Option<Blocked> {
    let j = first_where(crowd_pred(c, min, h, sep), c.len() as int);
    if spec_is_degenerate(c[h].bounds) {
        Some(Blocked::Degenerate)
    } else if j >= 0 {
        Some(Blocked::TooClose { other: j as usize })
    } else {
        None
    }
}

/// The unique exact candidate, or `-1`.
pub open spec fn strict_unique(c: Seq<TextBoxView>, min: u32, terms: Seq<Seq<char>>) -> int {
    if count_where(acc_pred(c, min), c.len() as int) > 0 && count_where(exact_pred(c, min, terms), c.len() as int) == 1 {
        first_where(exact_pred(c, min, terms), c.len() as int)
    } else {
        -1
    }
}

/// What blocked the strict rule, if anything.
pub open spec fn strict_blocked(c: Seq<TextBoxView>, min: u32, terms: Seq<Seq<char>>, sep: i32) -> Option<Blocked> {
    let n = count_where(exact_pred(c, min, terms), c.len() as int);
    if count_where(acc_pred(c, min), c.len() as int) == 0 {
        Some(Blocked::NoCandidate)
    } else if n == 0 {
        Some(Blocked::NoExactMatch)
    } else if n == 1 {
        confirm_blocked(c, min, first_where(exact_pred(c, min, terms), c.len() as int), sep)
    } else {
        Some(Blocked::Duplicate(n as usize))
    }
}

/// The relaxed layer's finding among the containment hits.
#[derive(Debug, Clone, Copy)]
pub enum Relaxed {
    NoHit,
    /// The only hit, selected.
    Selected(usize),
    /// The shortest of several hits, selected.
    Shortest { picked: usize, shortest: usize },
    /// The shortest hits tie: no guessing.
    Tie { shortest: usize },
    /// The hit settled on (`on`) was blocked by the last two checks.
    Blocked { blocked: Blocked, on: usize },
}

/// The relaxed layer's finding for the trimmed name `name`.
pub open spec fn relaxed_eval(c: Seq<TextBoxView>, min: u32, name: Seq<char>, sep: i32) -> Relaxed {
    let hp = hit_pred(c, min, name);
    let h = count_where(hp, c.len() as int);
    let s = min_len_where(hp, trimmed_len(c), c.len() as int);
    let ties = tie_pred(c, min, name, s);
    if h == 0 {
        Relaxed::NoHit
    } else if h == 1 {
        let i = first_where(hp, c.len() as int);
        match confirm_blocked(c, min, i, sep) {
            Some(b) => Relaxed::Blocked { blocked: b, on: i as usize },
            None => Relaxed::Selected(i as usize),
        }
    } else if count_where(ties, c.len() as int) >= 2 {
        Relaxed::Tie { shortest: s as usize }
    } else {
        let f = first_where(ties, c.len() as int);
        match confirm_blocked(c, min, f, sep) {
            Some(b) => Relaxed::Blocked { blocked: b, on: f as usize },
            None => Relaxed::Shortest { picked: f as usize, shortest: s as usize },
        }
    }
}

/// Why one candidate of a name match was kept or dropped.
#[derive(Debug, Clone, Copy)]
pub enum NameWhy {
    /// The target name is blank: nothing was judged.
    BlankName,
    /// Below the minimum confidence: it took no part.
    BelowThreshold,
    /// The block the match settled on has no area.
    EmptyBox,
    /// The block the match settled on has candidate `other` too close to it.
    Crowded { other: usize },
    /// This block lies too close to the block `hit` the match settled on.
    Crowding { hit: usize },
    /// Not exactly the name (strict rule).
    NotExact,
    /// Exactly accepted term `term`, the only exact match: selected.
    ExactUnique { term: usize },
    /// Exactly accepted term `term`, but `count` blocks are.
    ExactDuplicate { term: usize, count: usize },
    /// Exactly accepted term `term`, but its box has no area.
    ExactEmptyBox { term: usize },
    /// Exactly accepted term `term`, but not the block the match settled on.
    ExactNotChosen { term: usize },
    /// Does not contain the name (relaxed layer).
    NoContainment,
    /// The only block containing the name: selected.
    OnlyHit,
    /// The shortest of `hits` blocks containing the name (`shortest` characters): selected.
    Shortest { hits: usize, shortest: usize },
    /// Contains the name, but is longer than the shortest such block.
    Longer { len: usize, shortest: usize },
    /// Contains the name, but the shortest such blocks tie.
    TiedShortest { shortest: usize },
    /// Contains the name, but the block settled on could not be clicked.
    HitUnusable,
    /// No block contains the name.
    NoHit,
}

/// The kept verdicts: the selected block.
pub open spec fn name_passes(w: NameWhy) -> bool {
    w is ExactUnique || w is OnlyHit || w is Shortest
}

/// The indices a verdict names are those of candidates (`n`) and accepted terms (`t`).
pub open spec fn name_why_fits(w: NameWhy, n: int, t: int) -> bool {
    match w {
        NameWhy::Crowded { other } => other < n,
        NameWhy::Crowding { hit } => hit < n,
        NameWhy::ExactUnique { term } => term < t,
        NameWhy::ExactDuplicate { term, .. } => term < t,
        NameWhy::ExactEmptyBox { term } => term < t,
        NameWhy::ExactNotChosen { term } => term < t,
        _ => true,
    }
}

/// The reason a blocked selection gives on row `i` (`on` is the block settled on).
pub open spec fn blocked_row(b: Option<Blocked>, on: int, i: int) -> Option<NameWhy> {
    match b {
        Some(Blocked::Degenerate) => if on >= 0 && i == on { Some(NameWhy::EmptyBox) } else { None },
        Some(Blocked::TooClose { other }) => if on >= 0 && i == on {
            Some(NameWhy::Crowded { other })
        } else if on >= 0 && i == other {
            Some(NameWhy::Crowding { hit: on as usize })
        } else {
            None
        },
        _ => None,
    }
}

/// The first accepted term equal to `text` once both are trimmed.
pub open spec fn term_pred(terms: Seq<Seq<char>>, text: Seq<char>) -> spec_fn(int) -> bool {
    |k: int| 0 <= k < terms.len() && trim(terms[k]) == trim(text)
}

/// Row `i`'s verdict under the strict rule.
pub open spec fn strict_why(c: Seq<TextBoxView>, min: u32, terms: Seq<Seq<char>>, sep: i32, i: int) -> NameWhy {
    let b = strict_blocked(c, min, terms, sep);
    let k = first_where(term_pred(terms, c[i].text), terms.len() as int) as usize;
    if c[i].confidence < min {
        NameWhy::BelowThreshold
    } else if blocked_row(b, strict_unique(c, min, terms), i) is Some {
        blocked_row(b, strict_unique(c, min, terms), i)->0
    } else if !is_exact_text(c[i].text, terms) {
        NameWhy::NotExact
    } else {
        match b {
            None => NameWhy::ExactUnique { term: k },
            Some(Blocked::Duplicate(n)) => NameWhy::ExactDuplicate { term: k, count: n },
            Some(Blocked::Degenerate) => NameWhy::ExactEmptyBox { term: k },
            _ => NameWhy::ExactNotChosen { term: k },
        }
    }
}

/// The block the relaxed layer settled on and was blocked at, or `-1`.
pub open spec fn relaxed_on(o: Relaxed) -> int {
    match o {
        Relaxed::Blocked { on, .. } => on as int,
        _ => -1,
    }
}

pub open spec fn relaxed_block(o: Relaxed) -> Option<Blocked> {
    match o {
        Relaxed::Blocked { blocked, .. } => Some(blocked),
        _ => None,
    }
}

/// Row `i`'s verdict under the relaxed layer (trimmed name `name`).
pub open spec fn relaxed_why(c: Seq<TextBoxView>, min: u32, name: Seq<char>, sep: i32, i: int) -> NameWhy {
    let o = relaxed_eval(c, min, name, sep);
    let row = blocked_row(relaxed_block(o), relaxed_on(o), i);
    if c[i].confidence < min {
        NameWhy::BelowThreshold
    } else if row is Some {
        row->0
    } else if !seq_contains(c[i].text, name) {
        NameWhy::NoContainment
    } else {
        match o {
            Relaxed::Selected(_) => NameWhy::OnlyHit,
            Relaxed::Shortest { picked, shortest } => if picked as int == i {
                NameWhy::Shortest { hits: count_where(hit_pred(c, min, name), c.len() as int) as usize, shortest }
            } else {
                NameWhy::Longer { len: trim(c[i].text).len() as usize, shortest }
            },
            Relaxed::Tie { shortest } => NameWhy::TiedShortest { shortest },
            Relaxed::Blocked { .. } => NameWhy::HitUnusable,
            Relaxed::NoHit => NameWhy::NoHit,
        }
    }
}

/// One candidate of a name match and why it was kept or dropped.
#[derive(Debug)]
pub struct NameVerdict {
    pub text: String,
    pub bounds: Rect,
    pub confidence: u32,
    pub passed: bool,
    pub why: NameWhy,
}

/// A name match's trail: the rule's name, whether the relaxed layer took
/// over from the strict rule, and every candidate's verdict in screen order.
#[derive(Debug)]
pub struct MatchTrail {
    pub rule: &'static str,
    pub relaxed: bool,
    pub candidates: Vec<NameVerdict>,
}

pub open spec fn verdict_is(v: NameVerdict, b: TextBoxView, w: NameWhy) -> bool {
    &&& v.text@ == b.text
    &&& v.bounds == b.bounds
    &&& v.confidence == b.confidence
    &&& v.why == w
    &&& v.passed == name_passes(w)
}

fn verdict(b: &TextBox, why: NameWhy) -> (v: NameVerdict)
    ensures
        verdict_is(v, b@, why),
{
    let passed = match why {
        NameWhy::ExactUnique { .. } | NameWhy::OnlyHit | NameWhy::Shortest { .. } => true,
        _ => false,
    };
    NameVerdict { text: b.text.clone(), bounds: b.bounds, confidence: b.confidence, passed, why }
}

/// Every candidate rejected with the same reason.
fn all_rejected(candidates: &[TextBox], why: NameWhy) -> (r: Vec<NameVerdict>)
    ensures
        r@.len() == candidates@.len(),
        forall|i: int| 0 <= i < r@.len() ==> verdict_is(#[trigger] r@[i], candidates@[i]@, why),
{
    let mut r: Vec<NameVerdict> = Vec::new();
    let mut i: usize = 0;
    while i < candidates.len()
        invariant
            i <= candidates@.len(),
            r@.len() == i,
            forall|k: int| 0 <= k < i ==> verdict_is(#[trigger] r@[k], candidates@[k]@, why),
        decreases candidates@.len() - i,
    {
        r.push(verdict(&candidates[i], why));
        i = i + 1;
    }
    r
}

/// The first accepted candidate other than `h` too close to it.
fn crowding(candidates: &[TextBox], min: u32, h: usize, sep: i32) -> (r: Option<usize>)
    requires
        h < candidates@.len(),
    ensures
        picked(r) == first_where(crowd_pred(boxes_view(candidates@), min, h as int, sep), candidates@.len() as int),
        r matches Some(j) ==> j < candidates@.len(),
{
    let ghost c = boxes_view(candidates@);
    let ghost p = crowd_pred(c, min, h as int, sep);
    let n = candidates.len();
    let mut j: usize = 0;
    while j < n
        invariant
            n == candidates@.len() == c.len(),
            c == boxes_view(candidates@),
            p == crowd_pred(c, min, h as int, sep),
            h < n,
            j <= n,
            forall|k: int| 0 <= k < j ==> !#[trigger] p(k),
        decreases n - j,
    {
        assert(c[j as int] == candidates@[j as int]@);
        assert(c[h as int] == candidates@[h as int]@);
        if j != h && candidates[j].confidence >= min && StrictContactMatcher::centers_too_close(
            candidates[j].bounds,
            candidates[h].bounds,
            sep,
        ) {
            proof {
                lemma_first(p, n as int);
                assert(p(j as int));
            }
            return Some(j);
        }
        j = j + 1;
    }
    proof {
        lemma_first(p, n as int);
    }
    None
}

/// An optional index as an integer, `-1` for none.
pub open spec fn picked(r: Option<usize>) -> int {
    match r {
        Some(i) => i as int,
        None => -1,
    }
}

/// The last two checks on `h`, as a reason to block it.
fn confirm_blocked_of(candidates: &[TextBox], min: u32, h: usize, sep: i32) -> (r: Option<Blocked>)
    requires
        h < candidates@.len(),
    ensures
        r == confirm_blocked(boxes_view(candidates@), min, h as int, sep),
        r matches Some(Blocked::TooClose { other }) ==> other < candidates@.len(),
{
    assert(boxes_view(candidates@)[h as int] == candidates@[h as int]@);
    if candidates[h].bounds.is_degenerate() {
        return Some(Blocked::Degenerate);
    }
    match crowding(candidates, min, h, sep) {
        Some(j) => Some(Blocked::TooClose { other: j }),
        None => None,
    }
}

/// The first of `terms` equal to `text` once both are trimmed (there is one).
fn first_term(terms: &Vec<Vec<char>>, text: &[char]) -> (r: usize)
    requires
        exists|k: int| 0 <= k < terms@.len() && #[trigger] trim(terms@[k]@) == trim(text@),
    ensures
        r as int == first_where(term_pred(terms@.map_values(|v: Vec<char>| v@), text@), terms@.len() as int),
        r < terms@.len(),
{
    let ghost tv = terms@.map_values(|v: Vec<char>| v@);
    let ghost p = term_pred(tv, text@);
    let n = terms.len();
    let mut k: usize = 0;
    proof {
        let w = choose|k: int| 0 <= k < terms@.len() && #[trigger] trim(terms@[k]@) == trim(text@);
        assert(tv[w] == terms@[w]@);
        assert(p(w));
        lemma_first(p, n as int);
    }
    while k < n
        invariant
            n == terms@.len() == tv.len(),
            tv == terms@.map_values(|v: Vec<char>| v@),
            p == term_pred(tv, text@),
            k <= n,
            forall|j: int| 0 <= j < k ==> !#[trigger] p(j),
            exists|j: int| #[trigger] p(j),
        decreases n - k,
    {
        if trimmed_equal(terms[k].as_slice(), text) {
            proof {
                lemma_first(p, n as int);
                assert(p(k as int));
            }
            return k;
        }
        k = k + 1;
    }
    assert(false) by {
        let j = choose|j: int| #[trigger] p(j);
        assert(0 <= j < n);
    }
    0
}

/// What blocked the strict rule, and its unique exact candidate.
fn strict_facts(matcher: &StrictContactMatcher, candidates: &[TextBox], min: u32, terms: &Vec<Vec<char>>) -> (r: (
    Option<Blocked>,
    Option<usize>,
))
    ensures
        r.0 == strict_blocked(
            boxes_view(candidates@),
            min,
            terms@.map_values(|v: Vec<char>| v@),
            matcher.min_separation_px,
        ),
        picked(r.1) == strict_unique(boxes_view(candidates@), min, terms@.map_values(|v: Vec<char>| v@)),
        r.1 matches Some(h) ==> h < candidates@.len(),
        r.0 matches Some(Blocked::TooClose { other }) ==> other < candidates@.len(),
{
    let ghost c = boxes_view(candidates@);
    let ghost tv = terms@.map_values(|v: Vec<char>| v@);
    let (accepted, exact, first) = matcher.scan_exact(candidates, min, terms);
    if accepted == 0 {
        return (Some(Blocked::NoCandidate), None);
    }
    if exact == 0 {
        return (Some(Blocked::NoExactMatch), None);
    }
    if exact == 1 {
        proof {
            lemma_count_one(exact_pred(c, min, tv), c.len() as int);
        }
        let h = match first {
            Some(f) => f,
            None => 0,
        };
        return (confirm_blocked_of(candidates, min, h, matcher.min_separation_px), Some(h));
    }
    (Some(Blocked::Duplicate(exact)), None)
}

/// The verdict a blocked selection gives on row `i`.
fn blocked_row_of(b: Option<Blocked>, on: Option<usize>, i: usize) -> (r: Option<NameWhy>)
    ensures
        r == blocked_row(b, picked(on), i as int),
{
    match b {
        Some(Blocked::Degenerate) => if on == Some(i) {
            Some(NameWhy::EmptyBox)
        } else {
            None
        },
        Some(Blocked::TooClose { other }) => match on {
            Some(h) => if h == i {
                Some(NameWhy::Crowded { other })
            } else if i == other {
                Some(NameWhy::Crowding { hit: h })
            } else {
                None
            },
            None => None,
        },
        _ => None,
    }
}

/// The strict rule's verdict on every row.
fn strict_rows(
    matcher: &StrictContactMatcher,
    candidates: &[TextBox],
    min: u32,
    terms: &Vec<Vec<char>>,
    blocked: Option<Blocked>,
    unique: Option<usize>,
) -> (r: Vec<NameVerdict>)
    requires
        blocked == strict_blocked(
            boxes_view(candidates@),
            min,
            terms@.map_values(|v: Vec<char>| v@),
            matcher.min_separation_px,
        ),
        picked(unique) == strict_unique(boxes_view(candidates@), min, terms@.map_values(|v: Vec<char>| v@)),
        unique matches Some(h) ==> h < candidates@.len(),
        blocked matches Some(Blocked::TooClose { other }) ==> other < candidates@.len(),
    ensures
        r@.len() == candidates@.len(),
        forall|i: int| 0 <= i < r@.len() ==> name_why_fits(#[trigger] r@[i].why, candidates@.len() as int, terms@.len() as int),
        forall|i: int|
            0 <= i < r@.len() ==> verdict_is(
                #[trigger] r@[i],
                candidates@[i]@,
                strict_why(
                    boxes_view(candidates@),
                    min,
                    terms@.map_values(|v: Vec<char>| v@),
                    matcher.min_separation_px,
                    i,
                ),
            ),
{
    let ghost c = boxes_view(candidates@);
    let ghost tv = terms@.map_values(|v: Vec<char>| v@);
    let ghost sep = matcher.min_separation_px;
    let mut r: Vec<NameVerdict> = Vec::new();
    let mut i: usize = 0;
    while i < candidates.len()
        invariant
            c == boxes_view(candidates@),
            tv == terms@.map_values(|v: Vec<char>| v@),
            sep == matcher.min_separation_px,
            blocked == strict_blocked(c, min, tv, sep),
            picked(unique) == strict_unique(c, min, tv),
            unique matches Some(h) ==> h < candidates@.len(),
            blocked matches Some(Blocked::TooClose { other }) ==> other < candidates@.len(),
            i <= candidates@.len(),
            r@.len() == i,
            forall|k: int| 0 <= k < i ==> name_why_fits(#[trigger] r@[k].why, candidates@.len() as int, terms@.len() as int),
            forall|k: int| 0 <= k < i ==> verdict_is(#[trigger] r@[k], candidates@[k]@, strict_why(c, min, tv, sep, k)),
        decreases candidates@.len() - i,
    {
        let b = &candidates[i];
        assert(c[i as int] == b@);
        let row = blocked_row_of(blocked, unique, i);
        let why = if b.confidence < min {
            NameWhy::BelowThreshold
        } else if let Some(w) = row {
            w
        } else {
            let text = chars_of(b.text.as_str());
            if !StrictContactMatcher::matches_a_term(text.as_slice(), terms) {
                NameWhy::NotExact
            } else {
                proof {
                    let k = choose|k: int| 0 <= k < tv.len() && #[trigger] trim(tv[k]) == trim(text@);
                    assert(tv[k] == terms@[k]@);
                    assert(trim(terms@[k]@) == trim(text@));
                }
                let k = first_term(terms, text.as_slice());
                match blocked {
                    None => NameWhy::ExactUnique { term: k },
                    Some(Blocked::Duplicate(n)) => NameWhy::ExactDuplicate { term: k, count: n },
                    Some(Blocked::Degenerate) => NameWhy::ExactEmptyBox { term: k },
                    _ => NameWhy::ExactNotChosen { term: k },
                }
            }
        };
        r.push(verdict(b, why));
        i = i + 1;
    }
    r
}

/// `r` is what the strict rule gives, with its trail, for `expected_name`
/// among `candidates` at the threshold `min` (see [`strict_judge`]).
pub open spec fn is_strict_judgement(
    matcher: StrictContactMatcher,
    expected_name: Seq<char>,
    candidates: Seq<TextBox>,
    min: ConfidenceThreshold,
    r: (Result<TextBox, AutomationError>, MatchTrail),
) -> bool {
    &&& match_view(r.0) == strict_outcome(
        boxes_view(candidates),
        min.key,
        min.shown@,
        matcher.entries(),
        expected_name,
        matcher.min_separation_px,
    )
    &&& r.1.rule@ == STRICT_RULE@
    &&& !r.1.relaxed
    &&& r.1.candidates@.len() == candidates.len()
    &&& forall|i: int|
        0 <= i < candidates.len() ==> verdict_is(
            #[trigger] r.1.candidates@[i],
            candidates[i]@,
            if trim(expected_name).len() == 0 {
                NameWhy::BlankName
            } else {
                strict_why(
                    boxes_view(candidates),
                    min.key,
                    accepted_terms(matcher.entries(), expected_name),
                    matcher.min_separation_px,
                    i,
                )
            },
        )
}

/// The strict rule, with its trail (see [`StrictContactMatcher::find_unique_exact_match`]).
pub fn strict_judge(
    matcher: &StrictContactMatcher,
    expected_name: &str,
    candidates: &[TextBox],
    min_confidence: &ConfidenceThreshold,
) -> (r: (Result<TextBox, AutomationError>, MatchTrail))
    ensures
        match_view(r.0) == strict_outcome(
            boxes_view(candidates@),
            min_confidence.key,
            min_confidence.shown@,
            matcher.entries(),
            expected_name@,
            matcher.min_separation_px,
        ),
        r.1.rule@ == STRICT_RULE@,
        !r.1.relaxed,
        r.1.candidates@.len() == candidates@.len(),
        forall|i: int|
            0 <= i < candidates@.len() ==> name_why_fits(
                #[trigger] r.1.candidates@[i].why,
                candidates@.len() as int,
                accepted_terms(matcher.entries(), expected_name@).len() as int,
            ),
        forall|i: int|
            0 <= i < candidates@.len() ==> verdict_is(
                #[trigger] r.1.candidates@[i],
                candidates@[i]@,
                if trim(expected_name@).len() == 0 {
                    NameWhy::BlankName
                } else {
                    strict_why(
                        boxes_view(candidates@),
                        min_confidence.key,
                        accepted_terms(matcher.entries(), expected_name@),
                        matcher.min_separation_px,
                        i,
                    )
                },
            ),
{
    let result = matcher.find_unique_exact_match(expected_name, candidates, min_confidence);
    let name = chars_of(expected_name);
    let (a, b) = trim_bounds(name.as_slice());
    if a == b {
        let rows = all_rejected(candidates, NameWhy::BlankName);
        return (result, MatchTrail { rule: STRICT_RULE, relaxed: false, candidates: rows });
    }
    let min = min_confidence.key;
    let terms = matcher.term_chars(expected_name);
    proof {
        assert(terms@.map_values(|v: Vec<char>| v@) =~= accepted_terms(matcher.entries(), expected_name@));
    }
    let (blocked, unique) = strict_facts(matcher, candidates, min, &terms);
    let rows = strict_rows(matcher, candidates, min, &terms, blocked, unique);
    (result, MatchTrail { rule: STRICT_RULE, relaxed: false, candidates: rows })
}

/// The relaxed layer's finding for the trimmed name `name`, and the number of hits.
fn relaxed_facts(matcher: &StrictContactMatcher, candidates: &[TextBox], min: u32, name: &[char]) -> (r: (
    Relaxed,
    usize,
))
    ensures
        r.0 == relaxed_eval(boxes_view(candidates@), min, name@, matcher.min_separation_px),
        r.1 == count_where(hit_pred(boxes_view(candidates@), min, name@), candidates@.len() as int),
        r.0 matches Relaxed::Shortest { picked, .. } ==> picked < candidates@.len(),
        relaxed_on(r.0) < candidates@.len(),
        relaxed_block(r.0) matches Some(Blocked::TooClose { other }) ==> other < candidates@.len(),
{
    let ghost c = boxes_view(candidates@);
    let ghost hp = hit_pred(c, min, name@);
    let sep = matcher.min_separation_px;
    let (_accepted, hits, first, shortest) = ContainsNameMatcher::scan_hits(candidates, min, name);
    if hits == 0 {
        return (Relaxed::NoHit, 0);
    }
    proof {
        lemma_count_zero(hp, c.len() as int);
        lemma_min_len(hp, trimmed_len(c), c.len() as int);
    }
    if hits == 1 {
        proof {
            lemma_count_one(hp, c.len() as int);
        }
        let h = match first {
            Some(f) => f,
            None => 0,
        };
        let o = match confirm_blocked_of(candidates, min, h, sep) {
            Some(b) => Relaxed::Blocked { blocked: b, on: h },
            None => Relaxed::Selected(h),
        };
        return (o, hits);
    }
    let s = match shortest {
        Some(m) => m,
        None => 0,
    };
    let ghost tp = tie_pred(c, min, name@, s as int);
    let (ties, first_tie) = ContainsNameMatcher::scan_ties(candidates, min, name, s);
    if ties >= 2 {
        return (Relaxed::Tie { shortest: s }, hits);
    }
    proof {
        let w = choose|i: int| 0 <= i < c.len() && #[trigger] hp(i) && trimmed_len(c)(i) == s;
        assert(tp(w));
        lemma_count_zero(tp, c.len() as int);
        lemma_count_one(tp, c.len() as int);
    }
    let f = match first_tie {
        Some(f) => f,
        None => 0,
    };
    let o = match confirm_blocked_of(candidates, min, f, sep) {
        Some(b) => Relaxed::Blocked { blocked: b, on: f },
        None => Relaxed::Shortest { picked: f, shortest: s },
    };
    (o, hits)
}

/// The relaxed layer's verdict on every row.
fn relaxed_rows(
    matcher: &StrictContactMatcher,
    candidates: &[TextBox],
    min: u32,
    name: &[char],
    outcome: Relaxed,
    hits: usize,
) -> (r: Vec<NameVerdict>)
    requires
        outcome == relaxed_eval(boxes_view(candidates@), min, name@, matcher.min_separation_px),
        hits == count_where(hit_pred(boxes_view(candidates@), min, name@), candidates@.len() as int),
        relaxed_on(outcome) < candidates@.len(),
        relaxed_block(outcome) matches Some(Blocked::TooClose { other }) ==> other < candidates@.len(),
    ensures
        r@.len() == candidates@.len(),
        forall|i: int| 0 <= i < r@.len() ==> name_why_fits(#[trigger] r@[i].why, candidates@.len() as int, 0),
        forall|i: int|
            0 <= i < r@.len() ==> verdict_is(
                #[trigger] r@[i],
                candidates@[i]@,
                relaxed_why(boxes_view(candidates@), min, name@, matcher.min_separation_px, i),
            ),
{
    let ghost c = boxes_view(candidates@);
    let ghost sep = matcher.min_separation_px;
    let (blocked, on) = match outcome {
        Relaxed::Blocked { blocked, on } => (Some(blocked), Some(on)),
        _ => (None, None),
    };
    let mut r: Vec<NameVerdict> = Vec::new();
    let mut i: usize = 0;
    while i < candidates.len()
        invariant
            c == boxes_view(candidates@),
            sep == matcher.min_separation_px,
            outcome == relaxed_eval(c, min, name@, sep),
            hits == count_where(hit_pred(c, min, name@), c.len() as int),
            blocked == relaxed_block(outcome),
            picked(on) == relaxed_on(outcome),
            relaxed_on(outcome) < candidates@.len(),
            relaxed_block(outcome) matches Some(Blocked::TooClose { other }) ==> other < candidates@.len(),
            i <= candidates@.len(),
            r@.len() == i,
            forall|k: int| 0 <= k < i ==> name_why_fits(#[trigger] r@[k].why, candidates@.len() as int, 0),
            forall|k: int| 0 <= k < i ==> verdict_is(#[trigger] r@[k], candidates@[k]@, relaxed_why(c, min, name@, sep, k)),
        decreases candidates@.len() - i,
    {
        let b = &candidates[i];
        assert(c[i as int] == b@);
        let row = blocked_row_of(blocked, on, i);
        let why = if b.confidence < min {
            NameWhy::BelowThreshold
        } else if let Some(w) = row {
            w
        } else {
            let text = chars_of(b.text.as_str());
            if !contains(text.as_slice(), name) {
                NameWhy::NoContainment
            } else {
                match outcome {
                    Relaxed::Selected(_) => NameWhy::OnlyHit,
                    Relaxed::Shortest { picked, shortest } => if picked == i {
                        NameWhy::Shortest { hits, shortest }
                    } else {
                        let (a, z) = trim_bounds(text.as_slice());
                        NameWhy::Longer { len: z - a, shortest }
                    },
                    Relaxed::Tie { shortest } => NameWhy::TiedShortest { shortest },
                    Relaxed::Blocked { .. } => NameWhy::HitUnusable,
                    Relaxed::NoHit => NameWhy::NoHit,
                }
            }
        };
        r.push(verdict(b, why));
        i = i + 1;
    }
    r
}

/// The relaxed layer, with its trail (see [`ContainsNameMatcher::find_unique_exact_match`]).
///
/// While the strict rule selects a candidate or reports an ambiguity (or no
/// candidate reaches the minimum confidence), the trail is the strict rule's;
/// only when nothing equals the name exactly does the containment rule take
/// over, and the trail says so (`relaxed`).
pub fn contains_judge(
    matcher: &ContainsNameMatcher,
    expected_name: &str,
    candidates: &[TextBox],
    min_confidence: &ConfidenceThreshold,
) -> (r: (Result<TextBox, AutomationError>, MatchTrail))
    ensures
        match_view(r.0) == relaxed_outcome(
            boxes_view(candidates@),
            min_confidence.key,
            min_confidence.shown@,
            matcher.inner().entries(),
            expected_name@,
            matcher.inner().min_separation_px,
        ),
        r.1.rule@ == CONTAINS_RULE@,
        r.1.relaxed == (trim(expected_name@).len() > 0 && strict_blocked(
            boxes_view(candidates@),
            min_confidence.key,
            accepted_terms(matcher.inner().entries(), expected_name@),
            matcher.inner().min_separation_px,
        ) matches Some(Blocked::NoExactMatch)),
        r.1.candidates@.len() == candidates@.len(),
        forall|i: int|
            0 <= i < candidates@.len() ==> name_why_fits(
                #[trigger] r.1.candidates@[i].why,
                candidates@.len() as int,
                accepted_terms(matcher.inner().entries(), expected_name@).len() as int,
            ),
        forall|i: int|
            0 <= i < candidates@.len() ==> verdict_is(
                #[trigger] r.1.candidates@[i],
                candidates@[i]@,
                if trim(expected_name@).len() == 0 {
                    NameWhy::BlankName
                } else if r.1.relaxed {
                    relaxed_why(
                        boxes_view(candidates@),
                        min_confidence.key,
                        trim(expected_name@),
                        matcher.inner().min_separation_px,
                        i,
                    )
                } else {
                    strict_why(
                        boxes_view(candidates@),
                        min_confidence.key,
                        accepted_terms(matcher.inner().entries(), expected_name@),
                        matcher.inner().min_separation_px,
                        i,
                    )
                },
            ),
{
    let result = matcher.find_unique_exact_match(expected_name, candidates, min_confidence);
    let name = chars_of(expected_name);
    let (a, b) = trim_bounds(name.as_slice());
    if a == b {
        let rows = all_rejected(candidates, NameWhy::BlankName);
        return (result, MatchTrail { rule: CONTAINS_RULE, relaxed: false, candidates: rows });
    }
    let strict = matcher.strict();
    let min = min_confidence.key;
    let terms = strict.term_chars(expected_name);
    proof {
        assert(terms@.map_values(|v: Vec<char>| v@) =~= accepted_terms(strict.entries(), expected_name@));
    }
    let (blocked, unique) = strict_facts(strict, candidates, min, &terms);
    let fall_back = match blocked {
        Some(Blocked::NoExactMatch) => true,
        _ => false,
    };
    if !fall_back {
        let rows = strict_rows(strict, candidates, min, &terms, blocked, unique);
        return (result, MatchTrail { rule: CONTAINS_RULE, relaxed: false, candidates: rows });
    }
    let tn = chars_of(string_of(name.as_slice(), a, b).as_str());
    let (outcome, hits) = relaxed_facts(strict, candidates, min, tn.as_slice());
    let rows = relaxed_rows(strict, candidates, min, tn.as_slice(), outcome, hits);
    (result, MatchTrail { rule: CONTAINS_RULE, relaxed: true, candidates: rows })
}

// ---------------------------------------------------------------------------
// The verdicts in words
// ---------------------------------------------------------------------------

/// `「term」`.
pub open spec fn quoted(t: Seq<char>) -> Seq<char> {
    "「"@ + t + "」"@
}

/// Why a candidate was kept or dropped, in words. `c` are the candidates,
/// `terms` the accepted spellings (the name, then its aliases), `name` the
/// target name, `sep` the refusal distance; `shown_confidence` and
/// `shown_threshold` are how the candidate's confidence and the minimum read.
pub open spec fn name_reason_text(
    w: NameWhy,
    c: Seq<TextBoxView>,
    terms: Seq<Seq<char>>,
    name: Seq<char>,
    sep: i32,
    shown_confidence: Seq<char>,
    shown_threshold: Seq<char>,
) -> Seq<char> {
    let n = trim(name);
    match w {
        NameWhy::BlankName => "目标名称为空，没有进入判定"@,
        NameWhy::BelowThreshold => "置信度 "@ + shown_confidence + " 低于阈值 "@ + shown_threshold + "，没参与判定"@,
        NameWhy::EmptyBox => "文字框的宽或高为 0，点了也不知道点在哪"@,
        NameWhy::Crowded { other } => "与"@ + quoted(trim(c[other as int].text)) + "近到分不开（中心距离小于 "@
            + signed_decimal(sep as int) + " px），这一帧无法确定点哪个"@,
        NameWhy::Crowding { hit } => "与命中的那一块"@ + quoted(trim(c[hit as int].text)) + "近到分不开（中心距离小于 "@
            + signed_decimal(sep as int) + " px），所以这一帧谁也点不得"@,
        NameWhy::NotExact => "文字与"@ + quoted(n) + "不逐字相等（本判据不做包含、不做相似匹配）"@,
        NameWhy::ExactUnique { term } => "逐字等于"@ + quoted(terms[term as int]) + "，是本次唯一的精确匹配"@,
        NameWhy::ExactDuplicate { term, count } => "逐字等于"@ + quoted(terms[term as int]) + "，但一共有 "@
            + decimal(count as nat) + " 个都逐字相等 → 拒绝猜测"@,
        NameWhy::ExactEmptyBox { term } => "逐字等于"@ + quoted(terms[term as int])
            + "，但文字框的宽或高为 0，点了也不知道点在哪"@,
        NameWhy::ExactNotChosen { term } => "逐字等于"@ + quoted(terms[term as int]) + "，但不是这一帧选中的那一块"@,
        NameWhy::NoContainment => "文字里没有"@ + quoted(n) + "（精确匹配落空后已放宽到包含匹配，仍然不认它）"@,
        NameWhy::OnlyHit => "文字里包含"@ + quoted(n) + "，是这一帧唯一的包含命中"@,
        NameWhy::Shortest { hits, shortest } => "文字里包含"@ + quoted(n) + "，并且在 "@ + decimal(hits as nat)
            + " 个命中里是最短的一行（"@ + decimal(shortest as nat) + " 字）"@,
        NameWhy::Longer { len, shortest } => "文字里包含"@ + quoted(n) + "，但比最短的那一行长（"@ + decimal(len as nat)
            + " 字 > "@ + decimal(shortest as nat) + " 字）"@,
        NameWhy::TiedShortest { shortest } => "文字里包含"@ + quoted(n) + "，且最短的几个一样长（"@ + decimal(
            shortest as nat,
        ) + " 字）→ 无法确定点哪个"@,
        NameWhy::HitUnusable => "文字里包含"@ + quoted(n) + "，但这块本身有问题，这一帧没能定下点击目标"@,
        NameWhy::NoHit => "这一帧没有任何包含命中"@,
    }
}

fn push_quoted(out: &mut String, t: &str)
    ensures
        final(out)@ == old(out)@ + quoted(t@),
{
    push_str(out, "「");
    push_str(out, t);
    push_str(out, "」");
}

/// The verdict `verdict` of a match of `expected_name` with `matcher` among
/// `candidates`, in words (see [`name_reason_text`]).
pub fn name_reason(
    matcher: &StrictContactMatcher,
    expected_name: &str,
    candidates: &[TextBox],
    verdict: &NameVerdict,
    shown_confidence: &str,
    shown_threshold: &str,
) -> (r: String)
    requires
        name_why_fits(
            verdict.why,
            candidates@.len() as int,
            accepted_terms(matcher.entries(), expected_name@).len() as int,
        ),
    ensures
        r@ == name_reason_text(
            verdict.why,
            boxes_view(candidates@),
            accepted_terms(matcher.entries(), expected_name@),
            expected_name@,
            matcher.min_separation_px,
            shown_confidence@,
            shown_threshold@,
        ),
{
    let ghost c = boxes_view(candidates@);
    let name = trimmed(expected_name);
    let sep = matcher.min_separation_px;
    let terms = matcher.term_chars(expected_name);
    let mut r = String::new();
    match verdict.why {
        NameWhy::BlankName => push_str(&mut r, "目标名称为空，没有进入判定"),
        NameWhy::BelowThreshold => {
            push_str(&mut r, "置信度 ");
            push_str(&mut r, shown_confidence);
            push_str(&mut r, " 低于阈值 ");
            push_str(&mut r, shown_threshold);
            push_str(&mut r, "，没参与判定");
        },
        NameWhy::EmptyBox => push_str(&mut r, "文字框的宽或高为 0，点了也不知道点在哪"),
        NameWhy::Crowded { other } => {
            assert(c[other as int] == candidates@[other as int]@);
            let t = trimmed(candidates[other].text.as_str());
            push_str(&mut r, "与");
            push_quoted(&mut r, t.as_str());
            push_str(&mut r, "近到分不开（中心距离小于 ");
            push_signed(&mut r, sep);
            push_str(&mut r, " px），这一帧无法确定点哪个");
        },
        NameWhy::Crowding { hit } => {
            assert(c[hit as int] == candidates@[hit as int]@);
            let t = trimmed(candidates[hit].text.as_str());
            push_str(&mut r, "与命中的那一块");
            push_quoted(&mut r, t.as_str());
            push_str(&mut r, "近到分不开（中心距离小于 ");
            push_signed(&mut r, sep);
            push_str(&mut r, " px），所以这一帧谁也点不得");
        },
        NameWhy::NotExact => {
            push_str(&mut r, "文字与");
            push_quoted(&mut r, name.as_str());
            push_str(&mut r, "不逐字相等（本判据不做包含、不做相似匹配）");
        },
        NameWhy::ExactUnique { term } => {
            let t = string_of(terms[term].as_slice(), 0, terms[term].len());
            assert(terms[term as int]@.subrange(0, terms[term as int]@.len() as int) =~= terms[term as int]@);
            push_str(&mut r, "逐字等于");
            push_quoted(&mut r, t.as_str());
            push_str(&mut r, "，是本次唯一的精确匹配");
        },
        NameWhy::ExactDuplicate { term, count } => {
            let t = string_of(terms[term].as_slice(), 0, terms[term].len());
            assert(terms[term as int]@.subrange(0, terms[term as int]@.len() as int) =~= terms[term as int]@);
            push_str(&mut r, "逐字等于");
            push_quoted(&mut r, t.as_str());
            push_str(&mut r, "，但一共有 ");
            push_decimal(&mut r, count);
            push_str(&mut r, " 个都逐字相等 → 拒绝猜测");
        },
        NameWhy::ExactEmptyBox { term } => {
            let t = string_of(terms[term].as_slice(), 0, terms[term].len());
            assert(terms[term as int]@.subrange(0, terms[term as int]@.len() as int) =~= terms[term as int]@);
            push_str(&mut r, "逐字等于");
            push_quoted(&mut r, t.as_str());
            push_str(&mut r, "，但文字框的宽或高为 0，点了也不知道点在哪");
        },
        NameWhy::ExactNotChosen { term } => {
            let t = string_of(terms[term].as_slice(), 0, terms[term].len());
            assert(terms[term as int]@.subrange(0, terms[term as int]@.len() as int) =~= terms[term as int]@);
            push_str(&mut r, "逐字等于");
            push_quoted(&mut r, t.as_str());
            push_str(&mut r, "，但不是这一帧选中的那一块");
        },
        NameWhy::NoContainment => {
            push_str(&mut r, "文字里没有");
            push_quoted(&mut r, name.as_str());
            push_str(&mut r, "（精确匹配落空后已放宽到包含匹配，仍然不认它）");
        },
        NameWhy::OnlyHit => {
            push_str(&mut r, "文字里包含");
            push_quoted(&mut r, name.as_str());
            push_str(&mut r, "，是这一帧唯一的包含命中");
        },
        NameWhy::Shortest { hits, shortest } => {
            push_str(&mut r, "文字里包含");
            push_quoted(&mut r, name.as_str());
            push_str(&mut r, "，并且在 ");
            push_decimal(&mut r, hits);
            push_str(&mut r, " 个命中里是最短的一行（");
            push_decimal(&mut r, shortest);
            push_str(&mut r, " 字）");
        },
        NameWhy::Longer { len, shortest } => {
            push_str(&mut r, "文字里包含");
            push_quoted(&mut r, name.as_str());
            push_str(&mut r, "，但比最短的那一行长（");
            push_decimal(&mut r, len);
            push_str(&mut r, " 字 > ");
            push_decimal(&mut r, shortest);
            push_str(&mut r, " 字）");
        },
        NameWhy::TiedShortest { shortest } => {
            push_str(&mut r, "文字里包含");
            push_quoted(&mut r, name.as_str());
            push_str(&mut r, "，且最短的几个一样长（");
            push_decimal(&mut r, shortest);
            push_str(&mut r, " 字）→ 无法确定点哪个");
        },
        NameWhy::HitUnusable => {
            push_str(&mut r, "文字里包含");
            push_quoted(&mut r, name.as_str());
            push_str(&mut r, "，但这块本身有问题，这一帧没能定下点击目标");
        },
        NameWhy::NoHit => push_str(&mut r, "这一帧没有任何包含命中"),
    }
    proof {
        assert(r@ =~= name_reason_text(
            verdict.why,
            c,
            accepted_terms(matcher.entries(), expected_name@),
            expected_name@,
            sep,
            shown_confidence@,
            shown_threshold@,
        ));
    }
    r
}

// ---------------------------------------------------------------------------
// The trail agrees with the conclusion
// ---------------------------------------------------------------------------

proof fn lemma_confirm_agrees(c: Seq<TextBoxView>, min: u32, h: int, sep: i32)
    requires
        0 <= h < c.len(),
    ensures
        confirm_blocked(c, min, h, sep) is None <==> confirm_outcome(c, min, h, sep) is Ok,
        confirm_outcome(c, min, h, sep) is Ok ==> confirm_outcome(c, min, h, sep) == Ok::<TextBoxView, ErrorView>(c[h]),
{
    let p = crowd_pred(c, min, h, sep);
    lemma_first(p, c.len() as int);
    if has_close_neighbour(c, min, h, sep) {
        let j = choose|j: int|
            0 <= j < c.len() && j != h && c[j].confidence >= min && #[trigger] centers_close(c[j].bounds, c[h].bounds, sep);
        assert(p(j));
    }
}

/// The strict trail passes exactly the selected candidate: a row passes if and
/// only if the rule selected a candidate and it is that row's.
pub proof fn lemma_strict_trail_passes_only_the_selection(
    c: Seq<TextBoxView>,
    min: u32,
    shown: Seq<char>,
    entries: Seq<(Seq<char>, Seq<Seq<char>>)>,
    name: Seq<char>,
    sep: i32,
    i: int,
)
    requires
        trim(name).len() > 0,
        0 <= i < c.len(),
    ensures
        name_passes(strict_why(c, min, accepted_terms(entries, name), sep, i)) <==> strict_outcome(
            c,
            min,
            shown,
            entries,
            name,
            sep,
        ) == Ok::<TextBoxView, ErrorView>(c[i]) && i == strict_unique(c, min, accepted_terms(entries, name)),
        strict_outcome(c, min, shown, entries, name, sep) is Ok ==> strict_outcome(c, min, shown, entries, name, sep)
            == Ok::<TextBoxView, ErrorView>(c[strict_unique(c, min, accepted_terms(entries, name))]),
{
    let terms = accepted_terms(entries, name);
    let ep = exact_pred(c, min, terms);
    let n = count_where(ep, c.len() as int);
    lemma_count_zero(acc_pred(c, min), c.len() as int);
    lemma_count_zero(ep, c.len() as int);
    if count_where(acc_pred(c, min), c.len() as int) > 0 && n == 1 {
        lemma_count_one(ep, c.len() as int);
        let h = first_where(ep, c.len() as int);
        lemma_confirm_agrees(c, min, h, sep);
        assert(ep(i) <==> i == h);
    }
}

/// The candidate the relaxed layer selected, or `-1`.
pub open spec fn relaxed_pick(o: Relaxed) -> int {
    match o {
        Relaxed::Selected(k) => k as int,
        Relaxed::Shortest { picked, .. } => picked as int,
        _ => -1,
    }
}

/// The relaxed trail, once the containment rule has taken over, passes exactly
/// the selected candidate too.
pub proof fn lemma_relaxed_trail_passes_only_the_selection(
    c: Seq<TextBoxView>,
    min: u32,
    shown: Seq<char>,
    entries: Seq<(Seq<char>, Seq<Seq<char>>)>,
    name: Seq<char>,
    sep: i32,
    i: int,
)
    requires
        trim(name).len() > 0,
        strict_blocked(c, min, accepted_terms(entries, name), sep) matches Some(Blocked::NoExactMatch),
        0 <= i < c.len() <= usize::MAX,
    ensures
        name_passes(relaxed_why(c, min, trim(name), sep, i)) <==> relaxed_outcome(c, min, shown, entries, name, sep)
            == Ok::<TextBoxView, ErrorView>(c[i]) && i == relaxed_pick(relaxed_eval(c, min, trim(name), sep)),
{
    let terms = accepted_terms(entries, name);
    let nm = trim(name);
    let hp = hit_pred(c, min, nm);
    let h = count_where(hp, c.len() as int);
    let s = min_len_where(hp, trimmed_len(c), c.len() as int);
    let tp = tie_pred(c, min, nm, s);
    lemma_count_zero(acc_pred(c, min), c.len() as int);
    lemma_count_zero(exact_pred(c, min, terms), c.len() as int);
    lemma_count_zero(hp, c.len() as int);
    lemma_min_len(hp, trimmed_len(c), c.len() as int);
    assert(strict_outcome(c, min, shown, entries, name, sep) is Err);
    assert(!(strict_outcome(c, min, shown, entries, name, sep) matches Err(ErrorView::AmbiguousVision(_))));
    let o = relaxed_eval(c, min, nm, sep);
    let w = relaxed_why(c, min, nm, sep, i);
    let ro = relaxed_outcome(c, min, shown, entries, name, sep);
    if h == 0 {
        assert(o is NoHit);
        assert(!name_passes(w));
    } else if h == 1 {
        lemma_count_one(hp, c.len() as int);
        let k = first_where(hp, c.len() as int);
        lemma_confirm_agrees(c, min, k, sep);
        assert(ro == confirm_outcome(c, min, k, sep));
        if confirm_blocked(c, min, k, sep) is None {
            assert(o == Relaxed::Selected(k as usize));
            assert(relaxed_pick(o) == k);
            assert(name_passes(w) <==> hp(i));
        } else {
            assert(o is Blocked);
            assert(!name_passes(w));
        }
    } else if count_where(tp, c.len() as int) >= 2 {
        assert(o is Tie);
        assert(!name_passes(w));
    } else {
        let x = choose|j: int| 0 <= j < c.len() && #[trigger] hp(j) && trimmed_len(c)(j) == s;
        assert(tp(x));
        lemma_count_zero(tp, c.len() as int);
        lemma_count_one(tp, c.len() as int);
        let f = first_where(tp, c.len() as int);
        lemma_confirm_agrees(c, min, f, sep);
        assert(ro == confirm_outcome(c, min, f, sep));
        if confirm_blocked(c, min, f, sep) is None {
            assert(relaxed_pick(o) == f);
            assert(hp(f));
            assert(name_passes(w) <==> i == f);
        } else {
            assert(o is Blocked);
            assert(!name_passes(w));
        }
    }
}

} // verus!
