//! Squeezes the text read from one frame into **one line**, to answer later
//! "what did the recognition actually read".
//!
//! At most [`OCR_LOG_MAX_BLOCKS`] blocks and [`OCR_LOG_MAX_CHARS`] characters
//! are written; a cut is always marked (with `…`, or with a count of the blocks
//! left out), never silent.

use vstd::prelude::*;
use crate::ports::{boxes_view, TextBox, TextBoxView};
use crate::text::{chars_of, decimal, push_char, push_decimal, push_str, trim, trim_bounds};

verus! {

/// At most this many blocks of one frame are listed.
pub const OCR_LOG_MAX_BLOCKS: usize = 24;
/// At most this many characters of one frame are listed.
pub const OCR_LOG_MAX_CHARS: usize = 600;

/// `s` with each line feed written as the two characters `\n`.
pub open spec fn escape_newlines(s: Seq<char>) -> Seq<char>
    decreases s.len(),
{
    if s.len() == 0 {
        s
    } else {
        escape_newlines(s.drop_last()) + if s.last() == '\n' {
            seq!['\\', 'n']
        } else {
            seq![s.last()]
        }
    }
}

/// `parts` joined with `sep` between consecutive parts.
pub open spec fn join(parts: Seq<Seq<char>>, sep: Seq<char>) -> Seq<char>
    decreases parts.len(),
{
    if parts.len() == 0 {
        Seq::empty()
    } else if parts.len() == 1 {
        parts[0]
    } else {
        join(parts.drop_last(), sep) + sep + parts.last()
    }
}

/// The listed parts for the blocks `t[i..limit]`, given `used` characters already listed.
pub open spec fn listed_parts(t: Seq<Seq<char>>, i: int, limit: int, used: int, acc: Seq<Seq<char>>) -> Seq<Seq<char>>
    decreases limit - i,
{
    if i >= limit {
        acc
    } else {
        let x = escape_newlines(trim(t[i]));
        if trim(t[i]).len() == 0 {
            listed_parts(t, i + 1, limit, used, acc)
        } else if used + x.len() > OCR_LOG_MAX_CHARS {
            acc.push("…"@)
        } else {
            listed_parts(t, i + 1, limit, used + x.len(), acc.push(x))
        }
    }
}

/// The count note appended when more blocks were read than listed.
pub open spec fn overflow_note(n: nat) -> Seq<char> {
    "（共 "@ + decimal(n) + " 块，只列前 "@ + decimal(OCR_LOG_MAX_BLOCKS as nat) + "）"@
}

/// The one-line description of a frame's text blocks.
pub open spec fn described(c: Seq<TextBoxView>) -> Seq<char> {
    let t = c.map_values(|b: TextBoxView| b.text);
    let limit = if c.len() < OCR_LOG_MAX_BLOCKS { c.len() as int } else { OCR_LOG_MAX_BLOCKS as int };
    let parts = listed_parts(t, 0, limit, 0, Seq::empty());
    join(
        if c.len() > OCR_LOG_MAX_BLOCKS {
            parts.push(overflow_note(c.len()))
        } else {
            parts
        },
        " / "@,
    )
}

/// `v[a..b]` with each line feed written as `\n`, as a string.
fn escaped(v: &[char], a: usize, b: usize) -> (s: String)
    requires
        a <= b <= v@.len(),
    ensures
        s@ == escape_newlines(v@.subrange(a as int, b as int)),
{
    let mut s = String::new();
    let mut i = a;
    while i < b
        invariant
            a <= i <= b <= v@.len(),
            s@ == escape_newlines(v@.subrange(a as int, i as int)),
        decreases b - i,
    {
        let c = v[i];
        proof {
            let w = v@.subrange(a as int, i + 1);
            assert(w.drop_last() =~= v@.subrange(a as int, i as int));
            assert(w.last() == c);
        }
        if c == '\n' {
            push_char(&mut s, '\\');
            push_char(&mut s, 'n');
        } else {
            push_char(&mut s, c);
        }
        i = i + 1;
        proof {
            let w = v@.subrange(a as int, i as int);
            assert(s@ =~= escape_newlines(w.drop_last()) + if w.last() == '\n' {
                seq!['\\', 'n']
            } else {
                seq![w.last()]
            });
        }
    }
    s
}

/// Joins `parts` with `sep`.
pub fn join_strings(parts: &Vec<String>, sep: &str) -> (s: String)
    ensures
        s@ == join(parts@.map_values(|p: String| p@), sep@),
{
    let ghost pv = parts@.map_values(|p: String| p@);
    let mut s = String::new();
    let mut i: usize = 0;
    while i < parts.len()
        invariant
            pv == parts@.map_values(|p: String| p@),
            i <= parts@.len(),
            s@ == join(pv.take(i as int), sep@),
        decreases parts@.len() - i,
    {
        proof {
            assert(pv.take(i + 1).drop_last() =~= pv.take(i as int));
        }
        if i > 0 {
            push_str(&mut s, sep);
        }
        push_str(&mut s, parts[i].as_str());
        i = i + 1;
        proof {
            if i == 1 {
                assert(pv.take(1) =~= seq![pv[0]]);
            }
        }
    }
    assert(pv.take(parts@.len() as int) =~= pv);
    s
}

/// Puts one frame's recognised text on a single line (see the module documentation).
pub fn describe_candidates(candidates: &[TextBox]) -> (s: String)
    ensures
        s@ == described(boxes_view(candidates@)),
{
    let ghost c = boxes_view(candidates@);
    let ghost t = c.map_values(|b: TextBoxView| b.text);
    let n = candidates.len();
    let limit = if n < OCR_LOG_MAX_BLOCKS { n } else { OCR_LOG_MAX_BLOCKS };
    let mut parts: Vec<String> = Vec::new();
    let mut used: usize = 0;
    let mut i: usize = 0;
    let mut cut = false;
    assert(parts@.map_values(|p: String| p@) =~= Seq::<Seq<char>>::empty());
    while i < limit && !cut
        invariant
            n == candidates@.len() == c.len() == t.len(),
            c == boxes_view(candidates@),
            t == c.map_values(|b: TextBoxView| b.text),
            limit <= n,
            limit <= OCR_LOG_MAX_BLOCKS,
            i <= limit,
            used <= OCR_LOG_MAX_CHARS,
            !cut ==> listed_parts(t, 0, limit as int, 0, Seq::empty()) == listed_parts(
                t,
                i as int,
                limit as int,
                used as int,
                parts@.map_values(|p: String| p@),
            ),
            cut ==> listed_parts(t, 0, limit as int, 0, Seq::empty()) == parts@.map_values(
                |p: String| p@,
            ),
        decreases limit - i, (if cut { 0int } else { 1int }),
    {
        let text = chars_of(candidates[i].text.as_str());
        assert(t[i as int] == text@);
        let (a, b) = trim_bounds(text.as_slice());
        if a < b {
            let x = escaped(text.as_slice(), a, b);
            let len = x.as_str().unicode_len();
            if len > OCR_LOG_MAX_CHARS - used {
                let ghost before = parts@.map_values(|p: String| p@);
                parts.push(String::from_str("…"));
                proof {
                    assert(parts@.map_values(|p: String| p@) =~= before.push("…"@));
                }
                cut = true;
            } else {
                let ghost before = parts@.map_values(|p: String| p@);
                parts.push(x);
                used = used + len;
                i = i + 1;
                proof {
                    assert(parts@.map_values(|p: String| p@) =~= before.push(escape_newlines(trim(t[(i - 1) as int]))));
                }
            }
        } else {
            i = i + 1;
        }
    }
    proof {
        if !cut {
            assert(i >= limit);
        }
        assert(listed_parts(t, 0, limit as int, 0, Seq::empty()) == parts@.map_values(|p: String| p@));
    }
    if n > OCR_LOG_MAX_BLOCKS {
        let ghost before = parts@.map_values(|p: String| p@);
        let mut note = String::from_str("（共 ");
        push_decimal(&mut note, n);
        push_str(&mut note, " 块，只列前 ");
        push_decimal(&mut note, OCR_LOG_MAX_BLOCKS);
        push_str(&mut note, "）");
        parts.push(note);
        proof {
            assert(parts@.map_values(|p: String| p@) =~= before.push(overflow_note(n as nat)));
        }
    }
    join_strings(&parts, " / ")
}

} // verus!
