//! A line-based heading renderer.
//!
//! Each line framed by runs of `=` becomes a heading whose level is the
//! shorter run's length, capped at six; excess markers stay as literal text
//! attached to the content. Lines without such framing pass through, with
//! trailing whitespace trimmed.

use vstd::prelude::*;
use crate::text::{dec_digits, is_ws, is_ws_char, lemma_trim_end_len, lemma_trim_start_len,
    push_decimal, trim_end_len, trim_end_pos, trim_start_len, trim_start_pos};

verus! {

/// `s` with whitespace trimmed from both ends.
pub open spec fn trimmed(s: Seq<char>) -> Seq<char> {
    let t = s.subrange(0, trim_end_len(s));
    t.subrange(trim_start_len(t), t.len() as int)
}

/// Count of leading `=` characters of `s`.
pub open spec fn count_prefix_eq(s: Seq<char>) -> int
    decreases s.len(),
{
    if s.len() > 0 && s[0] == '=' {
        1 + count_prefix_eq(s.drop_first())
    } else {
        0
    }
}

/// Count of trailing `=` characters of `s`.
pub open spec fn count_suffix_eq(s: Seq<char>) -> int
    decreases s.len(),
{
    if s.len() > 0 && s[s.len() - 1] == '=' {
        1 + count_suffix_eq(s.drop_last())
    } else {
        0
    }
}

/// The marker counts never exceed the length.
pub proof fn lemma_count_eq_len(s: Seq<char>)
    ensures
        0 <= count_prefix_eq(s) <= s.len(),
        0 <= count_suffix_eq(s) <= s.len(),
    decreases s.len(),
{
    if s.len() > 0 {
        if s[0] == '=' {
            lemma_count_eq_len(s.drop_first());
        }
        if s[s.len() - 1] == '=' {
            lemma_count_eq_len(s.drop_last());
        }
    }
}

/// The heading level of a trimmed line: the shorter of its leading and
/// trailing `=` runs, capped at six; zero where either run is missing.
pub open spec fn heading_level(t: Seq<char>) -> int {
    if t.len() == 0 {
        0
    } else {
        let p = count_prefix_eq(t);
        let s = count_suffix_eq(t);
        if p == 0 || s == 0 {
            0
        } else {
            let m = if p < s {
                p
            } else {
                s
            };
            if m > 6 {
                6
            } else {
                m
            }
        }
    }
}

/// A line whose framing would reach past its own middle (a short run of
/// nothing but `=`) has no rendering; every other line is safe.
pub open spec fn safe_line(line: Seq<char>) -> bool {
    let t = line.subrange(0, trim_end_len(line));
    t.len() >= 2 * heading_level(t)
}

/// Rendering of one line: a heading at its level, its content trimmed, or
/// the end-trimmed line itself where no heading frames it.
pub open spec fn render_heading_line(line: Seq<char>) -> Seq<char> {
    let t = line.subrange(0, trim_end_len(line));
    let lv = heading_level(t);
    if lv == 0 {
        t
    } else {
        "<h"@ + dec_digits(lv as nat) + ">"@ + trimmed(t.subrange(lv, t.len() - lv)) + "</h"@
            + dec_digits(lv as nat) + ">"@
    }
}

/// Index of the first newline of `s`, if any.
pub open spec fn find_nl(s: Seq<char>) -> Option<int>
    decreases s.len(),
{
    if s.len() == 0 {
        Option::None
    } else if s[0] == '\n' {
        Option::Some(0)
    } else {
        match find_nl(s.drop_first()) {
            Option::Some(j) => Option::Some(j + 1),
            Option::None => Option::None,
        }
    }
}

/// A found newline is the sequence's first one; a miss means there is none.
pub proof fn lemma_find_nl_chars(s: Seq<char>)
    ensures
        (match find_nl(s) {
            Option::Some(p) => 0 <= p < s.len() && s[p] == '\n' && (forall|k: int|
                0 <= k < p ==> s[k] != '\n'),
            Option::None => (forall|k: int| 0 <= k < s.len() ==> s[k] != '\n'),
        }),
    decreases s.len(),
{
    if s.len() == 0 {
    } else if s[0] == '\n' {
    } else {
        lemma_find_nl_chars(s.drop_first());
        match find_nl(s.drop_first()) {
            Option::Some(j) => {
                assert forall|k: int| 0 <= k < j + 1 implies s[k] != '\n' by {
                    if k > 0 {
                        assert(s.drop_first()[k - 1] == s[k]);
                    }
                }
            },
            Option::None => {
                assert forall|k: int| 0 <= k < s.len() implies s[k] != '\n' by {
                    if k > 0 {
                        assert(s.drop_first()[k - 1] == s[k]);
                    }
                }
            },
        }
    }
}

/// Whether every line of `s` is safe to render.
pub open spec fn lines_safe(s: Seq<char>) -> bool
    decreases s.len(),
    via lines_safe_decreases
{
    match find_nl(s) {
        Option::None => safe_line(s),
        Option::Some(j) => safe_line(s.subrange(0, j)) && lines_safe(s.skip(j + 1)),
    }
}

#[via_fn]
proof fn lines_safe_decreases(s: Seq<char>) {
    lemma_find_nl_chars(s);
}

/// Rendering of a whole text: each line rendered, newline-joined.
pub open spec fn spec_render_headings(s: Seq<char>) -> Seq<char>
    decreases s.len(),
    via spec_render_headings_decreases
{
    match find_nl(s) {
        Option::None => render_heading_line(s),
        Option::Some(j) => render_heading_line(s.subrange(0, j)) + "\n"@ + spec_render_headings(
            s.skip(j + 1),
        ),
    }
}

#[via_fn]
proof fn spec_render_headings_decreases(s: Seq<char>) {
    lemma_find_nl_chars(s);
}

/// Count of `s`'s leading `=` characters.
fn count_prefix(s: &str) -> (p: usize)
    ensures
        p as int == count_prefix_eq(s@),
{
    let n = s.unicode_len();
    let mut p: usize = 0;
    proof {
        assert(s@.skip(0) =~= s@);
    }
    while p < n && s.get_char(p) == '='
        invariant
            p <= n,
            n == s@.len(),
            count_prefix_eq(s@) == p + count_prefix_eq(s@.skip(p as int)),
        decreases n - p,
    {
        proof {
            assert(s@.skip(p as int)[0] == s@[p as int]);
            assert(s@.skip(p as int).drop_first() =~= s@.skip(p as int + 1));
        }
        p = p + 1;
    }
    proof {
        if p < n {
            assert(s@.skip(p as int)[0] == s@[p as int]);
        }
    }
    p
}

/// Count of `s`'s trailing `=` characters.
fn count_suffix(s: &str) -> (p: usize)
    ensures
        p as int == count_suffix_eq(s@),
{
    let n = s.unicode_len();
    let mut e = n;
    proof {
        assert(s@.subrange(0, e as int) =~= s@);
    }
    while e > 0 && s.get_char(e - 1) == '='
        invariant
            e <= n,
            n == s@.len(),
            count_suffix_eq(s@) == (n - e) + count_suffix_eq(s@.subrange(0, e as int)),
        decreases e,
    {
        proof {
            assert(s@.subrange(0, e as int).drop_last() =~= s@.subrange(0, e as int - 1));
        }
        e = e - 1;
    }
    n - e
}

/// Index of the first newline of `s`, if any.
fn find_first_nl(s: &str) -> (r: Option<usize>)
    ensures
        (match r {
            Option::Some(i) => find_nl(s@) == Option::Some(i as int),
            Option::None => find_nl(s@) is None,
        }),
{
    let n = s.unicode_len();
    let mut i: usize = 0;
    while i < n
        invariant
            i <= n,
            n == s@.len(),
            forall|k: int| 0 <= k < i ==> s@[k] != '\n',
        decreases n - i,
    {
        if s.get_char(i) == '\n' {
            proof {
                lemma_find_nl_chars(s@);
            }
            return Some(i);
        }
        i = i + 1;
    }
    proof {
        lemma_find_nl_chars(s@);
    }
    None
}

/// Renders one line.
fn render_line(line: &str) -> (r: String)
    requires
        safe_line(line@),
    ensures
        r@ == render_heading_line(line@),
{
    let e = trim_end_pos(line);
    proof {
        lemma_trim_end_len(line@);
    }
    let t = line.substring_char(0, e);
    if e == 0 {
        proof {
            assert(render_heading_line(line@) =~= Seq::<char>::empty());
        }
        return String::new();
    }
    let p = count_prefix(t);
    let s = count_suffix(t);
    proof {
        lemma_count_eq_len(t@);
    }
    if p == 0 || s == 0 {
        return t.to_owned();
    }
    let m = if p < s {
        p
    } else {
        s
    };
    let lv = if m > 6 {
        6
    } else {
        m
    };
    proof {
        assert(lv as int == heading_level(t@));
    }
    let content = t.substring_char(lv, e - lv);
    let ce = trim_end_pos(content);
    proof {
        lemma_trim_end_len(content@);
    }
    let c1 = content.substring_char(0, ce);
    let cb = trim_start_pos(c1);
    proof {
        lemma_trim_start_len(c1@);
    }
    let c2 = c1.substring_char(cb, ce);
    let mut r = String::from_str("<h");
    push_decimal(&mut r, lv as u64);
    r.append(">");
    r.append(c2);
    r.append("</h");
    push_decimal(&mut r, lv as u64);
    r.append(">");
    proof {
        assert(trimmed(t@.subrange(lv as int, t@.len() - lv)) =~= c2@);
        assert(r@ =~= render_heading_line(line@));
    }
    r
}

/// Renders a text line by line: heading-framed lines become headings,
/// every other line passes through with its trailing whitespace trimmed.
pub fn render(input: &str) -> (r: String)
    requires
        lines_safe(input@),
    ensures
        r@ == spec_render_headings(input@),
{
    let mut out = String::new();
    let mut rest: &str = input;
    proof {
        assert(out@ + spec_render_headings(rest@) =~= spec_render_headings(input@));
    }
    loop
        invariant_except_break
            lines_safe(rest@),
            spec_render_headings(input@) == out@ + spec_render_headings(rest@),
        ensures
            out@ == spec_render_headings(input@),
        decreases rest@.len(),
    {
        match find_first_nl(rest) {
            Some(j) => {
                proof {
                    lemma_find_nl_chars(rest@);
                }
                let n = rest.unicode_len();
                let line = rest.substring_char(0, j);
                let piece = render_line(line);
                out.append(piece.as_str());
                out.append("\n");
                let next = rest.substring_char(j + 1, n);
                proof {
                    assert(next@ =~= rest@.skip(j + 1));
                    assert(spec_render_headings(input@) =~= out@ + spec_render_headings(next@));
                }
                rest = next;
            },
            None => {
                let piece = render_line(rest);
                out.append(piece.as_str());
                proof {
                    assert(out@ =~= spec_render_headings(input@));
                }
                break;
            },
        }
    }
    out
}

} // verus!
