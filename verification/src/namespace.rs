//! Splitting and joining of full article titles.
//!
//! A full title may carry a namespace before a colon (`Talk:Page`). The
//! split here is the pure half of resolving one: it trims the title and
//! hands back the candidate namespace name and the rest, both trimmed;
//! whether the candidate names a real namespace is the store's business,
//! and a caller that finds it does not falls back to the whole trimmed
//! title.

use vstd::prelude::*;
use crate::text::{is_ws, lemma_trim_end_len, lemma_trim_start_len, trim_end_len, trim_end_pos,
    trim_start_len, trim_start_pos};

verus! {

/// Index of the first colon of `s`, if any.
pub open spec fn find_colon(s: Seq<char>) -> Option<int>
    decreases s.len(),
{
    if s.len() == 0 {
        Option::None
    } else if s[0] == ':' {
        Option::Some(0)
    } else {
        match find_colon(s.drop_first()) {
            Option::Some(j) => Option::Some(j + 1),
            Option::None => Option::None,
        }
    }
}

/// A found colon is the sequence's first one; a miss means there is none.
pub proof fn lemma_find_colon_chars(s: Seq<char>)
    ensures
        (match find_colon(s) {
            Option::Some(p) => 0 <= p < s.len() && s[p] == ':' && (forall|k: int|
                0 <= k < p ==> s[k] != ':'),
            Option::None => (forall|k: int| 0 <= k < s.len() ==> s[k] != ':'),
        }),
    decreases s.len(),
{
    if s.len() == 0 {
    } else if s[0] == ':' {
    } else {
        lemma_find_colon_chars(s.drop_first());
        match find_colon(s.drop_first()) {
            Option::Some(j) => {
                assert forall|k: int| 0 <= k < j + 1 implies s[k] != ':' by {
                    if k > 0 {
                        assert(s.drop_first()[k - 1] == s[k]);
                    }
                }
            },
            Option::None => {
                assert forall|k: int| 0 <= k < s.len() implies s[k] != ':' by {
                    if k > 0 {
                        assert(s.drop_first()[k - 1] == s[k]);
                    }
                }
            },
        }
    }
}

/// `s` with whitespace trimmed from both ends, leading whitespace first.
pub open spec fn trimmed_title(s: Seq<char>) -> Seq<char> {
    let t = s.skip(trim_start_len(s));
    t.subrange(0, trim_end_len(t))
}

/// Trims whitespace from both ends of `s`.
pub fn trim_both(s: &str) -> (r: &str)
    ensures
        r@ == trimmed_title(s@),
{
    let n = s.unicode_len();
    let b = trim_start_pos(s);
    proof {
        lemma_trim_start_len(s@);
    }
    let t = s.substring_char(b, n);
    let e = trim_end_pos(t);
    proof {
        lemma_trim_end_len(t@);
    }
    t.substring_char(0, e)
}

/// Splits a full title at its first colon: the trimmed candidate namespace
/// name and the trimmed rest, or nothing where the trimmed title holds no
/// colon.
pub fn split_full_title(full_title: &str) -> (r: Option<(String, String)>)
    ensures
        (match find_colon(trimmed_title(full_title@)) {
            Option::Some(p) => {
                let t = trimmed_title(full_title@);
                (r matches Option::Some(parts) && parts.0@ == trimmed_title(t.subrange(0, p))
                    && parts.1@ == trimmed_title(t.skip(p + 1)))
            },
            Option::None => r is None,
        }),
{
    let t = trim_both(full_title);
    let n = t.unicode_len();
    let mut i: usize = 0;
    while i < n
        invariant
            i <= n,
            n == t@.len(),
            t@ == trimmed_title(full_title@),
            forall|k: int| 0 <= k < i ==> t@[k] != ':',
        decreases n - i,
    {
        if t.get_char(i) == ':' {
            proof {
                lemma_find_colon_chars(t@);
                assert(find_colon(t@) == Option::Some(i as int));
                assert(t@.skip(i + 1) =~= t@.subrange(i + 1, n as int));
            }
            let first = trim_both(t.substring_char(0, i));
            let second = trim_both(t.substring_char(i + 1, n));
            return Some((first.to_owned(), second.to_owned()));
        }
        i = i + 1;
    }
    proof {
        lemma_find_colon_chars(t@);
    }
    None
}

/// Joins a namespace name and a title into a full title.
pub fn join_full_title(namespace_name: &str, title: &str) -> (r: String)
    ensures
        r@ == namespace_name@ + ":"@ + title@,
{
    let mut r = namespace_name.to_owned();
    r.append(":");
    r.append(title);
    proof {
        assert(r@ =~= namespace_name@ + ":"@ + title@);
    }
    r
}

} // verus!
