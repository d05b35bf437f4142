//! Validation of rendered HTML attribute text.
//!
//! A table, row, cell or caption carries its attributes in a channel of its
//! own; what that channel renders to is emitted into the opening tag only
//! when it passes this validator: space-separated attributes, each a name
//! of letters, digits, `-` and `_`, optionally with a double-quoted value,
//! and no name beginning with `on` — so no event-handler attribute can be
//! smuggled into a live tag.

use vstd::prelude::*;

verus! {

/// The characters an attribute name may hold.
pub open spec fn is_name_char(c: char) -> bool {
    ('a' <= c && c <= 'z') || ('A' <= c && c <= 'Z') || ('0' <= c && c <= '9') || c == '-' || c
        == '_'
}

/// Length of the leading run of name characters.
pub open spec fn name_len(s: Seq<char>) -> int
    decreases s.len(),
{
    if s.len() > 0 && is_name_char(s[0]) {
        1 + name_len(s.drop_first())
    } else {
        0
    }
}

/// The name-run length never exceeds the length.
pub proof fn lemma_name_len(s: Seq<char>)
    ensures
        0 <= name_len(s) <= s.len(),
    decreases s.len(),
{
    if s.len() > 0 && is_name_char(s[0]) {
        lemma_name_len(s.drop_first());
    }
}

/// Whether an attribute name is allowed: nonempty and not an event-handler
/// name (one beginning with `on`, in either case).
pub open spec fn name_allowed(name: Seq<char>) -> bool {
    name.len() > 0 && !(name.len() >= 2 && (name[0] == 'o' || name[0] == 'O') && (name[1] == 'n'
        || name[1] == 'N'))
}

/// Index of the first double quote of `s`, if any.
pub open spec fn find_quote(s: Seq<char>) -> Option<int>
    decreases s.len(),
{
    if s.len() == 0 {
        Option::None
    } else if s[0] == '"' {
        Option::Some(0)
    } else {
        match find_quote(s.drop_first()) {
            Option::Some(j) => Option::Some(j + 1),
            Option::None => Option::None,
        }
    }
}

/// A found quote is the sequence's first one; a miss means there is none.
pub proof fn lemma_find_quote_chars(s: Seq<char>)
    ensures
        (match find_quote(s) {
            Option::Some(p) => 0 <= p < s.len() && s[p] == '"' && (forall|k: int|
                0 <= k < p ==> s[k] != '"'),
            Option::None => (forall|k: int| 0 <= k < s.len() ==> s[k] != '"'),
        }),
    decreases s.len(),
{
    if s.len() == 0 {
    } else if s[0] == '"' {
    } else {
        lemma_find_quote_chars(s.drop_first());
        match find_quote(s.drop_first()) {
            Option::Some(j) => {
                assert forall|k: int| 0 <= k < j + 1 implies s[k] != '"' by {
                    if k > 0 {
                        assert(s.drop_first()[k - 1] == s[k]);
                    }
                }
            },
            Option::None => {
                assert forall|k: int| 0 <= k < s.len() implies s[k] != '"' by {
                    if k > 0 {
                        assert(s.drop_first()[k - 1] == s[k]);
                    }
                }
            },
        }
    }
}

/// Whether `s` is a safe run of attributes: spaces, then an allowed name,
/// then what [`attrs_safe_after_name`] accepts.
pub open spec fn attrs_safe(s: Seq<char>) -> bool
    decreases s.len(), 1int,
    via attrs_safe_decreases
{
    if s.len() == 0 {
        true
    } else if s[0] == ' ' {
        attrs_safe(s.drop_first())
    } else if is_name_char(s[0]) {
        name_allowed(s.subrange(0, name_len(s))) && attrs_safe_after_name(s.skip(name_len(s)))
    } else {
        false
    }
}

/// What may follow an attribute name: nothing, a space and more
/// attributes, or `="` a quote-free value `"` and more attributes.
pub open spec fn attrs_safe_after_name(s: Seq<char>) -> bool
    decreases s.len(), 0int,
    via attrs_safe_after_name_decreases
{
    if s.len() == 0 {
        true
    } else if s[0] == ' ' {
        attrs_safe(s.drop_first())
    } else if s[0] == '=' && s.len() >= 2 && s[1] == '"' {
        match find_quote(s.skip(2)) {
            Option::Some(q) => attrs_safe(s.skip(q + 3)),
            Option::None => false,
        }
    } else {
        false
    }
}

#[via_fn]
proof fn attrs_safe_decreases(s: Seq<char>) {
    lemma_name_len(s);
    if s.len() > 0 && is_name_char(s[0]) {
        lemma_name_len(s.drop_first());
        assert(name_len(s) == 1 + name_len(s.drop_first()));
        assert(name_len(s) >= 1);
    }
}

#[via_fn]
proof fn attrs_safe_after_name_decreases(s: Seq<char>) {
    if s.len() >= 2 && s[0] == '=' && s[1] == '"' {
        lemma_find_quote_chars(s.skip(2));
    }
}

/// Whether `c` may stand in an attribute name.
fn is_name_char_exec(c: char) -> (r: bool)
    ensures
        r == is_name_char(c),
{
    ('a' <= c && c <= 'z') || ('A' <= c && c <= 'Z') || ('0' <= c && c <= '9') || c == '-' || c
        == '_'
}

/// Length of `s`'s leading run of name characters.
fn name_prefix_len(s: &str) -> (p: usize)
    ensures
        p as int == name_len(s@),
{
    let n = s.unicode_len();
    let mut p: usize = 0;
    proof {
        assert(s@.skip(0) =~= s@);
    }
    while p < n && is_name_char_exec(s.get_char(p))
        invariant
            p <= n,
            n == s@.len(),
            name_len(s@) == p + name_len(s@.skip(p as int)),
        decreases n - p,
    {
        proof {
            assert(s@.skip(p as int)[0] == s@[p as int]);
            assert(s@.skip(p as int).drop_first() =~= s@.skip(p as int + 1));
        }
        p = p + 1;
    }
    proof {
        if p < n {
            assert(s@.skip(p as int)[0] == s@[p as int]);
        }
    }
    p
}

/// Index of the first double quote of `s`, if any.
fn find_first_quote(s: &str) -> (r: Option<usize>)
    ensures
        (match r {
            Option::Some(i) => find_quote(s@) == Option::Some(i as int),
            Option::None => find_quote(s@) is None,
        }),
{
    let n = s.unicode_len();
    let mut i: usize = 0;
    while i < n
        invariant
            i <= n,
            n == s@.len(),
            forall|k: int| 0 <= k < i ==> s@[k] != '"',
        decreases n - i,
    {
        if s.get_char(i) == '"' {
            proof {
                lemma_find_quote_chars(s@);
            }
            return Some(i);
        }
        i = i + 1;
    }
    proof {
        lemma_find_quote_chars(s@);
    }
    None
}

/// Whether `name` is an allowed attribute name.
fn name_allowed_exec(name: &str) -> (r: bool)
    ensures
        r == name_allowed(name@),
{
    let n = name.unicode_len();
    if n == 0 {
        return false;
    }
    if n >= 2 {
        let c0 = name.get_char(0);
        let c1 = name.get_char(1);
        !((c0 == 'o' || c0 == 'O') && (c1 == 'n' || c1 == 'N'))
    } else {
        true
    }
}

/// Whether `s` is a safe run of attributes.
pub fn attrs_safe_exec(s: &str) -> (r: bool)
    ensures
        r == attrs_safe(s@),
    decreases s@.len(), 1int,
{
    let n = s.unicode_len();
    if n == 0 {
        return true;
    }
    let c0 = s.get_char(0);
    if c0 == ' ' {
        let rest = s.substring_char(1, n);
        proof {
            assert(rest@ =~= s@.drop_first());
        }
        attrs_safe_exec(rest)
    } else if is_name_char_exec(c0) {
        let p = name_prefix_len(s);
        proof {
            lemma_name_len(s@);
        }
        let name = s.substring_char(0, p);
        if !name_allowed_exec(name) {
            return false;
        }
        let rest = s.substring_char(p, n);
        attrs_safe_after_name_exec(rest)
    } else {
        false
    }
}

/// Whether `s` is a safe continuation after an attribute name.
fn attrs_safe_after_name_exec(s: &str) -> (r: bool)
    ensures
        r == attrs_safe_after_name(s@),
    decreases s@.len(), 0int,
{
    let n = s.unicode_len();
    if n == 0 {
        return true;
    }
    let c0 = s.get_char(0);
    if c0 == ' ' {
        let rest = s.substring_char(1, n);
        proof {
            assert(rest@ =~= s@.drop_first());
        }
        attrs_safe_exec(rest)
    } else if c0 == '=' && n >= 2 && s.get_char(1) == '"' {
        let value_part = s.substring_char(2, n);
        proof {
            assert(value_part@ =~= s@.skip(2));
        }
        match find_first_quote(value_part) {
            Some(q) => {
                proof {
                    lemma_find_quote_chars(s@.skip(2));
                    assert(s@.skip(2).len() == n - 2);
                }
                let rest = s.substring_char(q + 3, n);
                proof {
                    assert(rest@ =~= s@.skip(q + 3));
                }
                attrs_safe_exec(rest)
            },
            None => false,
        }
    } else {
        false
    }
}

} // verus!
