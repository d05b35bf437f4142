//! Text-level helpers for the renderer: HTML entity escaping, percent
//! encoding of link targets, decimal formatting of counters, and
//! substring replacement for the paragraph post-processing pass.

use vstd::prelude::*;

verus! {

/// The minimal HTML entity-escaping of one character: `"`, `&`, `'`, `<` and
/// `>` become entities, every other character stands as itself.
pub open spec fn escaped_char(c: char) -> Seq<char> {
    if c == '"' {
        "&quot;"@
    } else if c == '&' {
        "&amp;"@
    } else if c == '\'' {
        "&#x27;"@
    } else if c == '<' {
        "&lt;"@
    } else if c == '>' {
        "&gt;"@
    } else {
        seq![c]
    }
}

/// Relies on htmlescape::encode_minimal: it maps each character through the
/// five-entry entity table (`"` `&` `'` `<` `>`) and passes every other
/// character through unchanged.
#[verifier::external_body]
fn escape_char_exec(c: char) -> (r: String)
    ensures
        r@ == escaped_char(c),
{
    htmlescape::encode_minimal(&c.to_string())
}

/// Appends the minimal HTML entity-escaping of `c` to `out`.
pub fn push_escaped_char(out: &mut String, c: char)
    ensures
        final(out)@ == old(out)@ + escaped_char(c),
{
    let e = escape_char_exec(c);
    out.append(e.as_str());
}

/// The sixteen hexadecimal digits, uppercase.
pub open spec fn hex_chars() -> Seq<char> {
    seq!['0', '1', '2', '3', '4', '5', '6', '7', '8', '9', 'A', 'B', 'C', 'D', 'E', 'F']
}

/// Whether a byte is an ASCII letter or digit.
pub open spec fn is_alnum_byte(b: u8) -> bool {
    (0x30 <= b && b <= 0x39) || (0x41 <= b && b <= 0x5a) || (0x61 <= b && b <= 0x7a)
}

/// Percent-encoding of one byte: ASCII letters and digits stand as
/// themselves, every other byte becomes `%` and two uppercase hex digits.
pub open spec fn percent_encoded_byte(b: u8) -> Seq<char> {
    if is_alnum_byte(b) {
        seq![b as char]
    } else {
        seq!['%', hex_chars()[b as int / 16], hex_chars()[b as int % 16]]
    }
}

/// Percent-encoding of a byte sequence, byte by byte.
pub open spec fn percent_encoded_bytes(bs: Seq<u8>) -> Seq<char>
    decreases bs.len(),
{
    if bs.len() == 0 {
        Seq::empty()
    } else {
        percent_encoded_byte(bs[0]) + percent_encoded_bytes(bs.drop_first())
    }
}

/// Percent-encoding of a string: its UTF-8 bytes, with every byte that is
/// not an ASCII letter or digit replaced by `%` and two uppercase hex digits.
pub open spec fn percent_encoded(s: Seq<char>) -> Seq<char> {
    percent_encoded_bytes(vstd::utf8::encode_utf8(s))
}

/// Relies on percent_encoding::utf8_percent_encode with the NON_ALPHANUMERIC
/// set: every UTF-8 byte outside `0-9A-Za-z` (and every non-ASCII byte) is
/// written as `%` followed by two uppercase hex digits.
#[verifier::external_body]
fn percent_encode_exec(s: &str) -> (r: String)
    ensures
        r@ == percent_encoded(s@),
{
    percent_encoding::utf8_percent_encode(s, percent_encoding::NON_ALPHANUMERIC).to_string()
}

/// Appends the percent-encoding of `s` to `out`.
pub fn push_percent_encoded(out: &mut String, s: &str)
    ensures
        final(out)@ == old(out)@ + percent_encoded(s@),
{
    let e = percent_encode_exec(s);
    out.append(e.as_str());
}

/// Replacement of every occurrence of `from` in `s` by `to`, left to right
/// and without overlap. The empty pattern leaves `s` unchanged.
pub open spec fn replaced(s: Seq<char>, from: Seq<char>, to: Seq<char>) -> Seq<char>
    decreases s.len(),
{
    if from.len() == 0 || s.len() < from.len() {
        s
    } else if s.subrange(0, from.len() as int) == from {
        to + replaced(s.skip(from.len() as int), from, to)
    } else {
        seq![s[0]] + replaced(s.drop_first(), from, to)
    }
}

/// Relies on str::replace: it replaces every match of the pattern with the
/// replacement string, scanning left to right without overlap.
#[verifier::external_body]
pub fn replace_all(s: &str, from: &str, to: &str) -> (r: String)
    requires
        from@.len() > 0,
    ensures
        r@ == replaced(s@, from@, to@),
{
    s.replace(from, to)
}

/// The decimal digits of `n`, most significant first.
pub open spec fn dec_digits(n: nat) -> Seq<char>
    decreases n,
{
    if n < 10 {
        seq![hex_chars()[n as int]]
    } else {
        dec_digits(n / 10) + seq![hex_chars()[n as int % 10]]
    }
}

/// Appends the single decimal digit `d` to `out`.
fn push_digit(out: &mut String, d: u64)
    requires
        d < 10,
    ensures
        final(out)@ == old(out)@ + seq![hex_chars()[d as int]],
{
    if d == 0 {
        proof { reveal_strlit("0"); }
        assert("0"@ =~= seq![hex_chars()[0]]);
        out.append("0");
    } else if d == 1 {
        proof { reveal_strlit("1"); }
        assert("1"@ =~= seq![hex_chars()[1]]);
        out.append("1");
    } else if d == 2 {
        proof { reveal_strlit("2"); }
        assert("2"@ =~= seq![hex_chars()[2]]);
        out.append("2");
    } else if d == 3 {
        proof { reveal_strlit("3"); }
        assert("3"@ =~= seq![hex_chars()[3]]);
        out.append("3");
    } else if d == 4 {
        proof { reveal_strlit("4"); }
        assert("4"@ =~= seq![hex_chars()[4]]);
        out.append("4");
    } else if d == 5 {
        proof { reveal_strlit("5"); }
        assert("5"@ =~= seq![hex_chars()[5]]);
        out.append("5");
    } else if d == 6 {
        proof { reveal_strlit("6"); }
        assert("6"@ =~= seq![hex_chars()[6]]);
        out.append("6");
    } else if d == 7 {
        proof { reveal_strlit("7"); }
        assert("7"@ =~= seq![hex_chars()[7]]);
        out.append("7");
    } else if d == 8 {
        proof { reveal_strlit("8"); }
        assert("8"@ =~= seq![hex_chars()[8]]);
        out.append("8");
    } else {
        proof { reveal_strlit("9"); }
        assert("9"@ =~= seq![hex_chars()[9]]);
        out.append("9");
    }
}

/// Appends the decimal representation of `n` to `out`.
pub fn push_decimal(out: &mut String, n: u64)
    ensures
        final(out)@ == old(out)@ + dec_digits(n as nat),
    decreases n,
{
    if n < 10 {
        push_digit(out, n);
    } else {
        push_decimal(out, n / 10);
        push_digit(out, n % 10);
    }
}

/// The whitespace characters the trimming recognises.
pub open spec fn is_ws(c: char) -> bool {
    c == ' ' || c == '\t' || c == '\r' || c == '\n'
}

/// Length of `s` with trailing whitespace trimmed.
pub open spec fn trim_end_len(s: Seq<char>) -> int
    decreases s.len(),
{
    if s.len() > 0 && is_ws(s[s.len() - 1]) {
        trim_end_len(s.drop_last())
    } else {
        s.len() as int
    }
}

/// The trimmed length never exceeds the length, and marks the last
/// non-whitespace character.
pub proof fn lemma_trim_end_len(s: Seq<char>)
    ensures
        0 <= trim_end_len(s) <= s.len(),
        trim_end_len(s) > 0 ==> !is_ws(s[trim_end_len(s) - 1]),
        forall|k: int| trim_end_len(s) <= k < s.len() ==> is_ws(s[k]),
    decreases s.len(),
{
    if s.len() > 0 && is_ws(s[s.len() - 1]) {
        lemma_trim_end_len(s.drop_last());
        assert forall|k: int| trim_end_len(s) <= k < s.len() implies is_ws(s[k]) by {
            if k < s.len() - 1 {
                assert(s.drop_last()[k] == s[k]);
            }
        }
    }
}

/// Count of leading whitespace characters of `s`.
pub open spec fn trim_start_len(s: Seq<char>) -> int
    decreases s.len(),
{
    if s.len() > 0 && is_ws(s[0]) {
        1 + trim_start_len(s.drop_first())
    } else {
        0
    }
}

/// The leading-whitespace count never exceeds the length.
pub proof fn lemma_trim_start_len(s: Seq<char>)
    ensures
        0 <= trim_start_len(s) <= s.len(),
    decreases s.len(),
{
    if s.len() > 0 && is_ws(s[0]) {
        lemma_trim_start_len(s.drop_first());
    }
}

/// Whether `c` counts as whitespace for the trimming.
pub fn is_ws_char(c: char) -> (r: bool)
    ensures
        r == is_ws(c),
{
    c == ' ' || c == '\t' || c == '\r' || c == '\n'
}

/// Position after `s`'s last non-whitespace character.
pub fn trim_end_pos(s: &str) -> (e: usize)
    ensures
        e as int == trim_end_len(s@),
{
    let mut e = s.unicode_len();
    proof {
        assert(s@.subrange(0, e as int) =~= s@);
    }
    while e > 0 && is_ws_char(s.get_char(e - 1))
        invariant
            e <= s@.len(),
            trim_end_len(s@) == trim_end_len(s@.subrange(0, e as int)),
        decreases e,
    {
        proof {
            assert(s@.subrange(0, e as int).drop_last() =~= s@.subrange(0, e as int - 1));
        }
        e = e - 1;
    }
    proof {
        lemma_trim_end_len(s@.subrange(0, e as int));
    }
    e
}

/// Position of `s`'s first non-whitespace character.
pub fn trim_start_pos(s: &str) -> (b: usize)
    ensures
        b as int == trim_start_len(s@),
{
    let n = s.unicode_len();
    let mut b: usize = 0;
    proof {
        assert(s@.skip(0) =~= s@);
    }
    while b < n && is_ws_char(s.get_char(b))
        invariant
            b <= n,
            n == s@.len(),
            trim_start_len(s@) == b + trim_start_len(s@.skip(b as int)),
        decreases n - b,
    {
        proof {
            assert(s@.skip(b as int)[0] == s@[b as int]);
            assert(s@.skip(b as int).drop_first() =~= s@.skip(b as int + 1));
        }
        b = b + 1;
    }
    proof {
        if b < n {
            assert(s@.skip(b as int)[0] == s@[b as int]);
        }
    }
    b
}

} // verus!
