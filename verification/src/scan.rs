//! Reading text the way std does: its lines (`str::lines`), its words
//! (`str::split_whitespace`), and unsigned numbers (`u64::from_str`); and,
//! built on them, the first lines of a text preview and the sizes `df`
//! reports.

use vstd::prelude::*;
use crate::text::{chars_of, is_white, is_white_char, split_chars, split_on, string_of};

verus! {

// ── Lines ──────────────────────────────────────────────────────────────────

/// A line without a trailing carriage return.
pub open spec fn drop_cr(l: Seq<char>) -> Seq<char> {
    if l.len() > 0 && l.last() == '\r' {
        l.drop_last()
    } else {
        l
    }
}

/// The lines of a text, as `str::lines` gives them: split at `\n`, each
/// line ended by `\n` without a `\r` before it, and no empty line after a
/// final `\n` (an empty text has no lines).
pub open spec fn text_lines(s: Seq<char>) -> Seq<Seq<char>> {
    let parts = split_on(s, '\n');
    let n = parts.len() as int;
    let body = parts.take(n - 1).map_values(|l: Seq<char>| drop_cr(l));
    if parts[n - 1].len() == 0 {
        body
    } else {
        body.push(parts[n - 1])
    }
}

fn drop_cr_chars(l: &Vec<char>) -> (r: Vec<char>)
    ensures
        r@ == drop_cr(l@),
{
    let mut r = l.clone();
    if r.len() > 0 && r[r.len() - 1] == '\r' {
        r.pop();
    }
    assert(r@ =~= drop_cr(l@));
    r
}

/// The lines of `s` (see `text_lines`).
pub fn lines_of(s: &str) -> (r: Vec<String>)
    ensures
        r@.map_values(|x: String| x@) == text_lines(s@),
{
    let parts = split_chars(&chars_of(s), '\n');
    proof {
        crate::text::lemma_split_nonempty(s@, '\n');
    }
    let ghost p = split_on(s@, '\n');
    let n = parts.len();
    let mut r: Vec<String> = Vec::new();
    for k in 0..n - 1
        invariant
            n == parts@.len(),
            n == p.len(),
            n >= 1,
            forall|j: int| 0 <= j < n ==> #[trigger] parts@[j]@ == p[j],
            r@.map_values(|x: String| x@) == p.take(k as int).map_values(|l: Seq<char>| drop_cr(l)),
    {
        let line = string_of(&drop_cr_chars(&parts[k]));
        let ghost before = r@.map_values(|x: String| x@);
        assert(line@ == drop_cr(p[k as int]));
        r.push(line);
        assert(r@.map_values(|x: String| x@) =~= before.push(drop_cr(p[k as int])));
        assert(p.take(k + 1).map_values(|l: Seq<char>| drop_cr(l)) =~= p.take(k as int).map_values(
            |l: Seq<char>| drop_cr(l),
        ).push(drop_cr(p[k as int])));
    }
    if parts[n - 1].len() > 0 {
        r.push(string_of(&parts[n - 1]));
    }
    assert(r@.map_values(|x: String| x@) =~= text_lines(s@));
    r
}

// ── Words ──────────────────────────────────────────────────────────────────

/// The words of a text: its maximal runs of characters other than
/// whitespace, in order (what `str::split_whitespace` gives).
pub open spec fn words(s: Seq<char>) -> Seq<Seq<char>>
    decreases s.len(),
{
    if s.len() == 0 {
        Seq::empty()
    } else {
        let w = words(s.drop_last());
        let c = s.last();
        if is_white(c) {
            w
        } else if s.len() >= 2 && !is_white(s[s.len() - 2]) {
            w.update(w.len() - 1, w.last().push(c))
        } else {
            w.push(seq![c])
        }
    }
}

/// A text that ends in a non-space has at least one word.
proof fn lemma_words_nonempty(s: Seq<char>)
    requires
        s.len() > 0,
        !is_white(s.last()),
    ensures
        words(s).len() > 0,
    decreases s.len(),
{
    if s.len() >= 2 && !is_white(s[s.len() - 2]) {
        assert(s.drop_last().last() == s[s.len() - 2]);
        lemma_words_nonempty(s.drop_last());
    }
}

/// The words of `s` (see `words`).
pub fn words_of(s: &Vec<char>) -> (r: Vec<Vec<char>>)
    ensures
        r@.map_values(|w: Vec<char>| w@) == words(s@),
{
    let mut r: Vec<Vec<char>> = Vec::new();
    for i in 0..s.len()
        invariant
            r@.map_values(|w: Vec<char>| w@) == words(s@.take(i as int)),
    {
        let ghost t = s@.take(i + 1);
        proof {
            assert(t.drop_last() =~= s@.take(i as int));
            assert(t.last() == s@[i as int]);
            if i >= 1 {
                assert(t[i - 1] == s@[i - 1]);
            }
        }
        let c = s[i];
        if is_white_char(c) {
        } else if i >= 1 && !is_white_char(s[i - 1]) {
            proof {
                lemma_words_nonempty(s@.take(i as int));
            }
            let ghost before = r@;
            let ghost wv = words(s@.take(i as int));
            assert(before.map_values(|w: Vec<char>| w@) == wv);
            let mut last = r.pop().unwrap();
            assert(last@ == wv.last());
            last.push(c);
            r.push(last);
            assert(r@ =~= before.drop_last().push(last));
            assert(r@.map_values(|w: Vec<char>| w@) =~= wv.update(wv.len() - 1, wv.last().push(c)));
            assert(words(t) == wv.update(wv.len() - 1, wv.last().push(c)));
        } else {
            let ghost before = r@.map_values(|w: Vec<char>| w@);
            let one: Vec<char> = vec![c];
            assert(one@ =~= seq![c]);
            r.push(one);
            assert(r@.map_values(|w: Vec<char>| w@) =~= before.push(seq![c]));
        }
    }
    assert(s@.take(s.len() as int) =~= s@);
    r
}

// ── Numbers ────────────────────────────────────────────────────────────────

/// The value of a string of decimal digits.
pub open spec fn digits_value(d: Seq<char>) -> nat
    decreases d.len(),
{
    if d.len() == 0 {
        0
    } else {
        digits_value(d.drop_last()) * 10 + ((d.last() as u32) - ('0' as u32)) as nat
    }
}

/// Every character is an ASCII digit.
pub open spec fn all_digits(d: Seq<char>) -> bool {
    forall|i: int| 0 <= i < d.len() ==> '0' <= #[trigger] d[i] <= '9'
}

/// What `u64::from_str` gives: an optional `+`, then one or more ASCII
/// digits whose value fits in 64 bits; nothing else parses.
pub open spec fn parsed_u64(w: Seq<char>) -> Option<u64> {
    let d = if w.len() > 0 && w[0] == '+' { w.drop_first() } else { w };
    if d.len() > 0 && all_digits(d) && digits_value(d) <= u64::MAX {
        Some(digits_value(d) as u64)
    } else {
        None
    }
}

/// A longer prefix of digits is worth at least as much.
proof fn lemma_digits_grow(d: Seq<char>, i: int)
    requires
        0 <= i <= d.len(),
        all_digits(d),
    ensures
        digits_value(d.take(i)) <= digits_value(d),
    decreases d.len() - i,
{
    if i < d.len() {
        lemma_digits_grow(d, i + 1);
        assert(d.take(i + 1).drop_last() =~= d.take(i));
        assert(d.take(i + 1).last() == d[i]);
    } else {
        assert(d.take(i) =~= d);
    }
}

proof fn lemma_fits(v: u64, digit: u64)
    requires
        digit <= 9,
        v <= (u64::MAX - digit) / 10,
    ensures
        v * 10 + digit <= u64::MAX,
{
    assert(v * 10 + digit <= u64::MAX) by (nonlinear_arith)
        requires
            v <= (u64::MAX - digit) / 10,
            digit <= 9,
    ;
}

proof fn lemma_overflows(v: u64, digit: u64)
    requires
        digit <= 9,
        v > (u64::MAX - digit) / 10,
    ensures
        v * 10 + digit > u64::MAX,
{
    assert(v * 10 + digit > u64::MAX) by (nonlinear_arith)
        requires
            v > (u64::MAX - digit) / 10,
            digit <= 9,
    ;
}

/// Parses an unsigned 64-bit number (see `parsed_u64`).
pub fn parse_u64(w: &Vec<char>) -> (r: Option<u64>)
    ensures
        r == parsed_u64(w@),
{
    let start: usize = if w.len() > 0 && w[0] == '+' { 1 } else { 0 };
    let ghost d = if w@.len() > 0 && w@[0] == '+' { w@.drop_first() } else { w@ };
    let digits = crate::text::slice_chars(w, start, w.len());
    assert(digits@ =~= d);
    if digits.len() == 0 {
        return None;
    }
    let mut v: u64 = 0;
    let mut k: usize = 0;
    while k < digits.len()
        invariant
            k <= digits@.len(),
            digits@ == d,
            d == (if w@.len() > 0 && w@[0] == '+' { w@.drop_first() } else { w@ }),
            all_digits(d.take(k as int)),
            v == digits_value(d.take(k as int)),
        decreases digits.len() - k,
    {
        let c = digits[k];
        proof {
            assert(d.take(k + 1).drop_last() =~= d.take(k as int));
            assert(d.take(k + 1).last() == c);
        }
        if c < '0' || c > '9' {
            proof {
                assert(!('0' <= d[k as int] <= '9'));
            }
            return None;
        }
        let digit = (c as u32 - '0' as u32) as u64;
        if v > (u64::MAX - digit) / 10 {
            proof {
                lemma_overflows(v, digit);
                assert(all_digits(d.take(k + 1)));
                assert(digits_value(d.take(k + 1)) == v * 10 + digit);
                if all_digits(d) {
                    lemma_digits_grow(d, k + 1);
                }
            }
            return None;
        }
        proof {
            lemma_fits(v, digit);
        }
        v = v * 10 + digit;
        k = k + 1;
        assert(all_digits(d.take(k as int)));
    }
    assert(d.take(digits@.len() as int) =~= d);
    Some(v)
}

// ── Uses ───────────────────────────────────────────────────────────────────

/// The first `max_lines + 10` lines of a text file's contents, for the
/// preview pane.
pub fn text_preview(content: &str, max_lines: usize) -> (r: Vec<String>)
    requires
        max_lines + 10 <= usize::MAX,
    ensures
        r@.map_values(|x: String| x@) == text_lines(content@).take(
            if text_lines(content@).len() < max_lines + 10 { text_lines(content@).len() as int } else { max_lines + 10 },
        ),
{
    let mut all = lines_of(content);
    let keep = max_lines + 10;
    if all.len() > keep {
        all.truncate(keep);
    }
    assert(all@.map_values(|x: String| x@) =~= text_lines(content@).take(
        if text_lines(content@).len() < max_lines + 10 { text_lines(content@).len() as int } else { max_lines + 10 },
    ));
    all
}

/// A number or zero.
pub open spec fn or_zero(o: Option<u64>) -> u64 {
    match o {
        Some(v) => v,
        None => 0,
    }
}

/// The total and used bytes in the output of `df --output=size,used`: the
/// first two words of its second line, each 0 when it does not parse;
/// both 0 without such a line.
pub open spec fn disk_usage_spec(out: Seq<char>) -> (u64, u64) {
    let ls = text_lines(out);
    if ls.len() >= 2 && words(ls[1]).len() >= 2 {
        (or_zero(parsed_u64(words(ls[1])[0])), or_zero(parsed_u64(words(ls[1])[1])))
    } else {
        (0, 0)
    }
}

/// Reads the sizes `df` printed (see `disk_usage_spec`).
pub fn parse_disk_usage(out: &str) -> (r: (u64, u64))
    ensures
        r == disk_usage_spec(out@),
{
    let ls = lines_of(out);
    if ls.len() < 2 {
        return (0, 0);
    }
    let line = chars_of(ls[1].as_str());
    assert(line@ == text_lines(out@)[1]);
    let ws = words_of(&line);
    if ws.len() < 2 {
        return (0, 0);
    }
    assert(ws@[0]@ == words(line@)[0]);
    assert(ws@[1]@ == words(line@)[1]);
    let a = match parse_u64(&ws[0]) {
        Some(v) => v,
        None => 0,
    };
    let b = match parse_u64(&ws[1]) {
        Some(v) => v,
        None => 0,
    };
    (a, b)
}

} // verus!
