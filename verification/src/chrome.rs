//! Small pieces of the screens' look that are decided by data alone: the
//! spinner frame, the cursor blink, cell padding, column widths, rank
//! badges, the tone of a previewed source line, and the text of a line
//! with terminal colour codes.

use vstd::prelude::*;
use crate::clock::subsec_millis_now;
use crate::text::{chars_of, has_prefix, slice_chars, string_of, trim_chars, trimmed};

verus! {

/// A key and what it does, as shown in a hint bar.
#[derive(Clone, Copy, Debug)]
pub struct Hint<'a> {
    pub key: &'a str,
    pub label: &'a str,
}

/// The frames of the spinner.
pub open spec fn spinner_frames() -> Seq<Seq<char>> {
    seq!["⠋"@, "⠙"@, "⠹"@, "⠸"@, "⠼"@, "⠴"@, "⠦"@, "⠧"@]
}

/// The spinner frame for animation step `tick`.
pub fn spinner(tick: u64) -> (r: &'static str)
    ensures
        r@ == spinner_frames()[(tick % 8) as int],
{
    let frames: [&'static str; 8] = ["⠋", "⠙", "⠹", "⠸", "⠼", "⠴", "⠦", "⠧"];
    let i = (tick % 8) as usize;
    frames[i]
}

/// The cursor is drawn during the first 530 ms of each 1060 ms.
pub open spec fn blink_on(millis: u32) -> bool {
    (millis / 530) % 2 == 0
}

/// Whether the cursor is drawn at `millis` milliseconds into a second.
pub fn blink_at(millis: u32) -> (r: bool)
    ensures
        r == blink_on(millis),
{
    (millis / 530) % 2 == 0
}

/// Whether the cursor is drawn now, by the milliseconds of the current
/// second on the wall clock.
pub fn cursor_blink() -> (r: bool)
    ensures
        exists|m: u32| m < 1000 && r == blink_on(m),
{
    let m = subsec_millis_now();
    blink_at(m)
}

/// `text` fitted to `width` cells: cut to its first `width` characters,
/// or padded with spaces up to `width`.
pub open spec fn fitted(text: Seq<char>, width: nat) -> Seq<char> {
    if text.len() <= width {
        text + Seq::new((width - text.len()) as nat, |i: int| ' ')
    } else {
        text.take(width as int)
    }
}

/// Fits `text` to `width` cells (see `fitted`).
pub fn fit_cell(text: &str, width: usize) -> (r: String)
    ensures
        r@ == fitted(text@, width as nat),
{
    let cs = chars_of(text);
    if cs.len() <= width {
        let mut out = cs.clone();
        let ghost base = cs@;
        let mut k: usize = cs.len();
        while k < width
            invariant
                cs@ == text@,
                base == cs@,
                cs.len() <= k <= width,
                out@ == base + Seq::new((k - base.len()) as nat, |i: int| ' '),
            decreases width - k,
        {
            out.push(' ');
            k = k + 1;
            assert(out@ =~= base + Seq::new((k - base.len()) as nat, |i: int| ' '));
        }
        string_of(&out)
    } else {
        string_of(&slice_chars(&cs, 0, width))
    }
}

/// Column widths of the explorer's file list.
#[derive(Clone, Copy, Debug)]
pub struct ListCols {
    pub name_w: usize,
}

/// Cells a list row uses besides the name: rail, gap, icon, gap, badge,
/// size and time.
pub const FIXED_COLS: usize = 23;

impl ListCols {
    /// The columns for a list `w` cells wide: the name gets what the other
    /// columns leave, and never fewer than 14 cells.
    pub fn from_width(w: u16) -> (r: ListCols)
        ensures
            r.name_w == if w as int - FIXED_COLS >= 14 { (w - FIXED_COLS) as usize } else { 14 },
    {
        let wide = w as usize;
        let rest = if wide >= FIXED_COLS { wide - FIXED_COLS } else { 0 };
        ListCols { name_w: if rest >= 14 { rest } else { 14 } }
    }
}

/// The badge shown for a match rank.
pub open spec fn badge_of(rank: u8) -> Seq<char> {
    if rank == 0 {
        "exact "@
    } else if rank == 1 {
        "prefix"@
    } else if rank == 2 {
        "match "@
    } else {
        "fuzzy "@
    }
}

/// The six-cell badge shown for a match rank: exact, prefix, match (a
/// substring), or fuzzy.
pub fn rank_badge(rank: u8) -> (r: &'static str)
    ensures
        r@ == badge_of(rank),
{
    if rank == 0 {
        "exact "
    } else if rank == 1 {
        "prefix"
    } else if rank == 2 {
        "match "
    } else {
        "fuzzy "
    }
}

// ── Source tones ───────────────────────────────────────────────────────────

/// How bright a previewed source line is drawn.
#[derive(Clone, Copy, Debug, PartialEq, Eq, Structural)]
pub enum Tone {
    /// Comments and directives.
    Muted,
    /// Definitions.
    Bright,
    /// Imports.
    Normal,
    /// Everything else.
    Dim,
}

/// The tone of a source line, by how it starts once trimmed: comments
/// (`//`, `#`, `--`, `/*`) are muted, definitions (`fn `, `def `, `pub `,
/// `class `, `struct `) bright, imports (`import `, `use `, `from `)
/// normal, and anything else dim.
pub open spec fn tone_of(line: Seq<char>) -> Tone {
    let t = trimmed(line);
    if has_prefix(t, "//"@) || has_prefix(t, "#"@) || has_prefix(t, "--"@) || has_prefix(t, "/*"@) {
        Tone::Muted
    } else if has_prefix(t, "fn "@) || has_prefix(t, "def "@) || has_prefix(t, "pub "@) || has_prefix(t, "class "@)
        || has_prefix(t, "struct "@) {
        Tone::Bright
    } else if has_prefix(t, "import "@) || has_prefix(t, "use "@) || has_prefix(t, "from "@) {
        Tone::Normal
    } else {
        Tone::Dim
    }
}

/// Whether `s` starts with the text `p`.
fn starts(s: &Vec<char>, p: &str) -> (r: bool)
    ensures
        r == has_prefix(s@, p@),
{
    crate::text::starts_with_chars(s, &chars_of(p))
}

/// The tone of a previewed source line (see `tone_of`).
pub fn syntax_tone(line: &str) -> (r: Tone)
    ensures
        r == tone_of(line@),
{
    let t = trim_chars(&chars_of(line));
    if starts(&t, "//") || starts(&t, "#") || starts(&t, "--") || starts(&t, "/*") {
        Tone::Muted
    } else if starts(&t, "fn ") || starts(&t, "def ") || starts(&t, "pub ") || starts(&t, "class ") || starts(
        &t,
        "struct ",
    ) {
        Tone::Bright
    } else if starts(&t, "import ") || starts(&t, "use ") || starts(&t, "from ") {
        Tone::Normal
    } else {
        Tone::Dim
    }
}

// ── Terminal colour codes ──────────────────────────────────────────────────

/// The first position at or after `from` where an escape sequence
/// (`ESC [`) starts.
pub open spec fn first_escape(s: Seq<char>, from: int) -> Option<int>
    decreases s.len() - from,
{
    if from < 0 || from + 1 >= s.len() {
        None
    } else if s[from] == '\x1b' && s[from + 1] == '[' {
        Some(from)
    } else {
        first_escape(s, from + 1)
    }
}

/// The first position at or after `from` holding `c`.
pub open spec fn first_at(s: Seq<char>, c: char, from: int) -> Option<int>
    decreases s.len() - from,
{
    if from < 0 || from >= s.len() {
        None
    } else if s[from] == c {
        Some(from)
    } else {
        first_at(s, c, from + 1)
    }
}

/// The plain pieces of `s` from `from` on: the text up to each escape
/// sequence (when not empty), each sequence skipped up to and including
/// its `m`; an escape sequence without an `m` ends the text.
pub open spec fn plain_pieces(s: Seq<char>, from: int) -> Seq<Seq<char>>
    decreases s.len() - from,
{
    if from < 0 || from >= s.len() {
        Seq::empty()
    } else {
        match first_escape(s, from) {
            None => seq![s.subrange(from, s.len() as int)],
            Some(p) => {
                let head: Seq<Seq<char>> = if p > from { seq![s.subrange(from, p)] } else { Seq::empty() };
                match first_at(s, 'm', p + 2) {
                    None => head,
                    Some(m) => if from < m + 1 <= s.len() { head + plain_pieces(s, m + 1) } else { head },
                }
            },
        }
    }
}

/// The texts of a list of strings.
pub open spec fn texts_of(v: Seq<String>) -> Seq<Seq<char>> {
    v.map_values(|s: String| s@)
}

proof fn lemma_first_escape_bounds(s: Seq<char>, from: int)
    ensures
        first_escape(s, from) matches Some(p) ==> from <= p && p + 1 < s.len() && s[p] == '\x1b' && s[p + 1] == '[',
    decreases s.len() - from,
{
    if from >= 0 && from + 1 < s.len() && !(s[from] == '\x1b' && s[from + 1] == '[') {
        lemma_first_escape_bounds(s, from + 1);
    }
}

proof fn lemma_first_at_bounds(s: Seq<char>, c: char, from: int)
    ensures
        first_at(s, c, from) matches Some(p) ==> from <= p < s.len(),
    decreases s.len() - from,
{
    if from >= 0 && from < s.len() && s[from] != c {
        lemma_first_at_bounds(s, c, from + 1);
    }
}

/// Where the next escape sequence at or after `from` starts.
fn find_escape(s: &Vec<char>, from: usize) -> (r: Option<usize>)
    ensures
        match r {
            Some(p) => first_escape(s@, from as int) == Some(p as int),
            None => first_escape(s@, from as int) is None,
        },
{
    let mut i = from;
    while i < s.len() && i + 1 < s.len()
        invariant
            from <= i,
            first_escape(s@, from as int) == first_escape(s@, i as int),
        decreases s.len() - i,
    {
        if s[i] == '\x1b' && s[i + 1] == '[' {
            return Some(i);
        }
        i = i + 1;
    }
    None
}

/// Where `c` next occurs at or after `from`.
fn find_char(s: &Vec<char>, c: char, from: usize) -> (r: Option<usize>)
    ensures
        match r {
            Some(p) => first_at(s@, c, from as int) == Some(p as int),
            None => first_at(s@, c, from as int) is None,
        },
{
    let mut i = from;
    while i < s.len()
        invariant
            from <= i,
            first_at(s@, c, from as int) == first_at(s@, c, i as int),
        decreases s.len() - i,
    {
        if s[i] == c {
            return Some(i);
        }
        i = i + 1;
    }
    None
}

/// The plain text of a line of terminal output, in pieces: each colour
/// code (`ESC [` ... `m`) is dropped, and a code that never ends drops the
/// rest of the line. A line with no text gives one empty piece.
pub fn parse_ansi(input: &str) -> (r: Vec<String>)
    ensures
        texts_of(r@) == if plain_pieces(input@, 0).len() == 0 {
            seq![Seq::<char>::empty()]
        } else {
            plain_pieces(input@, 0)
        },
{
    let cs = chars_of(input);
    let ghost s = cs@;
    let mut out: Vec<String> = Vec::new();
    let mut from: usize = 0;
    while from < cs.len()
        invariant
            s == cs@,
            s == input@,
            from <= cs.len(),
            plain_pieces(s, 0) == texts_of(out@) + plain_pieces(s, from as int),
        decreases cs.len() - from,
    {
        let ghost before = texts_of(out@);
        match find_escape(&cs, from) {
            None => {
                out.push(string_of(&slice_chars(&cs, from, cs.len())));
                proof {
                    assert(plain_pieces(s, cs.len() as int) =~= Seq::<Seq<char>>::empty());
                    assert(texts_of(out@) =~= before + seq![s.subrange(from as int, s.len() as int)]);
                }
                from = cs.len();
            },
            Some(p) => {
                proof {
                    lemma_first_escape_bounds(s, from as int);
                }
                if p > from {
                    out.push(string_of(&slice_chars(&cs, from, p)));
                }
                let ghost head: Seq<Seq<char>> = if p > from { seq![s.subrange(from as int, p as int)] } else { Seq::empty() };
                proof {
                    assert(texts_of(out@) =~= before + head);
                }
                match find_char(&cs, 'm', p + 2) {
                    None => {
                        proof {
                            assert(plain_pieces(s, cs.len() as int) =~= Seq::<Seq<char>>::empty());
                            assert(plain_pieces(s, from as int) == head);
                            assert(texts_of(out@) + plain_pieces(s, cs.len() as int) =~= texts_of(out@));
                        }
                        from = cs.len();
                    },
                    Some(m) => {
                        proof {
                            lemma_first_at_bounds(s, 'm', p + 2);
                            assert(plain_pieces(s, from as int) == head + plain_pieces(s, m + 1));
                            assert(before + (head + plain_pieces(s, m + 1)) =~= texts_of(out@) + plain_pieces(s, m + 1));
                        }
                        from = m + 1;
                    },
                }
            },
        }
    }
    proof {
        assert(plain_pieces(s, from as int) =~= Seq::<Seq<char>>::empty());
        assert(texts_of(out@) =~= plain_pieces(s, 0));
    }
    if out.len() == 0 {
        out.push(String::new());
        assert(texts_of(out@) =~= seq![Seq::<char>::empty()]);
    }
    out
}

} // verus!
