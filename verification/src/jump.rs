//! State of the `jump` screen: the query being typed (with a byte-offset
//! cursor), the current results, and the selection in them, plus the key
//! handling that edits them.

use vstd::prelude::*;
use crate::explorer::ExplorerState;
use crate::explorer_keys::{Click, MouseKind, DOUBLE_CLICK_MS};
use crate::layout::JumpLayout;
use crate::store::{quarters_of, score_quarters, visits_in, VisitStats};
use crate::table::{keys_unique, lookup};
use crate::text::{
    contains_chars, lemma_lex_total, lemma_lex_trans, lex_lt, occurs_in, text_lt, unicode_lowercase, char_pos, char_width, chars_of, is_boundary, lemma_take_all, lemma_utf8_concat, lemma_utf8_take_step,
    string_of, utf8_len, width_of,
};

verus! {

/// The latest results of a search.
#[derive(Debug)]
pub struct SearchResults {
    /// The query they answer.
    pub query: String,
    /// Matching directories, nearby ones first.
    pub matches: Vec<String>,
    /// How many of `matches` were found near the working directory.
    pub local_count: usize,
    /// Whether the search is still running.
    pub searching: bool,
    /// Animation tick for the spinner.
    pub tick: u64,
}

impl SearchResults {
    /// No query, no matches, not searching.
    pub open spec fn is_empty_results(&self) -> bool {
        &&& self.query@.len() == 0
        &&& self.matches@.len() == 0
        &&& self.local_count == 0
        &&& !self.searching
        &&& self.tick == 0
    }
}

impl Default for SearchResults {
    fn default() -> (r: SearchResults)
        ensures
            r.is_empty_results(),
    {
        SearchResults { query: String::new(), matches: Vec::new(), local_count: 0, searching: false, tick: 0 }
    }
}

/// The state of the `jump` screen.
#[derive(Debug)]
pub struct App {
    /// The query being typed.
    pub input: String,
    /// Byte offset of the cursor in `input`.
    pub cursor: usize,
    /// Index of the selected result (or pin).
    pub selected: usize,
    /// Index of the first result shown.
    pub scroll_offset: usize,
    pub results: SearchResults,
    /// Pins as (name, path), one per name.
    pub pins: Vec<(String, String)>,
    /// Visit history as (path, stats), one per path.
    pub frecency: Vec<(String, VisitStats)>,
    pub layout: JumpLayout,
}

/// The characters that end a word for word deletion.
pub open spec fn is_word_sep(c: char) -> bool {
    c == ' ' || c == '/' || c == '-' || c == '_'
}

/// Where deleting the word before character position `k` stops: at the
/// last word separator before `k` (which is deleted too), else at 0.
pub open spec fn word_start(s: Seq<char>, k: int) -> int
    decreases k,
{
    if k <= 0 {
        0
    } else if is_word_sep(s[k - 1]) {
        k - 1
    } else {
        word_start(s, k - 1)
    }
}

/// A key as the screens see it.
#[derive(Clone, Copy, Debug, PartialEq, Eq)]
pub enum KeyCode {
    Esc,
    Enter,
    Up,
    Down,
    Left,
    Right,
    PageUp,
    PageDown,
    Home,
    End,
    Backspace,
    Delete,
    Char(char),
    Other,
}

/// A key press: the key, whether Control was held, and whether no modifier
/// other than Shift was held.
#[derive(Clone, Copy, Debug)]
pub struct KeyPress {
    pub code: KeyCode,
    pub ctrl: bool,
    pub plain: bool,
}

/// What the `jump` loop does after a key.
#[derive(Debug)]
pub enum JumpAction {
    /// Nothing further.
    Stay,
    /// The query changed: search again once typing pauses.
    InputChanged,
    /// Leave without a target.
    Cancel,
    /// Jump to this result.
    Jump(String),
    /// Jump to this pinned directory if it still exists.
    JumpToPin(String),
}

impl App {
    /// The cursor sits on a character boundary of the input, whose UTF-8
    /// length fits a `usize`.
    pub open spec fn wf(&self) -> bool {
        &&& is_boundary(self.input@, self.cursor as int)
        &&& utf8_len(self.input@) <= usize::MAX
        &&& keys_unique(self.pins@)
    }

    /// The cursor as a character position.
    pub open spec fn cursor_char(&self) -> int {
        choose|k: int| 0 <= k <= self.input@.len() && utf8_len(#[trigger] self.input@.take(k)) == self.cursor
    }

    /// Results, pins, history and layout are as in `o`.
    pub open spec fn keeps_data(&self, o: &App) -> bool {
        &&& self.results == o.results
        &&& self.pins == o.pins
        &&& self.frecency == o.frecency
        &&& self.layout == o.layout
    }

    /// Only the selection (and scroll position) may differ from `o`.
    pub open spec fn same_text(&self, o: &App) -> bool {
        &&& self.keeps_data(o)
        &&& self.input@ == o.input@
        &&& self.cursor == o.cursor
    }

    /// `self` is `o` after an edit that leaves `text` with the cursor at
    /// character position `k`, resetting the selection and scroll.
    pub open spec fn edited(&self, o: &App, text: Seq<char>, k: int) -> bool {
        &&& self.keeps_data(o)
        &&& self.input@ == text
        &&& self.cursor == utf8_len(text.take(k))
        &&& self.selected == 0
        &&& self.scroll_offset == 0
    }

    /// `self` is `o` after typing `c` at the cursor.
    pub open spec fn inserted(&self, o: &App, c: char) -> bool {
        self.edited(o, o.input@.insert(o.cursor_char(), c), o.cursor_char() + 1)
    }

    /// `self` is `o` after Backspace.
    pub open spec fn backspaced(&self, o: &App) -> bool {
        let k = o.cursor_char();
        if k > 0 {
            self.edited(o, o.input@.remove(k - 1), k - 1)
        } else {
            self.same_text(o) && self.selected == o.selected && self.scroll_offset == o.scroll_offset
        }
    }

    /// `self` is `o` after Delete.
    pub open spec fn deleted(&self, o: &App) -> bool {
        let k = o.cursor_char();
        if k < o.input@.len() {
            self.edited(o, o.input@.remove(k), k)
        } else {
            self.same_text(o) && self.selected == o.selected && self.scroll_offset == o.scroll_offset
        }
    }

    /// `self` is `o` after deleting the word before the cursor.
    pub open spec fn word_deleted(&self, o: &App) -> bool {
        let k = o.cursor_char();
        let j = word_start(o.input@, k);
        self.edited(o, o.input@.subrange(0, j) + o.input@.subrange(k, o.input@.len() as int), j)
    }

    /// `self` is `o` with the cursor moved to character position `k`.
    pub open spec fn cursor_moved(&self, o: &App, k: int) -> bool {
        &&& self.keeps_data(o)
        &&& self.input@ == o.input@
        &&& self.cursor == utf8_len(o.input@.take(k))
        &&& self.selected == o.selected
        &&& self.scroll_offset == o.scroll_offset
    }

    /// The selection after moving up: wraps from the first to the last.
    pub open spec fn up_from(sel: usize, n: nat) -> usize {
        if n == 0 { sel } else if sel == 0 { (n - 1) as usize } else { (sel - 1) as usize }
    }

    /// The selection after moving down: wraps from the last to the first.
    pub open spec fn down_from(sel: usize, n: nat) -> usize {
        if n == 0 { sel } else { ((sel + 1) % (n as int)) as usize }
    }

    /// A new screen with `initial_query` typed and the cursor after it.
    /// No two pins share a name.
    pub fn new(initial_query: &str, pins: Vec<(String, String)>, frecency: Vec<(String, VisitStats)>) -> (r: App)
        requires
            utf8_len(initial_query@) <= usize::MAX,
            keys_unique(pins@),
        ensures
            r.wf(),
            r.input@ == initial_query@,
            r.cursor == utf8_len(initial_query@),
            r.selected == 0,
            r.scroll_offset == 0,
            r.results.is_empty_results(),
            r.pins == pins,
            r.frecency == frecency,
            r.layout.is_blank(),
    {
        let chars = chars_of(initial_query);
        let cursor = byte_len(&chars);
        proof {
            lemma_take_all(initial_query@);
        }
        App {
            input: string_of(&chars),
            cursor,
            selected: 0,
            scroll_offset: 0,
            results: SearchResults::default(),
            pins,
            frecency,
            layout: JumpLayout::default(),
        }
    }

    /// How many results there are.
    pub fn visible_count(&self) -> (r: usize)
        ensures
            r == self.results.matches@.len(),
    {
        self.results.matches.len()
    }

    /// Keeps the selection on a result: 0 (and scroll 0) when there are none,
    /// the last result when it was past the end.
    pub fn clamp_selected(&mut self)
        ensures
            final(self).same_text(&*old(self)),
            final(self).selected == if old(self).results.matches@.len() == 0 {
                0
            } else if old(self).selected >= old(self).results.matches@.len() {
                (old(self).results.matches@.len() - 1) as usize
            } else {
                old(self).selected
            },
            final(self).scroll_offset == if old(self).results.matches@.len() == 0 {
                0
            } else {
                old(self).scroll_offset
            },
    {
        let n = self.visible_count();
        if n == 0 {
            self.selected = 0;
            self.scroll_offset = 0;
        } else if self.selected >= n {
            self.selected = n - 1;
        }
    }

    /// Selects the previous result, wrapping to the last.
    pub fn move_up(&mut self)
        ensures
            final(self).same_text(&*old(self)),
            final(self).scroll_offset == old(self).scroll_offset,
            final(self).selected == App::up_from(old(self).selected, old(self).results.matches@.len()),
    {
        let n = self.visible_count();
        if n == 0 {
            return;
        }
        if self.selected == 0 {
            self.selected = n - 1;
        } else {
            self.selected -= 1;
        }
    }

    /// Selects the next result, wrapping to the first.
    pub fn move_down(&mut self)
        ensures
            final(self).same_text(&*old(self)),
            final(self).scroll_offset == old(self).scroll_offset,
            final(self).selected == App::down_from(old(self).selected, old(self).results.matches@.len()),
    {
        let n = self.visible_count();
        if n == 0 {
            return;
        }
        self.selected = ((self.selected as u128 + 1) % (n as u128)) as usize;
    }

    /// Moves the selection up by `size`, stopping at the first result.
    pub fn page_up(&mut self, size: usize)
        ensures
            final(self).same_text(&*old(self)),
            final(self).scroll_offset == old(self).scroll_offset,
            final(self).selected == if old(self).selected >= size { (old(self).selected - size) as usize } else { 0 },
    {
        self.selected = if self.selected >= size { self.selected - size } else { 0 };
    }

    /// Moves the selection down by `size`, stopping at the last result.
    pub fn page_down(&mut self, size: usize)
        ensures
            final(self).same_text(&*old(self)),
            final(self).scroll_offset == old(self).scroll_offset,
            final(self).selected == if old(self).results.matches@.len() == 0 {
                old(self).selected
            } else if old(self).selected + size < old(self).results.matches@.len() - 1 {
                (old(self).selected + size) as usize
            } else {
                (old(self).results.matches@.len() - 1) as usize
            },
    {
        let n = self.visible_count();
        if n == 0 {
            return;
        }
        let target: u128 = self.selected as u128 + size as u128;
        self.selected = if target < (n - 1) as u128 { target as usize } else { n - 1 };
    }

    /// The selected result (the last one when the selection is past the end).
    pub fn selected_path(&self) -> (r: Option<&String>)
        ensures
            match r {
                Some(p) => self.results.matches@.len() > 0 && *p == self.results.matches@[
                    if self.selected < self.results.matches@.len() { self.selected as int } else { self.results.matches@.len() - 1 }],
                None => self.results.matches@.len() == 0,
            },
    {
        let m = &self.results.matches;
        if m.len() == 0 {
            None
        } else {
            let i = if self.selected < m.len() { self.selected } else { m.len() - 1 };
            Some(&m[i])
        }
    }

    /// Four times the frecency score of `path` at time `now`.
    pub fn frecency_quarters(&self, path: &str, now: u64) -> (r: u128)
        ensures
            r == score_quarters(lookup(self.frecency@, path@), now),
    {
        quarters_of(visits_in(&self.frecency, path), now)
    }

    /// Scrolls so that the selection is within the `h` rows shown.
    pub fn adjust_scroll(&mut self, h: usize)
        requires
            old(self).scroll_offset + h <= usize::MAX,
        ensures
            final(self).same_text(&*old(self)),
            final(self).selected == old(self).selected,
            final(self).scroll_offset == if h == 0 {
                old(self).scroll_offset
            } else if old(self).selected < old(self).scroll_offset {
                old(self).selected
            } else if old(self).selected >= old(self).scroll_offset + h {
                (old(self).selected - h + 1) as usize
            } else {
                old(self).scroll_offset
            },
    {
        if h == 0 {
            return;
        }
        if self.selected < self.scroll_offset {
            self.scroll_offset = self.selected;
        } else if self.selected >= self.scroll_offset + h {
            self.scroll_offset = self.selected - h + 1;
        }
    }

    /// Empties the query and resets cursor, selection and scroll.
    pub fn clear_input(&mut self)
        requires
            old(self).wf(),
        ensures
            final(self).wf(),
            final(self).edited(&*old(self), Seq::empty(), 0),
    {
        self.input = String::new();
        self.cursor = 0;
        self.selected = 0;
        self.scroll_offset = 0;
        assert(self.input@.take(0) =~= Seq::<char>::empty());
    }

    /// Replaces the query text, putting the cursor at character position `k`.
    fn set_text(&mut self, text: Vec<char>, k: usize)
        requires
            k <= text@.len(),
            keys_unique(old(self).pins@),
            utf8_len(text@) <= usize::MAX,
        ensures
            final(self).keeps_data(&*old(self)),
            final(self).input@ == text@,
            final(self).cursor == utf8_len(text@.take(k as int)),
            final(self).selected == 0,
            final(self).scroll_offset == 0,
            final(self).wf(),
    {
        let prefix = crate::text::slice_chars(&text, 0, k);
        proof {
            assert(prefix@ =~= text@.take(k as int));
            if k < text@.len() {
                crate::text::lemma_utf8_take_strict(text@, k as int, text@.len() as int);
            }
            lemma_take_all(text@);
        }
        self.cursor = byte_len(&prefix);
        self.input = string_of(&text);
        self.selected = 0;
        self.scroll_offset = 0;
    }

    /// Deletes back to the last word separator before the cursor (the
    /// separator too), or to the start; resets selection and scroll.
    pub fn delete_word(&mut self)
        requires
            old(self).wf(),
        ensures
            final(self).wf(),
            final(self).word_deleted(&*old(self)),
    {
        let s = chars_of(self.input.as_str());
        let k = char_pos(&s, self.cursor);
        proof {
            lemma_cursor_char(&*self, k as int);
        }
        let mut j = k;
        while j > 0 && !is_sep_char(s[j - 1])
            invariant
                j <= k <= s@.len(),
                word_start(s@, k as int) == word_start(s@, j as int),
            decreases j,
        {
            j = j - 1;
        }
        let j = if j > 0 { j - 1 } else { 0 };
        let mut text = crate::text::slice_chars(&s, 0, j);
        let tail = crate::text::slice_chars(&s, k, s.len());
        let ghost head = text@;
        text.append(&mut tail.clone());
        proof {
            assert(text@ =~= s@.subrange(0, j as int) + s@.subrange(k as int, s@.len() as int));
            lemma_utf8_drop_range(s@, j as int, k as int);
        }
        self.set_text(text, j);
    }

    /// Deletes the character before the cursor, if any (then resets
    /// selection and scroll).
    pub fn backspace(&mut self)
        requires
            old(self).wf(),
        ensures
            final(self).wf(),
            final(self).backspaced(&*old(self)),
    {
        if self.cursor > 0 {
            let s = chars_of(self.input.as_str());
            let k = char_pos(&s, self.cursor);
            proof {
                lemma_cursor_char(&*self, k as int);
                if k == 0 {
                    assert(s@.take(0).len() == 0);
                }
            }
            let mut text = s.clone();
            text.remove(k - 1);
            proof {
                lemma_utf8_drop_range(s@, k - 1, k as int);
                assert(text@ =~= s@.subrange(0, k - 1) + s@.subrange(k as int, s@.len() as int));
            }
            self.set_text(text, k - 1);
        } else {
            proof {
                lemma_cursor_char(&*self, 0);
                assert(self.input@.take(0).len() == 0);
            }
        }
    }

    /// Deletes the character at the cursor, if any (then resets selection
    /// and scroll).
    pub fn delete_char(&mut self)
        requires
            old(self).wf(),
        ensures
            final(self).wf(),
            final(self).deleted(&*old(self)),
    {
        let s = chars_of(self.input.as_str());
        let k = char_pos(&s, self.cursor);
        proof {
            lemma_cursor_char(&*self, k as int);
        }
        if k < s.len() {
            let mut text = s.clone();
            text.remove(k);
            proof {
                lemma_utf8_drop_range(s@, k as int, k + 1);
                assert(text@ =~= s@.subrange(0, k as int) + s@.subrange(k + 1, s@.len() as int));
                assert(text@.take(k as int) =~= s@.take(k as int));
            }
            self.set_text(text, k);
        }
    }

    /// Moves the cursor one character left, if it can.
    pub fn cursor_left(&mut self)
        requires
            old(self).wf(),
        ensures
            final(self).wf(),
            final(self).cursor_moved(&*old(self), if old(self).cursor_char() > 0 { old(self).cursor_char() - 1 } else { 0 }),
    {
        let s = chars_of(self.input.as_str());
        let k = char_pos(&s, self.cursor);
        proof {
            lemma_cursor_char(&*self, k as int);
        }
        if k > 0 {
            proof {
                lemma_utf8_take_step(s@, k - 1);
            }
            self.cursor = self.cursor - width_of(s[k - 1]);
        }
    }

    /// Moves the cursor one character right, if it can.
    pub fn cursor_right(&mut self)
        requires
            old(self).wf(),
        ensures
            final(self).wf(),
            final(self).cursor_moved(&*old(self), if old(self).cursor_char() < old(self).input@.len() { old(self).cursor_char() + 1 } else { old(self).cursor_char() }),
    {
        let s = chars_of(self.input.as_str());
        let k = char_pos(&s, self.cursor);
        proof {
            lemma_cursor_char(&*self, k as int);
        }
        if k < s.len() {
            proof {
                lemma_utf8_take_step(s@, k as int);
                if k + 1 < s@.len() {
                    crate::text::lemma_utf8_take_strict(s@, k + 1, s@.len() as int);
                }
                lemma_take_all(s@);
            }
            self.cursor = self.cursor + width_of(s[k]);
        }
    }

    /// Moves the cursor to the start of the query.
    pub fn cursor_home(&mut self)
        requires
            old(self).wf(),
        ensures
            final(self).wf(),
            final(self).cursor_moved(&*old(self), 0),
    {
        self.cursor = 0;
        assert(self.input@.take(0).len() == 0);
    }

    /// Moves the cursor to the end of the query.
    pub fn cursor_end(&mut self)
        requires
            old(self).wf(),
        ensures
            final(self).wf(),
            final(self).cursor_moved(&*old(self), old(self).input@.len() as int),
    {
        let s = chars_of(self.input.as_str());
        proof {
            lemma_take_all(s@);
        }
        self.cursor = byte_len(&s);
    }

    /// Types `c` at the cursor and moves the cursor past it; resets
    /// selection and scroll.
    pub fn insert_char(&mut self, c: char)
        requires
            old(self).wf(),
            utf8_len(old(self).input@) + 4 <= usize::MAX,
        ensures
            final(self).wf(),
            final(self).inserted(&*old(self), c),
    {
        let s = chars_of(self.input.as_str());
        let k = char_pos(&s, self.cursor);
        proof {
            lemma_cursor_char(&*self, k as int);
        }
        let mut text = s.clone();
        text.insert(k, c);
        proof {
            let t = text@;
            assert(t =~= s@.subrange(0, k as int) + seq![c] + s@.subrange(k as int, s@.len() as int));
            assert(s@ =~= s@.subrange(0, k as int) + s@.subrange(k as int, s@.len() as int));
            lemma_utf8_concat(s@.subrange(0, k as int), s@.subrange(k as int, s@.len() as int));
            lemma_utf8_concat(s@.subrange(0, k as int) + seq![c], s@.subrange(k as int, s@.len() as int));
            lemma_utf8_concat(s@.subrange(0, k as int), seq![c]);
            crate::text::lemma_utf8_single(c);
            crate::text::lemma_utf8_at_least_len(s@);
            assert(utf8_len(text@) == utf8_len(s@) + char_width(c));
        }
        self.set_text(text, k + 1);
    }
}

/// A word separator for word deletion.
fn is_sep_char(c: char) -> (r: bool)
    ensures
        r == is_word_sep(c),
{
    c == ' ' || c == '/' || c == '-' || c == '_'
}

/// The UTF-8 length of `s`.
pub fn byte_len(s: &Vec<char>) -> (r: usize)
    requires
        utf8_len(s@) <= usize::MAX,
    ensures
        r == utf8_len(s@),
{
    let mut acc: usize = 0;
    for i in 0..s.len()
        invariant
            utf8_len(s@) <= usize::MAX,
            acc == utf8_len(s@.take(i as int)),
    {
        proof {
            lemma_utf8_take_step(s@, i as int);
            if i + 1 < s@.len() {
                crate::text::lemma_utf8_take_strict(s@, i + 1, s@.len() as int);
            }
            lemma_take_all(s@);
        }
        acc = acc + width_of(s[i]);
    }
    proof {
        lemma_take_all(s@);
    }
    acc
}

/// The cursor's character position is the one found by scanning.
proof fn lemma_cursor_char(a: &App, k: int)
    requires
        0 <= k <= a.input@.len(),
        utf8_len(a.input@.take(k)) == a.cursor,
    ensures
        a.cursor_char() == k,
{
    let c = a.cursor_char();
    assert(0 <= c <= a.input@.len() && utf8_len(a.input@.take(c)) == a.cursor);
    if c < k {
        crate::text::lemma_utf8_take_strict(a.input@, c, k);
    } else if c > k {
        crate::text::lemma_utf8_take_strict(a.input@, k, c);
    }
}

/// Typing a character and then pressing Backspace gives back the text and
/// the cursor position, with the selection and scroll back at the top and
/// results, pins and history untouched.
pub proof fn law_backspace_undoes_typing(o: App, m: App, n: App, c: char)
    requires
        o.wf(),
        m.inserted(&o, c),
        n.backspaced(&m),
    ensures
        n.input@ == o.input@,
        n.cursor == o.cursor,
        n.selected == 0,
        n.scroll_offset == 0,
        n.keeps_data(&o),
{
    let k = o.cursor_char();
    assert(0 <= k <= o.input@.len() && utf8_len(o.input@.take(k)) == o.cursor);
    let t = o.input@.insert(k, c);
    assert(m.input@ == t);
    assert(0 <= k + 1 <= m.input@.len());
    lemma_cursor_char(&m, k + 1);
    assert(t.remove(k) =~= o.input@);
    assert(t.take(k) =~= o.input@.take(k));
}

/// Word deletion from character position `m` stops at the separator at
/// `a` when no separator lies between them.
proof fn lemma_word_start_run(s: Seq<char>, a: int, m: int)
    requires
        0 <= a < m <= s.len(),
        is_word_sep(s[a]),
        forall|j: int| a < j < m ==> !is_word_sep(#[trigger] s[j]),
    ensures
        word_start(s, m) == a,
    decreases m,
{
    if m - 1 > a {
        lemma_word_start_run(s, a, m - 1);
    }
}

/// Word deletion from character position `m` runs to the start when no
/// separator lies before `m`.
proof fn lemma_word_start_none(s: Seq<char>, m: int)
    requires
        0 <= m <= s.len(),
        forall|j: int| 0 <= j < m ==> !is_word_sep(#[trigger] s[j]),
    ensures
        word_start(s, m) == 0,
    decreases m,
{
    if m > 0 {
        lemma_word_start_none(s, m - 1);
    }
}

/// Ctrl+W deletes the word before the cursor together with the one space,
/// `/`, `-` or `_` in front of it, and nothing before that: with the text
/// `p + sep + w + rest`, the cursor after `w` and `w` free of those four
/// characters, the text becomes `p + rest` with the cursor after `p`; when
/// no such character comes before the cursor, everything before it goes.
pub proof fn law_delete_word_stops_at_separator(o: App, n: App, p: Seq<char>, sep: char, w: Seq<char>, rest: Seq<char>)
    requires
        o.wf(),
        forall|i: int| 0 <= i < w.len() ==> #[trigger] w[i] != ' ' && w[i] != '/' && w[i] != '-' && w[i] != '_',
        n.word_deleted(&o),
    ensures
        (sep == ' ' || sep == '/' || sep == '-' || sep == '_') && o.input@ == p + seq![sep] + w + rest && o.cursor
            == utf8_len(p + seq![sep] + w) ==> n.input@ == p + rest && n.cursor == utf8_len(p),
        o.input@ == w + rest && o.cursor == utf8_len(w) ==> n.input@ == rest && n.cursor == 0,
        n.selected == 0,
        n.scroll_offset == 0,
        n.keeps_data(&o),
{
    let s = o.input@;
    if (sep == ' ' || sep == '/' || sep == '-' || sep == '_') && s == p + seq![sep] + w + rest && o.cursor
        == utf8_len(p + seq![sep] + w) {
        let a = p.len() as int;
        let k = a + 1 + w.len();
        assert(s.take(k) =~= p + seq![sep] + w);
        lemma_cursor_char(&o, k);
        assert(s[a] == sep);
        assert forall|j: int| a < j < k implies !is_word_sep(#[trigger] s[j]) by {
            assert(s[j] == w[j - a - 1]);
        }
        lemma_word_start_run(s, a, k);
        let t = s.subrange(0, a) + s.subrange(k, s.len() as int);
        assert(t =~= p + rest);
        assert(t.take(a) =~= p);
    }
    if s == w + rest && o.cursor == utf8_len(w) {
        let k = w.len() as int;
        assert(s.take(k) =~= w);
        lemma_cursor_char(&o, k);
        assert forall|j: int| 0 <= j < k implies !is_word_sep(#[trigger] s[j]) by {
            assert(s[j] == w[j]);
        }
        lemma_word_start_none(s, k);
        let t = s.subrange(0, 0) + s.subrange(k, s.len() as int);
        assert(t =~= rest);
        assert(t.take(0) =~= Seq::<char>::empty());
    }
}

/// Dropping characters `j..k` shortens the UTF-8 length and keeps the
/// prefix before `j`.
proof fn lemma_utf8_drop_range(s: Seq<char>, j: int, k: int)
    requires
        0 <= j <= k <= s.len(),
    ensures
        utf8_len(s.subrange(0, j) + s.subrange(k, s.len() as int)) <= utf8_len(s),
        (s.subrange(0, j) + s.subrange(k, s.len() as int)).take(j) == s.take(j),
{
    let a = s.subrange(0, j);
    let b = s.subrange(j, k);
    let c = s.subrange(k, s.len() as int);
    assert(s =~= a + b + c);
    lemma_utf8_concat(a + b, c);
    lemma_utf8_concat(a, b);
    lemma_utf8_concat(a, c);
    assert((a + c).take(j) =~= s.take(j));
}


/// `order` lists, once each, exactly the positions `i < n` with `pass(i)`,
/// sorted by `lt`, and by position among positions neither sorts before.
pub open spec fn is_sorted_selection(
    n: int,
    pass: spec_fn(int) -> bool,
    lt: spec_fn(int, int) -> bool,
    order: Seq<int>,
) -> bool {
    &&& forall|k: int| #![trigger order[k]] 0 <= k < order.len() ==> 0 <= order[k] < n && pass(order[k])
    &&& forall|i: int| 0 <= i < n && #[trigger] pass(i) ==> order.contains(i)
    &&& forall|k: int, l: int|
        0 <= k < l < order.len() ==> lt(#[trigger] order[k], #[trigger] order[l]) || (!lt(order[l], order[k])
            && order[k] < order[l])
}

/// `lt` is a strict order whose incomparable pairs behave as equals.
pub open spec fn is_weak_order(lt: spec_fn(int, int) -> bool) -> bool {
    &&& forall|a: int, b: int| #[trigger] lt(a, b) ==> !lt(b, a)
    &&& forall|a: int, b: int, c: int| #[trigger] lt(a, b) && #[trigger] lt(b, c) ==> lt(a, c)
    &&& forall|a: int, b: int, c: int| #[trigger] lt(a, b) && !lt(b, c) && !lt(c, b) ==> #[trigger] lt(a, c)
}

/// Inserting `ii` at `jj` keeps a sorted selection sorted when nothing
/// before `jj` sorts after `ii` and the position at `jj` (if any) does.
proof fn lemma_insert_sorted(
    old_order: Seq<int>,
    jj: int,
    ii: int,
    pass: spec_fn(int) -> bool,
    lt: spec_fn(int, int) -> bool,
)
    requires
        is_sorted_selection(ii, pass, lt, old_order),
        is_weak_order(lt),
        pass(ii),
        0 <= ii,
        0 <= jj <= old_order.len(),
        forall|m: int| 0 <= m < jj ==> !lt(ii, #[trigger] old_order[m]),
        jj < old_order.len() ==> lt(ii, old_order[jj]),
    ensures
        is_sorted_selection(ii + 1, pass, lt, old_order.insert(jj, ii)),
{
    let newm = old_order.insert(jj, ii);
    assert forall|m: int| #![trigger newm[m]] 0 <= m < newm.len() implies 0 <= newm[m] && newm[m] < ii + 1 && pass(newm[m]) by {
        if m < jj {
            assert(newm[m] == old_order[m]);
        } else if m > jj {
            assert(newm[m] == old_order[m - 1]);
        } else {
            assert(newm[m] == ii);
        }
    }
    assert forall|x: int| 0 <= x < ii + 1 && #[trigger] pass(x) implies newm.contains(x) by {
        if x < ii {
            assert(old_order.contains(x));
            let w = choose|w: int| 0 <= w < old_order.len() && old_order[w] == x;
            if w < jj {
                assert(newm[w] == x);
            } else {
                assert(newm[w + 1] == x);
            }
        } else {
            assert(newm[jj] == x);
        }
    }
    assert forall|a: int, b: int| 0 <= a < b < newm.len() implies lt(#[trigger] newm[a], #[trigger] newm[b])
        || (!lt(newm[b], newm[a]) && newm[a] < newm[b]) by {
        if b < jj {
            assert(newm[a] == old_order[a] && newm[b] == old_order[b]);
        } else if b == jj {
            assert(newm[a] == old_order[a]);
            assert(!lt(ii, old_order[a]));
            assert(old_order[a] < ii);
        } else if a > jj {
            assert(newm[a] == old_order[a - 1] && newm[b] == old_order[b - 1]);
        } else if a == jj {
            assert(newm[b] == old_order[b - 1]);
            let o1 = old_order[jj];
            let o2 = old_order[b - 1];
            assert(lt(ii, o1));
            if b - 1 > jj {
                assert(lt(o1, o2) || (!lt(o2, o1) && o1 < o2));
                assert(lt(ii, o2));
            }
            assert(!lt(o2, ii));
        } else {
            assert(newm[a] == old_order[a] && newm[b] == old_order[b - 1]);
        }
    }
}

/// The pins whose name or path contains `q` (lowercased); all pins when
/// the query is empty.
pub open spec fn pin_shown(q: Seq<char>, name: Seq<char>, path: Seq<char>) -> bool {
    q.len() == 0 || occurs_in(unicode_lowercase(name), unicode_lowercase(q)) || occurs_in(
        unicode_lowercase(path),
        unicode_lowercase(q),
    )
}

/// Which pin positions `matching_pins` shows for query `q`.
pub open spec fn pins_shown_at(q: Seq<char>, pins: Seq<(String, String)>) -> spec_fn(int) -> bool {
    |i: int| pin_shown(q, pins[i].0@, pins[i].1@)
}

/// Pin positions ordered by pin name.
pub open spec fn pins_by_name(pins: Seq<(String, String)>) -> spec_fn(int, int) -> bool {
    |a: int, b: int| lex_lt(pins[a].0@, pins[b].0@)
}

/// `r` holds the pins shown for query `q` (see `pin_shown`), each once,
/// sorted by name, pins with equal names in their order.
pub open spec fn offered_pins(pins: Seq<(String, String)>, q: Seq<char>, r: Seq<(String, String)>) -> bool {
    exists|order: Seq<int>|
        {
            &&& #[trigger] is_sorted_selection(pins.len() as int, pins_shown_at(q, pins), pins_by_name(pins), order)
            &&& r.len() == order.len()
            &&& forall|k: int| #![trigger r[k]] 0 <= k < order.len() ==> r[k].0@ == pins[order[k]].0@ && r[k].1@ == pins[order[k]].1@
        }
}

/// Some entry of `r` is the pin `name` → `path`.
pub open spec fn lists_pin(r: Seq<(String, String)>, name: Seq<char>, path: Seq<char>) -> bool {
    exists|k: int| 0 <= k < r.len() && r[k].0@ == name && r[k].1@ == path
}

/// Some pin is `name` → `path` and its lowercase name or lowercase path
/// contains the lowercase query `q` (or `q` is empty).
pub open spec fn pin_with_hit(pins: Seq<(String, String)>, q: Seq<char>, name: Seq<char>, path: Seq<char>) -> bool {
    exists|i: int|
        0 <= i < pins.len() && #[trigger] pins[i].0@ == name && pins[i].1@ == path && (q.len() == 0 || occurs_in(
            unicode_lowercase(name),
            unicode_lowercase(q),
        ) || occurs_in(unicode_lowercase(path), unicode_lowercase(q)))
}

/// The pins offered for a query are exactly those whose lowercase name or
/// lowercase path contains the lowercase query (all of them for an empty
/// query): every such pin is offered, whether the query is found in its
/// name or only in its path, and every offered entry is such a pin.
pub proof fn law_pins_offered_by_name_or_path(pins: Seq<(String, String)>, q: Seq<char>, r: Seq<(String, String)>)
    requires
        offered_pins(pins, q, r),
    ensures
        forall|i: int|
            0 <= i < pins.len() && (q.len() == 0 || occurs_in(unicode_lowercase(#[trigger] pins[i].0@), unicode_lowercase(q))
                || occurs_in(unicode_lowercase(pins[i].1@), unicode_lowercase(q))) ==> lists_pin(r, pins[i].0@, pins[i].1@),
        forall|k: int| 0 <= k < r.len() ==> pin_with_hit(pins, q, #[trigger] r[k].0@, r[k].1@),
{
    let pass = pins_shown_at(q, pins);
    let order = choose|order: Seq<int>|
        {
            &&& #[trigger] is_sorted_selection(pins.len() as int, pass, pins_by_name(pins), order)
            &&& r.len() == order.len()
            &&& forall|k: int| #![trigger r[k]] 0 <= k < order.len() ==> r[k].0@ == pins[order[k]].0@ && r[k].1@ == pins[order[k]].1@
        };
    assert forall|i: int|
        0 <= i < pins.len() && (q.len() == 0 || occurs_in(unicode_lowercase(#[trigger] pins[i].0@), unicode_lowercase(q))
            || occurs_in(unicode_lowercase(pins[i].1@), unicode_lowercase(q))) implies lists_pin(r, pins[i].0@, pins[i].1@) by {
        assert(pass(i));
        assert(order.contains(i));
        let k = choose|k: int| 0 <= k < order.len() && order[k] == i;
        assert(r[k].0@ == pins[i].0@ && r[k].1@ == pins[i].1@);
    }
    assert forall|k: int| 0 <= k < r.len() implies pin_with_hit(pins, q, #[trigger] r[k].0@, r[k].1@) by {
        let i = order[k];
        assert(0 <= i < pins.len() && pass(i));
        assert(r[k].0@ == pins[i].0@ && r[k].1@ == pins[i].1@);
    }
}

/// Ordering pins by name is a weak order.
proof fn lemma_pins_by_name(pins: Seq<(String, String)>)
    ensures
        is_weak_order(pins_by_name(pins)),
{
    let lt = pins_by_name(pins);
    assert forall|a: int, b: int| #[trigger] lt(a, b) implies !lt(b, a) by {
        lemma_lex_total(pins[a].0@, pins[b].0@);
    }
    assert forall|a: int, b: int, c: int| #[trigger] lt(a, b) && #[trigger] lt(b, c) implies lt(a, c) by {
        lemma_lex_trans(pins[a].0@, pins[b].0@, pins[c].0@);
    }
    assert forall|a: int, b: int, c: int| #[trigger] lt(a, b) && !lt(b, c) && !lt(c, b) implies #[trigger] lt(a, c) by {
        lemma_lex_total(pins[b].0@, pins[c].0@);
    }
}

impl App {
    /// The pins to offer: those whose name or path contains the query
    /// (ignoring case), or all of them for an empty query, sorted by name
    /// (pins with equal names keep their order).
    pub fn matching_pins(&self) -> (r: Vec<(String, String)>)
        ensures
            offered_pins(self.pins@, self.input@, r@),
            self.wf() ==> forall|a: int, b: int| 0 <= a < b < r@.len() ==> lex_lt(#[trigger] r@[a].0@, #[trigger] r@[b].0@),
    {
        let ghost pass = pins_shown_at(self.input@, self.pins@);
        let ghost lt = pins_by_name(self.pins@);
        proof {
            lemma_pins_by_name(self.pins@);
        }
        let q = crate::text::lower_chars(self.input.as_str());
        let empty = self.input.as_str().is_empty();
        let mut names: Vec<Vec<char>> = Vec::new();
        let mut order: Vec<usize> = Vec::new();
        for i in 0..self.pins.len()
            invariant
                pass == pins_shown_at(self.input@, self.pins@),
                lt == pins_by_name(self.pins@),
                is_weak_order(lt),
                empty == (self.input@.len() == 0),
                q@ == unicode_lowercase(self.input@),
                names@.len() == i,
                forall|x: int| 0 <= x < i ==> #[trigger] names@[x]@ == self.pins@[x].0@,
                is_sorted_selection(i as int, pass, lt, crate::search::positions(order@)),
        {
            let name = chars_of(self.pins[i].0.as_str());
            let shown = empty || contains_chars(&crate::text::lower_chars(self.pins[i].0.as_str()), &q)
                || contains_chars(&crate::text::lower_chars(self.pins[i].1.as_str()), &q);
            names.push(name);
            assert(shown == pass(i as int));
            if shown {
                let ghost old_order = crate::search::positions(order@);
                assert forall|m: int| 0 <= m < order@.len() implies #[trigger] order@[m] < i by {
                    assert(old_order[m] == order@[m] as int);
                }
                let mut j: usize = 0;
                while j < order.len() && !text_lt(&names[i], &names[order[j]])
                    invariant
                        j <= order.len(),
                        names@.len() == i + 1,
                        forall|x: int| 0 <= x <= i ==> #[trigger] names@[x]@ == self.pins@[x].0@,
                        old_order == crate::search::positions(order@),
                        forall|m: int| 0 <= m < order@.len() ==> #[trigger] order@[m] < i,
                        forall|m: int| 0 <= m < j ==> !lt(i as int, #[trigger] old_order[m]),
                        lt == pins_by_name(self.pins@),
                    decreases order.len() - j,
                {
                    assert(old_order[j as int] == order@[j as int] as int);
                    j = j + 1;
                }
                proof {
                    if j < order.len() {
                        assert(old_order[j as int] == order@[j as int] as int);
                    }
                }
                order.insert(j, i);
                proof {
                    assert(crate::search::positions(order@) =~= old_order.insert(j as int, i as int));
                    lemma_insert_sorted(old_order, j as int, i as int, pass, lt);
                }
            } else {
                assert(forall|k: int| 0 <= k < order@.len() ==> #[trigger] crate::search::positions(order@)[k] < i + 1);
            }
        }
        let ghost ord = crate::search::positions(order@);
        let mut r: Vec<(String, String)> = Vec::new();
        for k in 0..order.len()
            invariant
                ord == crate::search::positions(order@),
                is_sorted_selection(self.pins@.len() as int, pass, lt, ord),
                r@.len() == k,
                forall|m: int| #![trigger r@[m]] 0 <= m < k ==> r@[m].0@ == self.pins@[ord[m]].0@ && r@[m].1@ == self.pins@[ord[m]].1@,
        {
            assert(ord[k as int] == order@[k as int] as int);
            let p = &self.pins[order[k]];
            let e = (p.0.clone(), p.1.clone());
            assert(e.0@ == self.pins@[ord[k as int]].0@ && e.1@ == self.pins@[ord[k as int]].1@);
            r.push(e);
            assert(r@[k as int] == e);
        }
        assert(is_sorted_selection(self.pins@.len() as int, pins_shown_at(self.input@, self.pins@), pins_by_name(self.pins@), ord));
        proof {
            if self.wf() {
                assert forall|a: int, b: int| 0 <= a < b < r@.len() implies lex_lt(#[trigger] r@[a].0@, #[trigger] r@[b].0@) by {
                    let oa = ord[a];
                    let ob = ord[b];
                    lemma_lex_total(self.pins@[oa].0@, self.pins@[ob].0@);
                    if !lt(oa, ob) {
                        assert(oa < ob);
                        assert(self.pins@[oa].0@ != self.pins@[ob].0@);
                    }
                }
            }
        }
        r
    }
}


impl App {
    /// Enter picks among pins: there are no results, and some pin matches
    /// the query (for an empty query: there is a pin at all).
    pub open spec fn pin_mode(&self) -> bool {
        &&& self.results.matches@.len() == 0
        &&& exists|i: int| 0 <= i < self.pins@.len() && #[trigger] pins_shown_at(self.input@, self.pins@)(i)
    }

    /// What Enter does: in pin mode, jump to the selected pin of the sorted
    /// pin list (if the selection is on one); otherwise jump to the
    /// selected result (if there is one).
    pub open spec fn enter_action(&self, a: JumpAction) -> bool {
        if self.pin_mode() {
            exists|order: Seq<int>|
                {
                    &&& #[trigger] is_sorted_selection(
                        self.pins@.len() as int,
                        pins_shown_at(self.input@, self.pins@),
                        pins_by_name(self.pins@),
                        order,
                    )
                    &&& if self.selected < order.len() {
                        a matches JumpAction::JumpToPin(p) && p@ == self.pins@[order[self.selected as int]].1@
                    } else {
                        a is Stay
                    }
                }
        } else if self.results.matches@.len() > 0 {
            a matches JumpAction::Jump(p) && p@ == self.results.matches@[
                if self.selected < self.results.matches@.len() { self.selected as int } else { self.results.matches@.len() - 1 }]@
        } else {
            a is Stay
        }
    }

    /// `self` is `o` after the navigation key `code` (which edits nothing).
    pub open spec fn navigated(&self, o: &App, up: bool, page: bool) -> bool {
        &&& self.same_text(o)
        &&& self.scroll_offset == o.scroll_offset
        &&& self.selected == if page {
            if up {
                if o.selected >= 10 { (o.selected - 10) as usize } else { 0 }
            } else if o.results.matches@.len() == 0 {
                o.selected
            } else if o.selected + 10 < o.results.matches@.len() - 1 {
                (o.selected + 10) as usize
            } else {
                (o.results.matches@.len() - 1) as usize
            }
        } else if up {
            App::up_from(o.selected, o.results.matches@.len())
        } else {
            App::down_from(o.selected, o.results.matches@.len())
        }
    }

    /// The effect of one key on the `jump` screen: `self` is `o` after the
    /// key and `a` is what the loop does next.
    pub open spec fn key_result(&self, o: &App, key: KeyPress, a: JumpAction) -> bool {
        let unchanged = *self == *o;
        match key.code {
            KeyCode::Esc => unchanged && a is Cancel,
            KeyCode::Char('c') if key.ctrl => unchanged && a is Cancel,
            KeyCode::Enter => unchanged && o.enter_action(a),
            KeyCode::Up => self.navigated(o, true, false) && a is Stay,
            KeyCode::Down => self.navigated(o, false, false) && a is Stay,
            KeyCode::PageUp => self.navigated(o, true, true) && a is Stay,
            KeyCode::PageDown => self.navigated(o, false, true) && a is Stay,
            KeyCode::Char('k') if key.ctrl => self.navigated(o, true, false) && a is Stay,
            KeyCode::Char('j') if key.ctrl => self.navigated(o, false, false) && a is Stay,
            KeyCode::Char('n') if key.ctrl => self.navigated(o, false, false) && a is Stay,
            KeyCode::Char('p') if key.ctrl => self.navigated(o, true, false) && a is Stay,
            KeyCode::Char('u') if key.ctrl => self.edited(o, Seq::empty(), 0) && a is InputChanged,
            KeyCode::Char('w') if key.ctrl => self.word_deleted(o) && a is InputChanged,
            KeyCode::Backspace => self.backspaced(o) && a is InputChanged,
            KeyCode::Delete => self.deleted(o) && a is InputChanged,
            KeyCode::Left => self.cursor_moved(o, if o.cursor_char() > 0 { o.cursor_char() - 1 } else { 0 })
                && a is Stay,
            KeyCode::Right => self.cursor_moved(o, if o.cursor_char() < o.input@.len() { o.cursor_char() + 1 } else { o.cursor_char() })
                && a is Stay,
            KeyCode::Home => self.cursor_moved(o, 0) && a is Stay,
            KeyCode::End => self.cursor_moved(o, o.input@.len() as int) && a is Stay,
            KeyCode::Char('a') if key.ctrl => self.cursor_moved(o, 0) && a is Stay,
            KeyCode::Char('e') if key.ctrl => self.cursor_moved(o, o.input@.len() as int) && a is Stay,
            KeyCode::Char(c) if key.plain => self.inserted(o, c) && a is InputChanged,
            _ => unchanged && a is Stay,
        }
    }

    /// What Enter asks for.
    fn enter(&self) -> (a: JumpAction)
        ensures
            self.enter_action(a),
    {
        if self.results.matches.len() == 0 {
            let pins = self.matching_pins();
            let ghost order = choose|order: Seq<int>|
                {
                    &&& #[trigger] is_sorted_selection(
                        self.pins@.len() as int,
                        pins_shown_at(self.input@, self.pins@),
                        pins_by_name(self.pins@),
                        order,
                    )
                    &&& pins@.len() == order.len()
                    &&& forall|k: int| #![trigger pins@[k]] 0 <= k < order.len() ==> pins@[k].0@ == self.pins@[order[k]].0@ && pins@[k].1@ == self.pins@[order[k]].1@
                };
            proof {
                let pass = pins_shown_at(self.input@, self.pins@);
                if exists|i: int| 0 <= i < self.pins@.len() && #[trigger] pass(i) {
                    let i = choose|i: int| 0 <= i < self.pins@.len() && #[trigger] pass(i);
                    assert(order.contains(i));
                }
                if order.len() > 0 {
                    assert(pass(order[0]));
                }
            }
            if pins.len() > 0 {
                if self.selected < pins.len() {
                    let p = pins[self.selected].1.clone();
                    assert(pins@[self.selected as int].1@ == self.pins@[order[self.selected as int]].1@);
                    return JumpAction::JumpToPin(p);
                }
                return JumpAction::Stay;
            }
        }
        match self.selected_path() {
            Some(p) => JumpAction::Jump(p.clone()),
            None => JumpAction::Stay,
        }
    }

    /// Applies one key to the screen and says what the loop does next.
    pub fn handle_key(&mut self, key: KeyPress) -> (a: JumpAction)
        requires
            old(self).wf(),
            utf8_len(old(self).input@) + 4 <= usize::MAX,
        ensures
            final(self).wf(),
            final(self).key_result(&*old(self), key, a),
    {
        match key.code {
            KeyCode::Esc => JumpAction::Cancel,
            KeyCode::Enter => self.enter(),
            KeyCode::Up => {
                self.move_up();
                JumpAction::Stay
            },
            KeyCode::Down => {
                self.move_down();
                JumpAction::Stay
            },
            KeyCode::PageUp => {
                self.page_up(10);
                JumpAction::Stay
            },
            KeyCode::PageDown => {
                self.page_down(10);
                JumpAction::Stay
            },
            KeyCode::Backspace => {
                self.backspace();
                JumpAction::InputChanged
            },
            KeyCode::Delete => {
                self.delete_char();
                JumpAction::InputChanged
            },
            KeyCode::Left => {
                self.cursor_left();
                JumpAction::Stay
            },
            KeyCode::Right => {
                self.cursor_right();
                JumpAction::Stay
            },
            KeyCode::Home => {
                self.cursor_home();
                JumpAction::Stay
            },
            KeyCode::End => {
                self.cursor_end();
                JumpAction::Stay
            },
            KeyCode::Char(c) => self.handle_char(c, key.ctrl, key.plain),
            KeyCode::Other => JumpAction::Stay,
        }
    }

    /// A character key, with Control held or not, with no other modifier
    /// than Shift or not.
    fn handle_char(&mut self, c: char, ctrl: bool, plain: bool) -> (a: JumpAction)
        requires
            old(self).wf(),
            utf8_len(old(self).input@) + 4 <= usize::MAX,
        ensures
            final(self).wf(),
            final(self).key_result(&*old(self), KeyPress { code: KeyCode::Char(c), ctrl, plain }, a),
    {
        if ctrl && c == 'c' {
            JumpAction::Cancel
        } else if ctrl && (c == 'k' || c == 'p') {
            self.move_up();
            JumpAction::Stay
        } else if ctrl && (c == 'j' || c == 'n') {
            self.move_down();
            JumpAction::Stay
        } else if ctrl && c == 'u' {
            self.clear_input();
            JumpAction::InputChanged
        } else if ctrl && c == 'w' {
            self.delete_word();
            JumpAction::InputChanged
        } else if ctrl && c == 'a' {
            self.cursor_home();
            JumpAction::Stay
        } else if ctrl && c == 'e' {
            self.cursor_end();
            JumpAction::Stay
        } else if plain {
            self.insert_char(c);
            JumpAction::InputChanged
        } else {
            JumpAction::Stay
        }
    }

    /// Takes new results if they answer the current query (then keeps the
    /// selection on a result); says whether it took them.
    pub fn accept_results(&mut self, nr: SearchResults) -> (took: bool)
        ensures
            took == (nr.query@ == old(self).input@),
            took ==> {
                &&& final(self).results == nr
                &&& final(self).input@ == old(self).input@
                &&& final(self).cursor == old(self).cursor
                &&& final(self).pins == old(self).pins
                &&& final(self).frecency == old(self).frecency
                &&& final(self).layout == old(self).layout
                &&& final(self).selected == if nr.matches@.len() == 0 {
                    0
                } else if old(self).selected >= nr.matches@.len() {
                    (nr.matches@.len() - 1) as usize
                } else {
                    old(self).selected
                }
                &&& final(self).scroll_offset == if nr.matches@.len() == 0 { 0 } else { old(self).scroll_offset }
            },
            !took ==> *final(self) == *old(self),
    {
        let same = crate::text::same_chars(&chars_of(nr.query.as_str()), &chars_of(self.input.as_str()));
        if same {
            self.results = nr;
            self.clamp_selected();
            true
        } else {
            false
        }
    }

    /// Starts a new search once typing pauses: with an empty query the
    /// results are cleared and nothing is searched; otherwise the results
    /// are marked as searching and a search should start.
    pub fn begin_search(&mut self) -> (start: bool)
        ensures
            start == (old(self).input@.len() > 0),
            final(self).input == old(self).input,
            final(self).cursor == old(self).cursor,
            final(self).selected == old(self).selected,
            final(self).scroll_offset == old(self).scroll_offset,
            final(self).pins == old(self).pins,
            final(self).frecency == old(self).frecency,
            final(self).layout == old(self).layout,
            start ==> {
                &&& final(self).results.searching
                &&& final(self).results.query == old(self).results.query
                &&& final(self).results.matches == old(self).results.matches
                &&& final(self).results.local_count == old(self).results.local_count
                &&& final(self).results.tick == old(self).results.tick
            },
            !start ==> final(self).results.is_empty_results(),
    {
        if self.input.as_str().is_empty() {
            self.results = SearchResults::default();
            false
        } else {
            self.results.searching = true;
            true
        }
    }
}

impl App {
    /// What a mouse event does on the `jump` screen: the wheel moves the
    /// selection; a left press in the search field puts the cursor at the
    /// clicked character; a left press on a result row selects it (when a
    /// result is there), and a second press on the same row within 400 ms
    /// does what Enter does; anything else does nothing. `last` is the
    /// press remembered for double clicks, and `r.1` the one to remember
    /// next.
    pub open spec fn mouse_result(
        &self,
        o: &App,
        kind: MouseKind,
        col: u16,
        row: u16,
        now_ms: u64,
        last: Option<Click>,
        r: (JumpAction, Option<Click>),
    ) -> bool {
        match kind {
            MouseKind::ScrollUp => r.0 is Stay && r.1 == last && self.navigated(o, true, false),
            MouseKind::ScrollDown => r.0 is Stay && r.1 == last && self.navigated(o, false, false),
            MouseKind::LeftDown => match o.layout.search_hit(col, row, o.input@.len() as usize) {
                Some(k) => r.0 is Stay && r.1 == last && self.cursor_moved(o, k as int),
                None => match o.layout.list_hit(col, row, o.scroll_offset) {
                    Some(idx) => {
                        &&& self.same_text(o)
                        &&& self.scroll_offset == o.scroll_offset
                        &&& self.selected == if idx < o.results.matches@.len() { idx } else { o.selected }
                        &&& if last matches Some(c) && ExplorerState::repeats(c, col, row, idx, now_ms) {
                            r.1 is None && self.enter_action(r.0)
                        } else {
                            r.0 is Stay && r.1 == Some(Click { at_ms: now_ms, col, row, index: idx })
                        }
                    },
                    None => r.0 is Stay && r.1 == last && *self == *o,
                },
            },
            MouseKind::Other => r.0 is Stay && r.1 == last && *self == *o,
        }
    }

    /// Handles a mouse event (see `mouse_result`).
    pub fn mouse_event(&mut self, kind: MouseKind, col: u16, row: u16, now_ms: u64, last: Option<Click>) -> (r: (
        JumpAction,
        Option<Click>,
    ))
        requires
            old(self).wf(),
            old(self).layout.search.fits(),
            old(self).layout.list.fits(),
            old(self).layout.list.holds(col as int, row as int) ==> old(self).scroll_offset + row
                - old(self).layout.list.y <= usize::MAX,
        ensures
            final(self).wf(),
            final(self).mouse_result(&*old(self), kind, col, row, now_ms, last, r),
    {
        match kind {
            MouseKind::ScrollUp => {
                self.move_up();
                (JumpAction::Stay, last)
            },
            MouseKind::ScrollDown => {
                self.move_down();
                (JumpAction::Stay, last)
            },
            MouseKind::LeftDown => {
                let s = chars_of(self.input.as_str());
                match self.layout.cursor_at_search_click(col, row, s.len()) {
                    Some(k) => {
                        let prefix = crate::text::slice_chars(&s, 0, k);
                        proof {
                            assert(prefix@ =~= s@.take(k as int));
                            if k < s@.len() {
                                crate::text::lemma_utf8_take_strict(s@, k as int, s@.len() as int);
                            }
                            lemma_take_all(s@);
                        }
                        self.cursor = byte_len(&prefix);
                        assert(utf8_len(self.input@.take(k as int)) == self.cursor);
                        (JumpAction::Stay, last)
                    },
                    None => match self.layout.row_at(col, row, self.scroll_offset) {
                        Some(idx) => {
                            let double = match last {
                                Some(c) => {
                                    let age = if now_ms >= c.at_ms { now_ms - c.at_ms } else { 0 };
                                    age < DOUBLE_CLICK_MS && c.col == col && c.row == row && c.index == idx
                                },
                                None => false,
                            };
                            if idx < self.results.matches.len() {
                                self.selected = idx;
                            }
                            if double {
                                let a = self.enter();
                                (a, None)
                            } else {
                                (JumpAction::Stay, Some(Click { at_ms: now_ms, col, row, index: idx }))
                            }
                        },
                        None => (JumpAction::Stay, last),
                    },
                }
            },
            MouseKind::Other => (JumpAction::Stay, last),
        }
    }
}

} // verus!
