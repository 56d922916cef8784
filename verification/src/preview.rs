//! Preview texts computed from what was read from disk: the hex dump of a
//! binary file and the summary of a directory.

use vstd::prelude::*;
use crate::entries::{sort_entries, FileEntry, SortMode};
use crate::explorer::{lines_of, sorted_listing};
use crate::fmt::{decimal, decimal_chars, format_size, size_text};
use crate::text::{append_text, string_of, text_concat};

verus! {

// ── Hex dump ───────────────────────────────────────────────────────────────

/// The lowercase hexadecimal digit for `d < 16`.
pub open spec fn hex_digit(d: nat) -> char {
    if d < 10 {
        crate::fmt::digit_char(d)
    } else if d == 10 {
        'a'
    } else if d == 11 {
        'b'
    } else if d == 12 {
        'c'
    } else if d == 13 {
        'd'
    } else if d == 14 {
        'e'
    } else {
        'f'
    }
}

fn hex_digit_of(d: u8) -> (r: char)
    requires
        d < 16,
    ensures
        r == hex_digit(d as nat),
{
    if d < 10 {
        crate::fmt::digit(d as u128)
    } else if d == 10 {
        'a'
    } else if d == 11 {
        'b'
    } else if d == 12 {
        'c'
    } else if d == 13 {
        'd'
    } else if d == 14 {
        'e'
    } else {
        'f'
    }
}

/// A byte as two hexadecimal digits.
pub open spec fn hex2(b: u8) -> Seq<char> {
    seq![hex_digit((b / 16) as nat), hex_digit((b % 16) as nat)]
}

/// An offset below 2^24 as six hexadecimal digits.
pub open spec fn hex6(n: nat) -> Seq<char> {
    seq![
        hex_digit((n / 1048576) % 16),
        hex_digit((n / 65536) % 16),
        hex_digit((n / 4096) % 16),
        hex_digit((n / 256) % 16),
        hex_digit((n / 16) % 16),
        hex_digit(n % 16)
    ]
}

/// The bytes of a chunk as hex pairs separated by spaces.
pub open spec fn hex_field(c: Seq<u8>) -> Seq<char>
    decreases c.len(),
{
    if c.len() == 0 {
        Seq::empty()
    } else if c.len() == 1 {
        hex2(c[0])
    } else {
        hex_field(c.drop_last()) + seq![' '] + hex2(c.last())
    }
}

/// `s` padded with spaces to `w` characters.
pub open spec fn pad_to(s: Seq<char>, w: nat) -> Seq<char> {
    if s.len() < w {
        s + Seq::new((w - s.len()) as nat, |i: int| ' ')
    } else {
        s
    }
}

/// How a byte shows in the text column: printable ASCII and space as
/// themselves, anything else as `.`.
pub open spec fn shown_byte(b: u8) -> char {
    if (0x21 <= b <= 0x7e) || b == 0x20 {
        b as char
    } else {
        '.'
    }
}

/// The most bytes a hex dump shows.
pub const DUMP_LIMIT: usize = 256;

/// Line `k` of a hex dump of the first `show` bytes: the offset, the hex
/// pairs padded to 48 columns, and the text column.
pub open spec fn dump_line(bytes: Seq<u8>, show: int, k: int) -> Seq<char> {
    let start = 16 * k;
    let end = if start + 16 < show { start + 16 } else { show };
    let chunk = bytes.subrange(start, end);
    "  "@ + hex6(start as nat) + "  "@ + pad_to(hex_field(chunk), 48) + "  "@ + chunk.map_values(|b: u8| shown_byte(b))
}

/// The preview of a binary file: a heading, a blank line, one line per 16
/// of the first 256 bytes, and how many bytes were left out.
pub open spec fn hex_dump_spec(bytes: Seq<u8>) -> Seq<Seq<char>> {
    let show = if bytes.len() < 256 { bytes.len() as int } else { 256 };
    let n = (show + 15) / 16;
    seq!["⚙️ Binary — hex dump:"@, Seq::empty()] + Seq::new(n as nat, |k: int| dump_line(bytes, show, k)) + if bytes.len()
        > 256 {
        seq!["  ... "@ + decimal((bytes.len() - 256) as nat) + " more bytes"@]
    } else {
        Seq::empty()
    }
}

fn push_hex2(v: &mut Vec<char>, b: u8)
    ensures
        final(v)@ == old(v)@ + hex2(b),
{
    v.push(hex_digit_of(b / 16));
    v.push(hex_digit_of(b % 16));
}

/// One line of the dump for bytes `start..end`.
fn dump_line_text(bytes: &[u8], show: usize, k: usize) -> (r: String)
    requires
        show <= bytes@.len(),
        show <= 256,
        16 * k < show,
    ensures
        r@ == dump_line(bytes@, show as int, k as int),
{
    let start = 16 * k;
    let end = if start + 16 < show { start + 16 } else { show };
    let ghost chunk = bytes@.subrange(start as int, end as int);
    let mut v: Vec<char> = Vec::new();
    v.push(' ');
    v.push(' ');
    let s = start as u64;
    v.push(hex_digit_of(((s / 1048576) % 16) as u8));
    v.push(hex_digit_of(((s / 65536) % 16) as u8));
    v.push(hex_digit_of(((s / 4096) % 16) as u8));
    v.push(hex_digit_of(((s / 256) % 16) as u8));
    v.push(hex_digit_of(((s / 16) % 16) as u8));
    v.push(hex_digit_of((s % 16) as u8));
    v.push(' ');
    v.push(' ');
    let ghost head = v@;
    assert(head =~= "  "@ + hex6(start as nat) + "  "@) by {
        reveal_strlit("  ");
    }
    let mut i = start;
    while i < end
        invariant
            start <= i <= end,
            end <= bytes@.len(),
            end - start <= 16,
            v@ == head + hex_field(bytes@.subrange(start as int, i as int)),
        decreases end - i,
    {
        let ghost before = bytes@.subrange(start as int, i as int);
        let ghost after = bytes@.subrange(start as int, i + 1);
        assert(after.drop_last() =~= before);
        assert(after.last() == bytes@[i as int]);
        if i > start {
            v.push(' ');
        }
        push_hex2(&mut v, bytes[i]);
        proof {
            if i > start {
                assert(v@ =~= head + (hex_field(before) + seq![' '] + hex2(bytes@[i as int])));
            } else {
                assert(before.len() == 0);
                assert(v@ =~= head + hex_field(after));
            }
        }
        i = i + 1;
    }
    let ghost hf = hex_field(chunk);
    proof {
        lemma_hex_field_len(chunk);
    }
    let mut j: usize = 0;
    let width: usize = if end > start { 3 * (end - start) - 1 } else { 0 };
    while width + j < 48
        invariant
            width <= 47,
            width + j <= 48,
            hf.len() == width,
            v@ == head + hf + Seq::new(j as nat, |x: int| ' '),
        decreases 48 - width - j,
    {
        v.push(' ');
        j = j + 1;
        assert(v@ =~= head + hf + Seq::new(j as nat, |x: int| ' '));
    }
    assert(head + hf + Seq::new(j as nat, |x: int| ' ') =~= head + pad_to(hf, 48));
    v.push(' ');
    v.push(' ');
    let ghost mid = v@;
    let mut i = start;
    while i < end
        invariant
            start <= i <= end,
            end <= bytes@.len(),
            v@ == mid + bytes@.subrange(start as int, i as int).map_values(|b: u8| shown_byte(b)),
        decreases end - i,
    {
        let b = bytes[i];
        let c = if (0x21 <= b && b <= 0x7e) || b == 0x20 { b as char } else { '.' };
        v.push(c);
        assert(bytes@.subrange(start as int, i + 1).map_values(|b: u8| shown_byte(b)) =~= bytes@.subrange(
            start as int,
            i as int,
        ).map_values(|b: u8| shown_byte(b)).push(shown_byte(bytes@[i as int])));
        i = i + 1;
    }
    assert(v@ =~= dump_line(bytes@, show as int, k as int)) by {
        reveal_strlit("  ");
    }
    string_of(&v)
}

/// The hex field of `c` has three columns per byte less one.
proof fn lemma_hex_field_len(c: Seq<u8>)
    ensures
        c.len() > 0 ==> hex_field(c).len() == 3 * c.len() - 1,
        c.len() == 0 ==> hex_field(c).len() == 0,
    decreases c.len(),
{
    if c.len() > 1 {
        lemma_hex_field_len(c.drop_last());
    }
}

/// The preview of a binary file (see `hex_dump_spec`).
pub fn hex_dump(bytes: &[u8]) -> (r: Vec<String>)
    ensures
        lines_of(r@) == hex_dump_spec(bytes@),
{
    let show = if bytes.len() < DUMP_LIMIT { bytes.len() } else { DUMP_LIMIT };
    let n = (show + 15) / 16;
    let mut r: Vec<String> = Vec::new();
    r.push("⚙️ Binary — hex dump:".to_owned());
    r.push(String::new());
    let ghost head: Seq<Seq<char>> = seq!["⚙️ Binary — hex dump:"@, Seq::empty()];
    assert(lines_of(r@) =~= head);
    for k in 0..n
        invariant
            show <= bytes@.len(),
            show <= 256,
            show == if bytes@.len() < 256 { bytes@.len() as int } else { 256 },
            n == (show + 15) / 16,
            lines_of(r@) == head + Seq::new(k as nat, |x: int| dump_line(bytes@, show as int, x)),
    {
        assert(16 * k < show) by (nonlinear_arith)
            requires
                k < n,
                n == (show + 15) / 16,
        ;
        let line = dump_line_text(bytes, show, k);
        let ghost before = lines_of(r@);
        r.push(line);
        assert(lines_of(r@) =~= before.push(line@));
        assert(lines_of(r@) =~= head + Seq::new((k + 1) as nat, |x: int| dump_line(bytes@, show as int, x)));
    }
    let ghost body = head + Seq::new(n as nat, |x: int| dump_line(bytes@, show as int, x));
    if bytes.len() > DUMP_LIMIT {
        let mut m = "  ... ".to_owned();
        append_text(&mut m, string_of(&decimal_chars((bytes.len() - DUMP_LIMIT) as u128)).as_str());
        append_text(&mut m, " more bytes");
        r.push(m);
        assert(lines_of(r@) =~= hex_dump_spec(bytes@));
    } else {
        assert(lines_of(r@) =~= hex_dump_spec(bytes@));
    }
    r
}

// ── Directory summary ──────────────────────────────────────────────────────

/// The rows a directory preview lists at most.
pub const DIR_PREVIEW_ROWS: usize = 25;

/// The total size of a listing.
pub open spec fn total_size(s: Seq<FileEntry>) -> nat
    decreases s.len(),
{
    if s.len() == 0 {
        0
    } else {
        total_size(s.drop_last()) + (s.last().size as nat)
    }
}

/// How many entries of a listing are directories.
pub open spec fn dir_count(s: Seq<FileEntry>) -> nat
    decreases s.len(),
{
    if s.len() == 0 {
        0
    } else {
        dir_count(s.drop_last()) + if s.last().is_dir { 1nat } else { 0nat }
    }
}

/// How an entry is listed in a directory preview: an icon, the name, and
/// the size of a file.
pub open spec fn dir_item_line(e: FileEntry) -> Seq<char> {
    "  "@ + (if e.is_dir { "📁"@ } else { "📄"@ }) + " "@ + e.name@ + if e.is_dir {
        Seq::empty()
    } else {
        "  "@ + size_text(e.size as nat)
    }
}

/// The preview of directory `name` whose sorted entries are `sorted`: a
/// heading, the first 25 entries, how many were left out, and the numbers
/// of directories and files with their total size.
pub open spec fn directory_lines(name: Seq<char>, sorted: Seq<FileEntry>) -> Seq<Seq<char>> {
    let shown = if sorted.len() < 25 { sorted.len() } else { 25 };
    seq!["📁 "@ + name, Seq::empty()] + Seq::new(shown, |k: int| dir_item_line(sorted[k])) + (if sorted.len() > 25 {
        seq!["  ... "@ + decimal((sorted.len() - 25) as nat) + " more"@]
    } else {
        Seq::empty()
    }) + seq![
        Seq::empty(),
        "📁 "@ + decimal(dir_count(sorted)) + "  📄 "@ + decimal((sorted.len() - dir_count(sorted)) as nat)
            + "  💾 "@ + size_text(total_size(sorted)),
    ]
}

fn dir_item_text(e: &FileEntry) -> (r: String)
    ensures
        r@ == dir_item_line(*e),
{
    let mut m = "  ".to_owned();
    append_text(&mut m, if e.is_dir { "📁" } else { "📄" });
    append_text(&mut m, " ");
    append_text(&mut m, e.name.as_str());
    if !e.is_dir {
        append_text(&mut m, "  ");
        append_text(&mut m, format_size(e.size).as_str());
    }
    proof {
        if e.is_dir {
            assert(m@ =~= dir_item_line(*e));
        } else {
            assert(m@ =~= dir_item_line(*e));
        }
    }
    m
}

/// Sorting keeps the total size and the number of directories.
proof fn lemma_sorted_counts(sorted: Seq<FileEntry>, raw: Seq<FileEntry>)
    requires
        sorted_listing(sorted, raw, SortMode::Name),
    ensures
        total_size(sorted) == total_size(raw),
        dir_count(sorted) == dir_count(raw),
        sorted.len() == raw.len(),
{
    let order = choose|order: Seq<int>|
        {
            &&& #[trigger] crate::entries::is_sorted_order(raw.len() as int, crate::entries::keys_of(raw, SortMode::Name), order)
            &&& sorted.len() == order.len()
            &&& forall|k: int| 0 <= k < order.len() ==> #[trigger] sorted[k] == raw[order[k]]
        };
    lemma_order_is_permutation(raw.len() as int, crate::entries::keys_of(raw, SortMode::Name), order);
    assert(sorted =~= order.map_values(|i: int| raw[i]));
    lemma_sum_permuted(raw, order);
}

/// A sorted order lists each position exactly once.
proof fn lemma_order_is_permutation(n: int, key: spec_fn(int) -> (int, int, Seq<char>, Seq<char>), order: Seq<int>)
    requires
        n >= 0,
        crate::entries::is_sorted_order(n, key, order),
    ensures
        order.len() == n,
        order.to_set() =~= Set::new(|i: int| 0 <= i < n),
        order.no_duplicates(),
{
    assert forall|k: int, l: int| 0 <= k < l < order.len() implies order[k] != order[l] by {
        let a = order[k];
        let b = order[l];
        crate::entries::lemma_key_order(key(a), key(b), key(b));
    }
    assert(order.to_set() =~= Set::new(|i: int| 0 <= i < n)) by {
        assert forall|i: int| order.to_set().contains(i) <==> 0 <= i < n by {
            if 0 <= i < n {
                assert(order.contains(i));
            }
            if order.to_set().contains(i) {
                let w = choose|w: int| 0 <= w < order.len() && order[w] == i;
                assert(0 <= order[w] < n);
            }
        }
    }
    order.unique_seq_to_set();
    vstd::set_lib::lemma_int_range(0, n);
    assert(Set::new(|i: int| 0 <= i < n) =~= vstd::set_lib::set_int_range(0, n));
}

/// Removing one entry takes its size and its directory count away.
proof fn lemma_sum_remove(s: Seq<FileEntry>, w: int)
    requires
        0 <= w < s.len(),
    ensures
        total_size(s) == total_size(s.remove(w)) + s[w].size,
        dir_count(s) == dir_count(s.remove(w)) + if s[w].is_dir { 1nat } else { 0nat },
    decreases s.len(),
{
    if w == s.len() - 1 {
        assert(s.remove(w) =~= s.drop_last());
    } else {
        lemma_sum_remove(s.drop_last(), w);
        assert(s.remove(w).drop_last() =~= s.drop_last().remove(w));
        assert(s.remove(w).last() == s.last());
    }
}

/// Summing over a permutation of the positions gives the same totals.
proof fn lemma_sum_permuted(raw: Seq<FileEntry>, order: Seq<int>)
    requires
        order.len() == raw.len(),
        order.no_duplicates(),
        forall|k: int| 0 <= k < order.len() ==> 0 <= #[trigger] order[k] < raw.len(),
    ensures
        total_size(order.map_values(|i: int| raw[i])) == total_size(raw),
        dir_count(order.map_values(|i: int| raw[i])) == dir_count(raw),
    decreases raw.len(),
{
    let n = raw.len() as int;
    if n == 0 {
        assert(order.map_values(|i: int| raw[i]) =~= Seq::<FileEntry>::empty());
        return;
    }
    // The last position occurs somewhere in the order.
    assert(order.to_set().len() == n) by {
        order.unique_seq_to_set();
    }
    let w: int = if exists|w: int| 0 <= w < n && order[w] == n - 1 {
        choose|w: int| 0 <= w < n && order[w] == n - 1
    } else {
        0
    };
    if !(exists|w: int| 0 <= w < n && order[w] == n - 1) {
        // All values lie below n - 1: too few for n distinct ones.
        assert(order.to_set().subset_of(vstd::set_lib::set_int_range(0, n - 1)));
        vstd::set_lib::lemma_int_range(0, n - 1);
        vstd::set_lib::lemma_len_subset(order.to_set(), vstd::set_lib::set_int_range(0, n - 1));
        assert(false);
    }
    let rest = order.remove(w);
    let raw2 = raw.drop_last();
    assert forall|k: int| 0 <= k < rest.len() implies 0 <= #[trigger] rest[k] < raw2.len() by {
        if k < w {
            assert(rest[k] == order[k]);
            assert(order[k] != order[w]);
        } else {
            assert(rest[k] == order[k + 1]);
            assert(order[k + 1] != order[w]);
        }
    }
    assert(rest.no_duplicates()) by {
        assert forall|a: int, b: int| 0 <= a < rest.len() && 0 <= b < rest.len() && a != b implies rest[a] != rest[b] by {
            let a0 = if a < w { a } else { a + 1 };
            let b0 = if b < w { b } else { b + 1 };
            assert(rest[a] == order[a0]);
            assert(rest[b] == order[b0]);
        }
    }
    lemma_sum_permuted(raw2, rest);
    let mapped = order.map_values(|i: int| raw[i]);
    lemma_sum_remove(mapped, w);
    assert(mapped.remove(w) =~= rest.map_values(|i: int| raw2[i]));
    assert(mapped[w] == raw.last());
}

/// The preview of directory `name` from its entries (read from disk):
/// they are sorted directories first by lowercase name (stably), and the
/// summary counts and sizes all of them.
pub fn directory_preview(name: &str, items: Vec<FileEntry>) -> (r: Vec<String>)
    requires
        total_size(items@) <= u64::MAX,
        items@.len() <= u32::MAX,
    ensures
        exists|sorted: Seq<FileEntry>|
            #[trigger] sorted_listing(sorted, items@, SortMode::Name) && lines_of(r@) == directory_lines(name@, sorted),
{
    let mut sorted = items;
    let ghost raw = sorted@;
    sort_entries(&mut sorted, SortMode::Name);
    assert(sorted_listing(sorted@, raw, SortMode::Name));
    proof {
        lemma_sorted_counts(sorted@, raw);
    }
    let mut r: Vec<String> = Vec::new();
    r.push(text_concat("📁 ", name));
    r.push(String::new());
    let shown = if sorted.len() < DIR_PREVIEW_ROWS { sorted.len() } else { DIR_PREVIEW_ROWS };
    let ghost head: Seq<Seq<char>> = seq!["📁 "@ + name@, Seq::empty()];
    assert(lines_of(r@) =~= head);
    for k in 0..shown
        invariant
            shown <= sorted@.len(),
            lines_of(r@) == head + Seq::new(k as nat, |x: int| dir_item_line(sorted@[x])),
    {
        let line = dir_item_text(&sorted[k]);
        let ghost before = lines_of(r@);
        r.push(line);
        assert(lines_of(r@) =~= before.push(line@));
        assert(lines_of(r@) =~= head + Seq::new((k + 1) as nat, |x: int| dir_item_line(sorted@[x])));
    }
    let ghost body = lines_of(r@);
    if sorted.len() > DIR_PREVIEW_ROWS {
        let mut m = "  ... ".to_owned();
        append_text(&mut m, string_of(&decimal_chars((sorted.len() - DIR_PREVIEW_ROWS) as u128)).as_str());
        append_text(&mut m, " more");
        r.push(m);
    }
    let ghost with_more = lines_of(r@);
    let mut dirs: u64 = 0;
    let mut total: u64 = 0;
    for i in 0..sorted.len()
        invariant
            total_size(sorted@) <= u64::MAX,
            sorted@.len() <= u32::MAX,
            total == total_size(sorted@.take(i as int)),
            dirs == dir_count(sorted@.take(i as int)),
            dirs <= i,
    {
        proof {
            let t = sorted@.take(i + 1);
            assert(t.drop_last() =~= sorted@.take(i as int));
            lemma_total_prefix(sorted@, i + 1);
        }
        total = total + sorted[i].size;
        if sorted[i].is_dir {
            dirs = dirs + 1;
        }
    }
    assert(sorted@.take(sorted@.len() as int) =~= sorted@);
    r.push(String::new());
    let mut m = "📁 ".to_owned();
    append_text(&mut m, string_of(&decimal_chars(dirs as u128)).as_str());
    append_text(&mut m, "  📄 ");
    proof {
        lemma_dir_count_bound(sorted@);
    }
    append_text(&mut m, string_of(&decimal_chars((sorted.len() as u64 - dirs) as u128)).as_str());
    append_text(&mut m, "  💾 ");
    append_text(&mut m, format_size(total).as_str());
    r.push(m);
    assert(lines_of(r@) =~= directory_lines(name@, sorted@));
    assert(sorted_listing(sorted@, items@, SortMode::Name) && lines_of(r@) == directory_lines(name@, sorted@));
    r
}

/// A prefix totals no more than the whole.
proof fn lemma_total_prefix(s: Seq<FileEntry>, i: int)
    requires
        0 <= i <= s.len(),
    ensures
        total_size(s.take(i)) <= total_size(s),
    decreases s.len(),
{
    if i < s.len() {
        assert(s.drop_last().take(i) =~= s.take(i));
        lemma_total_prefix(s.drop_last(), i);
    } else {
        assert(s.take(i) =~= s);
    }
}

/// There are no more directories than entries.
proof fn lemma_dir_count_bound(s: Seq<FileEntry>)
    ensures
        dir_count(s) <= s.len(),
    decreases s.len(),
{
    if s.len() > 0 {
        lemma_dir_count_bound(s.drop_last());
    }
}

} // verus!
