use vstd::prelude::*;
use vstd::slice::slice_subrange;

use crate::text::{
    chars_of, contains_chars, contains_seq, is_ws, is_ws_char, lemma_trimmed_end_facts, parse_u32,
    parse_u32_chars, piece_bounds, pieces, trimmed_end,
};

verus! {

/// Where the word that ends at `e` starts.
pub open spec fn word_start_before(l: Seq<char>, e: int) -> int
    decreases e,
{
    if e <= 0 {
        0
    } else if is_ws(l[e - 1]) {
        e
    } else {
        word_start_before(l, e - 1)
    }
}

/// The last whitespace-separated word of `l`, if it has one.
pub open spec fn last_word(l: Seq<char>) -> Option<Seq<char>> {
    let e = trimmed_end(l);
    if e == 0 {
        None
    } else {
        Some(l.subrange(word_start_before(l, e), e))
    }
}

/// A dimension read from a line that names `key`: its last word as a number. `None`
/// when the line names the key yet has no word, which abandons the whole reading.
pub open spec fn read_field(l: Seq<char>, key: Seq<char>, current: Option<u32>) -> Option<Option<u32>> {
    if contains_seq(l, key) {
        match last_word(l) {
            Some(w) => Some(parse_u32(w)),
            None => None,
        }
    } else {
        Some(current)
    }
}

/// Width and height as read so far over `lines`; `None` once the reading is abandoned.
pub open spec fn sips_scan(lines: Seq<Seq<char>>) -> Option<(Option<u32>, Option<u32>)>
    decreases lines.len(),
{
    if lines.len() == 0 {
        Some((None, None))
    } else {
        match sips_scan(lines.drop_last()) {
            None => None,
            Some((w, h)) => match read_field(lines.last(), "pixelWidth"@, w) {
                None => None,
                Some(w2) => match read_field(lines.last(), "pixelHeight"@, h) {
                    None => None,
                    Some(h2) => Some((w2, h2)),
                },
            },
        }
    }
}

proof fn lemma_word_start_bounds(l: Seq<char>, e: int)
    requires
        0 <= e <= l.len(),
    ensures
        0 <= word_start_before(l, e) <= e,
    decreases e,
{
    if e > 0 && !is_ws(l[e - 1]) {
        lemma_word_start_bounds(l, e - 1);
    }
}

fn last_word_bounds(l: &[char]) -> (r: Option<(usize, usize)>)
    ensures
        r is None <==> last_word(l@) is None,
        r matches Some(b) ==> b.0 <= b.1 <= l@.len() && last_word(l@) == Some(
            l@.subrange(b.0 as int, b.1 as int),
        ),
{
    let mut e = l.len();
    proof {
        lemma_trimmed_end_facts(l@);
        assert(l@.subrange(0, e as int) =~= l@);
    }
    while e > 0 && is_ws_char(l[e - 1])
        invariant
            trimmed_end(l@) <= e <= l@.len(),
            trimmed_end(l@) == trimmed_end(l@.subrange(0, e as int)),
        decreases e,
    {
        assert(l@.subrange(0, e as int).drop_last() =~= l@.subrange(0, e - 1));
        proof {
            lemma_trimmed_end_facts(l@.subrange(0, e - 1));
        }
        e = e - 1;
    }
    if e > 0 {
        assert(l@.subrange(0, e as int).last() == l@[e - 1]);
    }
    assert(trimmed_end(l@) == e) by {
        if e > 0 {
            assert(!is_ws(l@.subrange(0, e as int).last()));
        }
    }
    if e == 0 {
        return None;
    }
    let mut b = e;
    while b > 0 && !is_ws_char(l[b - 1])
        invariant
            0 <= b <= e <= l@.len(),
            word_start_before(l@, e as int) == word_start_before(l@, b as int),
        decreases b,
    {
        b = b - 1;
    }
    Some((b, e))
}

fn read_field_exec(line: &[char], key: &str, current: Option<u32>) -> (r: Option<Option<u32>>)
    ensures
        r == read_field(line@, key@, current),
{
    if contains_chars(line, key) {
        match last_word_bounds(line) {
            Some(b) => Some(parse_u32_chars(slice_subrange(line, b.0, b.1))),
            None => None,
        }
    } else {
        Some(current)
    }
}

/// Reads the pixel width and height from the output of `sips -g pixelWidth -g
/// pixelHeight`: the last word of the last line naming each, when both are numbers.
pub fn parse_sips_dimensions(output: &str) -> (r: Option<(u32, u32)>)
    ensures
        r == match sips_scan(pieces(output@, '\n')) {
            Some((Some(w), Some(h))) => Some((w, h)),
            _ => None,
        },
{
    let chars = chars_of(output);
    let lines = piece_bounds(chars.as_slice(), '\n');
    let ghost all = pieces(output@, '\n');
    let mut width: Option<u32> = None;
    let mut height: Option<u32> = None;
    let mut k: usize = 0;
    while k < lines.len()
        invariant
            chars@ == output@,
            lines@.len() == all.len(),
            all == pieces(output@, '\n'),
            forall|j: int|
                0 <= j < lines@.len() ==> (#[trigger] lines@[j]).0 <= lines@[j].1 <= chars@.len()
                    && chars@.subrange(lines@[j].0 as int, lines@[j].1 as int) == all[j],
            k <= lines@.len(),
            sips_scan(all.subrange(0, k as int)) == Some((width, height)),
        decreases lines@.len() - k,
    {
        let line = slice_subrange(chars.as_slice(), lines[k].0, lines[k].1);
        assert(all.subrange(0, k as int + 1).drop_last() =~= all.subrange(0, k as int));
        assert(all.subrange(0, k as int + 1).last() == line@);
        let w = match read_field_exec(line, "pixelWidth", width) {
            Some(w) => w,
            None => {
                proof {
                    lemma_scan_stays_abandoned(all, k as int + 1);
                }
                return None;
            },
        };
        let h = match read_field_exec(line, "pixelHeight", height) {
            Some(h) => h,
            None => {
                proof {
                    lemma_scan_stays_abandoned(all, k as int + 1);
                }
                return None;
            },
        };
        width = w;
        height = h;
        k = k + 1;
    }
    assert(all.subrange(0, k as int) =~= all);
    match (width, height) {
        (Some(w), Some(h)) => Some((w, h)),
        _ => None,
    }
}

/// Once abandoned, the reading stays abandoned over the remaining lines.
proof fn lemma_scan_stays_abandoned(lines: Seq<Seq<char>>, k: int)
    requires
        0 <= k <= lines.len(),
        sips_scan(lines.subrange(0, k)) is None,
    ensures
        sips_scan(lines) is None,
    decreases lines.len() - k,
{
    if k < lines.len() {
        assert(lines.subrange(0, k + 1).drop_last() =~= lines.subrange(0, k));
        lemma_scan_stays_abandoned(lines, k + 1);
    } else {
        assert(lines.subrange(0, k) =~= lines);
    }
}

} // verus!
