use vstd::prelude::*;
use vstd::slice::slice_subrange;

verus! {

/// The ASCII digit for `d < 10`.
pub open spec fn digit_char(d: nat) -> char {
    if d == 0 {
        '0'
    } else if d == 1 {
        '1'
    } else if d == 2 {
        '2'
    } else if d == 3 {
        '3'
    } else if d == 4 {
        '4'
    } else if d == 5 {
        '5'
    } else if d == 6 {
        '6'
    } else if d == 7 {
        '7'
    } else if d == 8 {
        '8'
    } else {
        '9'
    }
}

/// `n` written in base ten, without leading zeros.
pub open spec fn decimal(n: nat) -> Seq<char>
    decreases n,
{
    if n < 10 {
        seq![digit_char(n)]
    } else {
        decimal(n / 10) + seq![digit_char(n % 10)]
    }
}

/// The value of a run of ASCII digits, most significant first.
pub open spec fn digits_value(s: Seq<char>) -> nat
    decreases s.len(),
{
    if s.len() == 0 {
        0
    } else {
        digits_value(s.drop_last()) * 10 + digit_of(s.last())
    }
}

/// The value of an ASCII digit.
pub open spec fn digit_of(c: char) -> nat {
    ((c as u32) - ('0' as u32)) as nat
}

pub open spec fn is_digit(c: char) -> bool {
    '0' <= c && c <= '9'
}

/// The HTTP `Range` header value asking for bytes `start..=end`.
pub open spec fn range_value(start: nat, end: nat) -> Seq<char> {
    seq!['b', 'y', 't', 'e', 's', '='] + decimal(start) + seq!['-'] + decimal(end)
}

/// The string that `str::to_lowercase` makes of `s`.
pub uninterp spec fn lower_of(s: Seq<char>) -> Seq<char>;

/// Relies on `str::to_lowercase`: its result depends on the characters of `s` alone.
#[verifier::external_body]
pub(crate) fn lowercase(s: &str) -> (r: String)
    ensures
        r@ == lower_of(s@),
{
    s.to_lowercase()
}

/// The string that `str::to_uppercase` makes of `s`.
pub uninterp spec fn upper_of(s: Seq<char>) -> Seq<char>;

/// Relies on `str::to_uppercase`: its result depends on the characters of `s` alone.
#[verifier::external_body]
pub(crate) fn uppercase(s: &str) -> (r: String)
    ensures
        r@ == upper_of(s@),
{
    s.to_uppercase()
}

/// Whether `needle` occurs in `hay`.
pub fn contains_chars(hay: &[char], needle: &str) -> (r: bool)
    ensures
        r == contains_seq(hay@, needle@),
{
    let pat = chars_of(needle);
    let n = pat.len();
    let hl = hay.len();
    if n > hay.len() {
        proof {
            assert forall|i: int| 0 <= i <= hay@.len() - n implies #[trigger] hay@.subrange(i, i + n) != pat@ by {}
        }
        return false;
    }
    let mut i: usize = 0;
    while i <= hay.len() - n
        invariant
            n == pat@.len(),
            pat@ == needle@,
            hl == hay@.len(),
            n <= hay@.len(),
            i <= hay@.len() - n + 1,
            forall|k: int| 0 <= k < i ==> #[trigger] hay@.subrange(k, k + n) != pat@,
        decreases hay@.len() - n + 1 - i,
    {
        let mut j: usize = 0;
        while j < n && hay[i + j] == pat[j]
            invariant
                j <= n,
                hl == hay@.len(),
                i + n <= hl,
                n == pat@.len(),
                forall|k: int| 0 <= k < j ==> hay@[i + k] == pat@[k],
            decreases n - j,
        {
            j = j + 1;
        }
        if j == n {
            assert(hay@.subrange(i as int, i + n) =~= pat@);
            return true;
        }
        assert(hay@.subrange(i as int, i + n)[j as int] != pat@[j as int]);
        i = i + 1;
    }
    false
}

/// `char::is_whitespace`: the Unicode White_Space property.
pub open spec fn is_ws(c: char) -> bool {
    ('\u{9}' <= c && c <= '\u{d}') || c == ' ' || c == '\u{85}' || c == '\u{a0}' || c
        == '\u{1680}' || ('\u{2000}' <= c && c <= '\u{200a}') || c == '\u{2028}' || c
        == '\u{2029}' || c == '\u{202f}' || c == '\u{205f}' || c == '\u{3000}'
}

pub fn is_ws_char(c: char) -> (r: bool)
    ensures
        r == is_ws(c),
{
    ('\u{9}' <= c && c <= '\u{d}') || c == ' ' || c == '\u{85}' || c == '\u{a0}' || c
        == '\u{1680}' || ('\u{2000}' <= c && c <= '\u{200a}') || c == '\u{2028}' || c
        == '\u{2029}' || c == '\u{202f}' || c == '\u{205f}' || c == '\u{3000}'
}

/// The value of an unsigned `from_str` with largest value `max`: an optional `+`, then
/// one or more ASCII digits whose value is at most `max`.
pub open spec fn parse_bounded(s: Seq<char>, max: nat) -> Option<nat> {
    let d = unsigned_digits(s);
    if d.len() == 0 || !all_digits(d) || digits_value(d) > max {
        None
    } else {
        Some(digits_value(d))
    }
}

/// The value of `u32::from_str` on `s`.
pub open spec fn parse_u32(s: Seq<char>) -> Option<u32> {
    match parse_bounded(s, u32::MAX as nat) {
        Some(v) => Some(v as u32),
        None => None,
    }
}

/// The value of `u64::from_str` on `s`.
pub open spec fn parse_u64(s: Seq<char>) -> Option<u64> {
    match parse_bounded(s, u64::MAX as nat) {
        Some(v) => Some(v as u64),
        None => None,
    }
}

/// The value of `i32::from_str` on `s`: an optional sign, then one or more ASCII digits,
/// within the range of `i32`.
pub open spec fn parse_i32(s: Seq<char>) -> Option<i32> {
    if s.len() > 0 && s[0] == '-' {
        let d = s.drop_first();
        if d.len() == 0 || !all_digits(d) || digits_value(d) > 0x8000_0000 {
            None
        } else {
            Some((0 - digits_value(d)) as i32)
        }
    } else {
        match parse_bounded(s, 0x7fff_ffff) {
            Some(v) => Some(v as i32),
            None => None,
        }
    }
}

/// What follows an optional leading `+`.
pub open spec fn unsigned_digits(s: Seq<char>) -> Seq<char> {
    if s.len() > 0 && s[0] == '+' {
        s.drop_first()
    } else {
        s
    }
}

pub open spec fn all_digits(d: Seq<char>) -> bool {
    forall|i: int| 0 <= i < d.len() ==> is_digit(#[trigger] d[i])
}

/// The pieces of `s` between separators (`str::split`), empty pieces included.
pub open spec fn pieces(s: Seq<char>, sep: char) -> Seq<Seq<char>>
    decreases s.len(),
{
    if s.len() == 0 {
        seq![Seq::<char>::empty()]
    } else {
        let p = pieces(s.drop_last(), sep);
        if s.last() == sep {
            p.push(Seq::<char>::empty())
        } else {
            p.update(p.len() - 1, p.last().push(s.last()))
        }
    }
}

/// There is always at least one piece.
pub proof fn lemma_pieces_nonempty(s: Seq<char>, sep: char)
    ensures
        pieces(s, sep).len() >= 1,
    decreases s.len(),
{
    if s.len() > 0 {
        lemma_pieces_nonempty(s.drop_last(), sep);
    }
}

/// `needle` occurs in `hay` at some position.
pub open spec fn contains_seq(hay: Seq<char>, needle: Seq<char>) -> bool {
    exists|i: int| 0 <= i <= hay.len() - needle.len() && #[trigger] hay.subrange(i, i + needle.len()) == needle
}

/// The characters of `s`, in order.
pub fn chars_of(s: &str) -> (r: Vec<char>)
    ensures
        r@ == s@,
{
    broadcast use vstd::string::group_string_axioms;

    let mut r: Vec<char> = Vec::new();
    for c in it: s.chars()
        invariant
            it.seq() == s@,
            r@ == s@.take(it.index() as int),
    {
        r.push(c);
        assert(r@ =~= s@.take(it.index() as int + 1));
    }
    assert(r@ =~= s@);
    r
}

/// Parses an optional `+` and a run of digits worth at most `max`.
fn parse_bounded_chars(s: &[char], max: u64) -> (r: Option<u64>)
    ensures
        r matches Some(v) ==> parse_bounded(s@, max as nat) == Some(v as nat),
        r is None ==> parse_bounded(s@, max as nat) is None,
{
    let start: usize = if s.len() > 0 && s[0] == '+' {
        1
    } else {
        0
    };
    let ghost d = unsigned_digits(s@);
    assert(d =~= s@.subrange(start as int, s@.len() as int));
    if start == s.len() {
        return None;
    }
    let mut value: u64 = 0;
    let mut i: usize = start;
    while i < s.len()
        invariant
            start <= i <= s@.len(),
            d == s@.subrange(start as int, s@.len() as int),
            d == unsigned_digits(s@),
            forall|k: int| start <= k < i ==> is_digit(#[trigger] s@[k]),
            value == digits_value(s@.subrange(start as int, i as int)),
            value <= max,
        decreases s@.len() - i,
    {
        let c = s[i];
        if !('0' <= c && c <= '9') {
            assert(d[i - start] == s@[i as int]);
            assert(!all_digits(d));
            return None;
        }
        let digit: u64 = (c as u32 - '0' as u32) as u64;
        assert(s@.subrange(start as int, i + 1).drop_last() =~= s@.subrange(start as int, i as int));
        if digit > max || value > (max - digit) / 10 {
            proof {
                let pre = s@.subrange(start as int, i + 1);
                assert(digits_value(pre) == value * 10 + digit);
                if digit <= max {
                    assert(value * 10 + digit > max) by (nonlinear_arith)
                        requires value > (max - digit) / 10, digit <= max;
                }
                lemma_digits_value_grows(d, i + 1 - start);
                assert(d.subrange(0, i + 1 - start) =~= pre);
            }
            return None;
        }
        assert(value * 10 + digit <= max) by (nonlinear_arith)
            requires value <= (max - digit) / 10, digit <= max;
        value = value * 10 + digit;
        i = i + 1;
    }
    assert(s@.subrange(start as int, s@.len() as int) == d);
    assert(all_digits(d)) by {
        assert forall|k: int| 0 <= k < d.len() implies is_digit(#[trigger] d[k]) by {
            assert(d[k] == s@[start + k]);
        }
    }
    Some(value)
}

/// Parses a run of characters as `u32::from_str` does.
pub fn parse_u32_chars(s: &[char]) -> (r: Option<u32>)
    ensures
        r == parse_u32(s@),
{
    match parse_bounded_chars(s, 4294967295) {
        Some(v) => Some(v as u32),
        None => None,
    }
}

/// Parses a run of characters as `u64::from_str` does.
pub fn parse_u64_chars(s: &[char]) -> (r: Option<u64>)
    ensures
        r == parse_u64(s@),
{
    parse_bounded_chars(s, u64::MAX)
}

/// Parses a run of characters as `i32::from_str` does.
pub fn parse_i32_chars(s: &[char]) -> (r: Option<i32>)
    ensures
        r == parse_i32(s@),
{
    if s.len() > 0 && s[0] == '-' {
        let rest = slice_subrange(s, 1, s.len());
        assert(rest@ =~= s@.drop_first());
        if rest.len() > 0 && rest[0] == '+' {
            assert(!all_digits(rest@)) by {
                assert(!is_digit(rest@[0]));
            }
            return None;
        }
        assert(unsigned_digits(rest@) == rest@);
        match parse_bounded_chars(rest, 2147483648) {
            Some(v) => {
                let neg: i64 = 0i64 - (v as i64);
                Some(neg as i32)
            },
            None => None,
        }
    } else {
        match parse_bounded_chars(s, 2147483647) {
            Some(v) => Some(v as i32),
            None => None,
        }
    }
}

/// The boundaries of the pieces of `s` between separators, as `str::split` cuts them.
pub fn piece_bounds(s: &[char], sep: char) -> (r: Vec<(usize, usize)>)
    ensures
        r@.len() == pieces(s@, sep).len(),
        forall|k: int|
            0 <= k < r@.len() ==> (#[trigger] r@[k]).0 <= r@[k].1 <= s@.len() && s@.subrange(
                r@[k].0 as int,
                r@[k].1 as int,
            ) == pieces(s@, sep)[k],
{
    let mut r: Vec<(usize, usize)> = Vec::new();
    let mut start: usize = 0;
    let mut i: usize = 0;
    while i < s.len()
        invariant
            start <= i <= s@.len(),
            ({
                let p = pieces(s@.subrange(0, i as int), sep);
                &&& p.len() == r@.len() + 1
                &&& p.last() == s@.subrange(start as int, i as int)
                &&& forall|k: int|
                    0 <= k < r@.len() ==> (#[trigger] r@[k]).0 <= r@[k].1 <= i && s@.subrange(
                        r@[k].0 as int,
                        r@[k].1 as int,
                    ) == p[k]
            }),
        decreases s@.len() - i,
    {
        let ghost pre = s@.subrange(0, i as int + 1);
        assert(pre.drop_last() =~= s@.subrange(0, i as int));
        proof {
            lemma_pieces_nonempty(s@.subrange(0, i as int), sep);
        }
        if s[i] == sep {
            r.push((start, i));
            start = i + 1;
            assert(s@.subrange(start as int, i as int + 1).len() == 0);
            assert(s@.subrange(start as int, i as int + 1) =~= Seq::<char>::empty());
        } else {
            assert(s@.subrange(start as int, i as int + 1) =~= s@.subrange(start as int, i as int).push(s@[i as int]));
        }
        i = i + 1;
    }
    r.push((start, i));
    proof {
        assert(s@.subrange(0, i as int) =~= s@);
    }
    r
}

/// A prefix of a digit run is worth no more than the run.
proof fn lemma_digits_value_grows(d: Seq<char>, k: int)
    requires
        0 <= k <= d.len(),
    ensures
        all_digits(d) ==> digits_value(d.subrange(0, k)) <= digits_value(d),
    decreases d.len() - k,
{
    if k < d.len() {
        if all_digits(d) {
            lemma_digits_value_grows(d, k + 1);
            assert(d.subrange(0, k + 1).drop_last() =~= d.subrange(0, k));
            assert(is_digit(d[k]));
        }
    } else {
        assert(d.subrange(0, k) =~= d);
    }
}

/// Index of the first non-whitespace character of `s` at or after `i`, or its length.
pub open spec fn skip_ws(s: Seq<char>, i: int) -> int
    decreases s.len() - i,
{
    if i >= s.len() {
        s.len() as int
    } else if is_ws(s[i]) {
        skip_ws(s, i + 1)
    } else {
        i
    }
}

/// Where the text of `s` ends once trailing whitespace is dropped.
pub open spec fn trimmed_end(s: Seq<char>) -> int
    decreases s.len(),
{
    if s.len() == 0 {
        0
    } else if is_ws(s.last()) {
        trimmed_end(s.drop_last())
    } else {
        s.len() as int
    }
}

/// `str::trim`: `s` without leading and trailing whitespace.
pub open spec fn trim(s: Seq<char>) -> Seq<char> {
    if trimmed_end(s) == 0 {
        Seq::<char>::empty()
    } else {
        s.subrange(skip_ws(s, 0), trimmed_end(s))
    }
}

/// `str::starts_with`.
pub open spec fn starts_with(s: Seq<char>, p: Seq<char>) -> bool {
    p.len() <= s.len() && s.subrange(0, p.len() as int) == p
}

/// `s` with every occurrence of `pat` taken out, scanning from the left as
/// `str::replace(pat, "")` does.
pub open spec fn remove_all(s: Seq<char>, pat: Seq<char>) -> Seq<char>
    decreases s.len(),
{
    if pat.len() == 0 || s.len() < pat.len() {
        s
    } else if s.subrange(0, pat.len() as int) == pat {
        remove_all(s.subrange(pat.len() as int, s.len() as int), pat)
    } else {
        seq![s[0]] + remove_all(s.drop_first(), pat)
    }
}

/// The whitespace-separated words of `s` (`str::split_whitespace`).
pub open spec fn words(s: Seq<char>) -> Seq<Seq<char>>
    decreases s.len(),
{
    if s.len() == 0 {
        Seq::<Seq<char>>::empty()
    } else {
        let w = words(s.drop_last());
        if is_ws(s.last()) {
            w
        } else if s.len() >= 2 && !is_ws(s[s.len() - 2]) {
            w.update(w.len() - 1, w.last().push(s.last()))
        } else {
            w.push(seq![s.last()])
        }
    }
}

/// The parts joined with `sep` between them (`join`).
pub open spec fn joined(parts: Seq<Seq<char>>, sep: Seq<char>) -> Seq<char>
    decreases parts.len(),
{
    if parts.len() == 0 {
        Seq::<char>::empty()
    } else if parts.len() == 1 {
        parts[0]
    } else {
        joined(parts.drop_last(), sep) + sep + parts.last()
    }
}

/// Facts about where trailing whitespace starts.
pub proof fn lemma_trimmed_end_facts(s: Seq<char>)
    ensures
        0 <= trimmed_end(s) <= s.len(),
        trimmed_end(s) > 0 ==> !is_ws(s[trimmed_end(s) - 1]),
        forall|k: int| trimmed_end(s) <= k < s.len() ==> is_ws(#[trigger] s[k]),
    decreases s.len(),
{
    if s.len() > 0 && is_ws(s.last()) {
        lemma_trimmed_end_facts(s.drop_last());
        assert forall|k: int| trimmed_end(s) <= k < s.len() implies is_ws(#[trigger] s[k]) by {
            if k < s.len() - 1 {
                assert(s.drop_last()[k] == s[k]);
            }
        }
    }
}

proof fn lemma_skip_ws_facts(s: Seq<char>, i: int)
    requires
        0 <= i <= s.len(),
    ensures
        i <= skip_ws(s, i) <= s.len(),
        forall|k: int| i <= k < skip_ws(s, i) ==> is_ws(#[trigger] s[k]),
        skip_ws(s, i) < s.len() ==> !is_ws(s[skip_ws(s, i)]),
    decreases s.len() - i,
{
    if i < s.len() && is_ws(s[i]) {
        lemma_skip_ws_facts(s, i + 1);
    }
}

/// `str::trim`, on the characters of a string.
pub fn trim_chars(s: &[char]) -> (r: (usize, usize))
    ensures
        r.0 <= r.1 <= s@.len(),
        s@.subrange(r.0 as int, r.1 as int) == trim(s@),
{
    let mut e = s.len();
    proof {
        lemma_trimmed_end_facts(s@);
        assert(s@.subrange(0, e as int) =~= s@);
    }
    while e > 0 && is_ws_char(s[e - 1])
        invariant
            trimmed_end(s@) <= e <= s@.len(),
            trimmed_end(s@) == trimmed_end(s@.subrange(0, e as int)),
        decreases e,
    {
        assert(s@.subrange(0, e as int).drop_last() =~= s@.subrange(0, e - 1));
        proof {
            lemma_trimmed_end_facts(s@.subrange(0, e - 1));
        }
        e = e - 1;
    }
    if e > 0 {
        assert(s@.subrange(0, e as int).last() == s@[e - 1]);
        assert(!is_ws(s@.subrange(0, e as int).last()));
    }
    assert(trimmed_end(s@) == e);
    if e == 0 {
        return (0, 0);
    }
    let mut b: usize = 0;
    proof {
        lemma_skip_ws_facts(s@, 0);
    }
    while b < e && is_ws_char(s[b])
        invariant
            0 <= b <= e,
            e <= s@.len(),
            skip_ws(s@, 0) == skip_ws(s@, b as int),
        decreases e - b,
    {
        b = b + 1;
    }
    proof {
        lemma_skip_ws_facts(s@, b as int);
        assert(!is_ws(s@[e - 1]));
    }
    (b, e)
}

/// `str::starts_with`, on characters.
pub fn starts_with_chars(s: &[char], p: &str) -> (r: bool)
    ensures
        r == starts_with(s@, p@),
{
    let pc = chars_of(p);
    if pc.len() > s.len() {
        return false;
    }
    let mut j: usize = 0;
    while j < pc.len()
        invariant
            pc@ == p@,
            pc@.len() <= s@.len(),
            j <= pc@.len(),
            forall|k: int| 0 <= k < j ==> s@[k] == pc@[k],
        decreases pc@.len() - j,
    {
        if s[j] != pc[j] {
            assert(s@.subrange(0, pc@.len() as int)[j as int] != pc@[j as int]);
            return false;
        }
        j = j + 1;
    }
    assert(s@.subrange(0, pc@.len() as int) =~= pc@);
    true
}

/// The words of `s` as character ranges, as `str::split_whitespace` gives them.
pub fn word_bounds(s: &[char]) -> (r: Vec<(usize, usize)>)
    ensures
        r@.len() == words(s@).len(),
        forall|k: int|
            0 <= k < r@.len() ==> (#[trigger] r@[k]).0 <= r@[k].1 <= s@.len() && s@.subrange(
                r@[k].0 as int,
                r@[k].1 as int,
            ) == words(s@)[k],
{
    let mut r: Vec<(usize, usize)> = Vec::new();
    let mut start: usize = 0;
    let mut i: usize = 0;
    while i < s.len()
        invariant
            start <= i <= s@.len(),
            ({
                let w = words(s@.subrange(0, i as int));
                let inside = i > 0 && !is_ws(s@[i - 1]);
                &&& (if inside { w.len() == r@.len() + 1 } else { w.len() == r@.len() })
                &&& inside ==> start < i && w.last() == s@.subrange(start as int, i as int)
                &&& forall|k: int|
                    0 <= k < r@.len() ==> (#[trigger] r@[k]).0 <= r@[k].1 <= i && s@.subrange(
                        r@[k].0 as int,
                        r@[k].1 as int,
                    ) == w[k]
            }),
        decreases s@.len() - i,
    {
        let ghost pre = s@.subrange(0, i as int + 1);
        assert(pre.drop_last() =~= s@.subrange(0, i as int));
        let inside = i > 0 && !is_ws_char(s[i - 1]);
        if is_ws_char(s[i]) {
            if inside {
                r.push((start, i));
            }
        } else if inside {
            assert(pre[pre.len() - 2] == s@[i - 1]);
            assert(s@.subrange(start as int, i as int + 1) =~= s@.subrange(start as int, i as int).push(s@[i as int]));
        } else {
            start = i;
            assert(s@.subrange(start as int, i as int + 1) =~= seq![s@[i as int]]);
            if i > 0 {
                assert(pre[pre.len() - 2] == s@[i - 1]);
            }
        }
        i = i + 1;
    }
    if i > 0 && !is_ws_char(s[i - 1]) {
        r.push((start, i));
    }
    proof {
        assert(s@.subrange(0, i as int) =~= s@);
    }
    r
}

/// The first position at or after `i` where `pat` occurs in `s`.
pub open spec fn first_match(s: Seq<char>, pat: Seq<char>, i: int) -> Option<int>
    decreases s.len() + 1 - i,
{
    if i < 0 || i + pat.len() > s.len() {
        None
    } else if s.subrange(i, i + pat.len()) == pat {
        Some(i)
    } else {
        first_match(s, pat, i + 1)
    }
}

/// Where `first_match` finds `pat`, or that it occurs nowhere.
pub proof fn lemma_first_match_found(s: Seq<char>, pat: Seq<char>, i: int)
    requires
        0 <= i,
    ensures
        first_match(s, pat, i) matches Some(k) ==> i <= k && k + pat.len() <= s.len()
            && s.subrange(k, k + pat.len()) == pat,
        first_match(s, pat, i) is None ==> forall|k: int| i <= k <= s.len() - pat.len() ==> #[trigger] s.subrange(k, k + pat.len()) != pat,
    decreases s.len() + 1 - i,
{
    if i + pat.len() <= s.len() && s.subrange(i, i + pat.len()) != pat {
        lemma_first_match_found(s, pat, i + 1);
    }
}

/// The characters `lo..hi` of `text`, as a string.
pub fn text_range(text: &str, lo: usize, hi: usize) -> (r: String)
    requires
        lo <= hi <= text@.len(),
    ensures
        r@ == text@.subrange(lo as int, hi as int),
{
    String::from_str(text.substring_char(lo, hi))
}

fn matches_at(chars: &[char], i: usize, pat: &Vec<char>) -> (r: bool)
    requires
        i + pat@.len() <= chars@.len(),
    ensures
        r == (chars@.subrange(i as int, i + pat@.len()) == pat@),
{
    let cl = chars.len();
    let mut j: usize = 0;
    while j < pat.len()
        invariant
            cl == chars@.len(),
            i + pat@.len() <= cl,
            j <= pat@.len(),
            forall|k: int| 0 <= k < j ==> chars@[i + k] == pat@[k],
        decreases pat@.len() - j,
    {
        if chars[i + j] != pat[j] {
            assert(chars@.subrange(i as int, i + pat@.len())[j as int] != pat@[j as int]);
            return false;
        }
        j = j + 1;
    }
    assert(chars@.subrange(i as int, i + pat@.len()) =~= pat@);
    true
}

/// The first position in `lo..hi` of `text` where `pat` occurs.
pub fn find_in_range(chars: &[char], lo: usize, hi: usize, pat: &str) -> (r: Option<usize>)
    requires
        lo <= hi <= chars@.len(),
    ensures
        r matches Some(k) ==> lo <= k && k + pat@.len() <= hi && first_match(
            chars@.subrange(lo as int, hi as int),
            pat@,
            0,
        ) == Some(k - lo),
        r is None ==> first_match(chars@.subrange(lo as int, hi as int), pat@, 0) is None,
{
    let p = chars_of(pat);
    let n = p.len();
    let ghost s = chars@.subrange(lo as int, hi as int);
    if n == 0 {
        assert(s.subrange(0, 0) =~= pat@);
        return Some(lo);
    }
    let mut i: usize = lo;
    while i <= hi && n <= hi - i
        invariant
            p@ == pat@,
            n == p@.len(),
            n > 0,
            lo <= i <= hi,
            hi <= chars@.len(),
            s == chars@.subrange(lo as int, hi as int),
            first_match(s, pat@, 0) == first_match(s, pat@, i - lo),
        decreases hi - i,
    {
        assert(s.subrange(i - lo, i - lo + n) =~= chars@.subrange(i as int, i + n));
        if matches_at(chars, i, &p) {
            return Some(i);
        }
        i = i + 1;
    }
    None
}

proof fn lemma_remove_all_step(s: Seq<char>, pat: Seq<char>, i: int)
    requires
        pat.len() > 0,
        0 <= i,
        i + pat.len() <= s.len(),
        s.subrange(i, i + pat.len()) != pat,
    ensures
        remove_all(s.subrange(i, s.len() as int), pat) == seq![s[i]] + remove_all(s.subrange(i + 1, s.len() as int), pat),
{
    let t = s.subrange(i, s.len() as int);
    assert(t.subrange(0, pat.len() as int) =~= s.subrange(i, i + pat.len()));
    assert(t.drop_first() =~= s.subrange(i + 1, s.len() as int));
}

proof fn lemma_remove_all_match(s: Seq<char>, pat: Seq<char>, i: int)
    requires
        pat.len() > 0,
        0 <= i,
        i + pat.len() <= s.len(),
        s.subrange(i, i + pat.len()) == pat,
    ensures
        remove_all(s.subrange(i, s.len() as int), pat) == remove_all(s.subrange(i + pat.len(), s.len() as int), pat),
{
    let t = s.subrange(i, s.len() as int);
    assert(t.subrange(0, pat.len() as int) =~= s.subrange(i, i + pat.len()));
    assert(t.subrange(pat.len() as int, t.len() as int) =~= s.subrange(i + pat.len(), s.len() as int));
}

/// The characters `lo..hi` of `text` with every occurrence of `pat` taken out.
pub fn remove_all_in_range(text: &str, chars: &[char], lo: usize, hi: usize, pat: &str) -> (r: String)
    requires
        chars@ == text@,
        lo <= hi <= chars@.len(),
        pat@.len() > 0,
    ensures
        r@ == remove_all(chars@.subrange(lo as int, hi as int), pat@),
{
    let p = chars_of(pat);
    let n = p.len();
    let ghost s = chars@.subrange(lo as int, hi as int);
    let mut out = String::new();
    let mut seg: usize = lo;
    let mut i: usize = lo;
    assert(s.subrange(0, s.len() as int) =~= s);
    assert(out@ + chars@.subrange(lo as int, lo as int) =~= Seq::<char>::empty());
    while n <= hi - i
        invariant
            p@ == pat@,
            n == p@.len(),
            n > 0,
            chars@ == text@,
            lo <= seg <= i,
            i <= hi,
            hi <= chars@.len(),
            s == chars@.subrange(lo as int, hi as int),
            remove_all(s, pat@) == out@ + chars@.subrange(seg as int, i as int) + remove_all(
                s.subrange(i - lo, s.len() as int),
                pat@,
            ),
        decreases hi - i,
    {
        assert(s.subrange(i - lo, i - lo + n) =~= chars@.subrange(i as int, i + n));
        if matches_at(chars, i, &p) {
            proof {
                lemma_remove_all_match(s, pat@, i - lo);
            }
            out.append(text_range(text, seg, i).as_str());
            i = i + n;
            seg = i;
            assert(chars@.subrange(seg as int, i as int) =~= Seq::<char>::empty());
        } else {
            proof {
                lemma_remove_all_step(s, pat@, i - lo);
                assert(s[i - lo] == chars@[i as int]);
                assert(chars@.subrange(seg as int, i as int) + seq![chars@[i as int]] =~= chars@.subrange(seg as int, i + 1));
            }
            i = i + 1;
        }
    }
    proof {
        let rest = s.subrange(i - lo, s.len() as int);
        assert(rest.len() < pat@.len());
        assert(rest =~= chars@.subrange(i as int, hi as int));
        assert(chars@.subrange(seg as int, i as int) + chars@.subrange(i as int, hi as int) =~= chars@.subrange(seg as int, hi as int));
    }
    out.append(text_range(text, seg, hi).as_str());
    assert(out@ =~= remove_all(s, pat@));
    out
}

fn push_digit(s: &mut String, d: u64)
    requires
        d < 10,
    ensures
        final(s)@ == old(s)@ + seq![digit_char(d as nat)],
{
    let lit: &str = if d == 0 {
        "0"
    } else if d == 1 {
        "1"
    } else if d == 2 {
        "2"
    } else if d == 3 {
        "3"
    } else if d == 4 {
        "4"
    } else if d == 5 {
        "5"
    } else if d == 6 {
        "6"
    } else if d == 7 {
        "7"
    } else if d == 8 {
        "8"
    } else {
        "9"
    };
    proof {
        reveal_strlit("0");
        reveal_strlit("1");
        reveal_strlit("2");
        reveal_strlit("3");
        reveal_strlit("4");
        reveal_strlit("5");
        reveal_strlit("6");
        reveal_strlit("7");
        reveal_strlit("8");
        reveal_strlit("9");
        assert(lit@ =~= seq![digit_char(d as nat)]);
    }
    s.append(lit);
}

/// Appends `n` in base ten.
pub fn push_decimal(s: &mut String, n: u64)
    ensures
        final(s)@ == old(s)@ + decimal(n as nat),
    decreases n,
{
    if n >= 10 {
        push_decimal(s, n / 10);
        push_digit(s, n % 10);
        assert(final(s)@ =~= old(s)@ + decimal(n as nat));
    } else {
        push_digit(s, n);
        assert(final(s)@ =~= old(s)@ + decimal(n as nat));
    }
}

/// Appends a string literal or slice.
pub fn push_str(s: &mut String, t: &str)
    ensures
        final(s)@ == old(s)@ + t@,
{
    s.append(t);
}

/// Relies on `std::time::SystemTime::now` and `SystemTime::duration_since(UNIX_EPOCH)`:
/// whole seconds since the Unix epoch, or 0 for a clock set before it. The value
/// depends on the clock, so nothing is promised of it.
#[verifier::external_body]
fn unix_seconds() -> (r: u64) {
    std::time::SystemTime::now()
        .duration_since(std::time::UNIX_EPOCH)
        .map(|d| d.as_secs())
        .unwrap_or(0)
}

/// The current time as a decimal count of seconds since the Unix epoch.
pub fn chrono_now() -> (r: String)
    ensures
        exists|secs: nat| r@ == decimal(secs),
{
    let secs = unix_seconds();
    let mut s = String::new();
    push_decimal(&mut s, secs);
    assert(s@ =~= decimal(secs as nat));
    s
}

/// `bytes=start-end`, the value of the range request for one chunk.
pub fn range_header(start: u64, end: u64) -> (r: String)
    ensures
        r@ == range_value(start as nat, end as nat),
{
    let mut s = String::new();
    push_str(&mut s, "bytes=");
    push_decimal(&mut s, start);
    push_str(&mut s, "-");
    push_decimal(&mut s, end);
    proof {
        reveal_strlit("bytes=");
        reveal_strlit("-");
        assert(s@ =~= range_value(start as nat, end as nat));
    }
    s
}

} // verus!
