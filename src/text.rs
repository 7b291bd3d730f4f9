//! Text scanning: lines, separators, blank lines, decimal numbers, case folding.
use vstd::prelude::*;

verus! {

/// The pieces of `s` between occurrences of `sep`: one more piece than there
/// are separators, empty pieces included.
pub open spec fn split_on(s: Seq<char>, sep: char) -> Seq<Seq<char>>
    decreases s.len(),
{
    if s.len() == 0 {
        seq![Seq::empty()]
    } else {
        let r = split_on(s.drop_last(), sep);
        if s.last() == sep {
            r.push(Seq::empty())
        } else {
            r.update(r.len() - 1, r.last().push(s.last()))
        }
    }
}

/// `line` without one carriage return at its end.
pub open spec fn strip_cr(line: Seq<char>) -> Seq<char> {
    if line.len() > 0 && line.last() == '\r' {
        line.drop_last()
    } else {
        line
    }
}

/// The lines of `s`: split at `\n`, a `\r` right before a `\n` dropped, and a
/// final newline ending the last line rather than starting an empty one.
pub open spec fn lines_of(s: Seq<char>) -> Seq<Seq<char>> {
    let pieces = split_on(s, '\n');
    let ended = pieces.drop_last().map_values(|p: Seq<char>| strip_cr(p));
    if pieces.last().len() == 0 {
        ended
    } else {
        ended.push(pieces.last())
    }
}

/// Unicode white space, as `char::is_whitespace` defines it.
pub open spec fn is_space(c: char) -> bool {
    let u = c as u32;
    ||| 9 <= u <= 13
    ||| u == 32
    ||| u == 0x85
    ||| u == 0xa0
    ||| u == 0x1680
    ||| 0x2000 <= u <= 0x200a
    ||| u == 0x2028
    ||| u == 0x2029
    ||| u == 0x202f
    ||| u == 0x205f
    ||| u == 0x3000
}

/// The line holds white space only (or nothing).
pub open spec fn is_blank(line: Seq<char>) -> bool {
    forall|i: int| 0 <= i < line.len() ==> is_space(#[trigger] line[i])
}

pub open spec fn is_digit(c: char) -> bool {
    '0' <= c <= '9'
}

pub open spec fn digit_value(c: char) -> int {
    (c as u32) - ('0' as u32)
}

/// The number that a string of decimal digits denotes.
pub open spec fn digits_value(d: Seq<char>) -> int
    decreases d.len(),
{
    if d.len() == 0 {
        0
    } else {
        10 * digits_value(d.drop_last()) + digit_value(d.last())
    }
}

/// `t` without one leading `+`.
pub open spec fn unsigned_digits(t: Seq<char>) -> Seq<char> {
    if t.len() > 0 && t[0] == '+' {
        t.drop_first()
    } else {
        t
    }
}

/// A decimal numeral: an optional `+`, then one or more digits. Leading
/// zeros are allowed.
pub open spec fn is_numeral(t: Seq<char>) -> bool {
    let d = unsigned_digits(t);
    d.len() > 0 && (forall|i: int| 0 <= i < d.len() ==> is_digit(#[trigger] d[i]))
}

/// The value of a decimal numeral, when it fits a `u64`; `None` for any
/// other text, and for a numeral above `u64::MAX`.
pub open spec fn parse_number_spec(t: Seq<char>) -> Option<u64> {
    let d = unsigned_digits(t);
    if is_numeral(t) && digits_value(d) <= u64::MAX {
        Some(digits_value(d) as u64)
    } else {
        None
    }
}

/// What `str::to_lowercase` returns for a string.
pub uninterp spec fn lower_of(s: Seq<char>) -> Seq<char>;

/// Relies on `str::to_lowercase`: Unicode lower case, a function of the
/// characters alone.
#[verifier::external_body]
pub(crate) fn fold_case(s: &str) -> (r: String)
    ensures
        r@ == lower_of(s@),
{
    s.to_lowercase()
}

pub proof fn lemma_split_nonempty(s: Seq<char>, sep: char)
    ensures
        split_on(s, sep).len() >= 1,
    decreases s.len(),
{
    if s.len() > 0 {
        lemma_split_nonempty(s.drop_last(), sep);
    }
}

/// Text without the separator is one piece.
pub proof fn lemma_split_whole(a: Seq<char>, sep: char)
    requires
        !a.contains(sep),
    ensures
        split_on(a, sep) == seq![a],
    decreases a.len(),
{
    if a.len() > 0 {
        let p = a.drop_last();
        assert(!p.contains(sep)) by {
            if p.contains(sep) {
                let k = choose|k: int| 0 <= k < p.len() && p[k] == sep;
                assert(a[k] == sep);
            }
        }
        lemma_split_whole(p, sep);
        assert(a.last() == a[a.len() - 1]);
        assert(a.last() != sep);
        assert(p.push(a.last()) =~= a);
        assert(seq![p].update(0, p.push(a.last())) =~= seq![a]);
    } else {
        assert(a =~= Seq::<char>::empty());
    }
}

/// Appending a separator and then text without it adds that text as a piece.
pub proof fn lemma_split_append(s: Seq<char>, sep: char, b: Seq<char>)
    requires
        !b.contains(sep),
    ensures
        split_on(s + seq![sep] + b, sep) == split_on(s, sep).push(b),
    decreases b.len(),
{
    let t = s + seq![sep] + b;
    if b.len() == 0 {
        assert(t.drop_last() =~= s);
        assert(b =~= Seq::<char>::empty());
    } else {
        let p = b.drop_last();
        assert(!p.contains(sep)) by {
            if p.contains(sep) {
                let k = choose|k: int| 0 <= k < p.len() && p[k] == sep;
                assert(b[k] == sep);
            }
        }
        lemma_split_append(s, sep, p);
        assert(t.drop_last() =~= s + seq![sep] + p);
        assert(t.last() == b[b.len() - 1]);
        assert(b.last() != sep);
        assert(p.push(b.last()) =~= b);
        lemma_split_nonempty(s, sep);
        let r = split_on(s, sep).push(p);
        assert(r.update(r.len() - 1, r.last().push(b.last())) =~= split_on(s, sep).push(b));
    }
}

/// The lines of `x`, a newline and `y`, when neither holds a newline and `y`
/// is not empty.
pub proof fn lemma_lines_of_two(x: Seq<char>, y: Seq<char>)
    requires
        !x.contains('\n'),
        !y.contains('\n'),
        y.len() > 0,
    ensures
        lines_of(x + seq!['\n'] + y) == seq![strip_cr(x), y],
{
    lemma_split_whole(x, '\n');
    lemma_split_append(x, '\n', y);
    let pieces = split_on(x + seq!['\n'] + y, '\n');
    assert(pieces == seq![x, y]);
    assert(pieces.drop_last() =~= seq![x]);
    assert(pieces.drop_last().map_values(|p: Seq<char>| strip_cr(p)) =~= seq![strip_cr(x)]);
    assert(seq![strip_cr(x)].push(y) =~= seq![strip_cr(x), y]);
}

/// The lines of `x`, `w` and `y` joined by newlines, when none holds a
/// newline and `y` is not empty.
pub proof fn lemma_lines_of_three(x: Seq<char>, w: Seq<char>, y: Seq<char>)
    requires
        !x.contains('\n'),
        !w.contains('\n'),
        !y.contains('\n'),
        y.len() > 0,
    ensures
        lines_of(x + seq!['\n'] + w + seq!['\n'] + y) == seq![strip_cr(x), strip_cr(w), y],
{
    lemma_split_whole(x, '\n');
    lemma_split_append(x, '\n', w);
    lemma_split_append(x + seq!['\n'] + w, '\n', y);
    let pieces = split_on(x + seq!['\n'] + w + seq!['\n'] + y, '\n');
    assert(seq![x].push(w) =~= seq![x, w]);
    assert(seq![x, w].push(y) =~= seq![x, w, y]);
    assert(pieces == seq![x, w, y]);
    assert(pieces.drop_last() =~= seq![x, w]);
    assert(pieces.drop_last().map_values(|p: Seq<char>| strip_cr(p)) =~= seq![strip_cr(x), strip_cr(w)]);
    assert(seq![strip_cr(x), strip_cr(w)].push(y) =~= seq![strip_cr(x), strip_cr(w), y]);
}

/// The characters of `s`, one element each.
pub fn chars_of(s: &str) -> (r: Vec<char>)
    ensures
        r@ == s@,
{
    let mut r: Vec<char> = Vec::new();
    for c in it: s.chars()
        invariant
            r@ == it.seq().subrange(0, it.index() as int),
            it.seq() == s@,
    {
        r.push(c);
    }
    r
}

/// The bounds of each piece of `chars[start..end]` between occurrences of `sep`.
pub fn split_ranges(chars: &Vec<char>, start: usize, end: usize, sep: char) -> (r: Vec<(usize, usize)>)
    requires
        start <= end <= chars@.len(),
    ensures
        r@.len() == split_on(chars@.subrange(start as int, end as int), sep).len(),
        forall|i: int|
            0 <= i < r@.len() ==> {
                &&& start <= (#[trigger] r@[i]).0 <= r@[i].1 <= end
                &&& chars@.subrange(r@[i].0 as int, r@[i].1 as int) == split_on(
                    chars@.subrange(start as int, end as int),
                    sep,
                )[i]
            },
{
    let mut r: Vec<(usize, usize)> = Vec::new();
    let mut p: usize = start;
    let mut j: usize = start;
    assert(chars@.subrange(start as int, start as int) =~= Seq::<char>::empty());
    while j < end
        invariant
            start <= p <= j <= end <= chars@.len(),
            split_on(chars@.subrange(start as int, j as int), sep).len() == r@.len() + 1,
            split_on(chars@.subrange(start as int, j as int), sep)[r@.len() as int]
                == chars@.subrange(p as int, j as int),
            forall|i: int|
                0 <= i < r@.len() ==> {
                    &&& start <= (#[trigger] r@[i]).0 <= r@[i].1 <= j
                    &&& chars@.subrange(r@[i].0 as int, r@[i].1 as int) == split_on(
                        chars@.subrange(start as int, j as int),
                        sep,
                    )[i]
                },
        decreases end - j,
    {
        let ghost prev = chars@.subrange(start as int, j as int);
        let ghost next = chars@.subrange(start as int, j + 1);
        assert(next.drop_last() =~= prev);
        assert(next.last() == chars@[j as int]);
        if chars[j] == sep {
            r.push((p, j));
            p = j + 1;
            assert(chars@.subrange(p as int, j + 1) =~= Seq::<char>::empty());
        } else {
            assert(chars@.subrange(p as int, j + 1) =~= chars@.subrange(p as int, j as int).push(
                chars@[j as int],
            ));
        }
        j = j + 1;
    }
    r.push((p, end));
    r
}

/// Whether every character of `chars[start..end]` is white space.
pub fn is_blank_range(chars: &Vec<char>, start: usize, end: usize) -> (r: bool)
    requires
        start <= end <= chars@.len(),
    ensures
        r == is_blank(chars@.subrange(start as int, end as int)),
{
    let mut k: usize = start;
    while k < end
        invariant
            start <= k <= end <= chars@.len(),
            forall|i: int| start <= i < k ==> is_space(#[trigger] chars@[i]),
        decreases end - k,
    {
        if !is_space_char(chars[k]) {
            assert(chars@.subrange(start as int, end as int)[k - start] == chars@[k as int]);
            return false;
        }
        k = k + 1;
    }
    assert forall|i: int| 0 <= i < end - start implies is_space(
        #[trigger] chars@.subrange(start as int, end as int)[i],
    ) by {
        assert(chars@.subrange(start as int, end as int)[i] == chars@[start + i]);
    }
    true
}

/// Whether `c` is white space, as `char::is_whitespace` defines it.
pub fn is_space_char(c: char) -> (r: bool)
    ensures
        r == is_space(c),
{
    let u = c as u32;
    (9 <= u && u <= 13) || u == 32 || u == 0x85 || u == 0xa0 || u == 0x1680 || (0x2000 <= u && u
        <= 0x200a) || u == 0x2028 || u == 0x2029 || u == 0x202f || u == 0x205f || u == 0x3000
}

/// Reads a decimal numeral that fits a `u64`.
pub fn parse_number(t: &str) -> (r: Option<u64>)
    ensures
        r == parse_number_spec(t@),
{
    let chars = chars_of(t);
    let start: usize = if chars.len() > 0 && chars[0] == '+' {
        1
    } else {
        0
    };
    let ghost d = unsigned_digits(t@);
    assert(d =~= chars@.subrange(start as int, chars@.len() as int));
    if start == chars.len() {
        return None;
    }
    let mut acc: u64 = 0;
    let mut over = false;
    let mut k: usize = start;
    assert(d.subrange(0, 0) =~= Seq::<char>::empty());
    while k < chars.len()
        invariant
            start <= k <= chars@.len(),
            d == chars@.subrange(start as int, chars@.len() as int),
            d == unsigned_digits(t@),
            forall|i: int| 0 <= i < k - start ==> is_digit(#[trigger] d[i]),
            !over ==> acc as int == digits_value(d.subrange(0, k - start)),
            over ==> digits_value(d.subrange(0, k - start)) > u64::MAX,
        decreases chars@.len() - k,
    {
        let c = chars[k];
        assert(d[k - start] == c);
        if !('0' <= c && c <= '9') {
            assert(!is_digit(d[k - start]));
            return None;
        }
        let ghost prefix = d.subrange(0, k + 1 - start);
        assert(prefix.drop_last() =~= d.subrange(0, k - start));
        assert(prefix.last() == c);
        let ghost before = digits_value(d.subrange(0, k - start));
        assert(digits_value(prefix) == 10 * before + digit_value(c));
        let digit = (c as u32 - '0' as u32) as u64;
        assert(digit as int == digit_value(c) && digit <= 9);
        if !over {
            if acc > 1844674407370955161 || (acc == 1844674407370955161 && digit > 5) {
                over = true;
            } else {
                acc = acc * 10 + digit;
            }
        }
        k = k + 1;
    }
    assert(d.subrange(0, d.len() as int) =~= d);
    if over {
        None
    } else {
        Some(acc)
    }
}

/// Whether `a[0..n]` spells `w`.
pub fn same_word(a: &Vec<char>, n: usize, w: &str) -> (r: bool)
    requires
        n <= a@.len(),
    ensures
        r == (a@.subrange(0, n as int) == w@),
{
    if w.unicode_len() != n {
        return false;
    }
    let mut i: usize = 0;
    while i < n
        invariant
            i <= n <= a@.len(),
            n == w@.len(),
            forall|k: int| 0 <= k < i ==> a@[k] == w@[k],
        decreases n - i,
    {
        if a[i] != w.get_char(i) {
            assert(a@.subrange(0, n as int)[i as int] != w@[i as int]);
            return false;
        }
        i = i + 1;
    }
    assert(a@.subrange(0, n as int) =~= w@);
    true
}

} // verus!
