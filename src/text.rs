//! Character-level helpers: whitespace, words, decimal digits and lines.

use vstd::prelude::*;
use vstd::string::*;

verus! {

/// The characters that Unicode classes as `White_Space`.
pub open spec fn is_space(c: char) -> bool {
    let n = c as u32;
    ||| (0x9 <= n && n <= 0xd)
    ||| n == 0x20
    ||| n == 0x85
    ||| n == 0xa0
    ||| n == 0x1680
    ||| (0x2000 <= n && n <= 0x200a)
    ||| n == 0x2028
    ||| n == 0x2029
    ||| n == 0x202f
    ||| n == 0x205f
    ||| n == 0x3000
}

pub fn char_is_space(c: char) -> (r: bool)
    ensures
        r == is_space(c),
{
    let n = c as u32;
    (0x9 <= n && n <= 0xd) || n == 0x20 || n == 0x85 || n == 0xa0 || n == 0x1680 || (0x2000 <= n
        && n <= 0x200a) || n == 0x2028 || n == 0x2029 || n == 0x202f || n == 0x205f || n == 0x3000
}

/// The views of a sequence of strings.
pub open spec fn views(v: Seq<String>) -> Seq<Seq<char>> {
    v.map_values(|s: String| s@)
}

/// The maximal runs of non-whitespace characters of `s`, in order.
pub open spec fn words(s: Seq<char>) -> Seq<Seq<char>>
    decreases s.len(),
{
    if s.len() == 0 {
        seq![]
    } else {
        let w = words(s.drop_last());
        let c = s.last();
        if is_space(c) {
            w
        } else if s.len() >= 2 && !is_space(s[s.len() - 2]) {
            w.drop_last().push(w.last().push(c))
        } else {
            w.push(seq![c])
        }
    }
}

/// Splits `s` at whitespace, dropping the empty pieces.
pub fn split_words(s: &str) -> (r: Vec<String>)
    ensures
        views(r@) == words(s@),
{
    let n = s.unicode_len();
    let mut out: Vec<String> = Vec::new();
    let mut start: usize = 0;
    let mut in_word = false;
    let mut i: usize = 0;
    while i < n
        invariant
            n == s@.len(),
            i <= n,
            in_word == (i > 0 && !is_space(s@[i - 1])),
            in_word ==> start < i,
            in_word ==> words(s@.take(i as int)) == views(out@).push(
                s@.subrange(start as int, i as int),
            ),
            !in_word ==> words(s@.take(i as int)) == views(out@),
        decreases n - i,
    {
        let c = s.get_char(i);
        let ghost pre = s@.take(i as int);
        let ghost cur = s@.take(i + 1);
        assert(cur.drop_last() =~= pre);
        assert(cur.last() == c);
        if char_is_space(c) {
            if in_word {
                let w = String::from_str(s.substring_char(start, i));
                let ghost before = out@;
                out.push(w);
                assert(views(out@) =~= views(before).push(w@));
            }
            in_word = false;
        } else {
            if in_word {
                if i >= 1 {
                    assert(cur[cur.len() - 2] == s@[i - 1]);
                }
                assert(s@.subrange(start as int, i + 1) =~= s@.subrange(start as int, i as int).push(c));
                let ghost w = words(pre);
                assert(w.drop_last() =~= views(out@));
            } else {
                if i >= 1 {
                    assert(cur[cur.len() - 2] == s@[i - 1]);
                }
                start = i;
                assert(s@.subrange(start as int, i + 1) =~= seq![c]);
            }
            in_word = true;
        }
        i = i + 1;
    }
    assert(s@.take(n as int) =~= s@);
    if in_word {
        let w = String::from_str(s.substring_char(start, n));
        let ghost before = out@;
        out.push(w);
        assert(views(out@) =~= views(before).push(w@));
    }
    out
}


/// The words of `ws` joined by single spaces.
pub open spec fn join_spaced(ws: Seq<Seq<char>>) -> Seq<char>
    decreases ws.len(),
{
    if ws.len() == 0 {
        seq![]
    } else if ws.len() == 1 {
        ws[0]
    } else {
        join_spaced(ws.drop_last()) + seq![' '] + ws.last()
    }
}

/// Joins the strings of `ws` from index `from` on, with single spaces between them.
pub fn join_from(ws: &Vec<String>, from: usize) -> (r: String)
    requires
        from <= ws@.len(),
    ensures
        r@ == join_spaced(views(ws@).skip(from as int)),
{
    let mut r = String::new();
    let mut i: usize = from;
    while i < ws.len()
        invariant
            from <= i <= ws@.len(),
            r@ == join_spaced(views(ws@).subrange(from as int, i as int)),
        decreases ws@.len() - i,
    {
        let ghost next = views(ws@).subrange(from as int, i + 1);
        assert(next.drop_last() =~= views(ws@).subrange(from as int, i as int));
        assert(next.last() == ws@[i as int]@);
        if i > from {
            proof {
                reveal_strlit(" ");
            }
            r.append(" ");
            r.append(ws[i].as_str());
            assert(r@ =~= join_spaced(next.drop_last()) + seq![' '] + next.last());
        } else {
            assert(next =~= seq![ws@[i as int]@]);
            r.append(ws[i].as_str());
            assert(r@ =~= next[0]);
        }
        i = i + 1;
    }
    assert(views(ws@).subrange(from as int, ws@.len() as int) =~= views(ws@).skip(from as int));
    r
}

/// The upper-case form of `s` under Unicode's case mapping, as
/// `str::to_uppercase` gives it.
pub uninterp spec fn upper_of(s: Seq<char>) -> Seq<char>;

/// Relies on `str::to_uppercase`: the Unicode upper-case mapping of the
/// characters of `s`, a function of those characters alone.
#[verifier::external_body]
pub(crate) fn uppercase(s: &str) -> (r: String)
    ensures
        r@ == upper_of(s@),
{
    s.to_uppercase()
}

/// Whether `a` and `b` hold the same characters.
pub fn same_text(a: &str, b: &str) -> (r: bool)
    ensures
        r == (a@ == b@),
{
    let n = a.unicode_len();
    if n != b.unicode_len() {
        return false;
    }
    let mut i: usize = 0;
    while i < n
        invariant
            n == a@.len() == b@.len(),
            i <= n,
            forall|j: int| 0 <= j < i ==> #[trigger] a@[j] == b@[j],
        decreases n - i,
    {
        if a.get_char(i) != b.get_char(i) {
            return false;
        }
        i = i + 1;
    }
    assert(a@ =~= b@);
    true
}

/// An ASCII decimal digit.
pub open spec fn is_digit(c: char) -> bool {
    0x30 <= (c as u32) && (c as u32) <= 0x39
}

pub open spec fn all_digits(s: Seq<char>) -> bool {
    forall|i: int| 0 <= i < s.len() ==> is_digit(#[trigger] s[i])
}

/// The number that the digits of `s` spell in base ten.
pub open spec fn digits_value(s: Seq<char>) -> nat
    decreases s.len(),
{
    if s.len() == 0 {
        0
    } else {
        digits_value(s.drop_last()) * 10 + ((s.last() as u32) - 0x30) as nat
    }
}

proof fn lemma_digits_value_grows(s: Seq<char>, i: int)
    requires
        0 <= i <= s.len(),
        all_digits(s),
    ensures
        digits_value(s.take(i)) <= digits_value(s),
    decreases s.len() - i,
{
    if i < s.len() {
        lemma_digits_value_grows(s, i + 1);
        assert(s.take(i + 1).drop_last() =~= s.take(i));
        assert(is_digit(s[i]));
    }
    else {
        assert(s.take(i) =~= s);
    }
}

/// Reads the digits of `s` as a `u32`, or `None` where the number is too large.
pub fn parse_u32(s: &str) -> (r: Option<u32>)
    requires
        all_digits(s@),
    ensures
        r == (if digits_value(s@) <= u32::MAX {
            Some(digits_value(s@) as u32)
        } else {
            None::<u32>
        }),
{
    let n = s.unicode_len();
    let mut acc: u64 = 0;
    let mut i: usize = 0;
    while i < n
        invariant
            n == s@.len(),
            i <= n,
            all_digits(s@),
            acc == digits_value(s@.take(i as int)),
            acc <= u32::MAX,
        decreases n - i,
    {
        let c = s.get_char(i);
        assert(is_digit(s@[i as int]));
        assert(s@.take(i + 1).drop_last() =~= s@.take(i as int));
        acc = acc * 10 + (c as u32 - 0x30) as u64;
        i = i + 1;
        if acc > u32::MAX as u64 {
            proof {
                lemma_digits_value_grows(s@, i as int);
            }
            return None;
        }
    }
    assert(s@.take(n as int) =~= s@);
    Some(acc as u32)
}

/// The character of the decimal digit `d`.
pub open spec fn digit_char(d: nat) -> char {
    if d == 0 { '0' }
    else if d == 1 { '1' }
    else if d == 2 { '2' }
    else if d == 3 { '3' }
    else if d == 4 { '4' }
    else if d == 5 { '5' }
    else if d == 6 { '6' }
    else if d == 7 { '7' }
    else if d == 8 { '8' }
    else { '9' }
}

/// `n` written in base ten, without leading zeros.
pub open spec fn decimal(n: nat) -> Seq<char>
    decreases n,
{
    if n < 10 {
        seq![digit_char(n)]
    } else {
        decimal(n / 10) + seq![digit_char(n % 10)]
    }
}

fn digit_str(d: u32) -> (r: &'static str)
    requires
        d < 10,
    ensures
        r@ == seq![digit_char(d as nat)],
{
    proof {
        reveal_strlit("0");
        reveal_strlit("1");
        reveal_strlit("2");
        reveal_strlit("3");
        reveal_strlit("4");
        reveal_strlit("5");
        reveal_strlit("6");
        reveal_strlit("7");
        reveal_strlit("8");
        reveal_strlit("9");
    }
    let r = if d == 0 { "0" }
    else if d == 1 { "1" }
    else if d == 2 { "2" }
    else if d == 3 { "3" }
    else if d == 4 { "4" }
    else if d == 5 { "5" }
    else if d == 6 { "6" }
    else if d == 7 { "7" }
    else if d == 8 { "8" }
    else { "9" };
    assert(r@ =~= seq![digit_char(d as nat)]);
    r
}

/// Writes `n` in base ten.
pub fn decimal_string(n: u32) -> (r: String)
    ensures
        r@ == decimal(n as nat),
    decreases n,
{
    if n < 10 {
        digit_str(n).to_owned()
    } else {
        let mut s = decimal_string(n / 10);
        s.append(digit_str(n % 10));
        s
    }
}


/// The pieces of `s` between line feeds; one more than the line feeds in `s`.
pub open spec fn split_lines(s: Seq<char>) -> Seq<Seq<char>>
    decreases s.len(),
{
    if s.len() == 0 {
        seq![seq![]]
    } else {
        let p = split_lines(s.drop_last());
        if s.last() == '\n' {
            p.push(seq![])
        } else {
            p.drop_last().push(p.last().push(s.last()))
        }
    }
}

pub proof fn lemma_split_lines_nonempty(s: Seq<char>)
    ensures
        split_lines(s).len() >= 1,
    decreases s.len(),
{
    if s.len() > 0 {
        lemma_split_lines_nonempty(s.drop_last());
    }
}

/// `l` without one trailing carriage return.
pub open spec fn strip_cr(l: Seq<char>) -> Seq<char> {
    if l.len() > 0 && l.last() == '\r' {
        l.drop_last()
    } else {
        l
    }
}

/// The pieces of `ps` with a trailing carriage return dropped, leaving out
/// those that are then empty.
pub open spec fn nonempty_lines(ps: Seq<Seq<char>>) -> Seq<Seq<char>>
    decreases ps.len(),
{
    if ps.len() == 0 {
        seq![]
    } else {
        let r = nonempty_lines(ps.drop_last());
        let l = strip_cr(ps.last());
        if l.len() > 0 {
            r.push(l)
        } else {
            r
        }
    }
}

/// The non-empty lines of `s`, in order.
pub open spec fn text_lines(s: Seq<char>) -> Seq<Seq<char>> {
    nonempty_lines(split_lines(s))
}

/// Each line of `ls` followed by a line feed.
pub open spec fn unlines(ls: Seq<Seq<char>>) -> Seq<char>
    decreases ls.len(),
{
    if ls.len() == 0 {
        seq![]
    } else {
        unlines(ls.drop_last()) + ls.last() + seq!['\n']
    }
}

/// Splits `s` into its non-empty lines, each without its line end.
pub fn lines_of(s: &str) -> (r: Vec<String>)
    ensures
        views(r@) == text_lines(s@),
        r@.len() <= s@.len(),
{
    let n = s.unicode_len();
    let mut out: Vec<String> = Vec::new();
    let mut start: usize = 0;
    let mut i: usize = 0;
    while i < n
        invariant
            n == s@.len(),
            start <= i <= n,
            out@.len() <= start,
            split_lines(s@.take(i as int)).last() == s@.subrange(start as int, i as int),
            views(out@) == nonempty_lines(split_lines(s@.take(i as int)).drop_last()),
        decreases n - i,
    {
        let c = s.get_char(i);
        let ghost pre = s@.take(i as int);
        let ghost cur = s@.take(i + 1);
        proof {
            lemma_split_lines_nonempty(pre);
        }
        assert(cur.drop_last() =~= pre);
        if c == '\n' {
            let ghost piece = s@.subrange(start as int, i as int);
            assert(split_lines(cur).drop_last() =~= split_lines(pre));
            assert(split_lines(pre) =~= split_lines(pre).drop_last().push(piece));
            let mut end = i;
            if end > start && s.get_char(end - 1) == '\r' {
                end = end - 1;
            }
            assert(s@.subrange(start as int, end as int) =~= strip_cr(piece));
            if end > start {
                let l = String::from_str(s.substring_char(start, end));
                let ghost before = out@;
                out.push(l);
                assert(views(out@) =~= views(before).push(l@));
            }
            start = i + 1;
            assert(s@.subrange(start as int, i + 1) =~= Seq::<char>::empty());
        } else {
            assert(split_lines(cur).drop_last() =~= split_lines(pre).drop_last());
            assert(s@.subrange(start as int, i + 1) =~= s@.subrange(start as int, i as int).push(c));
        }
        i = i + 1;
    }
    assert(s@.take(n as int) =~= s@);
    let ghost piece = s@.subrange(start as int, n as int);
    proof {
        lemma_split_lines_nonempty(s@);
    }
    assert(split_lines(s@) =~= split_lines(s@).drop_last().push(piece));
    let mut end = n;
    if end > start && s.get_char(end - 1) == '\r' {
        end = end - 1;
    }
    assert(s@.subrange(start as int, end as int) =~= strip_cr(piece));
    if end > start {
        let l = String::from_str(s.substring_char(start, end));
        let ghost before = out@;
        out.push(l);
        assert(views(out@) =~= views(before).push(l@));
    }
    out
}

} // verus!
