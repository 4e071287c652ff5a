//! Character-level text handling: whitespace, words, lines, trimming,
//! joining, decimal rendering and integer parsing, each given as a spec
//! function over `Seq<char>` and an executable function proved against it.
use vstd::prelude::*;

verus! {

/// Unicode `White_Space`: the characters for which `char::is_whitespace` holds.
pub open spec fn is_ws(c: char) -> bool {
    let u = c as u32;
    ||| 0x9 <= u <= 0xd
    ||| u == 0x20
    ||| u == 0x85
    ||| u == 0xa0
    ||| u == 0x1680
    ||| 0x2000 <= u <= 0x200a
    ||| u == 0x2028
    ||| u == 0x2029
    ||| u == 0x202f
    ||| u == 0x205f
    ||| u == 0x3000
}

/// Whether `c` is Unicode whitespace.
pub fn is_whitespace(c: char) -> (res: bool)
    ensures
        res == is_ws(c),
{
    let u = c as u32;
    (0x9 <= u && u <= 0xd) || u == 0x20 || u == 0x85 || u == 0xa0 || u == 0x1680 || (0x2000 <= u
        && u <= 0x200a) || u == 0x2028 || u == 0x2029 || u == 0x202f || u == 0x205f || u == 0x3000
}

/// Appends one character to a string.
/// Calls `String::push`, which std documents as appending the given char to the end.
#[verifier::external_body]
pub(crate) fn push_char(s: &mut String, c: char)
    ensures
        final(s)@ == old(s)@.push(c),
{
    s.push(c);
}

/// The characters of a string slice, in order.
pub fn chars_of(s: &str) -> (res: Vec<char>)
    ensures
        res@ == s@,
{
    let mut res: Vec<char> = Vec::new();
    for c in it: s.chars()
        invariant
            res@ == it.seq().take(it.index() as int),
    {
        res.push(c);
    }
    res
}

/// Appends the characters `v[from..to]` to `out`.
pub fn push_range(out: &mut String, v: &Vec<char>, from: usize, to: usize)
    requires
        from <= to <= v@.len(),
    ensures
        final(out)@ == old(out)@ + v@.subrange(from as int, to as int),
{
    let mut i = from;
    while i < to
        invariant
            from <= i <= to <= v@.len(),
            out@ == old(out)@ + v@.subrange(from as int, i as int),
        decreases to - i,
    {
        push_char(out, v[i]);
        assert(v@.subrange(from as int, i + 1) == v@.subrange(from as int, i as int).push(v@[i as int]));
        i += 1;
    }
}

/// Appends all characters of `v` to `out`.
pub fn push_all(out: &mut String, v: &Vec<char>)
    ensures
        final(out)@ == old(out)@ + v@,
{
    push_range(out, v, 0, v.len());
    assert(v@.subrange(0, v@.len() as int) == v@);
}

/// A string holding the characters of `v`.
pub fn string_of(v: &Vec<char>) -> (res: String)
    ensures
        res@ == v@,
{
    let mut res = String::new();
    push_all(&mut res, v);
    assert(res@ == v@);
    res
}

/// Whether the characters of `v` are exactly those of `s`.
pub fn eq_str(v: &Vec<char>, s: &str) -> (res: bool)
    ensures
        res == (v@ == s@),
{
    let w = chars_of(s);
    if v.len() != w.len() {
        return false;
    }
    let mut i: usize = 0;
    while i < v.len()
        invariant
            v@.len() == w@.len(),
            w@ == s@,
            i <= v@.len(),
            forall|k: int| 0 <= k < i ==> v@[k] == w@[k],
        decreases v@.len() - i,
    {
        if v[i] != w[i] {
            return false;
        }
        i += 1;
    }
    assert(v@ =~= w@);
    true
}

/// The first index `j >= i` whose character is not whitespace (or `s.len()`).
pub open spec fn ws_end(s: Seq<char>, i: int) -> int
    decreases s.len() - i,
{
    if 0 <= i < s.len() && is_ws(s[i]) {
        ws_end(s, i + 1)
    } else {
        i
    }
}

/// The first index `j >= i` whose character is whitespace (or `s.len()`).
pub open spec fn word_end(s: Seq<char>, i: int) -> int
    decreases s.len() - i,
{
    if 0 <= i < s.len() && !is_ws(s[i]) {
        word_end(s, i + 1)
    } else {
        i
    }
}

pub proof fn lemma_ws_end(s: Seq<char>, i: int)
    requires
        0 <= i <= s.len(),
    ensures
        i <= ws_end(s, i) <= s.len(),
        forall|k: int| i <= k < ws_end(s, i) ==> is_ws(#[trigger] s[k]),
        ws_end(s, i) < s.len() ==> !is_ws(s[ws_end(s, i)]),
    decreases s.len() - i,
{
    if i < s.len() && is_ws(s[i]) {
        lemma_ws_end(s, i + 1);
    }
}

pub proof fn lemma_word_end(s: Seq<char>, i: int)
    requires
        0 <= i <= s.len(),
    ensures
        i <= word_end(s, i) <= s.len(),
        forall|k: int| i <= k < word_end(s, i) ==> !is_ws(#[trigger] s[k]),
        word_end(s, i) < s.len() ==> is_ws(s[word_end(s, i)]),
    decreases s.len() - i,
{
    if i < s.len() && !is_ws(s[i]) {
        lemma_word_end(s, i + 1);
    }
}

/// The whitespace-separated words of `s` from index `i` on, in order
/// (the maximal runs of non-whitespace characters).
pub open spec fn words_from(s: Seq<char>, i: int) -> Seq<Seq<char>>
    decreases s.len() - i,
{
    if i < 0 || i >= s.len() {
        seq![]
    } else {
        let a = ws_end(s, i);
        if a >= s.len() {
            seq![]
        } else {
            let b = word_end(s, a);
            proof {
                lemma_ws_end(s, i);
                lemma_word_end(s, a);
                lemma_word_end(s, a + 1);
            }
            seq![s.subrange(a, b)] + words_from(s, b)
        }
    }
}

/// The words of `s`, as `str::split_whitespace` yields them.
pub open spec fn words(s: Seq<char>) -> Seq<Seq<char>> {
    words_from(s, 0)
}

/// The words of `v`, as `str::split_whitespace` yields them.
pub fn split_words(v: &Vec<char>) -> (res: Vec<Vec<char>>)
    ensures
        res.deep_view() == words(v@),
{
    let ghost s = v@;
    let mut res: Vec<Vec<char>> = Vec::new();
    let mut i: usize = 0;
    let n = v.len();
    while i < n
        invariant
            n == s.len(),
            s == v@,
            i <= n,
            res.deep_view() + words_from(s, i as int) == words(s),
        decreases n - i,
    {
        let ghost i0 = i as int;
        proof { lemma_ws_end(s, i0); }
        while i < n && is_whitespace(v[i])
            invariant
                n == s.len(),
                s == v@,
                i0 <= i <= n,
                ws_end(s, i as int) == ws_end(s, i0),
            decreases n - i,
        {
            i += 1;
        }
        if i == n {
            assert(words_from(s, i0) == Seq::<Seq<char>>::empty());
            assert(res.deep_view() + words_from(s, i as int) =~= res.deep_view());
        } else {
            let a = i;
            proof { lemma_word_end(s, a as int); }
            while i < n && !is_whitespace(v[i])
                invariant
                    n == s.len(),
                    s == v@,
                    a <= i <= n,
                    word_end(s, i as int) == word_end(s, a as int),
                decreases n - i,
            {
                i += 1;
            }
            let mut w: Vec<char> = Vec::new();
            let mut k = a;
            while k < i
                invariant
                    a <= k <= i <= n,
                    n == s.len(),
                    s == v@,
                    w@ == s.subrange(a as int, k as int),
                decreases i - k,
            {
                w.push(v[k]);
                k += 1;
            }
            let ghost old_dv = res.deep_view();
            res.push(w);
            proof {
                assert(res.deep_view() =~= old_dv.push(s.subrange(a as int, i as int))) by {
                    assert(res.deep_view()[old_dv.len() as int] == w@);
                }
                assert(words_from(s, i0) == seq![s.subrange(a as int, i as int)] + words_from(s, i as int));
                assert(res.deep_view() + words_from(s, i as int) =~= old_dv + words_from(s, i0));
            }
        }
    }
    assert(res.deep_view() + words_from(s, i as int) =~= res.deep_view());
    res
}

/// The index just past the last non-whitespace character of `s[..k]` (or 0).
pub open spec fn rtrim_end(s: Seq<char>, k: int) -> int
    decreases k,
{
    if 0 < k <= s.len() && is_ws(s[k - 1]) {
        rtrim_end(s, k - 1)
    } else {
        k
    }
}

pub proof fn lemma_rtrim_end(s: Seq<char>, k: int)
    requires
        0 <= k <= s.len(),
    ensures
        0 <= rtrim_end(s, k) <= k,
        forall|j: int| rtrim_end(s, k) <= j < k ==> is_ws(#[trigger] s[j]),
        rtrim_end(s, k) > 0 ==> !is_ws(s[rtrim_end(s, k) - 1]),
    decreases k,
{
    if 0 < k && is_ws(s[k - 1]) {
        lemma_rtrim_end(s, k - 1);
    }
}

/// `s` without leading and trailing whitespace, as `str::trim` gives it.
pub open spec fn trim(s: Seq<char>) -> Seq<char> {
    let a = ws_end(s, 0);
    if a >= s.len() {
        seq![]
    } else {
        s.subrange(a, rtrim_end(s, s.len() as int))
    }
}

pub proof fn lemma_trim_bounds(s: Seq<char>)
    ensures
        ws_end(s, 0) < s.len() ==> ws_end(s, 0) < rtrim_end(s, s.len() as int) <= s.len(),
{
    lemma_ws_end(s, 0);
    lemma_rtrim_end(s, s.len() as int);
    if ws_end(s, 0) < s.len() {
        let a = ws_end(s, 0);
        let e = rtrim_end(s, s.len() as int);
        if e <= a {
            assert(is_ws(s[a]));
        }
    }
}

/// `v` without leading and trailing whitespace.
pub fn trim_chars(v: &Vec<char>) -> (res: Vec<char>)
    ensures
        res@ == trim(v@),
{
    let ghost s = v@;
    let n = v.len();
    let mut a: usize = 0;
    while a < n && is_whitespace(v[a])
        invariant
            n == s.len(),
            s == v@,
            a <= n,
            ws_end(s, a as int) == ws_end(s, 0),
        decreases n - a,
    {
        a += 1;
    }
    if a == n {
        return Vec::new();
    }
    let mut e: usize = n;
    while e > 0 && is_whitespace(v[e - 1])
        invariant
            n == s.len(),
            s == v@,
            e <= n,
            rtrim_end(s, e as int) == rtrim_end(s, n as int),
        decreases e,
    {
        e -= 1;
    }
    proof { lemma_trim_bounds(s); }
    let mut res: Vec<char> = Vec::new();
    let mut k = a;
    while k < e
        invariant
            a <= k <= e <= n,
            n == s.len(),
            s == v@,
            res@ == s.subrange(a as int, k as int),
        decreases e - k,
    {
        res.push(v[k]);
        k += 1;
    }
    res
}

/// The first index `j >= i` holding a line feed (or `s.len()`).
pub open spec fn newline_at(s: Seq<char>, i: int) -> int
    decreases s.len() - i,
{
    if 0 <= i < s.len() && s[i] != '\n' {
        newline_at(s, i + 1)
    } else {
        i
    }
}

pub proof fn lemma_newline_at(s: Seq<char>, i: int)
    requires
        0 <= i <= s.len(),
    ensures
        i <= newline_at(s, i) <= s.len(),
        forall|k: int| i <= k < newline_at(s, i) ==> #[trigger] s[k] != '\n',
        newline_at(s, i) < s.len() ==> s[newline_at(s, i)] == '\n',
    decreases s.len() - i,
{
    if i < s.len() && s[i] != '\n' {
        lemma_newline_at(s, i + 1);
    }
}

/// The line that starts at `i` and ends at the line feed `j` (or at the end
/// of `s`): a carriage return just before a line feed is not part of it.
pub open spec fn line_body(s: Seq<char>, i: int, j: int) -> Seq<char> {
    if j < s.len() && j > i && s[j - 1] == '\r' {
        s.subrange(i, j - 1)
    } else {
        s.subrange(i, j)
    }
}

/// The lines of `s` from index `i` on, as `str::lines` yields them: split at
/// `\n` or `\r\n`, terminators dropped, no empty line after a final terminator.
pub open spec fn lines_from(s: Seq<char>, i: int) -> Seq<Seq<char>>
    decreases s.len() + 1 - i,
{
    if i < 0 || i >= s.len() {
        seq![]
    } else {
        let j = newline_at(s, i);
        proof {
            lemma_newline_at(s, i);
        }
        seq![line_body(s, i, j)] + lines_from(s, j + 1)
    }
}

/// The lines of `s`, as `str::lines` yields them.
pub open spec fn lines(s: Seq<char>) -> Seq<Seq<char>> {
    lines_from(s, 0)
}

/// The lines of `v`, as `str::lines` yields them.
pub fn split_lines_chars(v: &Vec<char>) -> (res: Vec<Vec<char>>)
    ensures
        res.deep_view() == lines(v@),
{
    let ghost s = v@;
    let n = v.len();
    let mut res: Vec<Vec<char>> = Vec::new();
    let mut i: usize = 0;
    while i < n
        invariant
            n == s.len(),
            s == v@,
            i <= n,
            res.deep_view() + lines_from(s, i as int) == lines(s),
        decreases n - i,
    {
        let ghost i0 = i as int;
        proof { lemma_newline_at(s, i0); }
        let mut j = i;
        while j < n && v[j] != '\n'
            invariant
                n == s.len(),
                s == v@,
                i0 <= j <= n,
                newline_at(s, j as int) == newline_at(s, i0),
            decreases n - j,
        {
            j += 1;
        }
        let end = if j < n && j > i && v[j - 1] == '\r' { j - 1 } else { j };
        let mut w: Vec<char> = Vec::new();
        let mut k = i;
        while k < end
            invariant
                i <= k <= end <= j <= n,
                n == s.len(),
                s == v@,
                w@ == s.subrange(i as int, k as int),
            decreases end - k,
        {
            w.push(v[k]);
            k += 1;
        }
        let ghost old_dv = res.deep_view();
        res.push(w);
        proof {
            assert(w@ == line_body(s, i0, j as int));
            assert(res.deep_view() =~= old_dv.push(w@)) by {
                assert(res.deep_view()[old_dv.len() as int] == w@);
            }
            assert(lines_from(s, i0) == seq![w@] + lines_from(s, j + 1));
            assert(res.deep_view() + lines_from(s, j + 1) =~= old_dv + lines_from(s, i0));
        }
        i = if j < n { j + 1 } else { n };
        proof {
            if j >= n {
                assert(lines_from(s, j + 1) == Seq::<Seq<char>>::empty());
                assert(lines_from(s, n as int) == Seq::<Seq<char>>::empty());
            }
        }
    }
    assert(res.deep_view() + lines_from(s, i as int) =~= res.deep_view());
    res
}

/// The words of `ws` joined with `sep` between neighbours, as `[&str]::join` gives it.
pub open spec fn join(ws: Seq<Seq<char>>, sep: Seq<char>) -> Seq<char>
    decreases ws.len(),
{
    if ws.len() == 0 {
        seq![]
    } else if ws.len() == 1 {
        ws[0]
    } else {
        join(ws.drop_last(), sep) + sep + ws.last()
    }
}

/// Appends `toks[from..to]` joined by `sep` to `out`.
pub fn push_join(out: &mut String, toks: &Vec<Vec<char>>, from: usize, to: usize, sep: &str)
    requires
        from <= to <= toks@.len(),
    ensures
        final(out)@ == old(out)@ + join(toks.deep_view().subrange(from as int, to as int), sep@),
{
    let ghost dv = toks.deep_view();
    let mut i = from;
    while i < to
        invariant
            from <= i <= to <= toks@.len(),
            dv == toks.deep_view(),
            out@ == old(out)@ + join(dv.subrange(from as int, i as int), sep@),
        decreases to - i,
    {
        if i > from {
            out.append(sep);
        }
        push_all(out, &toks[i]);
        proof {
            let ws = dv.subrange(from as int, i + 1);
            assert(ws.drop_last() =~= dv.subrange(from as int, i as int));
            assert(ws.last() == toks@[i as int]@);
            if i == from {
                assert(ws.len() == 1);
                assert(join(dv.subrange(from as int, i as int), sep@) =~= Seq::<char>::empty());
            }
        }
        i += 1;
    }
}

/// The decimal digit character for `d < 10`.
pub open spec fn digit_char(d: nat) -> char {
    (48 + d) as char
}

/// The decimal representation of `n`, without leading zeros.
pub open spec fn decimal(n: nat) -> Seq<char>
    decreases n,
{
    if n < 10 {
        seq![digit_char(n)]
    } else {
        decimal(n / 10).push(digit_char(n % 10))
    }
}

/// Appends the decimal representation of `n` to `out`.
pub fn push_decimal(out: &mut String, n: usize)
    ensures
        final(out)@ == old(out)@ + decimal(n as nat),
    decreases n,
{
    if n >= 10 {
        push_decimal(out, n / 10);
    }
    let d = (n % 10) as u8;
    let c = (48u8 + d) as char;
    assert(c == digit_char((n % 10) as nat));
    push_char(out, c);
}

/// Whether `c` is an ASCII decimal digit.
pub open spec fn is_digit(c: char) -> bool {
    '0' <= c <= '9'
}

/// The value of a string of decimal digits.
pub open spec fn digits_value(s: Seq<char>) -> nat
    decreases s.len(),
{
    if s.len() == 0 {
        0
    } else {
        digits_value(s.drop_last()) * 10 + ((s.last() as u32) - 48) as nat
    }
}

/// The digits of an unsigned integer literal: `s` with one leading `+` dropped.
pub open spec fn unsigned_digits(s: Seq<char>) -> Seq<char> {
    if s.len() > 0 && s[0] == '+' {
        s.drop_first()
    } else {
        s
    }
}

/// What `str::parse::<usize>` gives for `s`: an optional `+`, then one or
/// more decimal digits whose value fits in `usize`.
pub open spec fn parse_usize(s: Seq<char>) -> Option<usize> {
    let d = unsigned_digits(s);
    if d.len() > 0 && (forall|k: int| 0 <= k < d.len() ==> is_digit(#[trigger] d[k]))
        && digits_value(d) <= usize::MAX {
        Some(digits_value(d) as usize)
    } else {
        None
    }
}

/// Parses `v` as an unsigned integer, as `str::parse::<usize>` does.
pub fn parse_usize_chars(v: &Vec<char>) -> (res: Option<usize>)
    ensures
        res == parse_usize(v@),
{
    let ghost s = v@;
    let start: usize = if v.len() > 0 && v[0] == '+' { 1 } else { 0 };
    let ghost d = unsigned_digits(s);
    assert(d =~= s.subrange(start as int, s.len() as int));
    if start >= v.len() {
        return None;
    }
    let mut value: usize = 0;
    let mut i = start;
    while i < v.len()
        invariant
            s == v@,
            d == s.subrange(start as int, s.len() as int),
            d == unsigned_digits(s),
            start <= i <= s.len(),
            forall|k: int| start <= k < i ==> is_digit(#[trigger] s[k]),
            value as nat == digits_value(s.subrange(start as int, i as int)),
        decreases s.len() - i,
    {
        let c = v[i];
        if !('0' <= c && c <= '9') {
            assert(d[i - start] == c);
            assert(!is_digit(d[(i - start) as int]));
            return None;
        }
        let dig = (c as u32 - 48) as usize;
        let ghost pre = s.subrange(start as int, i as int);
        let ghost next = s.subrange(start as int, i + 1);
        assert(next.drop_last() =~= pre);
        proof {
            lemma_digits_value_monotone(s.subrange(start as int, s.len() as int), (i + 1 - start) as int);
        }
        match value.checked_mul(10) {
            Some(m) => match m.checked_add(dig) {
                Some(x) => {
                    value = x;
                },
                None => {
                    assert(d.subrange(0, i + 1 - start) =~= next);
                    return None;
                },
            },
            None => {
                assert(d.subrange(0, i + 1 - start) =~= next);
                return None;
            },
        }
        i += 1;
    }
    assert(s.subrange(start as int, i as int) =~= d);
    Some(value)
}

/// A prefix of a digit string never has a larger value than a longer prefix.
pub proof fn lemma_digits_value_monotone(d: Seq<char>, k: int)
    requires
        0 <= k <= d.len(),
    ensures
        digits_value(d.subrange(0, k)) <= digits_value(d),
    decreases d.len() - k,
{
    if k < d.len() {
        lemma_digits_value_monotone(d, k + 1);
        assert(d.subrange(0, k + 1).drop_last() =~= d.subrange(0, k));
        assert(digits_value(d.subrange(0, k)) <= digits_value(d.subrange(0, k + 1))) by (nonlinear_arith)
            requires
                digits_value(d.subrange(0, k + 1)) == digits_value(d.subrange(0, k)) * 10 + ((d[k] as u32) - 48) as nat,
        ;
    } else {
        assert(d.subrange(0, k) =~= d);
    }
}

/// `s` with every occurrence of the non-empty pattern `p` removed, the
/// occurrences found from the left without overlap: `str::replace(p, "")`.
pub open spec fn remove_all(s: Seq<char>, p: Seq<char>) -> Seq<char>
    decreases s.len(),
{
    if s.len() == 0 {
        seq![]
    } else if 0 < p.len() <= s.len() && s.take(p.len() as int) == p {
        remove_all(s.skip(p.len() as int), p)
    } else {
        seq![s[0]] + remove_all(s.drop_first(), p)
    }
}

/// Whether `v[i..]` starts with `p`.
pub fn matches_at(v: &Vec<char>, i: usize, p: &Vec<char>) -> (res: bool)
    requires
        i <= v@.len(),
    ensures
        res == (p@.len() <= v@.len() - i && v@.skip(i as int).take(p@.len() as int) == p@),
{
    if p.len() > v.len() - i {
        return false;
    }
    let mut k: usize = 0;
    while k < p.len()
        invariant
            i <= v@.len(),
            p@.len() <= v@.len() - i,
            v@.len() <= usize::MAX,
            k <= p@.len(),
            forall|j: int| 0 <= j < k ==> v@[i + j] == p@[j],
        decreases p@.len() - k,
    {
        if v[i + k] != p[k] {
            assert(v@.skip(i as int).take(p@.len() as int)[k as int] != p@[k as int]);
            return false;
        }
        k += 1;
    }
    assert(v@.skip(i as int).take(p@.len() as int) =~= p@);
    true
}

/// `v` with every occurrence of the non-empty `p` removed, as `str::replace(p, "")` does.
pub fn remove_all_chars(v: &Vec<char>, p: &Vec<char>) -> (res: Vec<char>)
    requires
        p@.len() > 0,
    ensures
        res@ == remove_all(v@, p@),
{
    let ghost s = v@;
    let mut res: Vec<char> = Vec::new();
    let mut i: usize = 0;
    assert(s.skip(0) =~= s);
    while i < v.len()
        invariant
            s == v@,
            p@.len() > 0,
            i <= s.len(),
            res@ + remove_all(s.skip(i as int), p@) == remove_all(s, p@),
        decreases s.len() - i,
    {
        let ghost t = s.skip(i as int);
        if matches_at(v, i, p) {
            assert(t.skip(p@.len() as int) =~= s.skip(i + p@.len()));
            i += p.len();
        } else {
            assert(t.drop_first() =~= s.skip(i + 1));
            assert(t[0] == v@[i as int]);
            let ghost old_res = res@;
            res.push(v[i]);
            assert(res@ + remove_all(s.skip(i + 1), p@) =~= old_res + (seq![t[0]] + remove_all(t.drop_first(), p@)));
            i += 1;
        }
    }
    assert(remove_all(s.skip(i as int), p@) == Seq::<char>::empty());
    assert(res@ + Seq::<char>::empty() =~= res@);
    res
}

/// Every word of `s[i..]` is a non-empty run of non-whitespace characters of `s`.
pub proof fn lemma_words_from_shape(s: Seq<char>, i: int)
    requires
        0 <= i <= s.len(),
    ensures
        forall|k: int|
            0 <= k < words_from(s, i).len() ==> {
                &&& 0 < (#[trigger] words_from(s, i)[k]).len() <= s.len()
                &&& forall|c: int| 0 <= c < words_from(s, i)[k].len() ==> !is_ws(words_from(s, i)[k][c])
            },
    decreases s.len() - i,
{
    if i < s.len() {
        let a = ws_end(s, i);
        lemma_ws_end(s, i);
        if a < s.len() {
            let b = word_end(s, a);
            lemma_word_end(s, a);
            lemma_word_end(s, a + 1);
            lemma_words_from_shape(s, b);
            let ws = words_from(s, i);
            assert(ws == seq![s.subrange(a, b)] + words_from(s, b));
            assert forall|k: int| 0 <= k < ws.len() implies {
                &&& 0 < (#[trigger] ws[k]).len() <= s.len()
                &&& forall|c: int| 0 <= c < ws[k].len() ==> !is_ws(ws[k][c])
            } by {
                if k > 0 {
                    assert(ws[k] == words_from(s, b)[k - 1]);
                } else {
                    assert forall|c: int| 0 <= c < ws[0].len() implies !is_ws(ws[0][c]) by {
                        assert(ws[0][c] == s[a + c]);
                    }
                }
            }
        }
    }
}

/// Every word of `s` is a non-empty run of non-whitespace characters no
/// longer than `s`; `s` has words exactly when it is not all whitespace.
pub proof fn lemma_words_shape(s: Seq<char>)
    ensures
        forall|k: int|
            0 <= k < words(s).len() ==> {
                &&& 0 < (#[trigger] words(s)[k]).len() <= s.len()
                &&& forall|c: int| 0 <= c < words(s)[k].len() ==> !is_ws(words(s)[k][c])
            },
        words(s).len() > 0 <==> ws_end(s, 0) < s.len(),
{
    lemma_words_from_shape(s, 0);
    lemma_ws_end(s, 0);
}

/// `s[i..]` has at most `s.len() - i` lines, none longer than `s`.
pub proof fn lemma_lines_from_bound(s: Seq<char>, i: int)
    requires
        0 <= i <= s.len(),
    ensures
        lines_from(s, i).len() <= s.len() - i,
        forall|k: int| 0 <= k < lines_from(s, i).len() ==> (#[trigger] lines_from(s, i)[k]).len() <= s.len(),
    decreases s.len() - i,
{
    if i < s.len() {
        let j = newline_at(s, i);
        lemma_newline_at(s, i);
        let next = if j < s.len() { j + 1 } else { s.len() as int };
        lemma_lines_from_bound(s, next);
        assert(lines_from(s, j + 1) == lines_from(s, next));
        let ls = lines_from(s, i);
        assert forall|k: int| 0 <= k < ls.len() implies (#[trigger] ls[k]).len() <= s.len() by {
            if k > 0 {
                assert(ls[k] == lines_from(s, next)[k - 1]);
            }
        }
    }
}

/// Whether word `k` of `w` reads `lit`.
pub fn word_is(w: &Vec<Vec<char>>, k: usize, lit: &str) -> (res: bool)
    requires
        k < w@.len(),
    ensures
        res == (w.deep_view()[k as int] == lit@),
{
    assert(w.deep_view()[k as int] == w@[k as int]@);
    eq_str(&w[k], lit)
}

/// Appends word `k` of `w` to `out`.
pub fn push_word(out: &mut String, w: &Vec<Vec<char>>, k: usize)
    requires
        k < w@.len(),
    ensures
        final(out)@ == old(out)@ + w.deep_view()[k as int],
{
    assert(w.deep_view()[k as int] == w@[k as int]@);
    push_all(out, &w[k]);
}

/// A copy of `v`.
pub fn copy_chars(v: &Vec<char>) -> (res: Vec<char>)
    ensures
        res@ == v@,
{
    let mut res: Vec<char> = Vec::new();
    let mut i: usize = 0;
    while i < v.len()
        invariant
            i <= v@.len(),
            res@ == v@.take(i as int),
        decreases v@.len() - i,
    {
        res.push(v[i]);
        i += 1;
    }
    assert(v@.take(i as int) =~= v@);
    res
}

/// A copy of the words `w[from..]`.
pub fn words_tail(w: &Vec<Vec<char>>, from: usize) -> (res: Vec<Vec<char>>)
    requires
        from <= w@.len(),
    ensures
        res.deep_view() == w.deep_view().subrange(from as int, w@.len() as int),
{
    let mut res: Vec<Vec<char>> = Vec::new();
    let mut i = from;
    while i < w.len()
        invariant
            from <= i <= w@.len(),
            res.deep_view() == w.deep_view().subrange(from as int, i as int),
        decreases w@.len() - i,
    {
        let c = copy_chars(&w[i]);
        let ghost before = res.deep_view();
        res.push(c);
        assert(res.deep_view() =~= w.deep_view().subrange(from as int, i + 1)) by {
            assert(res.deep_view()[before.len() as int] == c@);
            assert(w.deep_view()[i as int] == w@[i as int]@);
        }
        i += 1;
    }
    res
}

/// Joining `[a] + ws` puts `a` first, then the separator and the rest.
pub proof fn lemma_join_prepend(a: Seq<char>, ws: Seq<Seq<char>>, sep: Seq<char>)
    ensures
        join(seq![a] + ws, sep) == if ws.len() == 0 {
            a
        } else {
            a + sep + join(ws, sep)
        },
    decreases ws.len(),
{
    let all = seq![a] + ws;
    if ws.len() == 0 {
        assert(all.len() == 1);
    } else if ws.len() == 1 {
        assert(all.drop_last() =~= seq![a]);
        assert(join(seq![a], sep) == a);
        assert(join(ws, sep) == ws[0]);
        assert(all.last() == ws[0]);
    } else {
        lemma_join_prepend(a, ws.drop_last(), sep);
        assert(all.drop_last() =~= seq![a] + ws.drop_last());
        assert(all.last() == ws.last());
        assert(join(all, sep) =~= a + sep + join(ws, sep));
    }
}

/// The text from `i` on, without a final line feed.
pub open spec fn rest_without_final_newline(s: Seq<char>, i: int) -> Seq<char> {
    if i >= s.len() {
        Seq::<char>::empty()
    } else if s.last() == '\n' {
        s.subrange(i, s.len() - 1)
    } else {
        s.subrange(i, s.len() as int)
    }
}

proof fn lemma_lines_from_join(s: Seq<char>, i: int)
    requires
        0 <= i <= s.len(),
        forall|k: int| 0 <= k < s.len() ==> s[k] != '\r',
        "\n"@ == seq!['\n'],
    ensures
        join(lines_from(s, i), "\n"@) == rest_without_final_newline(s, i),
    decreases s.len() - i,
{
    if i < s.len() {
        let j = newline_at(s, i);
        lemma_newline_at(s, i);
        let line = line_body(s, i, j);
        assert(line == s.subrange(i, j));
        let next = if j < s.len() { j + 1 } else { s.len() as int };
        lemma_lines_from_join(s, next);
        assert(lines_from(s, j + 1) == lines_from(s, next));
        let rest = lines_from(s, next);
        lemma_join_prepend(line, rest, "\n"@);
        assert(lines_from(s, i) == seq![line] + rest);
        if j == s.len() {
            assert(s[s.len() - 1] != '\n');
            assert(rest.len() == 0);
        } else if j + 1 == s.len() {
            assert(rest.len() == 0);
        } else {
            assert(rest.len() > 0) by {
                assert(lines_from(s, next).len() > 0);
            }
            assert(s.subrange(i, j) + seq!['\n'] + rest_without_final_newline(s, j + 1)
                =~= rest_without_final_newline(s, i));
        }
    }
}

/// A text without carriage returns is given back by splitting it into lines
/// and joining them with line feeds, but for one final line feed.
pub proof fn lines_then_join(s: Seq<char>)
    requires
        forall|k: int| 0 <= k < s.len() ==> s[k] != '\r',
    ensures
        join(lines(s), "\n"@) == if s.len() > 0 && s.last() == '\n' {
            s.drop_last()
        } else {
            s
        },
{
    reveal_strlit("\n");
    assert("\n"@ =~= seq!['\n']);
    lemma_lines_from_join(s, 0);
    if s.len() > 0 && s.last() == '\n' {
        assert(s.subrange(0, s.len() - 1) =~= s.drop_last());
    } else if s.len() > 0 {
        assert(s.subrange(0, s.len() as int) =~= s);
    }
}

} // verus!
