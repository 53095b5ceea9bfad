//! Character-level text utilities with exact specifications over `Seq<char>`.

use vstd::prelude::*;

verus! {

// ---------------------------------------------------------------------------
// Specifications
// ---------------------------------------------------------------------------

/// `pat` occurs in `s` as a contiguous run of characters (the empty pattern occurs everywhere).
pub open spec fn has_infix(s: Seq<char>, pat: Seq<char>) -> bool {
    exists|i: int| 0 <= i && i + pat.len() <= s.len() && #[trigger] s.subrange(i, i + pat.len()) == pat
}

/// `s` begins with `pat`.
pub open spec fn has_prefix(s: Seq<char>, pat: Seq<char>) -> bool {
    pat.len() <= s.len() && s.take(pat.len() as int) == pat
}

/// `s` ends with `pat`.
pub open spec fn has_suffix(s: Seq<char>, pat: Seq<char>) -> bool {
    pat.len() <= s.len() && s.skip(s.len() - pat.len()) == pat
}

/// Every occurrence of the character `from` in `s` replaced by the text `to`.
pub open spec fn replace_char(s: Seq<char>, from: char, to: Seq<char>) -> Seq<char>
    decreases s.len(),
{
    if s.len() == 0 {
        s
    } else {
        replace_char(s.drop_last(), from, to) + (if s.last() == from {
            to
        } else {
            seq![s.last()]
        })
    }
}

/// The Unicode `White_Space` property, which `char::is_whitespace` tests.
pub open spec fn is_white_space(c: char) -> bool {
    let u = c as u32;
    ||| 0x09 <= u <= 0x0D
    ||| u == 0x20
    ||| u == 0x85
    ||| u == 0xA0
    ||| u == 0x1680
    ||| 0x2000 <= u <= 0x200A
    ||| u == 0x2028
    ||| u == 0x2029
    ||| u == 0x202F
    ||| u == 0x205F
    ||| u == 0x3000
}

/// `s` without its leading white space.
pub open spec fn trim_start(s: Seq<char>) -> Seq<char>
    decreases s.len(),
{
    if s.len() > 0 && is_white_space(s[0]) {
        trim_start(s.drop_first())
    } else {
        s
    }
}

/// `s` without its trailing white space.
pub open spec fn trim_end(s: Seq<char>) -> Seq<char>
    decreases s.len(),
{
    if s.len() > 0 && is_white_space(s.last()) {
        trim_end(s.drop_last())
    } else {
        s
    }
}

/// `s` without leading and trailing white space (`str::trim`).
pub open spec fn trim(s: Seq<char>) -> Seq<char> {
    trim_end(trim_start(s))
}

/// `s` without trailing occurrences of `c` (`str::trim_end_matches` with a character).
pub open spec fn trim_end_char(s: Seq<char>, c: char) -> Seq<char>
    decreases s.len(),
{
    if s.len() > 0 && s.last() == c {
        trim_end_char(s.drop_last(), c)
    } else {
        s
    }
}

/// The part of `s` after the last occurrence of `c`, or all of `s` when `c` does not occur:
/// the last piece of `s.split(c)`, which is also the first piece of `s.rsplit(c)`.
pub open spec fn after_last(s: Seq<char>, c: char) -> Seq<char>
    decreases s.len(),
{
    if s.len() == 0 {
        s
    } else if s.last() == c {
        Seq::empty()
    } else {
        after_last(s.drop_last(), c).push(s.last())
    }
}

/// The pieces of `s` between white-space characters, empty pieces included
/// (`s.split(char::is_whitespace)`).
pub open spec fn ws_pieces(s: Seq<char>) -> Seq<Seq<char>>
    decreases s.len(),
{
    if s.len() == 0 {
        seq![Seq::empty()]
    } else {
        let p = ws_pieces(s.drop_last());
        if is_white_space(s.last()) {
            p.push(Seq::empty())
        } else {
            p.update(p.len() - 1, p.last().push(s.last()))
        }
    }
}

/// Non-empty pieces: the words of `s` (`str::split_whitespace`).
pub open spec fn words(s: Seq<char>) -> Seq<Seq<char>> {
    ws_pieces(s).filter(nonempty())
}

/// The test "is a non-empty piece".
pub open spec fn nonempty() -> spec_fn(Seq<char>) -> bool {
    |w: Seq<char>| w.len() > 0
}

/// The pieces joined with `sep` between each two neighbours (`[..].join(sep)`).
pub open spec fn join(pieces: Seq<Seq<char>>, sep: Seq<char>) -> Seq<char>
    decreases pieces.len(),
{
    if pieces.len() == 0 {
        Seq::empty()
    } else if pieces.len() == 1 {
        pieces[0]
    } else {
        join(pieces.drop_last(), sep) + sep + pieces.last()
    }
}

/// Decimal digits of `n`, most significant first, without leading zeros (`"0"` for zero).
pub open spec fn decimal(n: nat) -> Seq<char>
    decreases n,
{
    if n < 10 {
        seq![digit_char(n)]
    } else {
        decimal(n / 10).push(digit_char(n % 10))
    }
}

/// The ASCII digit for `d < 10`.
pub open spec fn digit_char(d: nat) -> char {
    (48 + d) as char
}

/// `c` is an ASCII decimal digit.
pub open spec fn is_digit(c: char) -> bool {
    48 <= (c as u32) <= 57
}

/// The value of a sequence of ASCII digits, most significant first.
pub open spec fn digits_value(s: Seq<char>) -> nat
    decreases s.len(),
{
    if s.len() == 0 {
        0
    } else {
        digits_value(s.drop_last()) * 10 + ((s.last() as u32) - 48) as nat
    }
}

/// What `str::parse::<usize>` accepts: an optional `+`, then one or more ASCII digits,
/// with a value that fits in `usize`.
pub open spec fn unsigned_digits(s: Seq<char>) -> Seq<char> {
    if s.len() > 0 && s[0] == '+' {
        s.drop_first()
    } else {
        s
    }
}

pub open spec fn parses_as_usize(s: Seq<char>) -> bool {
    let d = unsigned_digits(s);
    &&& d.len() > 0
    &&& forall|i: int| 0 <= i < d.len() ==> is_digit(#[trigger] d[i])
    &&& digits_value(d) <= usize::MAX
}

/// ASCII upper case of an ASCII character (what `char::to_uppercase` yields for it).
pub open spec fn ascii_upper(c: char) -> char {
    if 97 <= (c as u32) <= 122 {
        ((c as u32) - 32) as char
    } else {
        c
    }
}

// ---------------------------------------------------------------------------
// Conversions
// ---------------------------------------------------------------------------

/// The characters of `s`, in order.
pub fn chars_of(s: &str) -> (res: Vec<char>)
    ensures
        res@ == s@,
{
    let mut res: Vec<char> = Vec::new();
    for c in it: s.chars()
        invariant
            res@ == it.seq().take(it.index() as int),
            it.seq() == s@,
    {
        res.push(c);
    }
    res
}

/// `FromIterator<&char> for String`: a `String` holding exactly the characters of `v`.
#[verifier::external_body]
pub(crate) fn string_of(v: &Vec<char>) -> (res: String)
    ensures
        res@ == v@,
{
    v.iter().collect()
}

/// A `String` with the characters of `s`.
pub fn string_from(s: &str) -> (res: String)
    ensures
        res@ == s@,
{
    let v = chars_of(s);
    string_of(&v)
}

/// Appends all characters of `src` to `dst`.
pub fn push_all(dst: &mut Vec<char>, src: &Vec<char>)
    ensures
        final(dst)@ == old(dst)@ + src@,
{
    let mut i: usize = 0;
    while i < src.len()
        invariant
            0 <= i <= src.len(),
            dst@ == old(dst)@ + src@.take(i as int),
        decreases src.len() - i,
    {
        dst.push(src[i]);
        i = i + 1;
        assert(src@.take(i as int) == src@.take(i - 1).push(src@[i - 1]));
    }
    assert(src@.take(src.len() as int) == src@);
}

/// Appends all characters of `s` to `dst`.
pub fn push_str_chars(dst: &mut Vec<char>, s: &str)
    ensures
        final(dst)@ == old(dst)@ + s@,
{
    let v = chars_of(s);
    push_all(dst, &v);
}

// ---------------------------------------------------------------------------
// Searching
// ---------------------------------------------------------------------------

/// `c` occurs in `s` (`str::contains` with a character).
pub fn contains_char(s: &Vec<char>, c: char) -> (res: bool)
    ensures
        res == s@.contains(c),
{
    let mut i: usize = 0;
    while i < s.len()
        invariant
            0 <= i <= s.len(),
            forall|j: int| 0 <= j < i ==> s@[j] != c,
        decreases s.len() - i,
    {
        if s[i] == c {
            assert(s@[i as int] == c);
            return true;
        }
        i = i + 1;
    }
    false
}

/// `pat` equals `s[at..at + pat.len()]`.
fn matches_at(s: &Vec<char>, pat: &Vec<char>, at: usize) -> (res: bool)
    requires
        at + pat.len() <= s.len(),
    ensures
        res == (s@.subrange(at as int, at + pat.len()) == pat@),
{
    let mut k: usize = 0;
    while k < pat.len()
        invariant
            0 <= k <= pat.len(),
            at + pat.len() <= s.len(),
            forall|j: int| 0 <= j < k ==> s@[at + j] == pat@[j],
        decreases pat.len() - k,
    {
        if s[at + k] != pat[k] {
            assert(s@.subrange(at as int, at + pat.len())[k as int] != pat@[k as int]);
            return false;
        }
        k = k + 1;
    }
    assert(s@.subrange(at as int, at + pat.len()) =~= pat@);
    true
}

/// `pat` occurs in `s` (`str::contains` with a string pattern).
pub fn contains_seq(s: &Vec<char>, pat: &Vec<char>) -> (res: bool)
    ensures
        res == has_infix(s@, pat@),
{
    if pat.len() > s.len() {
        return false;
    }
    let last = s.len() - pat.len();
    let mut i: usize = 0;
    loop
        invariant
            0 <= i <= last,
            last + pat.len() == s.len(),
            forall|j: int| 0 <= j < i ==> #[trigger] s@.subrange(j, j + pat.len()) != pat@,
        decreases last - i,
    {
        if matches_at(s, pat, i) {
            return true;
        }
        if i == last {
            return false;
        }
        i = i + 1;
    }
}

/// `pat` occurs in `s`, for a pattern given as a string slice.
pub fn contains_str(s: &Vec<char>, pat: &str) -> (res: bool)
    ensures
        res == has_infix(s@, pat@),
{
    let p = chars_of(pat);
    contains_seq(s, &p)
}

/// `s` begins with `pat` (`str::starts_with`).
pub fn starts_with_str(s: &Vec<char>, pat: &str) -> (res: bool)
    ensures
        res == has_prefix(s@, pat@),
{
    let p = chars_of(pat);
    if p.len() > s.len() {
        return false;
    }
    let r = matches_at(s, &p, 0);
    assert(s@.subrange(0, p@.len() as int) == s@.take(p@.len() as int));
    r
}

/// `s` ends with `pat` (`str::ends_with`).
pub fn ends_with_str(s: &Vec<char>, pat: &str) -> (res: bool)
    ensures
        res == has_suffix(s@, pat@),
{
    let p = chars_of(pat);
    if p.len() > s.len() {
        return false;
    }
    let at = s.len() - p.len();
    let r = matches_at(s, &p, at);
    assert(s@.subrange(at as int, at + p@.len()) =~= s@.skip(at as int));
    r
}

/// `s` ends with `c` (`str::ends_with` with a character).
pub fn ends_with_char(s: &Vec<char>, c: char) -> (res: bool)
    ensures
        res == has_suffix(s@, seq![c]),
{
    if s.len() == 0 {
        return false;
    }
    let r = s[s.len() - 1] == c;
    assert(s@.skip(s@.len() - 1) =~= seq![s@.last()]);
    if !r {
        assert(seq![s@.last()][0] != seq![c][0]);
    }
    r
}

/// The two character sequences are equal.
pub fn seq_equal(a: &Vec<char>, b: &Vec<char>) -> (res: bool)
    ensures
        res == (a@ == b@),
{
    if a.len() != b.len() {
        return false;
    }
    let r = matches_at(a, b, 0);
    assert(a@.subrange(0, b@.len() as int) =~= a@);
    r
}

// ---------------------------------------------------------------------------
// Rewriting
// ---------------------------------------------------------------------------

/// Every `from` in `s` replaced by `to` (`str::replace` with a character pattern).
pub fn replace_char_with(s: &Vec<char>, from: char, to: &str) -> (res: Vec<char>)
    ensures
        res@ == replace_char(s@, from, to@),
{
    let t = chars_of(to);
    let mut res: Vec<char> = Vec::new();
    let mut i: usize = 0;
    while i < s.len()
        invariant
            0 <= i <= s.len(),
            t@ == to@,
            res@ == replace_char(s@.take(i as int), from, to@),
        decreases s.len() - i,
    {
        let c = s[i];
        if c == from {
            push_all(&mut res, &t);
        } else {
            res.push(c);
        }
        i = i + 1;
        assert(s@.take(i as int).drop_last() == s@.take(i - 1));
    }
    assert(s@.take(s.len() as int) == s@);
    res
}

/// `char::is_whitespace`.
pub fn is_white_space_char(c: char) -> (res: bool)
    ensures
        res == is_white_space(c),
{
    let u = c as u32;
    (0x09 <= u && u <= 0x0D) || u == 0x20 || u == 0x85 || u == 0xA0 || u == 0x1680 || (0x2000
        <= u && u <= 0x200A) || u == 0x2028 || u == 0x2029 || u == 0x202F || u == 0x205F || u
        == 0x3000
}

proof fn lemma_trim_start_skip(s: Seq<char>, i: int)
    requires
        0 <= i <= s.len(),
        forall|j: int| 0 <= j < i ==> is_white_space(#[trigger] s[j]),
    ensures
        trim_start(s) == trim_start(s.skip(i)),
    decreases i,
{
    if i > 0 {
        assert(s.drop_first().skip(i - 1) =~= s.skip(i));
        lemma_trim_start_skip(s.drop_first(), i - 1);
    } else {
        assert(s.skip(0) =~= s);
    }
}

proof fn lemma_trim_end_take(s: Seq<char>, i: int)
    requires
        0 <= i <= s.len(),
        forall|j: int| i <= j < s.len() ==> is_white_space(#[trigger] s[j]),
    ensures
        trim_end(s) == trim_end(s.take(i)),
    decreases s.len() - i,
{
    if i < s.len() {
        assert(s.drop_last().take(i) =~= s.take(i));
        lemma_trim_end_take(s.drop_last(), i);
    } else {
        assert(s.take(i) =~= s);
    }
}

/// `s` without leading and trailing white space (`str::trim`).
pub fn trim_chars(s: &Vec<char>) -> (res: Vec<char>)
    ensures
        res@ == trim(s@),
{
    let mut a: usize = 0;
    while a < s.len() && is_white_space_char(s[a])
        invariant
            0 <= a <= s.len(),
            forall|j: int| 0 <= j < a ==> is_white_space(#[trigger] s@[j]),
        decreases s.len() - a,
    {
        a = a + 1;
    }
    proof {
        lemma_trim_start_skip(s@, a as int);
    }
    let ghost rest = s@.skip(a as int);
    assert(rest.len() == 0 || !is_white_space(rest[0]));
    assert(trim_start(rest) == rest);
    let mut b: usize = s.len();
    while b > a && is_white_space_char(s[b - 1])
        invariant
            a <= b <= s.len(),
            forall|j: int| b <= j < s.len() ==> is_white_space(#[trigger] s@[j]),
        decreases b - a,
    {
        b = b - 1;
    }
    proof {
        let k = b - a;
        assert forall|j: int| k <= j < rest.len() implies is_white_space(#[trigger] rest[j]) by {
            assert(rest[j] == s@[a + j]);
        }
        lemma_trim_end_take(rest, k);
        let mid = rest.take(k);
        assert(mid.len() == 0 || !is_white_space(mid.last())) by {
            if mid.len() > 0 {
                assert(mid.last() == s@[b - 1]);
            }
        }
        assert(trim_end(mid) == mid);
    }
    let mut res: Vec<char> = Vec::new();
    let mut i: usize = a;
    while i < b
        invariant
            a <= i <= b <= s.len(),
            res@ == s@.subrange(a as int, i as int),
        decreases b - i,
    {
        res.push(s[i]);
        i = i + 1;
        assert(s@.subrange(a as int, i as int) == s@.subrange(a as int, i - 1).push(s@[i - 1]));
    }
    assert(res@ =~= rest.take(b - a));
    res
}

/// `s` without trailing occurrences of `c` (`str::trim_end_matches` with a character).
pub fn trim_end_matching(s: &Vec<char>, c: char) -> (res: Vec<char>)
    ensures
        res@ == trim_end_char(s@, c),
{
    let mut b: usize = s.len();
    assert(s@.take(b as int) =~= s@);
    while b > 0 && s[b - 1] == c
        invariant
            0 <= b <= s.len(),
            trim_end_char(s@, c) == trim_end_char(s@.take(b as int), c),
        decreases b,
    {
        assert(s@.take(b as int).drop_last() =~= s@.take(b - 1));
        b = b - 1;
    }
    let mut res: Vec<char> = Vec::new();
    let mut i: usize = 0;
    while i < b
        invariant
            0 <= i <= b <= s.len(),
            res@ == s@.take(i as int),
        decreases b - i,
    {
        res.push(s[i]);
        i = i + 1;
        assert(s@.take(i as int) == s@.take(i - 1).push(s@[i - 1]));
    }
    res
}

proof fn lemma_after_last_extend(s: Seq<char>, c: char, i: int)
    requires
        0 <= i <= s.len(),
        forall|j: int| i <= j < s.len() ==> #[trigger] s[j] != c,
        i == 0 || s[i - 1] == c,
    ensures
        after_last(s, c) == s.skip(i),
    decreases s.len() - i,
{
    if i == s.len() {
        if i == 0 {
        } else {
            assert(s.skip(i) =~= Seq::<char>::empty());
        }
    } else {
        lemma_after_last_extend(s.drop_last(), c, i);
        assert(s.drop_last().skip(i).push(s.last()) =~= s.skip(i));
    }
}

/// The part after the last `c` is an end of `s` that holds no `c`, and it is either all of
/// `s` or comes right after a `c`.
pub proof fn lemma_after_last_is_tail(s: Seq<char>, c: char)
    ensures
        after_last(s, c).len() <= s.len(),
        after_last(s, c) == s.skip(s.len() - after_last(s, c).len()),
        !after_last(s, c).contains(c),
        after_last(s, c).len() < s.len() ==> s[s.len() - after_last(s, c).len() - 1] == c,
    decreases s.len(),
{
    if s.len() > 0 {
        let pre = s.drop_last();
        lemma_after_last_is_tail(pre, c);
        if s.last() == c {
            assert(s.skip(s.len() as int) =~= Seq::<char>::empty());
        } else {
            let t = after_last(pre, c);
            assert(pre.skip(pre.len() - t.len()).push(s.last()) =~= s.skip(s.len() - (t.len() + 1)));
            assert forall|j: int| 0 <= j < t.len() + 1 implies #[trigger] t.push(s.last())[j] != c by {
                if j < t.len() {
                    assert(!t.contains(c));
                    assert(t.push(s.last())[j] == t[j]);
                }
            }
            if t.len() < pre.len() {
                assert(s[s.len() - (t.len() + 1) - 1] == pre[pre.len() - t.len() - 1]);
            }
        }
    }
}

/// The part of `s` after its last `c` (all of `s` without one).
pub fn after_last_char(s: &Vec<char>, c: char) -> (res: Vec<char>)
    ensures
        res@ == after_last(s@, c),
{
    let mut i: usize = s.len();
    while i > 0 && s[i - 1] != c
        invariant
            0 <= i <= s.len(),
            forall|j: int| i <= j < s.len() ==> #[trigger] s@[j] != c,
        decreases i,
    {
        i = i - 1;
    }
    proof {
        lemma_after_last_extend(s@, c, i as int);
    }
    let mut res: Vec<char> = Vec::new();
    let mut k: usize = i;
    while k < s.len()
        invariant
            i <= k <= s.len(),
            res@ == s@.subrange(i as int, k as int),
        decreases s.len() - k,
    {
        res.push(s[k]);
        k = k + 1;
        assert(s@.subrange(i as int, k as int) == s@.subrange(i as int, k - 1).push(s@[k - 1]));
    }
    assert(res@ =~= s@.skip(i as int));
    res
}

// ---------------------------------------------------------------------------
// Words
// ---------------------------------------------------------------------------

proof fn lemma_join_push(pieces: Seq<Seq<char>>, sep: Seq<char>, w: Seq<char>)
    requires
        pieces.len() > 0,
    ensures
        join(pieces.push(w), sep) == join(pieces, sep) + sep + w,
{
    assert(pieces.push(w).drop_last() =~= pieces);
}

proof fn lemma_filter_push(done: Seq<Seq<char>>, x: Seq<char>)
    ensures
        done.push(x).filter(nonempty()) == (if x.len() > 0 {
            done.filter(nonempty()).push(x)
        } else {
            done.filter(nonempty())
        }),
{
    reveal_with_fuel(Seq::filter, 1);
    assert(done.push(x).drop_last() =~= done);
}

/// Joining the finished words with one more piece `x`.
proof fn lemma_join_step(done: Seq<Seq<char>>, x: Seq<char>, sep: Seq<char>)
    ensures
        join(done.push(x).filter(nonempty()), sep) == (if x.len() == 0 {
            join(done.filter(nonempty()), sep)
        } else if done.filter(nonempty()).len() == 0 {
            x
        } else {
            join(done.filter(nonempty()), sep) + sep + x
        }),
        (done.push(x).filter(nonempty()).len() > 0) == (done.filter(nonempty()).len() > 0
            || x.len() > 0),
{
    lemma_filter_push(done, x);
    let f = done.filter(nonempty());
    if x.len() > 0 {
        if f.len() > 0 {
            lemma_join_push(f, sep, x);
        } else {
            assert(f.push(x) =~= seq![x]);
        }
    }
}

/// The pieces after reading one more character.
proof fn lemma_ws_pieces_step(s: Seq<char>, i: int)
    requires
        0 <= i < s.len(),
    ensures
        ws_pieces(s.take(i + 1)) == (if is_white_space(s[i]) {
            ws_pieces(s.take(i)).push(Seq::empty())
        } else {
            ws_pieces(s.take(i)).update(
                ws_pieces(s.take(i)).len() - 1,
                ws_pieces(s.take(i)).last().push(s[i]),
            )
        }),
{
    assert(s.take(i + 1).drop_last() =~= s.take(i));
    assert(s.take(i + 1).last() == s[i]);
}

/// The words of `s` joined by `sep` (`s.split_whitespace().collect::<Vec<_>>().join(sep)`).
pub fn join_words(s: &Vec<char>, sep: &str) -> (res: Vec<char>)
    ensures
        res@ == join(words(s@), sep@),
{
    let sepv = chars_of(sep);
    // `out` holds the finished words joined; `cur` is the piece being read.
    let mut out: Vec<char> = Vec::new();
    let mut cur: Vec<char> = Vec::new();
    let mut any: bool = false;
    let mut i: usize = 0;
    assert(s@.take(0) =~= Seq::<char>::empty());
    while i < s.len()
        invariant
            0 <= i <= s.len(),
            sepv@ == sep@,
            ws_pieces(s@.take(i as int)).len() >= 1,
            cur@ == ws_pieces(s@.take(i as int)).last(),
            any == (ws_pieces(s@.take(i as int)).drop_last().filter(nonempty()).len() > 0),
            out@ == join(ws_pieces(s@.take(i as int)).drop_last().filter(nonempty()), sep@),
        decreases s.len() - i,
    {
        let c = s[i];
        let ghost prev = ws_pieces(s@.take(i as int));
        proof {
            lemma_ws_pieces_step(s@, i as int);
        }
        if is_white_space_char(c) {
            proof {
                let done = prev.drop_last();
                assert(prev.push(Seq::empty()).drop_last() =~= prev);
                assert(prev =~= done.push(prev.last()));
                lemma_join_step(done, prev.last(), sep@);
            }
            if cur.len() > 0 {
                if any {
                    push_all(&mut out, &sepv);
                }
                push_all(&mut out, &cur);
                any = true;
            }
            cur = Vec::new();
        } else {
            proof {
                assert(prev.update(prev.len() - 1, prev.last().push(c)).drop_last()
                    =~= prev.drop_last());
            }
            cur.push(c);
        }
        i = i + 1;
    }
    assert(s@.take(s.len() as int) =~= s@);
    proof {
        let pieces = ws_pieces(s@);
        let done = pieces.drop_last();
        assert(pieces =~= done.push(pieces.last()));
        lemma_join_step(done, pieces.last(), sep@);
    }
    if cur.len() > 0 {
        if any {
            push_all(&mut out, &sepv);
        }
        push_all(&mut out, &cur);
    }
    out
}

// ---------------------------------------------------------------------------
// Numbers
// ---------------------------------------------------------------------------

/// Decimal representation of `n` (`u64::to_string`).
pub fn decimal_of(n: u64) -> (res: Vec<char>)
    ensures
        res@ == decimal(n as nat),
    decreases n,
{
    let d = (n % 10) as u32;
    let c = char_from_digit(d);
    if n < 10 {
        let mut v: Vec<char> = Vec::new();
        v.push(c);
        v
    } else {
        let mut v = decimal_of(n / 10);
        v.push(c);
        v
    }
}

/// The ASCII digit for `d < 10`.
pub fn char_from_digit(d: u32) -> (c: char)
    requires
        d < 10,
    ensures
        c == digit_char(d as nat),
{
    if d == 0 {
        '0'
    } else if d == 1 {
        '1'
    } else if d == 2 {
        '2'
    } else if d == 3 {
        '3'
    } else if d == 4 {
        '4'
    } else if d == 5 {
        '5'
    } else if d == 6 {
        '6'
    } else if d == 7 {
        '7'
    } else if d == 8 {
        '8'
    } else {
        '9'
    }
}

/// `str::parse::<usize>`: `Some(value)` exactly when `s` is an optional `+` followed by
/// ASCII digits whose value fits in `usize`.
pub fn parse_usize(s: &Vec<char>) -> (res: Option<usize>)
    ensures
        res is Some <==> parses_as_usize(s@),
        res matches Some(v) ==> v == digits_value(unsigned_digits(s@)),
{
    let start: usize = if s.len() > 0 && s[0] == '+' {
        1
    } else {
        0
    };
    let ghost d = unsigned_digits(s@);
    assert(d =~= s@.skip(start as int));
    if start == s.len() {
        assert(d.len() == 0);
        return None;
    }
    let mut acc: usize = 0;
    let mut i: usize = start;
    while i < s.len()
        invariant
            start <= i <= s.len(),
            d == unsigned_digits(s@),
            d =~= s@.skip(start as int),
            forall|j: int| 0 <= j < i - start ==> is_digit(#[trigger] d[j]),
            acc == digits_value(d.take(i - start)),
        decreases s.len() - i,
    {
        let c = s[i];
        let cu = c as u32;
        if !(48 <= cu && cu <= 57) {
            assert(!is_digit(d[i - start]));
            return None;
        }
        let dv = cu - 48;
        assert(is_digit(d[i - start]));
        assert(d.take(i - start + 1).drop_last() =~= d.take(i - start));
        assert(d.take(i - start + 1).last() == c);
        let next = match acc.checked_mul(10) {
            Some(m) => m.checked_add(dv as usize),
            None => None,
        };
        match next {
            Some(v) => {
                acc = v;
            },
            None => {
                proof {
                    assert(digits_value(d.take(i - start + 1)) == acc * 10 + dv);
                    if forall|j: int| 0 <= j < d.len() ==> is_digit(#[trigger] d[j]) {
                        lemma_digits_value_grows(d, (i - start + 1) as int);
                    }
                }
                return None;
            },
        }
        i = i + 1;
    }
    assert(d.take(i - start) =~= d);
    Some(acc)
}

proof fn lemma_digits_value_grows(d: Seq<char>, k: int)
    requires
        0 <= k <= d.len(),
        forall|j: int| 0 <= j < d.len() ==> is_digit(#[trigger] d[j]),
    ensures
        digits_value(d.take(k)) <= digits_value(d),
    decreases d.len() - k,
{
    if k < d.len() {
        lemma_digits_value_grows(d, k + 1);
        assert(d.take(k + 1).drop_last() =~= d.take(k));
    } else {
        assert(d.take(k) =~= d);
    }
}

/// ASCII upper case of a character (`char::to_uppercase` on ASCII input).
pub fn upper_ascii(c: char) -> (res: char)
    ensures
        res == ascii_upper(c),
{
    let cu = c as u32;
    if 97 <= cu && cu <= 122 {
        let u = cu - 32;
        char_from_ascii_upper(u)
    } else {
        c
    }
}

fn char_from_ascii_upper(u: u32) -> (c: char)
    requires
        65 <= u <= 90,
    ensures
        c as u32 == u,
{
    let b = u as u8;
    b as char
}

} // verus!

verus! {

// ---------------------------------------------------------------------------
// Lists of texts
// ---------------------------------------------------------------------------
//
// The searches remember the texts already seen (links, package names) to drop repeats. A
// `HashSet<String>` would do that at run time, but vstd's specification of `HashSet` proves
// membership only for keys whose hashing it knows to obey its model, which `String` keys do
// not; so the seen texts are kept as a list of character vectors, which these two functions
// search and grow with exact contracts, and the folds in `search` state distinctness over it.

/// The texts of a list of character vectors.
pub open spec fn texts_view(v: Vec<Vec<char>>) -> Seq<Seq<char>> {
    v@.map_values(|w: Vec<char>| w@)
}

/// `x` is one of the texts in `v`.
pub fn list_contains(v: &Vec<Vec<char>>, x: &Vec<char>) -> (res: bool)
    ensures
        res == texts_view(*v).contains(x@),
{
    let mut i: usize = 0;
    while i < v.len()
        invariant
            0 <= i <= v.len(),
            forall|j: int| 0 <= j < i ==> texts_view(*v)[j] != x@,
        decreases v.len() - i,
    {
        if seq_equal(&v[i], x) {
            assert(texts_view(*v)[i as int] == x@);
            return true;
        }
        i = i + 1;
    }
    false
}

/// Adds `x` to `v` (the ghost view grows by `x@`).
pub fn list_push(v: &mut Vec<Vec<char>>, x: Vec<char>)
    ensures
        texts_view(*final(v)) == texts_view(*old(v)).push(x@),
{
    let ghost before = texts_view(*v);
    v.push(x);
    assert(texts_view(*v) =~= before.push(x@));
}

/// The text of capture group `k` of a match, or `None` when the match has no such group
/// or the group did not take part (the cases in which indexing a match panics).
pub fn group_text(m: &Vec<Option<String>>, k: usize) -> (res: Option<Vec<char>>)
    ensures
        match res {
            Some(t) => k < m@.len() && (m@[k as int] matches Some(g) && t@ == g@),
            None => k >= m@.len() || m@[k as int] is None,
        },
{
    if k >= m.len() {
        return None;
    }
    match &m[k] {
        Some(g) => Some(chars_of(g.as_str())),
        None => None,
    }
}

} // verus!

verus! {

// ---------------------------------------------------------------------------
// Law: decimal numbers read back
// ---------------------------------------------------------------------------

proof fn lemma_decimal_digits(n: nat)
    ensures
        decimal(n).len() >= 1,
        forall|i: int| 0 <= i < decimal(n).len() ==> is_digit(#[trigger] decimal(n)[i]),
        digits_value(decimal(n)) == n,
    decreases n,
{
    if n < 10 {
        assert(((48 + n) as char) as u32 == 48 + n);
        assert(decimal(n).drop_last() =~= Seq::<char>::empty());
        assert(digits_value(Seq::<char>::empty()) == 0);
        assert(decimal(n).last() == digit_char(n));
        assert(digits_value(decimal(n)) == digits_value(decimal(n).drop_last()) * 10 + n);
    } else {
        lemma_decimal_digits(n / 10);
        let d = decimal(n);
        assert(d.drop_last() =~= decimal(n / 10));
        assert(((48 + n % 10) as char) as u32 == 48 + n % 10);
        assert(d.last() == digit_char(n % 10));
        assert((n / 10) * 10 + n % 10 == n);
        assert(digits_value(d) == digits_value(decimal(n / 10)) * 10 + n % 10);
        assert forall|i: int| 0 <= i < d.len() implies is_digit(#[trigger] d[i]) by {
            if i < d.len() - 1 {
                assert(d[i] == decimal(n / 10)[i]);
            }
        }
    }
}

/// What `u64::to_string` writes, `str::parse::<usize>` reads back as the same number.
pub proof fn law_decimal_reads_back(n: nat)
    requires
        n <= usize::MAX,
    ensures
        parses_as_usize(decimal(n)),
        digits_value(unsigned_digits(decimal(n))) == n,
{
    lemma_decimal_digits(n);
    assert(is_digit(decimal(n)[0]));
    assert(unsigned_digits(decimal(n)) == decimal(n));
}

/// Text that neither begins nor ends with white space is its own trim.
pub proof fn lemma_trim_unchanged(s: Seq<char>)
    requires
        s.len() > 0,
        !is_white_space(s[0]),
        !is_white_space(s.last()),
    ensures
        trim(s) == s,
{
}

/// Decimal digits are not white space.
pub proof fn lemma_decimal_untrimmed(n: nat)
    ensures
        trim(decimal(n)) == decimal(n),
{
    lemma_decimal_digits(n);
    let d = decimal(n);
    assert(is_digit(d[0]));
    assert(is_digit(d[d.len() - 1]));
    lemma_trim_unchanged(d);
}

} // verus!
