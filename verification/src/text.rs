//! Character-level building blocks: ranges of a character sequence, trimming,
//! searching, and turning ranges back into strings.
use vstd::prelude::*;

verus! {

/// Unicode `White_Space`, the set that `char::is_whitespace` and `str::trim` use.
pub open spec fn is_ws(c: char) -> bool {
    let u = c as u32;
    ||| 0x09 <= u <= 0x0d
    ||| u == 0x20
    ||| u == 0x85
    ||| u == 0xa0
    ||| u == 0x1680
    ||| 0x2000 <= u <= 0x200a
    ||| u == 0x2028
    ||| u == 0x2029
    ||| u == 0x202f
    ||| u == 0x205f
    ||| u == 0x3000
}

pub fn is_ws_char(c: char) -> (r: bool)
    ensures
        r == is_ws(c),
{
    let u = c as u32;
    (0x09 <= u && u <= 0x0d) || u == 0x20 || u == 0x85 || u == 0xa0 || u == 0x1680 || (0x2000 <= u
        && u <= 0x200a) || u == 0x2028 || u == 0x2029 || u == 0x202f || u == 0x205f || u == 0x3000
}

/// Characters that make up a key or modifier name.
pub open spec fn is_ident(c: char) -> bool {
    ||| 'a' <= c <= 'z'
    ||| 'A' <= c <= 'Z'
    ||| '0' <= c <= '9'
    ||| c == '_'
}

pub fn is_ident_char(c: char) -> (r: bool)
    ensures
        r == is_ident(c),
{
    ('a' <= c && c <= 'z') || ('A' <= c && c <= 'Z') || ('0' <= c && c <= '9') || c == '_'
}

/// First index in `[lo, hi)` that is not whitespace, or `hi`.
pub open spec fn skip_ws(s: Seq<char>, lo: int, hi: int) -> int
    decreases hi - lo,
{
    if lo < hi && is_ws(s[lo]) {
        skip_ws(s, lo + 1, hi)
    } else {
        lo
    }
}

/// End of `[lo, hi)` once trailing whitespace is dropped.
pub open spec fn back_ws(s: Seq<char>, lo: int, hi: int) -> int
    decreases hi - lo,
{
    if lo < hi && is_ws(s[hi - 1]) {
        back_ws(s, lo, hi - 1)
    } else {
        hi
    }
}

/// First index in `[lo, hi)` whose character is not `c`, or `hi`.
pub open spec fn skip_char(s: Seq<char>, lo: int, hi: int, c: char) -> int
    decreases hi - lo,
{
    if lo < hi && s[lo] == c {
        skip_char(s, lo + 1, hi, c)
    } else {
        lo
    }
}

/// End of `[lo, hi)` once trailing copies of `c` are dropped.
pub open spec fn back_char(s: Seq<char>, lo: int, hi: int, c: char) -> int
    decreases hi - lo,
{
    if lo < hi && s[hi - 1] == c {
        back_char(s, lo, hi - 1, c)
    } else {
        hi
    }
}

/// First index in `[lo, hi)` holding `c`, or `hi`.
pub open spec fn find_char(s: Seq<char>, lo: int, hi: int, c: char) -> int
    decreases hi - lo,
{
    if lo < hi && s[lo] != c {
        find_char(s, lo + 1, hi, c)
    } else {
        lo
    }
}

/// First whitespace index in `[lo, hi)`, or `hi`.
pub open spec fn find_ws(s: Seq<char>, lo: int, hi: int) -> int
    decreases hi - lo,
{
    if lo < hi && !is_ws(s[lo]) {
        find_ws(s, lo + 1, hi)
    } else {
        lo
    }
}

/// End of the run of identifier characters that starts at `lo`.
pub open spec fn ident_end(s: Seq<char>, lo: int, hi: int) -> int
    decreases hi - lo,
{
    if lo < hi && is_ident(s[lo]) {
        ident_end(s, lo + 1, hi)
    } else {
        lo
    }
}

/// Number of line feeds in `[lo, hi)`.
pub open spec fn newlines(s: Seq<char>, lo: int, hi: int) -> int
    decreases hi - lo,
{
    if hi <= lo {
        0
    } else {
        newlines(s, lo, hi - 1) + if s[hi - 1] == '\n' {
            1int
        } else {
            0int
        }
    }
}

pub proof fn lemma_skip_ws(s: Seq<char>, lo: int, hi: int)
    requires
        lo <= hi,
    ensures
        lo <= skip_ws(s, lo, hi) <= hi,
        forall|k: int| lo <= k < skip_ws(s, lo, hi) ==> is_ws(#[trigger] s[k]),
        skip_ws(s, lo, hi) < hi ==> !is_ws(s[skip_ws(s, lo, hi)]),
    decreases hi - lo,
{
    if lo < hi && is_ws(s[lo]) {
        lemma_skip_ws(s, lo + 1, hi);
    }
}

pub proof fn lemma_back_ws(s: Seq<char>, lo: int, hi: int)
    requires
        lo <= hi,
    ensures
        lo <= back_ws(s, lo, hi) <= hi,
        lo < back_ws(s, lo, hi) ==> !is_ws(s[back_ws(s, lo, hi) - 1]),
    decreases hi - lo,
{
    if lo < hi && is_ws(s[hi - 1]) {
        lemma_back_ws(s, lo, hi - 1);
    }
}

pub proof fn lemma_skip_char(s: Seq<char>, lo: int, hi: int, c: char)
    requires
        lo <= hi,
    ensures
        lo <= skip_char(s, lo, hi, c) <= hi,
    decreases hi - lo,
{
    if lo < hi && s[lo] == c {
        lemma_skip_char(s, lo + 1, hi, c);
    }
}

pub proof fn lemma_back_char(s: Seq<char>, lo: int, hi: int, c: char)
    requires
        lo <= hi,
    ensures
        lo <= back_char(s, lo, hi, c) <= hi,
    decreases hi - lo,
{
    if lo < hi && s[hi - 1] == c {
        lemma_back_char(s, lo, hi - 1, c);
    }
}

pub proof fn lemma_find_char(s: Seq<char>, lo: int, hi: int, c: char)
    requires
        lo <= hi,
    ensures
        lo <= find_char(s, lo, hi, c) <= hi,
        find_char(s, lo, hi, c) < hi ==> s[find_char(s, lo, hi, c)] == c,
        forall|k: int| lo <= k < find_char(s, lo, hi, c) ==> #[trigger] s[k] != c,
    decreases hi - lo,
{
    if lo < hi && s[lo] != c {
        lemma_find_char(s, lo + 1, hi, c);
    }
}

pub proof fn lemma_find_ws(s: Seq<char>, lo: int, hi: int)
    requires
        lo <= hi,
    ensures
        lo <= find_ws(s, lo, hi) <= hi,
    decreases hi - lo,
{
    if lo < hi && !is_ws(s[lo]) {
        lemma_find_ws(s, lo + 1, hi);
    }
}

pub proof fn lemma_ident_end(s: Seq<char>, lo: int, hi: int)
    requires
        lo <= hi,
    ensures
        lo <= ident_end(s, lo, hi) <= hi,
    decreases hi - lo,
{
    if lo < hi && is_ident(s[lo]) {
        lemma_ident_end(s, lo + 1, hi);
    }
}

pub proof fn lemma_newlines_split(s: Seq<char>, a: int, b: int, c: int)
    requires
        a <= b <= c,
    ensures
        newlines(s, a, c) == newlines(s, a, b) + newlines(s, b, c),
    decreases c - b,
{
    if b < c {
        lemma_newlines_split(s, a, b, c - 1);
    }
}

pub proof fn lemma_newlines_bound(s: Seq<char>, a: int, b: int)
    requires
        a <= b,
    ensures
        0 <= newlines(s, a, b) <= b - a,
    decreases b - a,
{
    if a < b {
        lemma_newlines_bound(s, a, b - 1);
    }
}

pub fn skip_ws_in(s: &Vec<char>, lo: usize, hi: usize) -> (r: usize)
    requires
        lo <= hi <= s@.len(),
    ensures
        r == skip_ws(s@, lo as int, hi as int),
        lo <= r <= hi,
{
    let mut i = lo;
    while i < hi && is_ws_char(s[i])
        invariant
            lo <= i <= hi <= s@.len(),
            skip_ws(s@, lo as int, hi as int) == skip_ws(s@, i as int, hi as int),
        decreases hi - i,
    {
        i = i + 1;
    }
    i
}

pub fn back_ws_in(s: &Vec<char>, lo: usize, hi: usize) -> (r: usize)
    requires
        lo <= hi <= s@.len(),
    ensures
        r == back_ws(s@, lo as int, hi as int),
        lo <= r <= hi,
{
    let mut j = hi;
    while j > lo && is_ws_char(s[j - 1])
        invariant
            lo <= j <= hi <= s@.len(),
            back_ws(s@, lo as int, hi as int) == back_ws(s@, lo as int, j as int),
        decreases j - lo,
    {
        j = j - 1;
    }
    j
}

pub fn skip_char_in(s: &Vec<char>, lo: usize, hi: usize, c: char) -> (r: usize)
    requires
        lo <= hi <= s@.len(),
    ensures
        r == skip_char(s@, lo as int, hi as int, c),
        lo <= r <= hi,
{
    let mut i = lo;
    while i < hi && s[i] == c
        invariant
            lo <= i <= hi <= s@.len(),
            skip_char(s@, lo as int, hi as int, c) == skip_char(s@, i as int, hi as int, c),
        decreases hi - i,
    {
        i = i + 1;
    }
    i
}

pub fn back_char_in(s: &Vec<char>, lo: usize, hi: usize, c: char) -> (r: usize)
    requires
        lo <= hi <= s@.len(),
    ensures
        r == back_char(s@, lo as int, hi as int, c),
        lo <= r <= hi,
{
    let mut j = hi;
    while j > lo && s[j - 1] == c
        invariant
            lo <= j <= hi <= s@.len(),
            back_char(s@, lo as int, hi as int, c) == back_char(s@, lo as int, j as int, c),
        decreases j - lo,
    {
        j = j - 1;
    }
    j
}

pub fn find_char_in(s: &Vec<char>, lo: usize, hi: usize, c: char) -> (r: usize)
    requires
        lo <= hi <= s@.len(),
    ensures
        r == find_char(s@, lo as int, hi as int, c),
        lo <= r <= hi,
{
    let mut i = lo;
    while i < hi && s[i] != c
        invariant
            lo <= i <= hi <= s@.len(),
            find_char(s@, lo as int, hi as int, c) == find_char(s@, i as int, hi as int, c),
        decreases hi - i,
    {
        i = i + 1;
    }
    i
}

pub fn find_ws_in(s: &Vec<char>, lo: usize, hi: usize) -> (r: usize)
    requires
        lo <= hi <= s@.len(),
    ensures
        r == find_ws(s@, lo as int, hi as int),
        lo <= r <= hi,
{
    let mut i = lo;
    while i < hi && !is_ws_char(s[i])
        invariant
            lo <= i <= hi <= s@.len(),
            find_ws(s@, lo as int, hi as int) == find_ws(s@, i as int, hi as int),
        decreases hi - i,
    {
        i = i + 1;
    }
    i
}

pub fn ident_end_in(s: &Vec<char>, lo: usize, hi: usize) -> (r: usize)
    requires
        lo <= hi <= s@.len(),
    ensures
        r == ident_end(s@, lo as int, hi as int),
        lo <= r <= hi,
{
    let mut i = lo;
    while i < hi && is_ident_char(s[i])
        invariant
            lo <= i <= hi <= s@.len(),
            ident_end(s@, lo as int, hi as int) == ident_end(s@, i as int, hi as int),
        decreases hi - i,
    {
        i = i + 1;
    }
    i
}

/// Whether the range `[lo, hi)` of `s` spells exactly `lit`.
pub fn range_is(s: &Vec<char>, lo: usize, hi: usize, lit: &str) -> (r: bool)
    requires
        lo <= hi <= s@.len(),
    ensures
        r == (s@.subrange(lo as int, hi as int) == lit@),
{
    let n = lit.unicode_len();
    if hi - lo != n {
        proof {
            assert(s@.subrange(lo as int, hi as int).len() != lit@.len());
        }
        return false;
    }
    let mut k: usize = 0;
    while k < n
        invariant
            n == lit@.len(),
            hi - lo == n,
            lo <= hi <= s@.len(),
            k <= n,
            forall|j: int| 0 <= j < k ==> s@[lo + j] == lit@[j],
        decreases n - k,
    {
        if s[lo + k] != lit.get_char(k) {
            proof {
                assert(s@.subrange(lo as int, hi as int)[k as int] != lit@[k as int]);
            }
            return false;
        }
        k = k + 1;
    }
    proof {
        assert(s@.subrange(lo as int, hi as int) =~= lit@);
    }
    true
}

/// `[lo, hi)` without leading and trailing whitespace.
pub open spec fn trimmed(s: Seq<char>, lo: int, hi: int) -> (int, int) {
    let a = skip_ws(s, lo, hi);
    (a, back_ws(s, a, hi))
}

pub fn trimmed_in(s: &Vec<char>, lo: usize, hi: usize) -> (r: (usize, usize))
    requires
        lo <= hi <= s@.len(),
    ensures
        (r.0 as int, r.1 as int) == trimmed(s@, lo as int, hi as int),
        lo <= r.0 <= r.1 <= hi,
{
    let a = skip_ws_in(s, lo, hi);
    let b = back_ws_in(s, a, hi);
    (a, b)
}

/// The characters of `s`, in order.
pub fn chars_of(s: &str) -> (v: Vec<char>)
    ensures
        v@ == s@,
{
    let mut v: Vec<char> = Vec::new();
    for c in it: s.chars()
        invariant
            v@ == it.seq().take(it.index() as int),
    {
        v.push(c);
    }
    v
}

/// An owned copy of the characters `[lo, hi)` of `s`.
pub fn text_of(s: &str, lo: usize, hi: usize) -> (r: String)
    requires
        lo <= hi <= s@.len(),
    ensures
        r@ == s@.subrange(lo as int, hi as int),
{
    let part = s.substring_char(lo, hi);
    String::from_str(part)
}

/// `s` without leading and trailing whitespace, as `str::trim` gives it.
pub fn trim(s: &str) -> (r: String)
    ensures
        r@ == s@.subrange(trimmed(s@, 0, s@.len() as int).0, trimmed(s@, 0, s@.len() as int).1),
{
    let v = chars_of(s);
    let t = trimmed_in(&v, 0, v.len());
    text_of(s, t.0, t.1)
}

/// Whether `needle` occurs in `hay` at position `i`.
pub open spec fn occurs_at(hay: Seq<char>, needle: Seq<char>, i: int) -> bool {
    0 <= i && i + needle.len() <= hay.len() && hay.subrange(i, i + needle.len()) == needle
}

/// Whether `needle` occurs anywhere in `hay`.
pub open spec fn seq_contains(hay: Seq<char>, needle: Seq<char>) -> bool {
    exists|i: int| occurs_at(hay, needle, i)
}

/// Whether `needle` occurs in `hay` at position `i`, on character vectors.
fn occurs_at_in(hay: &Vec<char>, needle: &Vec<char>, i: usize) -> (r: bool)
    requires
        i + needle@.len() <= hay@.len(),
    ensures
        r == occurs_at(hay@, needle@, i as int),
{
    let hl = hay.len();
    let mut k: usize = 0;
    while k < needle.len()
        invariant
            hl == hay@.len(),
            i + needle@.len() <= hay@.len(),
            k <= needle@.len(),
            forall|j: int| 0 <= j < k ==> hay@[i + j] == needle@[j],
        decreases needle@.len() - k,
    {
        if hay[i + k] != needle[k] {
            proof {
                assert(hay@.subrange(i as int, i + needle@.len())[k as int] != needle@[k as int]);
            }
            return false;
        }
        k = k + 1;
    }
    proof {
        assert(hay@.subrange(i as int, i + needle@.len()) =~= needle@);
    }
    true
}

/// Whether `needle` occurs in `hay`, as `str::contains` answers for a string pattern.
pub fn contains_str(hay: &str, needle: &str) -> (r: bool)
    ensures
        r == seq_contains(hay@, needle@),
{
    let h = chars_of(hay);
    let n = chars_of(needle);
    if n.len() > h.len() {
        proof {
            assert forall|i: int| !occurs_at(hay@, needle@, i) by {}
        }
        return false;
    }
    let last = h.len() - n.len();
    let mut i: usize = 0;
    let mut done = false;
    while !done
        invariant
            h@ == hay@,
            n@ == needle@,
            last == h@.len() - n@.len(),
            i <= last,
            forall|j: int| 0 <= j < i ==> !occurs_at(hay@, needle@, j),
            done ==> forall|j: int| 0 <= j <= last ==> !occurs_at(hay@, needle@, j),
        decreases last - i + if done {
            0int
        } else {
            1int
        },
    {
        if occurs_at_in(&h, &n, i) {
            return true;
        }
        if i == last {
            done = true;
        } else {
            i = i + 1;
        }
    }
    proof {
        assert forall|j: int| !occurs_at(hay@, needle@, j) by {
            if 0 <= j <= last {
            }
        }
    }
    false
}

/// The character of a decimal digit.
pub open spec fn digit_char(d: nat) -> char {
    if d == 0 {
        '0'
    } else if d == 1 {
        '1'
    } else if d == 2 {
        '2'
    } else if d == 3 {
        '3'
    } else if d == 4 {
        '4'
    } else if d == 5 {
        '5'
    } else if d == 6 {
        '6'
    } else if d == 7 {
        '7'
    } else if d == 8 {
        '8'
    } else {
        '9'
    }
}

/// `n` written in decimal, without leading zeros.
pub open spec fn decimal_of(n: nat) -> Seq<char>
    decreases n,
{
    if n < 10 {
        seq![digit_char(n)]
    } else {
        decimal_of(n / 10).push(digit_char(n % 10))
    }
}

fn digit_str(d: usize) -> (r: &'static str)
    requires
        d < 10,
    ensures
        r@ == seq![digit_char(d as nat)],
{
    proof {
        reveal_strlit("0");
        reveal_strlit("1");
        reveal_strlit("2");
        reveal_strlit("3");
        reveal_strlit("4");
        reveal_strlit("5");
        reveal_strlit("6");
        reveal_strlit("7");
        reveal_strlit("8");
        reveal_strlit("9");
    }
    let r = if d == 0 {
        "0"
    } else if d == 1 {
        "1"
    } else if d == 2 {
        "2"
    } else if d == 3 {
        "3"
    } else if d == 4 {
        "4"
    } else if d == 5 {
        "5"
    } else if d == 6 {
        "6"
    } else if d == 7 {
        "7"
    } else if d == 8 {
        "8"
    } else {
        "9"
    };
    assert(r@ =~= seq![digit_char(d as nat)]);
    r
}

/// `n` written in decimal, as `usize`'s `Display` writes it.
pub fn decimal(n: usize) -> (r: String)
    ensures
        r@ == decimal_of(n as nat),
    decreases n,
{
    if n < 10 {
        owned(digit_str(n))
    } else {
        let r = decimal(n / 10).concat(digit_str(n % 10));
        assert(r@ =~= decimal_of(n as nat));
        r
    }
}

/// An owned copy of a string literal or slice.
pub fn owned(s: &str) -> (r: String)
    ensures
        r@ == s@,
{
    String::from_str(s)
}

/// The pieces of `s` from `p` on, split at every `sep`; empty pieces are kept.
pub open spec fn pieces(s: Seq<char>, p: int, sep: char) -> Seq<Seq<char>>
    decreases s.len() - p,
{
    if p < 0 || p > s.len() {
        Seq::empty()
    } else {
        let e = find_char(s, p, s.len() as int, sep);
        proof {
            lemma_find_char(s, p, s.len() as int, sep);
        }
        if e >= s.len() {
            seq![s.subrange(p, s.len() as int)]
        } else {
            seq![s.subrange(p, e)] + pieces(s, e + 1, sep)
        }
    }
}

/// The pieces of `text` split at every `sep`.
pub fn split_on(text: &str, sep: char) -> (r: Vec<String>)
    ensures
        r.deep_view() == pieces(text@, 0, sep),
{
    let s = chars_of(text);
    let n = s.len();
    let mut r: Vec<String> = Vec::new();
    let mut p: usize = 0;
    loop
        invariant
            n == s@.len(),
            s@ == text@,
            p <= n,
            r.deep_view() + pieces(s@, p as int, sep) == pieces(s@, 0, sep),
        decreases n - p,
    {
        let e = find_char_in(&s, p, n, sep);
        let ghost before = r.deep_view();
        r.push(text_of(text, p, e));
        proof {
            assert(r.deep_view() =~= before.push(s@.subrange(p as int, e as int)));
        }
        if e >= n {
            proof {
                assert(before + pieces(s@, p as int, sep) =~= r.deep_view());
            }
            return r;
        }
        proof {
            assert(before + (seq![s@.subrange(p as int, e as int)] + pieces(s@, e + 1, sep))
                =~= r.deep_view() + pieces(s@, e + 1, sep));
        }
        p = e + 1;
    }
}

} // verus!
