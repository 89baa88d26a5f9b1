use vstd::prelude::*;
use vstd::string::*;

verus! {

/// Whether `c` equals `t` once an ASCII upper-case `c` is taken to lower case.
pub open spec fn char_folds_to(c: char, t: char) -> bool {
    c == t || ('A' <= c && c <= 'Z' && (c as u32) + 32 == (t as u32))
}

/// Whether `s` equals `token` when ASCII letters of `s` are read without case.
pub open spec fn folds_to(s: Seq<char>, token: Seq<char>) -> bool {
    s.len() == token.len() && forall|i: int| 0 <= i < s.len() ==> char_folds_to(s[i], token[i])
}

pub proof fn lemma_folds_to_self(s: Seq<char>)
    ensures
        folds_to(s, s),
{
}

/// Character-wise equality of two strings.
pub fn same_text(a: &str, b: &str) -> (r: bool)
    ensures
        r == (a@ == b@),
{
    let n = a.unicode_len();
    if n != b.unicode_len() {
        return false;
    }
    let mut i: usize = 0;
    while i < n
        invariant
            n == a@.len(),
            n == b@.len(),
            i <= n,
            forall|j: int| 0 <= j < i ==> a@[j] == b@[j],
        decreases n - i,
    {
        if a.get_char(i) != b.get_char(i) {
            return false;
        }
        i = i + 1;
    }
    assert(a@ =~= b@);
    true
}

/// Compares `s` with a token, reading ASCII letters of `s` without case.
pub fn fold_eq(s: &str, token: &str) -> (r: bool)
    ensures
        r == folds_to(s@, token@),
{
    let n = s.unicode_len();
    if n != token.unicode_len() {
        return false;
    }
    let mut i: usize = 0;
    while i < n
        invariant
            n == s@.len(),
            n == token@.len(),
            i <= n,
            forall|j: int| 0 <= j < i ==> char_folds_to(s@[j], token@[j]),
        decreases n - i,
    {
        let c = s.get_char(i);
        let t = token.get_char(i);
        let same = c == t || ('A' <= c && c <= 'Z' && (c as u32) + 32 == (t as u32));
        if !same {
            return false;
        }
        i = i + 1;
    }
    true
}

/// Strict lexicographic order on character sequences, by code point.
pub open spec fn lex_lt(a: Seq<char>, b: Seq<char>) -> bool
    decreases a.len(),
{
    if a.len() == 0 {
        b.len() > 0
    } else if b.len() == 0 {
        false
    } else if a[0] != b[0] {
        (a[0] as u32) < (b[0] as u32)
    } else {
        lex_lt(a.drop_first(), b.drop_first())
    }
}

pub proof fn lemma_lex_asym(a: Seq<char>, b: Seq<char>)
    ensures
        !(lex_lt(a, b) && lex_lt(b, a)),
    decreases a.len(),
{
    if a.len() > 0 && b.len() > 0 && a[0] == b[0] {
        lemma_lex_asym(a.drop_first(), b.drop_first());
    }
}

pub proof fn lemma_lex_total(a: Seq<char>, b: Seq<char>)
    ensures
        a != b ==> lex_lt(a, b) || lex_lt(b, a),
    decreases a.len(),
{
    if a.len() > 0 && b.len() > 0 && a[0] == b[0] {
        lemma_lex_total(a.drop_first(), b.drop_first());
        if a.drop_first() == b.drop_first() {
            assert(a =~= seq![a[0]] + a.drop_first());
            assert(b =~= seq![b[0]] + b.drop_first());
        }
    } else if a.len() == 0 && b.len() == 0 {
        assert(a =~= b);
    } else if a.len() > 0 && b.len() > 0 {
        vstd::utf8::char_u32_cast(a[0], a[0] as u32);
        vstd::utf8::char_u32_cast(b[0], b[0] as u32);
    }
}

pub proof fn lemma_lex_trans(a: Seq<char>, b: Seq<char>, c: Seq<char>)
    requires
        lex_lt(a, b),
        lex_lt(b, c),
    ensures
        lex_lt(a, c),
    decreases a.len(),
{
    if a.len() > 0 && b.len() > 0 && c.len() > 0 && a[0] == b[0] && b[0] == c[0] {
        lemma_lex_trans(a.drop_first(), b.drop_first(), c.drop_first());
    }
}

/// Strict lexicographic comparison of two strings.
pub fn text_less(a: &str, b: &str) -> (r: bool)
    ensures
        r == lex_lt(a@, b@),
{
    let n = a.unicode_len();
    let m = b.unicode_len();
    let mut i: usize = 0;
    assert(a@.subrange(0, n as int) =~= a@);
    assert(b@.subrange(0, m as int) =~= b@);
    while i < n && i < m
        invariant
            n == a@.len(),
            m == b@.len(),
            i <= n,
            i <= m,
            lex_lt(a@, b@) == lex_lt(a@.subrange(i as int, n as int), b@.subrange(i as int, m as int)),
        decreases n - i,
    {
        let c = a.get_char(i);
        let d = b.get_char(i);
        if c != d {
            return (c as u32) < (d as u32);
        }
        assert(a@.subrange(i as int, n as int).drop_first() =~= a@.subrange(i + 1, n as int));
        assert(b@.subrange(i as int, m as int).drop_first() =~= b@.subrange(i + 1, m as int));
        i = i + 1;
    }
    i == n && i < m
}

pub open spec fn digit_char(d: int) -> char {
    seq!['0', '1', '2', '3', '4', '5', '6', '7', '8', '9'][d]
}

proof fn lemma_digit_char(d: int)
    requires
        0 <= d < 10,
    ensures
        digit_char(d) as u32 == 48 + d,
        is_digit(digit_char(d)),
{
    if d == 0 {
        assert(digit_char(d) == '0');
    } else if d == 1 {
        assert(digit_char(d) == '1');
    } else if d == 2 {
        assert(digit_char(d) == '2');
    } else if d == 3 {
        assert(digit_char(d) == '3');
    } else if d == 4 {
        assert(digit_char(d) == '4');
    } else if d == 5 {
        assert(digit_char(d) == '5');
    } else if d == 6 {
        assert(digit_char(d) == '6');
    } else if d == 7 {
        assert(digit_char(d) == '7');
    } else if d == 8 {
        assert(digit_char(d) == '8');
    } else {
        assert(digit_char(d) == '9');
    }
}

pub open spec fn is_digit(c: char) -> bool {
    '0' <= c && c <= '9'
}

/// The decimal rendering of `n`, without leading zeros.
pub open spec fn dec_text(n: nat) -> Seq<char>
    decreases n,
{
    if n < 10 {
        seq![digit_char(n as int)]
    } else {
        dec_text(n / 10).push(digit_char((n % 10) as int))
    }
}

/// The number that a run of decimal digits denotes.
pub open spec fn digits_value(s: Seq<char>) -> nat
    decreases s.len(),
{
    if s.len() == 0 {
        0
    } else {
        digits_value(s.drop_last()) * 10 + ((s.last() as u32) - 48) as nat
    }
}

pub proof fn lemma_dec_text(n: nat)
    ensures
        digits_value(dec_text(n)) == n,
        1 <= dec_text(n).len(),
        n < 10 ==> dec_text(n).len() == 1,
        n < 100 ==> dec_text(n).len() <= 2,
        n < 1000 ==> dec_text(n).len() <= 3,
        forall|i: int| 0 <= i < dec_text(n).len() ==> is_digit(#[trigger] dec_text(n)[i]),
    decreases n,
{
    lemma_digit_char((n % 10) as int);
    if n >= 10 {
        lemma_dec_text(n / 10);
        let t = dec_text(n);
        assert(t.drop_last() =~= dec_text(n / 10));
        assert(t.last() == digit_char((n % 10) as int));
        assert((n / 10) * 10 + n % 10 == n);
        assert(((t.last() as u32) - 48) as nat == n % 10);
        assert(digits_value(t) == digits_value(t.drop_last()) * 10 + ((t.last() as u32) - 48) as nat);
        assert(digits_value(t.drop_last()) == n / 10);
        assert(digits_value(t) == n);
    } else {
        let t = dec_text(n);
        assert(((t.last() as u32) - 48) as nat == n);
        assert(digits_value(t.drop_last()) == 0);
        assert(digits_value(t) == digits_value(t.drop_last()) * 10 + ((t.last() as u32) - 48) as nat);
        assert(dec_text(n).drop_last() =~= Seq::<char>::empty());
    }
}

fn digit_str(d: u64) -> (r: &'static str)
    requires
        d < 10,
    ensures
        r@ == seq![digit_char(d as int)],
{
    proof {
        reveal_strlit("0");
        reveal_strlit("1");
        reveal_strlit("2");
        reveal_strlit("3");
        reveal_strlit("4");
        reveal_strlit("5");
        reveal_strlit("6");
        reveal_strlit("7");
        reveal_strlit("8");
        reveal_strlit("9");
    }
    let r = if d == 0 {
        "0"
    } else if d == 1 {
        "1"
    } else if d == 2 {
        "2"
    } else if d == 3 {
        "3"
    } else if d == 4 {
        "4"
    } else if d == 5 {
        "5"
    } else if d == 6 {
        "6"
    } else if d == 7 {
        "7"
    } else if d == 8 {
        "8"
    } else {
        "9"
    };
    assert(r@ =~= seq![digit_char(d as int)]);
    r
}

/// The decimal rendering of `n`.
pub fn decimal(n: u64) -> (r: String)
    ensures
        r@ == dec_text(n as nat),
    decreases n,
{
    if n < 10 {
        String::from_str(digit_str(n))
    } else {
        let mut s = decimal(n / 10);
        s.append(digit_str(n % 10));
        s
    }
}

/// A maximal run of at most three digits starting at `start`, with its value.
pub open spec fn digit_run(s: Seq<char>, start: int, v: nat, end: int) -> bool {
    &&& start < end <= s.len()
    &&& end - start <= 3
    &&& forall|i: int| start <= i < end ==> is_digit(#[trigger] s[i])
    &&& (end == s.len() || end - start == 3 || !is_digit(s[end]))
    &&& v == digits_value(s.subrange(start, end))
}

/// Reads up to three decimal digits from position `start`.
pub fn read_digits(s: &str, n: usize, start: usize) -> (r: Option<(u64, usize)>)
    requires
        n == s@.len(),
        start <= n,
    ensures
        match r {
            Some((v, e)) => digit_run(s@, start as int, v as nat, e as int),
            None => start == n || !is_digit(s@[start as int]),
        },
{
    let mut i: usize = start;
    let mut v: u64 = 0;
    while i < n && i - start < 3 && is_digit_char(s.get_char(i))
        invariant
            n == s@.len(),
            start <= i <= n,
            i - start <= 3,
            forall|k: int| start <= k < i ==> is_digit(#[trigger] s@[k]),
            v == digits_value(s@.subrange(start as int, i as int)),
            v < 1000,
        decreases n - i,
    {
        let c = s.get_char(i);
        proof {
            assert(s@.subrange(start as int, i + 1).drop_last() =~= s@.subrange(start as int, i as int));
            assert(digits_value(s@.subrange(start as int, i as int)) <= 99) by {
                if i - start == 3 {
                } else {
                    lemma_digits_bound(s@.subrange(start as int, i as int));
                }
            }
        }
        v = v * 10 + (c as u64 - 48);
        i = i + 1;
    }
    if i == start {
        None
    } else {
        Some((v, i))
    }
}

proof fn lemma_digits_bound(s: Seq<char>)
    requires
        s.len() <= 2,
        forall|i: int| 0 <= i < s.len() ==> is_digit(#[trigger] s[i]),
    ensures
        digits_value(s) < if s.len() == 0 { 1nat } else if s.len() == 1 { 10nat } else { 100nat },
    decreases s.len(),
{
    if s.len() > 0 {
        lemma_digits_bound(s.drop_last());
    }
}

fn is_digit_char(c: char) -> (r: bool)
    ensures
        r == is_digit(c),
{
    '0' <= c && c <= '9'
}

/// Where the text at `start` is the rendering of some `x` below 1000 followed
/// by a non-digit or the end, the run read there is exactly that rendering.
pub proof fn lemma_run_of_rendering(s: Seq<char>, start: int, x: nat, v: nat, end: int)
    requires
        x < 1000,
        0 <= start,
        start + dec_text(x).len() <= s.len(),
        s.subrange(start, start + dec_text(x).len()) == dec_text(x),
        start + dec_text(x).len() == s.len() || !is_digit(s[start + dec_text(x).len()]),
        digit_run(s, start, v, end),
    ensures
        end == start + dec_text(x).len(),
        v == x,
{
    lemma_dec_text(x);
    let l = dec_text(x).len() as int;
    assert forall|i: int| start <= i < start + l implies is_digit(#[trigger] s[i]) by {
        assert(s[i] == dec_text(x)[i - start]);
    }
    if end < start + l {
        assert(is_digit(s[end]));
    }
}

} // verus!
