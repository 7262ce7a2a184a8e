//! Character and string utilities shared by the renderer: whitespace
//! classification, searching, trimming, repetition, and decimal
//! formatting, each stated over character sequences.

use vstd::prelude::*;

verus! {

/// Whitespace characters recognized by trimming and by the attribute
/// scanner: space, tab, line feed, carriage return, vertical tab and
/// form feed.
pub open spec fn is_ws(c: char) -> bool {
    c == ' ' || c == '\t' || c == '\n' || c == '\r' || c == '\u{b}' || c == '\u{c}'
}

/// Runtime test matching `is_ws`.
pub fn is_ws_char(c: char) -> (r: bool)
    ensures
        r == is_ws(c),
{
    c == ' ' || c == '\t' || c == '\n' || c == '\r' || c == '\u{b}' || c == '\u{c}'
}

/// Relies on std's `String::push`: appends one character at the end of
/// the string.
#[verifier::external_body]
pub fn push_char(s: &mut String, c: char)
    ensures
        final(s)@ == old(s)@.push(c),
{
    s.push(c)
}

/// The characters of a string slice as a vector, in order.
pub fn to_chars(s: &str) -> (v: Vec<char>)
    ensures
        v@ == s@,
{
    let n = s.unicode_len();
    let mut v: Vec<char> = Vec::new();
    let mut i: usize = 0;
    while i < n
        invariant
            n == s@.len(),
            i <= n,
            v@ == s@.subrange(0, i as int),
        decreases n - i,
    {
        v.push(s.get_char(i));
        proof {
            assert(v@ =~= s@.subrange(0, i + 1 as int));
        }
        i = i + 1;
    }
    proof {
        assert(v@ =~= s@);
    }
    v
}

/// The substring `v[from..to]` as an owned string.
pub fn chars_to_string(v: &Vec<char>, from: usize, to: usize) -> (s: String)
    requires
        from <= to <= v@.len(),
    ensures
        s@ == v@.subrange(from as int, to as int),
{
    let mut s = String::new();
    let mut i: usize = from;
    while i < to
        invariant
            from <= i <= to <= v@.len(),
            s@ == v@.subrange(from as int, i as int),
        decreases to - i,
    {
        push_char(&mut s, v[i]);
        proof {
            assert(s@ =~= v@.subrange(from as int, i + 1 as int));
        }
        i = i + 1;
    }
    s
}

/// The characters `v[from..to]` as a fresh vector.
pub fn chars_sub_vec(v: &Vec<char>, from: usize, to: usize) -> (r: Vec<char>)
    requires
        from <= to <= v@.len(),
    ensures
        r@ == v@.subrange(from as int, to as int),
{
    let mut r: Vec<char> = Vec::new();
    let mut i: usize = from;
    while i < to
        invariant
            from <= i <= to <= v@.len(),
            r@ == v@.subrange(from as int, i as int),
        decreases to - i,
    {
        r.push(v[i]);
        proof {
            assert(r@ =~= v@.subrange(from as int, i + 1 as int));
        }
        i = i + 1;
    }
    r
}

/// The smallest index `j >= i` with `s[j] == c`, if any.
pub open spec fn find_char(s: Seq<char>, c: char, i: int) -> Option<int>
    decreases s.len() - i when 0 <= i
{
    if i >= s.len() {
        None
    } else if s[i] == c {
        Some(i)
    } else {
        find_char(s, c, i + 1)
    }
}

/// What `find_char` returns: the found index carries the character and
/// nothing before it does; `None` means the character is absent from
/// `s[i..]`.
pub proof fn lemma_find_char(s: Seq<char>, c: char, i: int)
    requires
        0 <= i,
    ensures
        match find_char(s, c, i) {
            Some(j) => i <= j < s.len() && s[j] == c && (forall|k: int| i <= k < j ==> s[k] != c),
            None => forall|k: int| i <= k < s.len() ==> s[k] != c,
        },
    decreases s.len() - i,
{
    if i < s.len() && s[i] != c {
        lemma_find_char(s, c, i + 1);
    }
}

/// `find_char` within the suffix `s[k..]` mirrors `find_char` within
/// `s`, shifted by `k`.
pub proof fn lemma_find_char_sub(s: Seq<char>, c: char, k: int, i: int)
    requires
        0 <= k <= s.len(),
        0 <= i <= s.len() - k,
    ensures
        match find_char(s, c, k + i) {
            Some(j) => find_char(s.subrange(k, s.len() as int), c, i) == Some(j - k),
            None => find_char(s.subrange(k, s.len() as int), c, i) is None,
        },
    decreases s.len() - k - i,
{
    let sub = s.subrange(k, s.len() as int);
    if i < sub.len() {
        assert(sub[i] == s[k + i]);
        if s[k + i] != c {
            lemma_find_char_sub(s, c, k, i + 1);
        }
    }
}

/// Runtime search matching `find_char`.
pub fn find_char_in(v: &Vec<char>, c: char, from: usize) -> (r: Option<usize>)
    ensures
        match r {
            Some(j) => find_char(v@, c, from as int) == Some(j as int),
            None => find_char(v@, c, from as int) is None,
        },
{
    let mut j = from;
    while j < v.len()
        invariant
            from <= j,
            find_char(v@, c, from as int) == find_char(v@, c, j as int),
        decreases v@.len() - j,
    {
        if v[j] == c {
            return Some(j);
        }
        j = j + 1;
    }
    None
}

/// The character `c` repeated `n` times.
pub open spec fn rep_char(c: char, n: nat) -> Seq<char>
    decreases n,
{
    if n == 0 {
        Seq::empty()
    } else {
        rep_char(c, (n - 1) as nat).push(c)
    }
}

/// A string of `n` copies of the character `c`.
pub fn repeat_char(c: char, n: usize) -> (s: String)
    ensures
        s@ == rep_char(c, n as nat),
{
    let mut s = String::new();
    let mut i: usize = 0;
    while i < n
        invariant
            i <= n,
            s@ == rep_char(c, i as nat),
        decreases n - i,
    {
        push_char(&mut s, c);
        i = i + 1;
    }
    s
}

/// A string of `n` two-space groups.
pub fn two_space_indent(n: usize) -> (s: String)
    ensures
        s@ == rep_char(' ', 2 * n as nat),
{
    let mut s = String::new();
    let mut i: usize = 0;
    while i < n
        invariant
            i <= n,
            s@ == rep_char(' ', 2 * i as nat),
        decreases n - i,
    {
        push_char(&mut s, ' ');
        push_char(&mut s, ' ');
        proof {
            assert(rep_char(' ', (2 * i + 2) as nat) == rep_char(' ', (2 * i + 1) as nat).push(' '));
            assert(rep_char(' ', (2 * i + 1) as nat) == rep_char(' ', (2 * i) as nat).push(' '));
        }
        i = i + 1;
    }
    s
}

/// The first index at or after `i` holding a non-whitespace character,
/// or the length of `s` when only whitespace follows.
pub open spec fn first_non_ws(s: Seq<char>, i: int) -> int
    decreases s.len() - i when 0 <= i
{
    if i >= s.len() {
        s.len() as int
    } else if is_ws(s[i]) {
        first_non_ws(s, i + 1)
    } else {
        i
    }
}

pub proof fn lemma_first_non_ws(s: Seq<char>, i: int)
    requires
        0 <= i <= s.len(),
    ensures
        i <= first_non_ws(s, i) <= s.len(),
        first_non_ws(s, i) < s.len() ==> !is_ws(s[first_non_ws(s, i)]),
    decreases s.len() - i,
{
    if i < s.len() && is_ws(s[i]) {
        lemma_first_non_ws(s, i + 1);
    }
}

/// One past the last non-whitespace character of `s`, or zero when `s`
/// is all whitespace.
pub open spec fn last_non_ws_end(s: Seq<char>) -> int
    decreases s.len(),
{
    if s.len() == 0 {
        0
    } else if is_ws(s.last()) {
        last_non_ws_end(s.drop_last())
    } else {
        s.len() as int
    }
}

pub proof fn lemma_last_non_ws_end(s: Seq<char>)
    ensures
        0 <= last_non_ws_end(s) <= s.len(),
    decreases s.len(),
{
    if s.len() > 0 && is_ws(s.last()) {
        lemma_last_non_ws_end(s.drop_last());
        assert(s.drop_last().len() == s.len() - 1);
    }
}

/// The string with leading and trailing whitespace removed.
pub open spec fn trim_spec(s: Seq<char>) -> Seq<char> {
    let a = first_non_ws(s, 0);
    let b = last_non_ws_end(s);
    if a < b {
        s.subrange(a, b)
    } else {
        Seq::empty()
    }
}

/// Runtime trim matching `trim_spec`.
pub fn trim_string(s: &String) -> (r: String)
    ensures
        r@ == trim_spec(s@),
{
    let v = to_chars(s.as_str());
    let n = v.len();
    let mut a: usize = 0;
    while a < n && is_ws_char(v[a])
        invariant
            a <= n,
            n == v@.len(),
            v@ == s@,
            first_non_ws(v@, 0) == first_non_ws(v@, a as int),
        decreases n - a,
    {
        a = a + 1;
    }
    proof {
        assert(first_non_ws(v@, a as int) == a as int);
    }
    proof {
        assert(v@.subrange(0, v@.len() as int) =~= v@);
    }
    let mut b: usize = n;
    while b > a && is_ws_char(v[b - 1])
        invariant
            a <= b <= n,
            n == v@.len(),
            v@ == s@,
            first_non_ws(v@, 0) == a as int,
            last_non_ws_end(v@) == last_non_ws_end(v@.subrange(0, b as int)),
        decreases b,
    {
        proof {
            assert(v@.subrange(0, b as int).last() == v@[b - 1]);
            assert(v@.subrange(0, b as int).drop_last() =~= v@.subrange(0, b - 1 as int));
        }
        b = b - 1;
    }
    proof {
        let pre = v@.subrange(0, b as int);
        if b > a {
            assert(pre.last() == v@[b - 1]);
            assert(!is_ws(pre.last()));
            assert(last_non_ws_end(pre) == b as int);
        } else {
            lemma_first_non_ws(v@, 0);
            lemma_last_non_ws_end(pre);
            if b as int == a as int && a < n {
                assert(last_non_ws_end(pre) <= a as int);
            }
        }
    }
    if a < b {
        chars_to_string(&v, a, b)
    } else {
        proof {
            lemma_last_non_ws_end(v@.subrange(0, b as int));
        }
        String::new()
    }
}

/// The character for one decimal digit.
pub open spec fn digit_char(d: nat) -> char {
    if d == 0 { '0' }
    else if d == 1 { '1' }
    else if d == 2 { '2' }
    else if d == 3 { '3' }
    else if d == 4 { '4' }
    else if d == 5 { '5' }
    else if d == 6 { '6' }
    else if d == 7 { '7' }
    else if d == 8 { '8' }
    else { '9' }
}

fn digit_char_exec(d: u64) -> (c: char)
    requires
        d < 10,
    ensures
        c == digit_char(d as nat),
{
    if d == 0 { '0' }
    else if d == 1 { '1' }
    else if d == 2 { '2' }
    else if d == 3 { '3' }
    else if d == 4 { '4' }
    else if d == 5 { '5' }
    else if d == 6 { '6' }
    else if d == 7 { '7' }
    else if d == 8 { '8' }
    else { '9' }
}

/// The decimal digit string of `n`, most significant digit first, with
/// no leading zero except for `n == 0` itself.
pub open spec fn dec_str(n: nat) -> Seq<char>
    decreases n,
{
    if n < 10 {
        seq![digit_char(n)]
    } else {
        dec_str(n / 10).push(digit_char(n % 10))
    }
}

/// Runtime decimal formatting matching `dec_str`.
pub fn u64_to_string(n: u64) -> (s: String)
    ensures
        s@ == dec_str(n as nat),
    decreases n,
{
    if n < 10 {
        let mut s = String::new();
        push_char(&mut s, digit_char_exec(n));
        proof {
            assert(s@ =~= seq![digit_char(n as nat)]);
        }
        s
    } else {
        let mut s = u64_to_string(n / 10);
        push_char(&mut s, digit_char_exec(n % 10));
        s
    }
}

} // verus!
