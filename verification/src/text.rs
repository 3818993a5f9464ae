//! Character-level helpers shared by the parsers and formatters.
//!
//! Strings are reasoned about through their view, a sequence of characters.
//! The functions here move between `str`, `String` and `Vec<char>` and
//! implement splitting, substitution and decimal rendering against
//! sequence-level definitions.

use vstd::prelude::*;
use vstd::string::*;

verus! {

/// `String::push` appends one character to the end of the string.
pub assume_specification[ String::push ](s: &mut String, ch: char)
    ensures
        final(s)@ == old(s)@.push(ch),
;

/// What `str::to_uppercase` yields for a string with the given characters.
pub uninterp spec fn uppercase(s: Seq<char>) -> Seq<char>;

/// What `str::to_lowercase` yields for a string with the given characters.
pub uninterp spec fn lowercase(s: Seq<char>) -> Seq<char>;

/// `str::to_uppercase`: the Unicode upper-case mapping of `s`, which depends
/// on the characters of `s` alone.
#[verifier::external_body]
pub(crate) fn to_upper(s: &str) -> (r: String)
    ensures
        r@ == uppercase(s@),
{
    s.to_uppercase()
}

/// `str::to_lowercase`: the Unicode lower-case mapping of `s`, which depends
/// on the characters of `s` alone.
#[verifier::external_body]
pub(crate) fn to_lower(s: &str) -> (r: String)
    ensures
        r@ == lowercase(s@),
{
    s.to_lowercase()
}

/// `i` is the least index at which `c` occurs in `s`.
pub open spec fn first_at(s: Seq<char>, c: char, i: int) -> bool {
    &&& 0 <= i < s.len()
    &&& s[i] == c
    &&& forall|j: int| 0 <= j < i ==> s[j] != c
}

/// The least index at which `c` occurs in `s`; meaningful when `s` contains `c`.
pub open spec fn position(s: Seq<char>, c: char) -> int {
    choose|i: int| first_at(s, c, i)
}

/// `i` is the greatest index at which `c` occurs in `s`.
pub open spec fn last_at(s: Seq<char>, c: char, i: int) -> bool {
    &&& 0 <= i < s.len()
    &&& s[i] == c
    &&& forall|j: int| i < j < s.len() ==> s[j] != c
}

/// The greatest index at which `c` occurs in `s`; meaningful when `s`
/// contains `c`.
pub open spec fn last_position(s: Seq<char>, c: char) -> int {
    choose|i: int| last_at(s, c, i)
}

/// The pieces of `s` between occurrences of `c`, in order. A string without
/// `c` is a single piece; `n` occurrences give `n + 1` pieces, some possibly
/// empty. (The second condition always holds with the first; it shows that
/// the rest is shorter than `s`.)
pub open spec fn split(s: Seq<char>, c: char) -> Seq<Seq<char>>
    decreases s.len(),
{
    if s.contains(c) && first_at(s, c, position(s, c)) {
        seq![s.subrange(0, position(s, c))] + split(
            s.subrange(position(s, c) + 1, s.len() as int),
            c,
        )
    } else {
        seq![s]
    }
}

/// `t` with every `*` replaced by `d`.
pub open spec fn substitute(t: Seq<char>, d: Seq<char>) -> Seq<char>
    decreases t.len(),
{
    if t.len() == 0 {
        Seq::<char>::empty()
    } else if t.last() == '*' {
        substitute(t.drop_last(), d) + d
    } else {
        substitute(t.drop_last(), d).push(t.last())
    }
}

/// The character for a decimal digit.
pub open spec fn digit(d: nat) -> char {
    if d == 0 {
        '0'
    } else if d == 1 {
        '1'
    } else if d == 2 {
        '2'
    } else if d == 3 {
        '3'
    } else if d == 4 {
        '4'
    } else if d == 5 {
        '5'
    } else if d == 6 {
        '6'
    } else if d == 7 {
        '7'
    } else if d == 8 {
        '8'
    } else {
        '9'
    }
}

/// The decimal numeral of `n`, without sign or leading zeros.
pub open spec fn decimal(n: nat) -> Seq<char>
    decreases n,
{
    if n < 10 {
        seq![digit(n)]
    } else {
        decimal(n / 10).push(digit(n % 10))
    }
}

/// The views of the elements of `parts`, in order.
pub open spec fn views(parts: Seq<Vec<char>>) -> Seq<Seq<char>> {
    Seq::new(parts.len(), |k: int| parts[k]@)
}

/// The least index with `c` is unique, so `position` names it.
pub proof fn lemma_position(s: Seq<char>, c: char, i: int)
    requires
        first_at(s, c, i),
    ensures
        s.contains(c),
        position(s, c) == i,
        first_at(s, c, position(s, c)),
{
    let p = position(s, c);
    assert(first_at(s, c, p));
    if p < i {
        assert(s[p] != c);
    }
    if i < p {
        assert(s[i] != c);
    }
}

/// The greatest index with `c` is unique, so `last_position` names it.
pub proof fn lemma_last_position(s: Seq<char>, c: char, i: int)
    requires
        last_at(s, c, i),
    ensures
        s.contains(c),
        last_position(s, c) == i,
{
    let p = last_position(s, c);
    assert(last_at(s, c, p));
    if p < i {
        assert(s[i] != c);
    }
    if i < p {
        assert(s[p] != c);
    }
}

/// A string that contains `c` has a least index with `c`.
pub proof fn lemma_contains_position(s: Seq<char>, c: char)
    requires
        s.contains(c),
    ensures
        first_at(s, c, position(s, c)),
    decreases s.len(),
{
    let k = choose|k: int| 0 <= k < s.len() && s[k] == c;
    if exists|j: int| 0 <= j < k && s[j] == c {
        let t = s.subrange(0, k);
        let j = choose|j: int| 0 <= j < k && s[j] == c;
        assert(t[j] == c);
        lemma_contains_position(t, c);
        let p = position(t, c);
        assert(first_at(s, c, p)) by {
            assert(t[p] == s[p]);
            assert forall|m: int| 0 <= m < p implies s[m] != c by {
                assert(t[m] == s[m]);
            }
        }
        lemma_position(s, c, p);
    } else {
        assert(first_at(s, c, k));
        lemma_position(s, c, k);
    }
}

/// Splitting always gives at least one piece; without the separator it
/// gives the string itself.
pub proof fn lemma_split_shape(s: Seq<char>, c: char)
    ensures
        split(s, c).len() >= 1,
        !s.contains(c) ==> split(s, c) == seq![s],
        s.contains(c) ==> split(s, c).len() >= 2 && split(s, c)[0] == s.subrange(
            0,
            position(s, c),
        ),
    decreases s.len(),
{
    if s.contains(c) {
        lemma_contains_position(s, c);
        lemma_split_shape(s.subrange(position(s, c) + 1, s.len() as int), c);
    }
}

/// The characters of `s`, in order.
pub fn chars_of(s: &str) -> (v: Vec<char>)
    ensures
        v@ == s@,
{
    let mut v: Vec<char> = Vec::new();
    for c in it: s.chars()
        invariant
            it.seq() == s@,
            it.index() <= it.seq().len(),
            v@ =~= it.seq().subrange(0, it.index() as int),
    {
        v.push(c);
    }
    assert(v@ =~= s@);
    v
}

/// The characters `v[from..to]`.
pub fn take(v: &Vec<char>, from: usize, to: usize) -> (r: Vec<char>)
    requires
        from <= to <= v@.len(),
    ensures
        r@ == v@.subrange(from as int, to as int),
{
    let mut r: Vec<char> = Vec::new();
    let mut i: usize = from;
    while i < to
        invariant
            from <= i <= to <= v@.len(),
            r@ =~= v@.subrange(from as int, i as int),
        decreases to - i,
    {
        r.push(v[i]);
        i += 1;
    }
    r
}

/// A string made of the characters `v[from..to]`.
pub fn string_of(v: &Vec<char>, from: usize, to: usize) -> (s: String)
    requires
        from <= to <= v@.len(),
    ensures
        s@ == v@.subrange(from as int, to as int),
{
    let mut s = String::new();
    let mut i: usize = from;
    while i < to
        invariant
            from <= i <= to <= v@.len(),
            s@ =~= v@.subrange(from as int, i as int),
        decreases to - i,
    {
        s.push(v[i]);
        i += 1;
    }
    s
}

/// A string made of all the characters of `v`.
pub fn string_from(v: &Vec<char>) -> (s: String)
    ensures
        s@ == v@,
{
    let s = string_of(v, 0, v.len());
    assert(v@.subrange(0, v@.len() as int) =~= v@);
    s
}

/// Whether two character vectors hold the same characters.
pub fn same_chars(a: &Vec<char>, b: &Vec<char>) -> (r: bool)
    ensures
        r == (a@ == b@),
{
    if a.len() != b.len() {
        return false;
    }
    let mut i: usize = 0;
    while i < a.len()
        invariant
            i <= a@.len(),
            a@.len() == b@.len(),
            forall|j: int| 0 <= j < i ==> a@[j] == b@[j],
        decreases a@.len() - i,
    {
        if a[i] != b[i] {
            return false;
        }
        i += 1;
    }
    assert(a@ =~= b@);
    true
}

/// Whether two strings hold the same characters.
pub fn str_equal(a: &str, b: &str) -> (r: bool)
    ensures
        r == (a@ == b@),
{
    let x = chars_of(a);
    let y = chars_of(b);
    same_chars(&x, &y)
}

/// The index of the last `c` in `v`, if there is one.
pub fn find_last_char(v: &Vec<char>, c: char) -> (r: Option<usize>)
    ensures
        match r {
            Some(i) => last_at(v@, c, i as int) && last_position(v@, c) == i,
            None => !v@.contains(c),
        },
{
    let n: usize = v.len();
    let mut i: usize = n;
    while i > 0
        invariant
            i <= n,
            n == v@.len(),
            forall|j: int| i <= j < n ==> v@[j] != c,
        decreases i,
    {
        i -= 1;
        if v[i] == c {
            proof {
                lemma_last_position(v@, c, i as int);
            }
            return Some(i);
        }
    }
    None
}

/// Whether `p` is a prefix of `v`.
pub fn has_prefix(v: &Vec<char>, p: &Vec<char>) -> (r: bool)
    ensures
        r == p@.is_prefix_of(v@),
{
    if p.len() > v.len() {
        return false;
    }
    let mut i: usize = 0;
    while i < p.len()
        invariant
            i <= p@.len() <= v@.len(),
            forall|j: int| 0 <= j < i ==> p@[j] == v@[j],
        decreases p@.len() - i,
    {
        if p[i] != v[i] {
            assert(v@.subrange(0, p@.len() as int)[i as int] == v@[i as int]);
            return false;
        }
        i += 1;
    }
    assert(p@ =~= v@.subrange(0, p@.len() as int));
    true
}

/// Whether `p` is a suffix of `v`.
pub fn has_suffix(v: &Vec<char>, p: &Vec<char>) -> (r: bool)
    ensures
        r == p@.is_suffix_of(v@),
{
    if p.len() > v.len() {
        return false;
    }
    let off: usize = v.len() - p.len();
    let mut i: usize = 0;
    while i < p.len()
        invariant
            i <= p@.len() <= v@.len(),
            off + p@.len() == v@.len() <= usize::MAX,
            forall|j: int| 0 <= j < i ==> p@[j] == v@[off + j],
        decreases p@.len() - i,
    {
        if p[i] != v[off + i] {
            assert(v@.subrange(off as int, v@.len() as int)[i as int] == v@[off + i]);
            return false;
        }
        i += 1;
    }
    assert(p@ =~= v@.subrange(off as int, v@.len() as int));
    true
}

/// Splits `v` at every `c`.
pub fn split_on(v: &Vec<char>, c: char) -> (parts: Vec<Vec<char>>)
    ensures
        views(parts@) == split(v@, c),
{
    let mut parts: Vec<Vec<char>> = Vec::new();
    let mut cur: Vec<char> = Vec::new();
    let ghost mut start: int = 0;
    let mut i: usize = 0;
    proof {
        assert(v@.subrange(0, v@.len() as int) =~= v@);
        assert(views(parts@) + split(v@, c) =~= split(v@, c));
    }
    while i < v.len()
        invariant
            0 <= start <= i <= v@.len(),
            cur@ =~= v@.subrange(start, i as int),
            !cur@.contains(c),
            split(v@, c) =~= views(parts@) + split(v@.subrange(start, v@.len() as int), c),
        decreases v@.len() - i,
    {
        let ch = v[i];
        if ch == c {
            proof {
                let rest = v@.subrange(start, v@.len() as int);
                let k = i - start;
                assert(first_at(rest, c, k)) by {
                    assert forall|j: int| 0 <= j < k implies rest[j] != c by {
                        assert(cur@[j] == rest[j]);
                        assert(cur@.contains(rest[j]));
                    }
                }
                lemma_position(rest, c, k);
                assert(rest.subrange(0, k) =~= cur@);
                assert(rest.subrange(k + 1, rest.len() as int) =~= v@.subrange(
                    i + 1,
                    v@.len() as int,
                ));
                assert(views(parts@.push(cur)) =~= views(parts@) + seq![cur@]);
            }
            parts.push(cur);
            cur = Vec::new();
            proof {
                start = i + 1;
            }
        } else {
            proof {
                let old_cur = cur@;
                assert forall|x: char| old_cur.push(ch).contains(x) implies x != c by {
                    let j = choose|j: int| 0 <= j < old_cur.len() + 1 && old_cur.push(ch)[j] == x;
                    if j < old_cur.len() {
                        assert(old_cur[j] == x);
                        assert(old_cur.contains(x));
                    }
                }
            }
            cur.push(ch);
        }
        i += 1;
    }
    proof {
        let rest = v@.subrange(start, v@.len() as int);
        assert(rest =~= cur@);
        assert(views(parts@.push(cur)) =~= views(parts@) + seq![cur@]);
    }
    parts.push(cur);
    parts
}

/// The text `t` with every `*` replaced by `d`.
pub fn substitute_chars(t: &Vec<char>, d: &Vec<char>) -> (out: Vec<char>)
    ensures
        out@ == substitute(t@, d@),
{
    let mut out: Vec<char> = Vec::new();
    let mut i: usize = 0;
    while i < t.len()
        invariant
            i <= t@.len(),
            out@ == substitute(t@.subrange(0, i as int), d@),
        decreases t@.len() - i,
    {
        proof {
            let next = t@.subrange(0, i + 1);
            assert(next.drop_last() =~= t@.subrange(0, i as int));
            assert(next.last() == t@[i as int]);
        }
        if t[i] == '*' {
            let ghost before = out@;
            let mut k: usize = 0;
            while k < d.len()
                invariant
                    k <= d@.len(),
                    out@ =~= before + d@.subrange(0, k as int),
                decreases d@.len() - k,
            {
                out.push(d[k]);
                k += 1;
            }
            assert(d@.subrange(0, d@.len() as int) =~= d@);
        } else {
            out.push(t[i]);
        }
        i += 1;
    }
    assert(t@.subrange(0, t@.len() as int) =~= t@);
    out
}

/// The character of the decimal digit `d`.
pub fn digit_char(d: usize) -> (c: char)
    requires
        d < 10,
    ensures
        c == digit(d as nat),
{
    if d == 0 {
        '0'
    } else if d == 1 {
        '1'
    } else if d == 2 {
        '2'
    } else if d == 3 {
        '3'
    } else if d == 4 {
        '4'
    } else if d == 5 {
        '5'
    } else if d == 6 {
        '6'
    } else if d == 7 {
        '7'
    } else if d == 8 {
        '8'
    } else {
        '9'
    }
}

/// Appends the decimal numeral of `n` to `out`.
pub fn push_decimal(out: &mut String, n: usize)
    ensures
        final(out)@ == old(out)@ + decimal(n as nat),
    decreases n,
{
    if n >= 10 {
        push_decimal(out, n / 10);
    }
    out.push(digit_char(n % 10));
    assert(out@ =~= old(out)@ + decimal(n as nat));
}

} // verus!
