//! The update check: reading the newest published version out of the answer
//! of a package search, and the arguments for the restart after an update.
//!
//! The answer is a text with one package to a line, each line made of the
//! package's name, an equals sign and the version in quotation marks. Asking
//! the package manager is the caller's part.

use crate::text::{
    chars_of, has_prefix, lemma_split_shape, split, split_on, string_of, take, views,
};
use vstd::prelude::*;
use vstd::string::*;

verus! {

/// Whether the character is whitespace: one of the code points with the
/// Unicode property `White_Space`. These are the controls from tab to
/// carriage return, the space, next line, the no-break space, the ogham
/// space mark, the spaces from en quad to hair space, the line and paragraph
/// separators, the narrow no-break space, the medium mathematical space and
/// the ideographic space.
pub open spec fn whitespace(c: char) -> bool {
    let n = c as u32;
    ||| 0x09 <= n <= 0x0D
    ||| n == 0x20
    ||| n == 0x85
    ||| n == 0xA0
    ||| n == 0x1680
    ||| 0x2000 <= n <= 0x200A
    ||| n == 0x2028
    ||| n == 0x2029
    ||| n == 0x202F
    ||| n == 0x205F
    ||| n == 0x3000
}

/// Whether the character is whitespace.
pub fn is_space(c: char) -> (b: bool)
    ensures
        b == whitespace(c),
{
    let n: u32 = c as u32;
    (0x09 <= n && n <= 0x0D) || n == 0x20 || n == 0x85 || n == 0xA0 || n == 0x1680 || (0x2000 <= n
        && n <= 0x200A) || n == 0x2028 || n == 0x2029 || n == 0x202F || n == 0x205F || n == 0x3000
}

/// A line without the carriage return that stood before its line feed.
pub open spec fn strip_cr(s: Seq<char>) -> Seq<char> {
    if s.len() > 0 && s.last() == '\r' {
        s.drop_last()
    } else {
        s
    }
}

/// The number of lines of a text that splits into `pieces` at its line
/// feeds: what follows the last line feed is a line only if it is not empty.
pub open spec fn line_count(pieces: Seq<Seq<char>>) -> int {
    if pieces.last().len() == 0 {
        pieces.len() - 1
    } else {
        pieces.len() as int
    }
}

/// The lines of a text: the pieces between its line feeds, each without a
/// carriage return before the line feed.
pub open spec fn lines(s: Seq<char>) -> Seq<Seq<char>> {
    let pieces = split(s, '\n');
    Seq::new(
        line_count(pieces) as nat,
        |k: int|
            if k < pieces.len() - 1 {
                strip_cr(pieces[k])
            } else {
                pieces[k]
            },
    )
}

/// A word begins at `i`: a character that is no whitespace, at the start
/// or behind whitespace.
pub open spec fn word_start(s: Seq<char>, i: int) -> bool {
    0 <= i < s.len() && !whitespace(s[i]) && (i == 0 || whitespace(s[i - 1]))
}

/// The number of words that begin before `i`.
pub open spec fn starts_before(s: Seq<char>, i: int) -> nat
    decreases i,
{
    if i <= 0 {
        0
    } else {
        starts_before(s, i - 1) + if word_start(s, i - 1) {
            1nat
        } else {
            0nat
        }
    }
}

/// The number of words of a line.
pub open spec fn word_count(s: Seq<char>) -> nat {
    starts_before(s, s.len() as int)
}

/// `s[a..b]` is the word of `s` before which `k` words begin: a longest
/// stretch without whitespace.
pub open spec fn word_at(s: Seq<char>, k: nat, a: int, b: int) -> bool {
    &&& word_start(s, a)
    &&& starts_before(s, a) == k
    &&& a < b <= s.len()
    &&& forall|j: int| a <= j < b ==> !whitespace(#[trigger] s[j])
    &&& (b == s.len() || whitespace(s[b]))
}

/// `s[a..b]` is `s` without the quotation marks at its two ends.
pub open spec fn unquoted_at(s: Seq<char>, a: int, b: int) -> bool {
    &&& 0 <= a <= b <= s.len()
    &&& forall|j: int| 0 <= j < a ==> #[trigger] s[j] == '"'
    &&& forall|j: int| b <= j < s.len() ==> #[trigger] s[j] == '"'
    &&& (a == b || (s[a] != '"' && s[b - 1] != '"'))
}

/// `v` is the version that the line names: its third word, without the
/// quotation marks at the word's ends.
pub open spec fn names_version(line: Seq<char>, v: Seq<char>) -> bool {
    exists|a: int, b: int, c: int, d: int|
        #![trigger word_at(line, 2, a, b), unquoted_at(line.subrange(a, b), c, d)]
        word_at(line, 2, a, b) && unquoted_at(line.subrange(a, b), c, d) && v == line.subrange(
            a,
            b,
        ).subrange(c, d)
}

/// `i` is the first line that begins with `name`.
pub open spec fn first_entry(ls: Seq<Seq<char>>, name: Seq<char>, i: int) -> bool {
    &&& 0 <= i < ls.len()
    &&& name.is_prefix_of(ls[i])
    &&& forall|j: int| 0 <= j < i ==> !name.is_prefix_of(#[trigger] ls[j])
}

/// Where the third word of the line stands, if the line has three words.
pub fn third_word(line: &Vec<char>) -> (r: Option<(usize, usize)>)
    ensures
        match r {
            Some((a, b)) => word_at(line@, 2, a as int, b as int),
            None => word_count(line@) < 3,
        },
{
    let n: usize = line.len();
    let mut count: usize = 0;
    let mut after_space: bool = true;
    let mut i: usize = 0;
    while i < n
        invariant
            i <= n,
            n == line@.len(),
            count == starts_before(line@, i as int),
            count <= 2,
            after_space == (i == 0 || whitespace(line@[i - 1])),
        decreases n - i,
    {
        let space = is_space(line[i]);
        if !space && after_space {
            if count == 2 {
                let mut b: usize = i + 1;
                while b < n && !is_space(line[b])
                    invariant
                        i < b <= n,
                        n == line@.len(),
                        forall|j: int| i <= j < b ==> !whitespace(#[trigger] line@[j]),
                    decreases n - b,
                {
                    b += 1;
                }
                return Some((i, b));
            }
            count += 1;
        }
        after_space = space;
        i += 1;
    }
    None
}

/// Where the word stands without the quotation marks at its ends.
pub fn unquote(word: &Vec<char>) -> (r: (usize, usize))
    ensures
        unquoted_at(word@, r.0 as int, r.1 as int),
{
    let n: usize = word.len();
    let mut a: usize = 0;
    while a < n && word[a] == '"'
        invariant
            a <= n,
            n == word@.len(),
            forall|j: int| 0 <= j < a ==> #[trigger] word@[j] == '"',
        decreases n - a,
    {
        a += 1;
    }
    let mut b: usize = n;
    while b > a && word[b - 1] == '"'
        invariant
            a <= b <= n,
            n == word@.len(),
            forall|j: int| b <= j < n ==> #[trigger] word@[j] == '"',
        decreases b,
    {
        b -= 1;
    }
    (a, b)
}

/// The newest version of the package `name` according to the search answer
/// `listing`: the version named by the first line that begins with `name`.
/// Without such a line the version is empty. `None` means that the line has
/// fewer than three words.
pub fn latest_version(listing: &str, name: &str) -> (r: Option<String>)
    ensures
        (forall|i: int|
            0 <= i < lines(listing@).len() ==> !name@.is_prefix_of(#[trigger] lines(listing@)[i]))
            ==> (r matches Some(v) && v@.len() == 0),
        forall|i: int| #[trigger]
            first_entry(lines(listing@), name@, i) ==> match r {
                Some(v) => names_version(lines(listing@)[i], v@),
                None => word_count(lines(listing@)[i]) < 3,
            },
{
    let text = chars_of(listing);
    let wanted = chars_of(name);
    let pieces = split_on(&text, '\n');
    let n: usize = pieces.len();
    assert(views(pieces@).len() == n);
    proof {
        lemma_split_shape(text@, '\n');
    }
    let ghost ls = lines(listing@);
    assert(views(pieces@).last() == pieces@[n - 1]@);
    let total: usize = if pieces[n - 1].len() == 0 {
        n - 1
    } else {
        n
    };
    let mut k: usize = 0;
    while k < total
        invariant
            k <= total <= n,
            n == pieces@.len(),
            total == ls.len(),
            views(pieces@) == split(listing@, '\n'),
            wanted@ == name@,
            ls == lines(listing@),
            forall|j: int| 0 <= j < k ==> !name@.is_prefix_of(#[trigger] ls[j]),
        decreases total - k,
    {
        assert(views(pieces@)[k as int] == pieces@[k as int]@);
        let held = &pieces[k];
        let m: usize = held.len();
        let line = if k + 1 < n && m > 0 && held[m - 1] == '\r' {
            assert(held@.drop_last() =~= held@.subrange(0, m - 1));
            take(held, 0, m - 1)
        } else {
            assert(held@.subrange(0, m as int) =~= held@);
            take(held, 0, m)
        };
        assert(line@ == ls[k as int]);
        if has_prefix(&line, &wanted) {
            assert(first_entry(ls, name@, k as int));
            assert forall|i: int| first_entry(ls, name@, i) implies i == k by {
                if i < k {
                    assert(!name@.is_prefix_of(ls[i]));
                }
                if k < i {
                    assert(!name@.is_prefix_of(ls[k as int]));
                }
            }
            return match third_word(&line) {
                None => None,
                Some((a, b)) => {
                    let word = take(&line, a, b);
                    let (c, d) = unquote(&word);
                    let v = string_of(&word, c, d);
                    assert(word_at(line@, 2, a as int, b as int) && unquoted_at(
                        line@.subrange(a as int, b as int),
                        c as int,
                        d as int,
                    ));
                    Some(v)
                },
            };
        }
        k += 1;
    }
    assert forall|i: int| first_entry(ls, name@, i) implies false by {
        assert(!name@.is_prefix_of(ls[i]));
    }
    Some(String::new())
}

/// The arguments with which the updated program is started again: those
/// of this run, with `--no-update` in place of the last one.
pub fn restart_args(args: Vec<String>) -> (r: Vec<String>)
    ensures
        r@.len() == if args@.len() > 0 {
            args@.len()
        } else {
            1
        },
        r@.last()@ == "--no-update"@,
        forall|i: int| 0 <= i < r@.len() - 1 ==> r@[i] == args@[i],
{
    let mut args = args;
    args.pop();
    args.push("--no-update".to_owned());
    args
}

} // verus!
