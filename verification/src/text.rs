//! Character-level helpers shared by the manifest and declaration grammars.
//!
//! Texts are modelled as `Seq<char>`. The executable helpers work on a
//! `Vec<char>` holding the characters of a whole text and on index ranges
//! `lo..hi` into it, so that no intermediate strings are allocated while
//! scanning.

use vstd::prelude::*;

verus! {

/// Whether `c` counts as white space when a line or a token is trimmed.
pub open spec fn is_space(c: char) -> bool {
    ||| c == ' '
    ||| ('\u{9}' <= c && c <= '\u{d}')
    ||| c == '\u{85}'
    ||| c == '\u{a0}'
    ||| c == '\u{1680}'
    ||| ('\u{2000}' <= c && c <= '\u{200a}')
    ||| c == '\u{2028}'
    ||| c == '\u{2029}'
    ||| c == '\u{202f}'
    ||| c == '\u{205f}'
    ||| c == '\u{3000}'
}

/// Tests one character for white space.
pub fn is_whitespace(c: char) -> (b: bool)
    ensures
        b == is_space(c),
{
    c == ' ' || ('\u{9}' <= c && c <= '\u{d}') || c == '\u{85}' || c == '\u{a0}' || c == '\u{1680}'
        || ('\u{2000}' <= c && c <= '\u{200a}') || c == '\u{2028}' || c == '\u{2029}' || c
        == '\u{202f}' || c == '\u{205f}' || c == '\u{3000}'
}

/// A class of characters that can be stripped from the ends of a text.
#[derive(Clone, Copy, Debug)]
pub enum CharClass {
    /// Any white space character.
    Space,
    /// One given character.
    Exactly(char),
}

impl CharClass {
    /// Whether `c` belongs to the class.
    pub open spec fn holds(self, c: char) -> bool {
        match self {
            CharClass::Space => is_space(c),
            CharClass::Exactly(x) => c == x,
        }
    }

    /// Tests one character for membership.
    pub fn test(&self, c: char) -> (b: bool)
        ensures
            b == self.holds(c),
    {
        match self {
            CharClass::Space => is_whitespace(c),
            CharClass::Exactly(x) => c == *x,
        }
    }
}

/// `s` without its longest prefix made of characters of `class`.
pub open spec fn strip_start(s: Seq<char>, class: CharClass) -> Seq<char>
    decreases s.len(),
{
    if s.len() > 0 && class.holds(s[0]) {
        strip_start(s.drop_first(), class)
    } else {
        s
    }
}

/// `s` without its longest suffix made of characters of `class`.
pub open spec fn strip_end(s: Seq<char>, class: CharClass) -> Seq<char>
    decreases s.len(),
{
    if s.len() > 0 && class.holds(s.last()) {
        strip_end(s.drop_last(), class)
    } else {
        s
    }
}

/// `s` without leading and trailing white space.
pub open spec fn trim(s: Seq<char>) -> Seq<char> {
    strip_end(strip_start(s, CharClass::Space), CharClass::Space)
}

/// The number of characters of `s` that come before the first `stop`, or
/// the length of `s` where `stop` does not occur.
pub open spec fn run_before(s: Seq<char>, stop: char) -> nat
    decreases s.len(),
{
    if s.len() == 0 || s[0] == stop {
        0
    } else {
        1 + run_before(s.drop_first(), stop)
    }
}

/// Whether `s` begins with `p`.
pub open spec fn starts_with(s: Seq<char>, p: Seq<char>) -> bool {
    p.len() <= s.len() && s.subrange(0, p.len() as int) == p
}

/// Whether `s` ends with `p`.
pub open spec fn ends_with(s: Seq<char>, p: Seq<char>) -> bool {
    p.len() <= s.len() && s.subrange(s.len() - p.len(), s.len() as int) == p
}

/// The index at which `p` first occurs in `s`, if it occurs at all.
pub open spec fn first_occurrence(s: Seq<char>, p: Seq<char>) -> Option<nat>
    decreases s.len(),
{
    if starts_with(s, p) {
        Some(0)
    } else if s.len() == 0 {
        None
    } else {
        match first_occurrence(s.drop_first(), p) {
            Some(i) => Some(i + 1),
            None => None,
        }
    }
}

/// The lines of a text: the pieces between line feeds. A line feed at the
/// very end of the text closes the last line and opens no further one.
pub open spec fn lines(s: Seq<char>) -> Seq<Seq<char>>
    decreases s.len(),
{
    if s.len() == 0 {
        Seq::empty()
    } else {
        let n = run_before(s, '\n');
        if n >= s.len() {
            seq![s]
        } else {
            seq![s.take(n as int)] + lines(s.skip(n as int + 1))
        }
    }
}

/// A run never extends past the end of the text, and stops at `stop`.
pub proof fn lemma_run_before_bounds(s: Seq<char>, stop: char)
    ensures
        run_before(s, stop) <= s.len(),
        run_before(s, stop) < s.len() ==> s[run_before(s, stop) as int] == stop,
        forall|i: int| 0 <= i < run_before(s, stop) ==> s[i] != stop,
    decreases s.len(),
{
    if s.len() == 0 || s[0] == stop {
    } else {
        let t = s.drop_first();
        lemma_run_before_bounds(t, stop);
        assert forall|i: int| 0 <= i < run_before(s, stop) implies s[i] != stop by {
            if i > 0 {
                assert(s[i] == t[i - 1]);
            }
        }
    }
}

/// The characters of `s`, in order.
pub fn to_chars(s: &str) -> (v: Vec<char>)
    ensures
        v@ == s@,
{
    let mut v: Vec<char> = Vec::new();
    for c in it: s.chars()
        invariant
            v@ == it.seq().take(it.index()),
    {
        v.push(c);
    }
    v
}

/// The characters `lo..hi` of `s` as a string of their own; `v` holds the
/// characters of `s`.
pub(crate) fn slice_to_string(s: &str, v: &Vec<char>, lo: usize, hi: usize) -> (r: String)
    requires
        v@ == s@,
        lo <= hi <= v.len(),
    ensures
        r@ == v@.subrange(lo as int, hi as int),
{
    String::from_str(s.substring_char(lo, hi))
}

/// Where the text `lo..hi` of `v` begins once leading characters of
/// `class` are dropped.
pub(crate) fn skip_start(v: &Vec<char>, lo: usize, hi: usize, class: CharClass) -> (r: usize)
    requires
        lo <= hi <= v.len(),
    ensures
        lo <= r <= hi,
        v@.subrange(r as int, hi as int) == strip_start(v@.subrange(lo as int, hi as int), class),
{
    let mut i = lo;
    while i < hi && class.test(v[i])
        invariant
            lo <= i <= hi <= v.len(),
            strip_start(v@.subrange(lo as int, hi as int), class) == strip_start(
                v@.subrange(i as int, hi as int),
                class,
            ),
        decreases hi - i,
    {
        proof {
            assert(v@.subrange(i as int, hi as int).drop_first() =~= v@.subrange(
                i + 1,
                hi as int,
            ));
        }
        i += 1;
    }
    i
}

/// Where the text `lo..hi` of `v` ends once trailing characters of `class`
/// are dropped.
pub(crate) fn skip_end(v: &Vec<char>, lo: usize, hi: usize, class: CharClass) -> (r: usize)
    requires
        lo <= hi <= v.len(),
    ensures
        lo <= r <= hi,
        v@.subrange(lo as int, r as int) == strip_end(v@.subrange(lo as int, hi as int), class),
{
    let mut i = hi;
    while lo < i && class.test(v[i - 1])
        invariant
            lo <= i <= hi <= v.len(),
            strip_end(v@.subrange(lo as int, hi as int), class) == strip_end(
                v@.subrange(lo as int, i as int),
                class,
            ),
        decreases i - lo,
    {
        proof {
            assert(v@.subrange(lo as int, i as int).drop_last() =~= v@.subrange(
                lo as int,
                i - 1,
            ));
        }
        i -= 1;
    }
    i
}

/// The bounds of the text `lo..hi` of `v` without its surrounding white
/// space.
pub(crate) fn trim_bounds(v: &Vec<char>, lo: usize, hi: usize) -> (r: (usize, usize))
    requires
        lo <= hi <= v.len(),
    ensures
        lo <= r.0 <= r.1 <= hi,
        v@.subrange(r.0 as int, r.1 as int) == trim(v@.subrange(lo as int, hi as int)),
{
    let a = skip_start(v, lo, hi, CharClass::Space);
    let b = skip_end(v, a, hi, CharClass::Space);
    (a, b)
}

/// The position of the first `stop` in the text `lo..hi` of `v`, or `hi`
/// where there is none.
pub(crate) fn find_char(v: &Vec<char>, lo: usize, hi: usize, stop: char) -> (r: usize)
    requires
        lo <= hi <= v.len(),
    ensures
        lo <= r <= hi,
        r - lo == run_before(v@.subrange(lo as int, hi as int), stop),
{
    let mut i = lo;
    while i < hi && v[i] != stop
        invariant
            lo <= i <= hi <= v.len(),
            run_before(v@.subrange(lo as int, hi as int), stop) == (i - lo) + run_before(
                v@.subrange(i as int, hi as int),
                stop,
            ),
        decreases hi - i,
    {
        proof {
            assert(v@.subrange(i as int, hi as int).drop_first() =~= v@.subrange(
                i + 1,
                hi as int,
            ));
        }
        i += 1;
    }
    i
}

/// Whether the pattern `p` stands at position `at` of the text `..hi` of
/// `v`.
pub(crate) fn matches_at(v: &Vec<char>, at: usize, hi: usize, p: &Vec<char>) -> (b: bool)
    requires
        at <= hi <= v.len(),
    ensures
        b == starts_with(v@.subrange(at as int, hi as int), p@),
{
    if p.len() > hi - at {
        return false;
    }
    let ghost s = v@.subrange(at as int, hi as int);
    let mut k: usize = 0;
    while k < p.len()
        invariant
            at <= hi <= v.len(),
            p.len() <= hi - at,
            k <= p.len(),
            s == v@.subrange(at as int, hi as int),
            forall|j: int| 0 <= j < k ==> s[j] == p@[j],
        decreases p.len() - k,
    {
        if v[at + k] != p[k] {
            proof {
                assert(s.subrange(0, p.len() as int)[k as int] == s[k as int]);
            }
            return false;
        }
        k += 1;
    }
    proof {
        assert(s.subrange(0, p.len() as int) =~= p@);
    }
    true
}

/// The position at which the pattern `p` first occurs in the text `lo..hi`
/// of `v`.
pub(crate) fn find_pattern(v: &Vec<char>, lo: usize, hi: usize, p: &Vec<char>) -> (r: Option<usize>)
    requires
        lo <= hi <= v.len(),
    ensures
        match r {
            Some(i) => lo <= i && i + p.len() <= hi && first_occurrence(
                v@.subrange(lo as int, hi as int),
                p@,
            ) == Some((i - lo) as nat),
            None => first_occurrence(v@.subrange(lo as int, hi as int), p@) is None,
        },
{
    let mut i = lo;
    loop
        invariant
            lo <= i <= hi <= v.len(),
            first_occurrence(v@.subrange(lo as int, hi as int), p@) == match first_occurrence(
                v@.subrange(i as int, hi as int),
                p@,
            ) {
                Some(k) => Some((k + (i - lo)) as nat),
                None => None,
            },
        decreases hi - i,
    {
        if matches_at(v, i, hi, p) {
            return Some(i);
        }
        if i == hi {
            return None;
        }
        proof {
            assert(v@.subrange(i as int, hi as int).drop_first() =~= v@.subrange(
                i + 1,
                hi as int,
            ));
        }
        i += 1;
    }
}

/// Where the line that begins at `pos` ends, and where the next one
/// begins.
pub(crate) fn line_bounds(v: &Vec<char>, pos: usize) -> (r: (usize, usize))
    requires
        pos < v.len(),
    ensures
        pos <= r.0 <= r.1 <= v.len(),
        pos < r.1,
        lines(v@.subrange(pos as int, v.len() as int)) == seq![
            v@.subrange(pos as int, r.0 as int),
        ] + lines(v@.subrange(r.1 as int, v.len() as int)),
{
    let n = v.len();
    let end = find_char(v, pos, n, '\n');
    let next = if end < n {
        end + 1
    } else {
        end
    };
    proof {
        let s = v@.subrange(pos as int, n as int);
        lemma_run_before_bounds(s, '\n');
        if end < n {
            assert(s.take(end - pos) =~= v@.subrange(pos as int, end as int));
            assert(s.skip(end - pos + 1) =~= v@.subrange(next as int, n as int));
        } else {
            assert(s =~= v@.subrange(pos as int, end as int));
            assert(lines(v@.subrange(n as int, n as int)) =~= Seq::<Seq<char>>::empty());
            assert(seq![s] + Seq::<Seq<char>>::empty() =~= seq![s]);
        }
    }
    (end, next)
}

} // verus!
