//! Dependency declarations in the text of a source module.
//!
//! A declaration is a line that, once trimmed, begins with `<` and ends
//! with `>`. What stands between the brackets is its token.

use crate::text::{
    line_bounds, lines, skip_end, skip_start, slice_to_string, strip_end, strip_start, to_chars,
    trim, trim_bounds, CharClass,
};
use vstd::prelude::*;

verus! {

/// One declaration found in a source module.
#[derive(Debug, PartialEq, Eq)]
pub struct DependencyDeclaration {
    /// What stands between the brackets, trimmed.
    pub raw_token: String,
    /// The line of the declaration; the first line of a file is line 1.
    pub line_number: usize,
}

/// The mathematical value of a [`DependencyDeclaration`].
pub struct DeclarationView {
    pub raw_token: Seq<char>,
    pub line_number: nat,
}

impl View for DependencyDeclaration {
    type V = DeclarationView;

    open spec fn view(&self) -> DeclarationView {
        DeclarationView { raw_token: self.raw_token@, line_number: self.line_number as nat }
    }
}

impl DeepView for DependencyDeclaration {
    type V = DeclarationView;

    open spec fn deep_view(&self) -> DeclarationView {
        self@
    }
}

/// Whether a line declares a dependency.
pub open spec fn is_declaration(line: Seq<char>) -> bool {
    let t = trim(line);
    t.len() > 0 && t.first() == '<' && t.last() == '>'
}

/// The token of a declaration line: the trimmed line without the opening
/// brackets at its start and the closing brackets at its end, trimmed
/// again.
pub open spec fn inner_token(line: Seq<char>) -> Seq<char> {
    trim(
        strip_end(
            strip_start(trim(line), CharClass::Exactly('<')),
            CharClass::Exactly('>'),
        ),
    )
}

/// The declarations among the lines `ls`, in the order of the lines. The
/// line `ls[i]` bears the number `i + 1`.
pub open spec fn declarations_in(ls: Seq<Seq<char>>) -> Seq<DeclarationView>
    decreases ls.len(),
{
    if ls.len() == 0 {
        Seq::empty()
    } else {
        let before = declarations_in(ls.drop_last());
        if is_declaration(ls.last()) {
            before.push(
                DeclarationView { raw_token: inner_token(ls.last()), line_number: ls.len() },
            )
        } else {
            before
        }
    }
}

/// The number of declaration lines among `ls`.
pub open spec fn count_declarations(ls: Seq<Seq<char>>) -> nat
    decreases ls.len(),
{
    if ls.len() == 0 {
        0
    } else {
        count_declarations(ls.drop_last()) + if is_declaration(ls.last()) {
            1nat
        } else {
            0nat
        }
    }
}

/// There is one declaration for each declaration line, and none besides:
/// each declaration bears the number of a declaration line and holds that
/// line's token, and the declarations stand in the order of their lines.
pub proof fn lemma_declarations_follow_lines(ls: Seq<Seq<char>>)
    ensures
        declarations_in(ls).len() == count_declarations(ls),
        forall|i: int|
            0 <= i < declarations_in(ls).len() ==> {
                let d = #[trigger] declarations_in(ls)[i];
                &&& 1 <= d.line_number <= ls.len()
                &&& is_declaration(ls[d.line_number - 1])
                &&& d.raw_token == inner_token(ls[d.line_number - 1])
            },
        forall|i: int, j: int|
            0 <= i < j < declarations_in(ls).len() ==> declarations_in(ls)[i].line_number
                < declarations_in(ls)[j].line_number,
        forall|l: int|
            0 <= l < ls.len() && is_declaration(#[trigger] ls[l]) ==> exists|i: int|
                0 <= i < declarations_in(ls).len() && #[trigger] declarations_in(
                    ls,
                )[i].line_number == l + 1,
    decreases ls.len(),
{
    if ls.len() > 0 {
        let front = ls.drop_last();
        let before = declarations_in(front);
        let ds = declarations_in(ls);
        lemma_declarations_follow_lines(front);
        assert forall|i: int| 0 <= i < ds.len() implies {
            let d = #[trigger] ds[i];
            &&& 1 <= d.line_number <= ls.len()
            &&& is_declaration(ls[d.line_number - 1])
            &&& d.raw_token == inner_token(ls[d.line_number - 1])
        } by {
            if i < before.len() {
                let d = before[i];
                assert(ds[i] == d);
                assert(front[d.line_number - 1] == ls[d.line_number - 1]);
            }
        }
        assert forall|i: int, j: int| 0 <= i < j < ds.len() implies ds[i].line_number
            < ds[j].line_number by {
            if j < before.len() {
                assert(ds[i] == before[i] && ds[j] == before[j]);
            } else {
                assert(ds[i] == before[i]);
            }
        }
        assert forall|l: int| 0 <= l < ls.len() && is_declaration(#[trigger] ls[l]) implies exists|
            i: int,
        |
            0 <= i < ds.len() && #[trigger] ds[i].line_number == l + 1 by {
            if l < front.len() {
                assert(front[l] == ls[l]);
                let i = choose|i: int|
                    0 <= i < before.len() && #[trigger] before[i].line_number == l + 1;
                assert(ds[i] == before[i]);
            } else {
                assert(ds[ds.len() - 1].line_number == l + 1);
            }
        }
    }
}

/// Reads the line `lo..hi` of `v`, the characters of `s`: its token, if
/// the line is a declaration.
fn read_declaration(s: &str, v: &Vec<char>, lo: usize, hi: usize) -> (r: Option<String>)
    requires
        v@ == s@,
        lo <= hi <= v.len(),
    ensures
        match r {
            Some(token) => is_declaration(v@.subrange(lo as int, hi as int)) && token@
                == inner_token(v@.subrange(lo as int, hi as int)),
            None => !is_declaration(v@.subrange(lo as int, hi as int)),
        },
{
    let (a, b) = trim_bounds(v, lo, hi);
    if a < b && v[a] == '<' && v[b - 1] == '>' {
        let c = skip_start(v, a, b, CharClass::Exactly('<'));
        let d = skip_end(v, c, b, CharClass::Exactly('>'));
        let (e, f) = trim_bounds(v, c, d);
        Some(slice_to_string(s, v, e, f))
    } else {
        None
    }
}

/// The declarations of a source text, in the order of their lines.
pub fn scan_declarations(code: &str) -> (ds: Vec<DependencyDeclaration>)
    ensures
        ds.deep_view() == declarations_in(lines(code@)),
{
    let v = to_chars(code);
    let n = v.len();
    let ghost all = lines(v@);
    let mut ds: Vec<DependencyDeclaration> = Vec::new();
    let mut pos: usize = 0;
    let mut line_number: usize = 0;
    proof {
        assert(v@.subrange(0, n as int) =~= v@);
        assert(all.take(0) + all =~= all);
        assert(ds.deep_view() =~= declarations_in(all.take(0)));
    }
    while pos < n
        invariant
            n == v.len(),
            v@ == code@,
            pos <= n,
            line_number <= pos,
            all == lines(v@),
            line_number <= all.len(),
            all == all.take(line_number as int) + lines(v@.subrange(pos as int, n as int)),
            ds.deep_view() == declarations_in(all.take(line_number as int)),
        decreases n - pos,
    {
        let (end, next) = line_bounds(&v, pos);
        let ghost before = ds.deep_view();
        proof {
            let rest = lines(v@.subrange(next as int, n as int));
            assert(all =~= all.take(line_number + 1) + rest);
            assert(all.take(line_number + 1).drop_last() =~= all.take(line_number as int));
            assert(all.take(line_number + 1).last() == v@.subrange(pos as int, end as int));
        }
        line_number += 1;
        match read_declaration(code, &v, pos, end) {
            Some(raw_token) => {
                let d = DependencyDeclaration { raw_token, line_number };
                ds.push(d);
                proof {
                    assert(ds.deep_view() =~= before.push(d@));
                }
            },
            None => {},
        }
        pos = next;
    }
    proof {
        assert(lines(v@.subrange(n as int, n as int)) =~= Seq::<Seq<char>>::empty());
        assert(all.take(line_number as int) =~= all);
    }
    ds
}

} // verus!
