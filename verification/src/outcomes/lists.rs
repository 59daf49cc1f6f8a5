//! Lists that are narrowed, and texts that are taken apart.

use vstd::prelude::*;

use crate::split::{lemma_first_line, lines, parts};
use crate::text::{index_of, lemma_index_of, lemma_index_of_is};

verus! {

/// Narrowing a list keeps what passes and drops the rest.
pub proof fn narrowing_keeps_what_passes<A>(s: Seq<A>, f: spec_fn(A) -> bool, x: A)
    ensures
        s.filter(f).contains(x) <==> s.contains(x) && f(x),
    decreases s.len(),
{
    reveal(Seq::filter);
    if s.len() > 0 {
        let t = s.drop_last();
        let r = t.filter(f);
        narrowing_keeps_what_passes(t, f, x);
        assert(s =~= t.push(s.last()));
        lemma_push_contains(t, s.last(), x);
        lemma_push_contains(r, s.last(), x);
    }
}

proof fn lemma_push_contains<A>(s: Seq<A>, y: A, x: A)
    ensures
        s.push(y).contains(x) <==> s.contains(x) || y == x,
{
    if s.contains(x) {
        let k = s.index_of(x);
        assert(s.push(y)[k] == x);
    }
    assert(s.push(y)[s.len() as int] == y);
    if s.push(y).contains(x) {
        let k = s.push(y).index_of(x);
        if k < s.len() {
            assert(s[k] == x);
        }
    }
}

/// The parts of a text that a character joins are what was joined.
pub proof fn parts_are_what_was_joined(a: Seq<char>, c: char, b: Seq<char>)
    requires
        !a.contains(c),
    ensures
        parts(a + seq![c] + b, c) == seq![a] + parts(b, c),
        parts(a, c) == seq![a],
{
    let s = a + seq![c] + b;
    assert forall|j: int| 0 <= j < a.len() implies s[j] != c by {
        assert(a.contains(a[j]));
    }
    lemma_index_of_is(s, c, a.len() as int);
    assert(s.take(a.len() as int) =~= a);
    assert(s.skip(a.len() as int + 1) =~= b);
    lemma_index_of(a, c);
    if index_of(a, c) < a.len() {
        assert(a.contains(a[index_of(a, c)]));
    }
}

/// Narrowing a list in which everything passes changes nothing.
pub proof fn all_that_passes_is_kept<A>(s: Seq<A>, f: spec_fn(A) -> bool)
    requires
        forall|i: int| 0 <= i < s.len() ==> f(#[trigger] s[i]),
    ensures
        s.filter(f) == s,
    decreases s.len(),
{
    reveal(Seq::filter);
    if s.len() > 0 {
        let t = s.drop_last();
        assert forall|i: int| 0 <= i < t.len() implies f(#[trigger] t[i]) by {
            assert(t[i] == s[i]);
        }
        all_that_passes_is_kept(t, f);
        assert(f(s[s.len() - 1]));
        assert(t.push(s.last()) =~= s);
    } else {
        assert(s.filter(f) =~= s);
    }
}

/// A line ends at a line feed, or at a carriage return and a line feed; neither is part of it.
pub proof fn lines_end_at_line_ends(line: Seq<char>, rest: Seq<char>)
    requires
        !line.contains('\n'),
        line.len() > 0 ==> line.last() != '\r',
    ensures
        lines(line + seq!['\n'] + rest) == seq![line] + lines(rest),
        lines(line + seq!['\r', '\n'] + rest) == seq![line] + lines(rest),
        line.len() > 0 ==> lines(line) == seq![line],
{
    lemma_first_line(line, rest);
    let s = line + seq!['\r', '\n'] + rest;
    let k = line.len() as int + 1;
    assert forall|j: int| 0 <= j < k implies s[j] != '\n' by {
        if j < line.len() {
            assert(s[j] == line[j]);
            assert(line.contains(line[j]));
        }
    }
    assert(s[k] == '\n');
    lemma_index_of_is(s, '\n', k);
    assert(s.take(k).last() == '\r');
    assert(s.take(k).drop_last() =~= line);
    assert(s.skip(k + 1) =~= rest);
    lemma_index_of(line, '\n');
    if index_of(line, '\n') < line.len() {
        assert(line.contains(line[index_of(line, '\n')]));
    }
}

} // verus!
