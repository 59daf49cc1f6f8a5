//! Texts taken apart: into lines, at a separator, around a needle.

use vstd::prelude::*;

use crate::text::{chars_of, find_char, index_of, is_at, lemma_index_of, lemma_index_of_is, sub_at, text_of};

verus! {

/// The views of a list of texts.
pub open spec fn views(v: Seq<String>) -> Seq<Seq<char>> {
    v.map_values(|s: String| s@)
}

/// A line without the carriage return that ends it.
pub open spec fn chomp(s: Seq<char>) -> Seq<char> {
    if s.len() > 0 && s.last() == '\r' {
        s.drop_last()
    } else {
        s
    }
}

/// The lines of a text. A line ends at a newline, or at a carriage return and a newline; the last
/// one need not end.
pub open spec fn lines(s: Seq<char>) -> Seq<Seq<char>>
    decreases s.len(),
    via lines_decreases
{
    if s.len() == 0 {
        Seq::empty()
    } else {
        let k = index_of(s, '\n');
        if k < s.len() {
            seq![chomp(s.take(k))] + lines(s.skip(k + 1))
        } else {
            seq![s]
        }
    }
}

#[via_fn]
proof fn lines_decreases(s: Seq<char>) {
    lemma_index_of(s, '\n');
}

/// See [`lines`].
pub fn lines_of(s: &str) -> (r: Vec<String>)
    ensures
        views(r@) == lines(s@),
{
    let v = chars_of(s);
    let mut out: Vec<String> = Vec::new();
    let mut a: usize = 0;
    assert(v@.skip(0) =~= s@);
    assert(views(out@) + lines(v@.skip(0)) =~= lines(s@));
    while a < v.len()
        invariant
            a <= v.len(),
            v@ == s@,
            views(out@) + lines(v@.skip(a as int)) == lines(s@),
        decreases v.len() - a,
    {
        let ghost rest = v@.skip(a as int);
        let ghost before = views(out@);
        let k = find_char(&v, a, '\n');
        if k < v.len() {
            let mut e = k;
            if k > a && v[k - 1] == '\r' {
                e = k - 1;
            }
            let line = text_of(&v, a, e);
            proof {
                assert(rest.take(k - a) =~= v@.subrange(a as int, k as int));
                if k > a {
                    assert(rest.take(k - a).last() == v@[k - 1]);
                }
                assert(chomp(rest.take(k - a)) =~= line@);
                assert(rest.skip(k - a + 1) =~= v@.skip(k + 1));
            }
            out.push(line);
            a = k + 1;
            assert(views(out@) =~= before + seq![line@]);
            assert(views(out@) + lines(v@.skip(a as int)) =~= before + lines(rest));
        } else {
            let line = text_of(&v, a, k);
            assert(line@ =~= rest);
            out.push(line);
            a = k;
            assert(views(out@) =~= before + seq![line@]);
            assert(v@.skip(a as int).len() == 0);
            assert(views(out@) + lines(v@.skip(a as int)) =~= before + lines(rest));
        }
    }
    assert(views(out@) + lines(v@.skip(a as int)) =~= views(out@));
    out
}

/// A line that holds no newline and does not end in a carriage return is the first line of any
/// text that it starts and a newline follows.
pub proof fn lemma_first_line(line: Seq<char>, rest: Seq<char>)
    requires
        !line.contains('\n'),
        line.len() > 0 ==> line.last() != '\r',
    ensures
        lines(line + seq!['\n'] + rest) == seq![line] + lines(rest),
{
    let s = line + seq!['\n'] + rest;
    assert forall|j: int| 0 <= j < line.len() implies s[j] != '\n' by {
        assert(s[j] == line[j]);
        assert(line.contains(line[j]));
    }
    assert(s[line.len() as int] == '\n');
    lemma_index_of_is(s, '\n', line.len() as int);
    assert(s.take(line.len() as int) =~= line);
    assert(s.skip(line.len() as int + 1) =~= rest);
}

/// What stands before and after the first `c` of a text, where there is one.
pub open spec fn cut(s: Seq<char>, c: char) -> Option<(Seq<char>, Seq<char>)> {
    let k = index_of(s, c);
    if k < s.len() {
        Some((s.take(k), s.skip(k + 1)))
    } else {
        None
    }
}

/// See [`cut`].
pub fn split_once(s: &str, c: char) -> (r: Option<(String, String)>)
    ensures
        (match r {
            Some((a, b)) => cut(s@, c) == Some((a@, b@)),
            None => cut(s@, c) is None,
        }),
{
    let v = chars_of(s);
    let k = find_char(&v, 0, c);
    assert(v@.skip(0) =~= s@);
    if k < v.len() {
        let a = text_of(&v, 0, k);
        let b = text_of(&v, k + 1, v.len());
        assert(a@ =~= s@.take(k as int));
        assert(b@ =~= s@.skip(k + 1));
        Some((a, b))
    } else {
        None
    }
}

/// A text without `c` that is followed by `c` is what stands before the cut.
pub proof fn lemma_cut(a: Seq<char>, c: char, b: Seq<char>)
    requires
        !a.contains(c),
    ensures
        cut(a + seq![c] + b, c) == Some((a, b)),
{
    let s = a + seq![c] + b;
    assert forall|j: int| 0 <= j < a.len() implies s[j] != c by {
        assert(s[j] == a[j]);
        assert(a.contains(a[j]));
    }
    assert(s[a.len() as int] == c);
    lemma_index_of_is(s, c, a.len() as int);
    assert(s.take(a.len() as int) =~= a);
    assert(s.skip(a.len() as int + 1) =~= b);
}

/// The parts of a text between the characters `c`: always at least one.
pub open spec fn parts(s: Seq<char>, c: char) -> Seq<Seq<char>>
    decreases s.len(),
    via parts_decreases
{
    let k = index_of(s, c);
    if k < s.len() {
        seq![s.take(k)] + parts(s.skip(k + 1), c)
    } else {
        seq![s]
    }
}

#[via_fn]
proof fn parts_decreases(s: Seq<char>, c: char) {
    lemma_index_of(s, c);
}

/// Whether a text has anything in it.
pub open spec fn nonempty() -> spec_fn(Seq<char>) -> bool {
    |p: Seq<char>| p.len() > 0
}

/// The parts of `s` between the characters `c` that are not empty, in order.
pub fn split_nonempty(s: &str, c: char) -> (r: Vec<String>)
    ensures
        views(r@) == parts(s@, c).filter(nonempty()),
{
    let v = chars_of(s);
    let mut out: Vec<String> = Vec::new();
    let mut a: usize = 0;
    assert(v@.skip(0) =~= s@);
    assert(views(out@) + parts(v@.skip(0), c).filter(nonempty()) =~= parts(s@, c).filter(
        nonempty(),
    ));
    loop
        invariant
            a <= v.len(),
            v@ == s@,
            views(out@) + parts(v@.skip(a as int), c).filter(nonempty()) == parts(s@, c).filter(
                nonempty(),
            ),
        decreases v.len() - a,
    {
        let ghost rest = v@.skip(a as int);
        let ghost before = views(out@);
        let k = find_char(&v, a, c);
        let ghost part = rest.take(k - a);
        proof {
            assert(part =~= v@.subrange(a as int, k as int));
            if k < v.len() {
                assert(rest.skip(k - a + 1) =~= v@.skip(k + 1));
                lemma_filter_cons(part, parts(v@.skip(k + 1), c));
            } else {
                assert(part =~= rest);
                lemma_filter_cons(part, Seq::empty());
                assert(seq![part] + Seq::<Seq<char>>::empty() =~= seq![part]);
                assert(Seq::<Seq<char>>::empty().filter(nonempty()) =~= Seq::empty());
            }
        }
        if k > a {
            let p = text_of(&v, a, k);
            out.push(p);
            assert(views(out@) =~= before + seq![part]);
        }
        if k == v.len() {
            assert(views(out@) =~= before + parts(rest, c).filter(nonempty()));
            return out;
        }
        a = k + 1;
        assert(views(out@) + parts(v@.skip(a as int), c).filter(nonempty()) =~= before + parts(
            rest,
            c,
        ).filter(nonempty()));
    }
}

proof fn lemma_filter_cons(x: Seq<char>, t: Seq<Seq<char>>)
    ensures
        (seq![x] + t).filter(nonempty()) == (if x.len() > 0 {
            seq![x] + t.filter(nonempty())
        } else {
            t.filter(nonempty())
        }),
    decreases t.len(),
{
    reveal(Seq::filter);
    let s = seq![x] + t;
    if t.len() == 0 {
        assert(s.drop_last() =~= Seq::empty());
        assert(s.last() == x);
        assert(t.filter(nonempty()) =~= Seq::empty());
        assert(s.drop_last().filter(nonempty()) =~= Seq::empty());
        if x.len() > 0 {
            assert(s.filter(nonempty()) =~= seq![x] + t.filter(nonempty()));
        }
    } else {
        assert(s.drop_last() =~= seq![x] + t.drop_last());
        assert(s.last() == t.last());
        lemma_filter_cons(x, t.drop_last());
        if x.len() > 0 {
            assert(s.filter(nonempty()) =~= seq![x] + t.filter(nonempty()));
        }
    }
}

/// `s` with every copy of `from`, taken from the left, replaced by `to`.
pub open spec fn replaced(s: Seq<char>, from: Seq<char>, to: Seq<char>) -> Seq<char>
    decreases s.len(),
{
    if s.len() == 0 || from.len() == 0 {
        s
    } else if from.is_prefix_of(s) {
        to + replaced(s.skip(from.len() as int), from, to)
    } else {
        seq![s[0]] + replaced(s.drop_first(), from, to)
    }
}

/// See [`replaced`].
pub fn replace(s: &str, from: &str, to: &str) -> (r: String)
    requires
        from@.len() > 0,
    ensures
        r@ == replaced(s@, from@, to@),
{
    let v = chars_of(s);
    let f = chars_of(from);
    let mut out = String::new();
    let mut a: usize = 0;
    assert(v@.skip(0) =~= s@);
    assert(out@ + replaced(v@.skip(0), from@, to@) =~= replaced(s@, from@, to@));
    while a < v.len()
        invariant
            a <= v.len(),
            v@ == s@,
            f@ == from@,
            from@.len() > 0,
            out@ + replaced(v@.skip(a as int), from@, to@) == replaced(s@, from@, to@),
        decreases v.len() - a,
    {
        let ghost rest = v@.skip(a as int);
        let ghost before = out@;
        if is_at(&v, &f, a) {
            proof {
                assert(rest.take(from@.len() as int) =~= v@.subrange(a as int, a + from@.len()));
                assert(from@.is_prefix_of(rest));
                assert(rest.skip(from@.len() as int) =~= v@.skip(a + from@.len()));
            }
            out.append(to);
            a += f.len();
            assert(out@ + replaced(v@.skip(a as int), from@, to@) =~= before + replaced(
                rest,
                from@,
                to@,
            ));
        } else {
            proof {
                if from@.is_prefix_of(rest) {
                    assert(v@.subrange(a as int, a + from@.len()) =~= rest.take(
                        from@.len() as int,
                    ));
                    assert(sub_at(v@, f@, a as int));
                }
                assert(rest.drop_first() =~= v@.skip(a + 1));
            }
            out.push(v[a]);
            a += 1;
            assert(out@ + replaced(v@.skip(a as int), from@, to@) =~= before + replaced(
                rest,
                from@,
                to@,
            ));
        }
    }
    assert(out@ + replaced(v@.skip(a as int), from@, to@) =~= out@);
    out
}

} // verus!
