//! Places in the file system, as texts.

use vstd::prelude::*;

use crate::split::{nonempty, parts, split_nonempty, views};
use crate::text::{chars_of, same};
use crate::weburl::view_opt;

verus! {

/// A relative name put below a directory, with one slash between them where the directory needs it.
pub open spec fn joined(dir: Seq<char>, name: Seq<char>) -> Seq<char> {
    if dir.len() == 0 || dir.last() == '/' {
        dir + name
    } else {
        dir + seq!['/'] + name
    }
}

/// See [`joined`].
pub fn join_path(dir: &str, name: &str) -> (r: String)
    ensures
        r@ == joined(dir@, name@),
{
    let mut out = dir.to_owned();
    let v = chars_of(dir);
    if v.len() > 0 && v[v.len() - 1] != '/' {
        out.push('/');
    }
    out.append(name);
    assert(out@ =~= joined(dir@, name@));
    out
}

/// The directory of the browser's own files: `cce/browser` below the state directory, which is
/// `.local/state` in the home directory unless the environment names another.
pub open spec fn state_dir_of(state_home: Option<Seq<char>>, home: Option<Seq<char>>) -> Seq<char> {
    let base = match state_home {
        Some(x) if x.len() > 0 => x,
        _ => joined(
            match home {
                Some(h) => h,
                None => Seq::empty(),
            },
            ".local/state"@,
        ),
    };
    joined(joined(base, "cce"@), "browser"@)
}

/// An optional text.
pub open spec fn str_opt(s: Option<&str>) -> Option<Seq<char>> {
    match s {
        Some(t) => Some(t@),
        None => None,
    }
}

/// See [`state_dir_of`].
pub fn state_dir(state_home: Option<&str>, home: Option<&str>) -> (r: String)
    ensures
        r@ == state_dir_of(str_opt(state_home), str_opt(home)),
{
    let base = match state_home {
        Some(x) if !x.is_empty() => x.to_owned(),
        _ => match home {
            Some(h) => join_path(h, ".local/state"),
            None => {
                let empty = String::new();
                join_path(empty.as_str(), ".local/state")
            },
        },
    };
    let cce = join_path(base.as_str(), "cce");
    join_path(cce.as_str(), "browser")
}

/// What a path names: whether it starts at the root, whether it starts with the directory that it is
/// looked up in, and the names on the way.
#[verifier::ext_equal]
pub struct PathView {
    pub root: bool,
    pub here: bool,
    pub names: Seq<Seq<char>>,
}

/// Whether a part of a path is a name: a single dot leads nowhere.
pub open spec fn leads() -> spec_fn(Seq<char>) -> bool {
    |p: Seq<char>| p != "."@
}

/// See [`PathView`]. Slashes may be repeated, and may end a path.
pub open spec fn path_of(p: Seq<char>) -> PathView {
    PathView {
        root: p.len() > 0 && p[0] == '/',
        here: p.len() > 0 && p[0] == '.' && (p.len() == 1 || p[1] == '/'),
        names: parts(p, '/').filter(nonempty()).filter(leads()),
    }
}

/// Whether two paths are the same, part by part.
pub open spec fn same_place(a: Option<Seq<char>>, b: Option<Seq<char>>) -> bool {
    match (a, b) {
        (Some(a), Some(b)) => path_of(a) == path_of(b),
        (None, None) => true,
        _ => false,
    }
}

fn names_of(p: &str) -> (r: Vec<String>)
    ensures
        views(r@) == path_of(p@).names,
{
    let all = split_nonempty(p, '/');
    let ghost list = views(all@);
    let mut out: Vec<String> = Vec::new();
    let mut i: usize = 0;
    proof {
        reveal(Seq::filter);
        assert(list.take(0) =~= Seq::empty());
        assert(views(out@) =~= list.take(0).filter(leads()));
    }
    while i < all.len()
        invariant
            i <= all.len(),
            list == views(all@),
            views(out@) == list.take(i as int).filter(leads()),
        decreases all.len() - i,
    {
        let ghost before = views(out@);
        let part = &all[i];
        proof {
            reveal(Seq::filter);
            assert(list[i as int] == part@);
            assert(list.take(i + 1).drop_last() =~= list.take(i as int));
            assert(list.take(i + 1).last() == part@);
        }
        if !same(part.as_str(), ".") {
            out.push(part.clone());
            assert(views(out@) =~= before.push(part@));
        }
        i += 1;
    }
    assert(list.take(i as int) =~= list);
    out
}

fn same_names(a: &Vec<String>, b: &Vec<String>) -> (r: bool)
    ensures
        r == (views(a@) == views(b@)),
{
    if a.len() != b.len() {
        assert(views(a@).len() != views(b@).len());
        return false;
    }
    let mut i: usize = 0;
    while i < a.len()
        invariant
            i <= a.len(),
            a.len() == b.len(),
            forall|j: int| 0 <= j < i ==> #[trigger] views(a@)[j] == views(b@)[j],
        decreases a.len() - i,
    {
        if !same(a[i].as_str(), b[i].as_str()) {
            assert(views(a@)[i as int] != views(b@)[i as int]);
            return false;
        }
        i += 1;
    }
    assert(views(a@) =~= views(b@));
    true
}

/// See [`same_place`].
pub fn is_same_place(a: &Option<String>, b: &Option<String>) -> (r: bool)
    ensures
        r == same_place(view_opt(*a), view_opt(*b)),
{
    match (a, b) {
        (Some(a), Some(b)) => {
            let v = chars_of(a.as_str());
            let w = chars_of(b.as_str());
            let here_a = v.len() > 0 && v[0] == '.' && (v.len() == 1 || v[1] == '/');
            let here_b = w.len() > 0 && w[0] == '.' && (w.len() == 1 || w[1] == '/');
            let root_a = v.len() > 0 && v[0] == '/';
            let root_b = w.len() > 0 && w[0] == '/';
            let x = names_of(a.as_str());
            let y = names_of(b.as_str());
            root_a == root_b && here_a == here_b && same_names(&x, &y)
        },
        (None, None) => true,
        _ => false,
    }
}

} // verus!
