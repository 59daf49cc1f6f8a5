//! How a download begins and what becomes of it: the name that is free for it, and what whoever
//! carries it out reports.

use vstd::prelude::*;

use crate::downloads::{
    candidate, candidate_name, candidates_differ, file_name, filename_for, Downloads, DownloadsView,
    Update,
};
use crate::paths::{join_path, joined};
use crate::split::views;
use crate::text::same;
use crate::weburl::{view_opt, Url};

verus! {

// ---------------------------------------------------------------------------------------------
// A name that is free
// ---------------------------------------------------------------------------------------------

/// Whether every name before the `n`th to try is taken.
pub open spec fn taken_before(name: Seq<char>, taken: Seq<Seq<char>>, n: nat) -> bool {
    forall|m: nat| m < n ==> taken.contains(#[trigger] candidate(name, m))
}

/// Whether `r` is the first name to try that is not taken.
pub open spec fn is_first_free(name: Seq<char>, taken: Seq<Seq<char>>, r: Seq<char>) -> bool {
    exists|n: nat|
        r == #[trigger] candidate(name, n) && taken_before(name, taken, n) && !taken.contains(r)
}

/// There are no more names to try that are taken than names that are.
proof fn lemma_taken_bound(name: Seq<char>, taken: Seq<Seq<char>>, n: nat)
    requires
        taken_before(name, taken, n),
        n <= u64::MAX + 1,
    ensures
        n <= taken.len(),
{
    let tried = Seq::new(n, |m: int| candidate(name, m as nat));
    assert(tried.no_duplicates()) by {
        assert forall|i: int, j: int| 0 <= i < tried.len() && 0 <= j < tried.len() && i != j implies
            tried[i] != tried[j] by {
            candidates_differ(name, i as u64, j as u64);
        }
    }
    tried.unique_seq_to_set();
    taken.lemma_cardinality_of_set();
    vstd::seq_lib::seq_to_set_is_finite(taken);
    assert(tried.to_set().subset_of(taken.to_set())) by {
        assert forall|s: Seq<char>| tried.to_set().contains(s) implies taken.to_set().contains(s) by {
            let i = choose|i: int| 0 <= i < tried.len() && tried[i] == s;
            assert(s == candidate(name, i as nat));
        }
    }
    vstd::set_lib::lemma_len_subset(tried.to_set(), taken.to_set());
}

fn is_taken(taken: &Vec<String>, name: &str) -> (r: bool)
    ensures
        r == views(taken@).contains(name@),
{
    let ghost all = views(taken@);
    let mut i: usize = 0;
    while i < taken.len()
        invariant
            i <= taken.len(),
            all == views(taken@),
            forall|j: int| 0 <= j < i ==> all[j] != name@,
        decreases taken.len() - i,
    {
        assert(all[i as int] == taken@[i as int]@);
        if same(taken[i].as_str(), name) {
            assert(all.contains(name@));
            return true;
        }
        i += 1;
    }
    false
}

/// The first name to try that is not taken: the name itself, or else the name with the first number
/// before its extension that makes it free.
pub fn free_name(name: &str, taken: &Vec<String>) -> (r: String)
    ensures
        is_first_free(name@, views(taken@), r@),
{
    let ghost all = views(taken@);
    let count = taken.len() as u64;
    let mut n: u64 = 0;
    loop
        invariant
            all == views(taken@),
            count == all.len(),
            n <= count,
            taken_before(name@, all, n as nat),
        decreases count - n,
    {
        let tried = candidate_name(name, n);
        if !is_taken(taken, tried.as_str()) {
            assert(tried@ == candidate(name@, n as nat));
            return tried;
        }
        proof {
            assert forall|m: nat| m < n + 1 implies all.contains(#[trigger] candidate(name@, m)) by {
                if m == n {
                    assert(tried@ == candidate(name@, m));
                }
            }
            lemma_taken_bound(name@, all, n as nat + 1);
        }
        n = n + 1;
    }
}

// ---------------------------------------------------------------------------------------------
// Downloads that are fetched here
// ---------------------------------------------------------------------------------------------

/// Notes that the file at `url` is to be fetched into `dir`, where the names `taken` are in use. Gives
/// the handle and the path.
pub fn begin(list: &mut Downloads, url: &Url, dir: &str, taken: &Vec<String>, now: u64) -> (r: (
    u64,
    String,
))
    ensures
        r.0 == old(list).next_id,
        exists|name: Seq<char>|
            #![trigger joined(dir@, name)]
            is_first_free(file_name(url@), views(taken@), name) && r.1@ == joined(dir@, name)
                && final(list)@ == old(list)@.started(url@.text, name, r.1@, None, now),
        old(list)@.wf() && old(list).next_id < u64::MAX ==> final(list)@.wf(),
{
    let wanted = filename_for(url);
    let name = free_name(wanted.as_str(), taken);
    let path = join_path(dir, name.as_str());
    let ghost n = name@;
    let id = list.start(url, name, path.clone(), now);
    assert(path@ == joined(dir@, n));
    (id, path)
}

/// How a fetch ended: done, or why not.
pub fn ended(result: Result<(), String>) -> (r: Update)
    ensures
        result is Ok ==> r is Done,
        result matches Err(e) ==> r == Update::Failed(e),
{
    match result {
        Ok(_) => Update::Done,
        Err(e) => Update::Failed(e),
    }
}

// ---------------------------------------------------------------------------------------------
// Downloads that the engine carries out
// ---------------------------------------------------------------------------------------------

/// A download that the engine carries out. It has a handle once its destination is decided.
#[derive(Debug)]
pub struct Transfer {
    pub id: Option<u64>,
}

/// A length that a server announced, where it announced one.
pub open spec fn announced(length: u64) -> Option<u64> {
    if length > 0 {
        Some(length)
    } else {
        None
    }
}

/// The name that a server suggested, or the standard one.
pub open spec fn suggestion(name: Option<Seq<char>>) -> Seq<char> {
    match name {
        Some(n) => n,
        None => "download"@,
    }
}

impl Transfer {
    /// A download whose destination is not decided.
    pub fn new() -> (r: Transfer)
        ensures
            r.id is None,
    {
        Transfer { id: None }
    }

    /// Decides where the file goes, by the name that the server suggested, and puts the download on
    /// the list. Gives the path.
    pub fn decide(
        &mut self,
        list: &mut Downloads,
        uri: Option<String>,
        suggested: Option<String>,
        dir: &str,
        taken: &Vec<String>,
        length: u64,
        now: u64,
    ) -> (r: String)
        ensures
            final(self).id == Some(old(list).next_id),
            exists|name: Seq<char>|
                #![trigger joined(dir@, name)]
                is_first_free(suggestion(view_opt(suggested)), views(taken@), name) && r@ == joined(
                    dir@,
                    name,
                ) && final(list)@ == old(list)@.started(
                    match uri {
                        Some(u) => u@,
                        None => Seq::empty(),
                    },
                    name,
                    r@,
                    announced(length),
                    now,
                ),
            old(list)@.wf() && old(list).next_id < u64::MAX ==> final(list)@.wf(),
    {
        let wanted = match suggested {
            Some(n) => n,
            None => "download".to_owned(),
        };
        let name = free_name(wanted.as_str(), taken);
        let path = join_path(dir, name.as_str());
        let ghost n = name@;
        let from = match uri {
            Some(u) => u,
            None => String::new(),
        };
        let total = if length > 0 {
            Some(length)
        } else {
            None
        };
        self.id = Some(list.adopt(from, name, path.clone(), total, now));
        assert(path@ == joined(dir@, n));
        path
    }

    /// What a report does to a list: nothing, before the destination is decided.
    pub open spec fn reported(self, list: DownloadsView, u: Update) -> DownloadsView {
        match self.id {
            Some(id) => list.updated(id, u),
            None => list,
        }
    }

    /// Notes how much has come.
    pub fn received(&self, list: &mut Downloads, length: u64)
        ensures
            final(list)@ == self.reported(old(list)@, Update::Received(length)),
            old(list)@.wf() ==> final(list)@.wf(),
    {
        if let Some(id) = self.id {
            list.with_item(id, Update::Received(length));
        }
    }

    /// Notes that the download is done.
    pub fn finished(&self, list: &mut Downloads)
        ensures
            final(list)@ == self.reported(old(list)@, Update::Done),
            old(list)@.wf() ==> final(list)@.wf(),
    {
        if let Some(id) = self.id {
            list.with_item(id, Update::Done);
        }
    }

    /// Notes that the download failed, and why where that is known.
    pub fn failed(&self, list: &mut Downloads, message: Option<String>)
        ensures
            exists|e: String|
                e@ == (match message {
                    Some(m) => m@,
                    None => "download failed"@,
                }) && final(list)@ == #[trigger] self.reported(old(list)@, Update::Failed(e)),
            old(list)@.wf() ==> final(list)@.wf(),
    {
        let e = match message {
            Some(m) => m,
            None => "download failed".to_owned(),
        };
        let ghost why = e;
        if let Some(id) = self.id {
            list.with_item(id, Update::Failed(e));
        }
        assert(list@ == self.reported(old(list)@, Update::Failed(why)));
    }
}

/// A new download never overwrites a file: the name that is free for it is not among those in use.
pub proof fn free_names_are_free(name: Seq<char>, taken: Seq<Seq<char>>, r: Seq<char>)
    requires
        is_first_free(name, taken, r),
    ensures
        !taken.contains(r),
        !taken.contains(name) ==> r == name,
{
    let n = choose|n: nat|
        r == #[trigger] candidate(name, n) && taken_before(name, taken, n) && !taken.contains(r);
    if n > 0 {
        assert(taken.contains(candidate(name, 0)));
    }
}

} // verus!
