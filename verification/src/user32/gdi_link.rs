//! user32's forwarders to gdi32: a table from each forwarded name to its
//! target, in the order they were added.

use vstd::prelude::*;

verus! {

/// The forwarder entries, name and target, in the order added.
pub struct GdiLink {
    pub entries: Vec<(String, String)>,
}

impl GdiLink {
    /// An empty table.
    pub fn new() -> (r: Self)
        ensures
            r.entries@.len() == 0,
    {
        GdiLink { entries: Vec::new() }
    }
}

/// The target of the first entry named `name` among the first `n`.
pub open spec fn first_target(entries: Seq<(String, String)>, name: Seq<char>, n: int) -> Option<Seq<char>>
    decreases n,
{
    if n <= 0 {
        None
    } else {
        match first_target(entries, name, n - 1) {
            Some(t) => Some(t),
            None => if entries[n - 1].0@ == name { Some(entries[n - 1].1@) } else { None },
        }
    }
}

/// Add a forwarder from `name` to `target` at the end of the table.
pub fn add(link: &mut GdiLink, name: &str, target: &str)
    ensures
        final(link).entries@.len() == old(link).entries@.len() + 1,
        final(link).entries@.drop_last() == old(link).entries@,
        final(link).entries@.last().0@ == name@,
        final(link).entries@.last().1@ == target@,
{
    link.entries.push((name.to_owned(), target.to_owned()));
}

/// The target of the first forwarder named `name`, if there is one.
pub fn lookup(link: &GdiLink, name: &str) -> (r: Option<String>)
    ensures
        match r {
            Some(t) => first_target(link.entries@, name@, link.entries@.len() as int) == Some(t@),
            None => first_target(link.entries@, name@, link.entries@.len() as int) is None,
        },
{
    let key = name.to_owned();
    let mut i: usize = 0;
    while i < link.entries.len()
        invariant
            i <= link.entries@.len(),
            key@ == name@,
            first_target(link.entries@, name@, i as int) is None,
        decreases link.entries@.len() - i,
    {
        if link.entries[i].0 == key {
            proof {
                assert(first_target(link.entries@, name@, i + 1) == Some(link.entries@[i as int].1@));
                lemma_first_target_stays(link.entries@, name@, i + 1, link.entries@.len() as int);
            }
            return Some(link.entries[i].1.clone());
        }
        i = i + 1;
    }
    None
}

proof fn lemma_first_target_stays(entries: Seq<(String, String)>, name: Seq<char>, m: int, n: int)
    requires
        m <= n,
        first_target(entries, name, m) is Some,
    ensures
        first_target(entries, name, n) == first_target(entries, name, m),
    decreases n - m,
{
    if m < n {
        lemma_first_target_stays(entries, name, m, n - 1);
    }
}

proof fn lemma_first_target_prefix(before: Seq<(String, String)>, after: Seq<(String, String)>, name: Seq<char>, n: int)
    requires
        0 <= n <= before.len(),
        before.len() <= after.len(),
        forall|i: int| 0 <= i < before.len() ==> after[i] == before[i],
    ensures
        first_target(after, name, n) == first_target(before, name, n),
    decreases n,
{
    if n > 0 {
        lemma_first_target_prefix(before, after, name, n - 1);
    }
}

/// A forwarder added to the table is found by its name: the target added,
/// unless the table already had a forwarder of that name, whose target
/// stays the one found. Lookups of other names are unchanged.
pub proof fn lemma_add_then_lookup(before: Seq<(String, String)>, after: Seq<(String, String)>, name: Seq<char>,
    target: Seq<char>, other: Seq<char>)
    requires
        after.len() == before.len() + 1,
        after.drop_last() == before,
        after.last().0@ == name,
        after.last().1@ == target,
        other != name,
    ensures
        first_target(after, name, after.len() as int) == match first_target(before, name, before.len() as int) {
            Some(t) => Some(t),
            None => Some(target),
        },
        first_target(after, other, after.len() as int) == first_target(before, other, before.len() as int),
{
    assert forall|i: int| 0 <= i < before.len() implies after[i] == before[i] by {
        assert(after.drop_last()[i] == after[i]);
    }
    lemma_first_target_prefix(before, after, name, before.len() as int);
    lemma_first_target_prefix(before, after, other, before.len() as int);
}

} // verus!
