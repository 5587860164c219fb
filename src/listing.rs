//! The listing of the shared store.

use vstd::prelude::*;
use crate::store::StoreView;

verus! {

/// An entry found directly under the store directory.
pub struct DirEntry {
    pub name: String,
    /// Whether the entry is a regular file.
    pub is_file: bool,
}

/// Whether an entry is one of the store's files: a regular file.
/// Subdirectories and other non-regular entries are left out; hidden files
/// are listed like any other.
pub open spec fn listed(e: DirEntry) -> bool {
    e.is_file
}

/// No two entries carry the same name, as a directory gives them.
pub open spec fn distinct_names(entries: Seq<DirEntry>) -> bool {
    forall|i: int, j: int| 0 <= i < entries.len() && 0 <= j < entries.len() && i != j
        ==> (#[trigger] entries[i]).name@ != (#[trigger] entries[j]).name@
}

/// The names of the listed entries, in the order they were found.
pub open spec fn listing_spec(entries: Seq<DirEntry>) -> Seq<Seq<char>>
    decreases entries.len(),
{
    if entries.len() == 0 {
        Seq::empty()
    } else {
        let rest = listing_spec(entries.drop_last());
        if listed(entries.last()) {
            rest.push(entries.last().name@)
        } else {
            rest
        }
    }
}

/// The names a listing shows, in the order the directory gave its entries.
pub fn list_files(entries: &Vec<DirEntry>) -> (r: Vec<String>)
    ensures
        r@.len() == listing_spec(entries@).len(),
        forall|i: int| 0 <= i < r@.len() ==> #[trigger] r@[i]@ == listing_spec(entries@)[i],
        distinct_names(entries@) ==> listing_spec(entries@).no_duplicates(),
{
    proof {
        if distinct_names(entries@) {
            lemma_listing_distinct(entries@);
        }
    }
    let mut out: Vec<String> = Vec::new();
    let mut i: usize = 0;
    while i < entries.len()
        invariant
            i <= entries@.len(),
            out@.len() == listing_spec(entries@.take(i as int)).len(),
            forall|k: int| 0 <= k < out@.len() ==> #[trigger] out@[k]@ == listing_spec(entries@.take(i as int))[k],
        decreases entries@.len() - i,
    {
        let e = &entries[i];
        assert(entries@.take(i as int + 1).drop_last() =~= entries@.take(i as int));
        if e.is_file {
            out.push(e.name.clone());
        }
        i = i + 1;
    }
    assert(entries@.take(entries@.len() as int) =~= entries@);
    out
}

/// Some listed entry carries the name `n`.
pub open spec fn names_listed_entry(entries: Seq<DirEntry>, n: Seq<char>) -> bool {
    exists|i: int| 0 <= i < entries.len() && listed(#[trigger] entries[i]) && entries[i].name@ == n
}

/// The listing holds the name of every listed entry, and nothing else.
pub proof fn lemma_listing_exact(entries: Seq<DirEntry>)
    ensures
        forall|i: int| 0 <= i < entries.len() && listed(#[trigger] entries[i])
            ==> listing_spec(entries).contains(entries[i].name@),
        forall|k: int| 0 <= k < listing_spec(entries).len()
            ==> #[trigger] names_listed_entry(entries, listing_spec(entries)[k]),
    decreases entries.len(),
{
    if entries.len() > 0 {
        let init = entries.drop_last();
        lemma_listing_exact(init);
        let rest = listing_spec(init);
        assert forall|i: int| 0 <= i < entries.len() && listed(#[trigger] entries[i])
            implies listing_spec(entries).contains(entries[i].name@) by {
            if i < entries.len() - 1 {
                assert(init[i] == entries[i]);
                let k = choose|k: int| 0 <= k < rest.len() && rest[k] == init[i].name@;
                if listed(entries.last()) {
                    assert(listing_spec(entries)[k] == rest[k]);
                }
            } else {
                assert(listing_spec(entries) == rest.push(entries.last().name@));
                assert(listing_spec(entries)[rest.len() as int] == entries[i].name@);
            }
        }
        assert forall|k: int| 0 <= k < listing_spec(entries).len()
            implies #[trigger] names_listed_entry(entries, listing_spec(entries)[k]) by {
            if k < rest.len() {
                assert(names_listed_entry(init, rest[k]));
                let i = choose|i: int| 0 <= i < init.len() && listed(#[trigger] init[i]) && init[i].name@ == rest[k];
                assert(entries[i] == init[i]);
                assert(listing_spec(entries)[k] == rest[k]);
            } else {
                assert(listing_spec(entries)[k] == entries.last().name@);
                assert(listed(entries[entries.len() - 1]));
            }
        }
    }
}

/// When the store directory holds exactly the store's files, as regular
/// files, the listing shows exactly the store's names.
pub proof fn lemma_listing_shows_store(entries: Seq<DirEntry>, store: StoreView)
    requires
        forall|i: int| 0 <= i < entries.len() ==> (#[trigger] entries[i]).is_file,
        forall|i: int| 0 <= i < entries.len() ==> store.contains_key(#[trigger] entries[i].name@),
        forall|n: Seq<char>| #[trigger] store.contains_key(n) ==> exists|i: int| 0 <= i < entries.len() && (#[trigger] entries[i]).name@ == n,
        distinct_names(entries),
    ensures
        listing_spec(entries).to_set() == store.dom(),
        listing_spec(entries).no_duplicates(),
        listing_spec(entries).len() == store.dom().len(),
{
    lemma_listing_exact(entries);
    lemma_listing_distinct(entries);
    assert forall|n: Seq<char>| listing_spec(entries).to_set().contains(n) <==> store.dom().contains(n) by {
        if store.contains_key(n) {
            let i = choose|i: int| 0 <= i < entries.len() && entries[i].name@ == n;
            assert(listed(entries[i]));
        }
        if listing_spec(entries).to_set().contains(n) {
            let k = choose|k: int| 0 <= k < listing_spec(entries).len() && listing_spec(entries)[k] == n;
            assert(names_listed_entry(entries, listing_spec(entries)[k]));
        }
    }
    assert(listing_spec(entries).to_set() =~= store.dom());
    listing_spec(entries).unique_seq_to_set();
}

/// Entries with distinct names give a listing without repeats: each file is
/// listed once.
pub proof fn lemma_listing_distinct(entries: Seq<DirEntry>)
    requires
        distinct_names(entries),
    ensures
        listing_spec(entries).no_duplicates(),
    decreases entries.len(),
{
    if entries.len() > 0 {
        let init = entries.drop_last();
        assert forall|i: int, j: int| 0 <= i < init.len() && 0 <= j < init.len() && i != j
            implies (#[trigger] init[i]).name@ != (#[trigger] init[j]).name@ by {
            assert(init[i] == entries[i] && init[j] == entries[j]);
        }
        lemma_listing_distinct(init);
        lemma_listing_exact(init);
        let rest = listing_spec(init);
        if listed(entries.last()) {
            assert forall|k: int| 0 <= k < rest.len() implies rest[k] != entries.last().name@ by {
                assert(names_listed_entry(init, rest[k]));
                let i = choose|i: int| 0 <= i < init.len() && listed(#[trigger] init[i]) && init[i].name@ == rest[k];
                assert(init[i] == entries[i]);
                assert(entries[i].name@ != entries[entries.len() - 1].name@);
            }
            assert(listing_spec(entries) == rest.push(entries.last().name@));
        }
    }
}

} // verus!
