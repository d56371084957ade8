//! The registry of flagged wallets: one entry per wallet, kept in ascending
//! order of wallet, replaced as a whole by each dataset.

use crate::assoc::{
    distinct_keys, has_key, lemma_to_map_insert, lemma_to_map_keys, lemma_to_map_push,
    lemma_to_map_update, lemma_to_map_value, to_map,
};
use crate::oracle::msg::{EntryView, OracleDataEntry};
use crate::order::{
    key_lt, lemma_key_lt_asymmetric, lemma_key_lt_irreflexive, lemma_key_lt_transitive, rank_keys,
    Rank,
};
use vstd::prelude::*;

verus! {

/// The entries, each paired with the wallet it is about.
pub open spec fn keyed(entries: Seq<EntryView>) -> Seq<(Seq<char>, EntryView)> {
    entries.map_values(|e: EntryView| (e.wallet, e))
}

/// What a dataset says of each wallet: the last of its entries for that
/// wallet.
pub open spec fn dataset_map(entries: Seq<EntryView>) -> Map<Seq<char>, EntryView> {
    to_map(keyed(entries))
}

/// The entries stand in strictly ascending order of wallet.
pub open spec fn ascending(entries: Seq<EntryView>) -> bool {
    forall|i: int, j: int|
        0 <= i < j < entries.len() ==> key_lt(
            (#[trigger] entries[i]).wallet,
            (#[trigger] entries[j]).wallet,
        )
}

/// A dataset says something of a wallet exactly if one of its entries is
/// about that wallet.
pub proof fn lemma_dataset_wallets(entries: Seq<EntryView>, wallet: Seq<char>)
    ensures
        dataset_map(entries).contains_key(wallet) <==> exists|i: int|
            0 <= i < entries.len() && (#[trigger] entries[i]).wallet == wallet,
{
    let pairs = keyed(entries);
    lemma_to_map_keys(pairs, wallet);
    if has_key(pairs, wallet) {
        let i = choose|i: int| 0 <= i < pairs.len() && (#[trigger] pairs[i]).0 == wallet;
        assert(entries[i].wallet == wallet);
    }
    if exists|i: int| 0 <= i < entries.len() && (#[trigger] entries[i]).wallet == wallet {
        let i = choose|i: int| 0 <= i < entries.len() && (#[trigger] entries[i]).wallet == wallet;
        assert(pairs[i].0 == wallet);
    }
}

/// Of the entries for one wallet the last one wins: an entry that no later
/// entry for the same wallet follows is what the dataset says of its wallet.
pub proof fn lemma_last_entry_wins(entries: Seq<EntryView>, i: int)
    requires
        0 <= i < entries.len(),
        forall|j: int| i < j < entries.len() ==> (#[trigger] entries[j]).wallet != entries[i].wallet,
    ensures
        dataset_map(entries).contains_key(entries[i].wallet),
        dataset_map(entries)[entries[i].wallet] == entries[i],
    decreases entries.len(),
{
    let rest = entries.drop_last();
    assert(keyed(entries).drop_last() =~= keyed(rest));
    if i < entries.len() - 1 {
        assert(entries[entries.len() - 1].wallet != entries[i].wallet);
        assert forall|j: int| i < j < rest.len() implies (#[trigger] rest[j]).wallet
            != rest[i].wallet by {
            assert(entries[j].wallet != entries[i].wallet);
        }
        lemma_last_entry_wins(rest, i);
    }
}

/// Entries in ascending order hold no wallet twice.
pub proof fn lemma_ascending_distinct(entries: Seq<EntryView>)
    requires
        ascending(entries),
    ensures
        distinct_keys(keyed(entries)),
{
    let pairs = keyed(entries);
    assert forall|i: int, j: int| 0 <= i < j < pairs.len() implies (#[trigger] pairs[i]).0 != (
    #[trigger] pairs[j]).0 by {
        assert(key_lt(entries[i].wallet, entries[j].wallet));
        lemma_key_lt_asymmetric(entries[i].wallet, entries[j].wallet);
    }
}

/// In an ascending listing each entry is what the mapping holds for its
/// wallet.
pub proof fn lemma_listing_entry(entries: Seq<EntryView>, i: int)
    requires
        ascending(entries),
        0 <= i < entries.len(),
    ensures
        dataset_map(entries).contains_key(entries[i].wallet),
        dataset_map(entries)[entries[i].wallet] == entries[i],
{
    lemma_ascending_distinct(entries);
    lemma_to_map_value(keyed(entries), i);
}

/// The mapping holds only wallets that the listing holds.
pub proof fn lemma_listing_wallet(entries: Seq<EntryView>, wallet: Seq<char>) -> (i: int)
    requires
        dataset_map(entries).contains_key(wallet),
    ensures
        0 <= i < entries.len(),
        entries[i].wallet == wallet,
{
    lemma_to_map_keys(keyed(entries), wallet);
    let pairs = keyed(entries);
    choose|i: int| 0 <= i < pairs.len() && (#[trigger] pairs[i]).0 == wallet
}

proof fn lemma_drop_last(entries: Seq<EntryView>)
    requires
        ascending(entries),
        entries.len() > 0,
    ensures
        ascending(entries.drop_last()),
        dataset_map(entries.drop_last()) == dataset_map(entries).remove(entries.last().wallet),
{
    let rest = entries.drop_last();
    let last = entries.last();
    assert forall|i: int, j: int| 0 <= i < j < rest.len() implies key_lt(
        (#[trigger] rest[i]).wallet,
        (#[trigger] rest[j]).wallet,
    ) by {
        assert(key_lt(entries[i].wallet, entries[j].wallet));
    }
    assert(keyed(entries).drop_last() =~= keyed(rest));
    if dataset_map(rest).contains_key(last.wallet) {
        let i = lemma_listing_wallet(rest, last.wallet);
        assert(key_lt(entries[i].wallet, entries[entries.len() - 1].wallet));
        lemma_key_lt_irreflexive(last.wallet);
    }
    assert(dataset_map(rest) =~= dataset_map(entries).remove(last.wallet));
}

/// A mapping has one ascending listing at most: two ascending listings of
/// the same mapping are the same sequence.
pub proof fn lemma_listing_unique(a: Seq<EntryView>, b: Seq<EntryView>)
    requires
        ascending(a),
        ascending(b),
        dataset_map(a) == dataset_map(b),
    ensures
        a == b,
    decreases a.len(),
{
    if a.len() == 0 {
        if b.len() > 0 {
            lemma_listing_entry(b, 0);
            let i = lemma_listing_wallet(a, b[0].wallet);
        }
        assert(a =~= b);
    } else {
        let x = a.last();
        lemma_listing_entry(a, a.len() - 1);
        let j = lemma_listing_wallet(b, x.wallet);
        lemma_listing_entry(b, j);
        let y = b.last();
        lemma_listing_entry(b, b.len() - 1);
        let i = lemma_listing_wallet(a, y.wallet);
        lemma_listing_entry(a, i);
        if j < b.len() - 1 && i < a.len() - 1 {
            assert(key_lt(b[j].wallet, b[b.len() - 1].wallet));
            assert(key_lt(a[i].wallet, a[a.len() - 1].wallet));
            lemma_key_lt_asymmetric(x.wallet, y.wallet);
        }
        assert(x == y);
        lemma_drop_last(a);
        lemma_drop_last(b);
        lemma_listing_unique(a.drop_last(), b.drop_last());
        assert(a =~= a.drop_last().push(x));
        assert(b =~= b.drop_last().push(y));
    }
}

/// The ascending listing of a mapping.
pub open spec fn listing_of(registry: Map<Seq<char>, EntryView>) -> Seq<EntryView> {
    choose|entries: Seq<EntryView>| ascending(entries) && dataset_map(entries) == registry
}

#[derive(Clone, Debug, PartialEq, Eq)]
pub struct ComplianceRegistry {
    records: Vec<OracleDataEntry>,
}

impl View for ComplianceRegistry {
    type V = Map<Seq<char>, EntryView>;

    /// The registry as a mapping from wallet to entry.
    open spec fn view(&self) -> Map<Seq<char>, EntryView> {
        dataset_map(self.listing())
    }
}

impl ComplianceRegistry {
    /// The entries in the order in which they are listed.
    pub closed spec fn listing(&self) -> Seq<EntryView> {
        self.records.deep_view()
    }

    /// The entries are listed in strictly ascending order of wallet.
    pub open spec fn wf(&self) -> bool {
        ascending(self.listing())
    }

    /// A registry that flags nobody.
    pub fn new() -> (r: ComplianceRegistry)
        ensures
            r.wf(),
            r.listing() == Seq::<EntryView>::empty(),
            r@ == Map::<Seq<char>, EntryView>::empty(),
    {
        let r = ComplianceRegistry { records: Vec::new() };
        assert(r.listing() =~= Seq::<EntryView>::empty());
        assert(keyed(r.listing()) =~= Seq::empty());
        r
    }

    /// The number of flagged wallets.
    pub fn len(&self) -> (n: usize)
        ensures
            n == self.listing().len(),
    {
        self.records.len()
    }

    /// Where `wallet` stands or would stand in the listing, and whether it
    /// is there. Found by halving the range in which it can stand.
    fn position(&self, wallet: &str) -> (r: (usize, bool))
        requires
            self.wf(),
        ensures
            r.0 <= self.listing().len(),
            forall|i: int| 0 <= i < r.0 ==> key_lt((#[trigger] self.listing()[i]).wallet, wallet@),
            forall|i: int|
                r.0 <= i < self.listing().len() && !(r.1 && i == r.0) ==> key_lt(
                    wallet@,
                    (#[trigger] self.listing()[i]).wallet,
                ),
            r.1 ==> r.0 < self.listing().len() && self.listing()[r.0 as int].wallet == wallet@,
    {
        let ghost listing = self.listing();
        let mut lo: usize = 0;
        let mut hi: usize = self.records.len();
        while lo < hi
            invariant
                self.wf(),
                listing == self.listing(),
                listing.len() == self.records@.len(),
                lo <= hi <= listing.len(),
                forall|j: int| 0 <= j < lo ==> key_lt((#[trigger] listing[j]).wallet, wallet@),
                forall|j: int|
                    hi <= j < listing.len() ==> key_lt(wallet@, (#[trigger] listing[j]).wallet),
            decreases hi - lo,
        {
            let mid: usize = lo + (hi - lo) / 2;
            let here: &OracleDataEntry = &self.records[mid];
            assert(listing[mid as int] == here@);
            match rank_keys(here.wallet.as_str(), wallet) {
                Rank::Before => {
                    assert forall|j: int| 0 <= j < mid + 1 implies key_lt(
                        (#[trigger] listing[j]).wallet,
                        wallet@,
                    ) by {
                        if j < mid {
                            assert(key_lt(listing[j].wallet, listing[mid as int].wallet));
                            lemma_key_lt_transitive(
                                listing[j].wallet,
                                listing[mid as int].wallet,
                                wallet@,
                            );
                        }
                    }
                    lo = mid + 1;
                },
                Rank::Same => {
                    assert forall|j: int| 0 <= j < mid implies key_lt(
                        (#[trigger] listing[j]).wallet,
                        wallet@,
                    ) by {
                        assert(key_lt(listing[j].wallet, listing[mid as int].wallet));
                    }
                    assert forall|j: int| mid < j < listing.len() implies key_lt(
                        wallet@,
                        (#[trigger] listing[j]).wallet,
                    ) by {
                        assert(key_lt(listing[mid as int].wallet, listing[j].wallet));
                    }
                    return (mid, true);
                },
                Rank::After => {
                    assert forall|j: int| mid <= j < listing.len() implies key_lt(
                        wallet@,
                        (#[trigger] listing[j]).wallet,
                    ) by {
                        if j > mid {
                            assert(key_lt(listing[mid as int].wallet, listing[j].wallet));
                            lemma_key_lt_transitive(
                                wallet@,
                                listing[mid as int].wallet,
                                listing[j].wallet,
                            );
                        }
                    }
                    hi = mid;
                },
            }
        }
        (lo, false)
    }

    /// No entry of the listing is about `wallet`, given where it would stand.
    proof fn lemma_absent(&self, wallet: Seq<char>, at: int)
        requires
            0 <= at <= self.listing().len(),
            forall|i: int| 0 <= i < at ==> key_lt((#[trigger] self.listing()[i]).wallet, wallet),
            forall|i: int|
                at <= i < self.listing().len() ==> key_lt(
                    wallet,
                    (#[trigger] self.listing()[i]).wallet,
                ),
        ensures
            !has_key(keyed(self.listing()), wallet),
            !self@.contains_key(wallet),
    {
        let pairs = keyed(self.listing());
        assert forall|i: int| 0 <= i < pairs.len() implies (#[trigger] pairs[i]).0 != wallet by {
            if i < at {
                assert(key_lt(self.listing()[i].wallet, wallet));
                lemma_key_lt_asymmetric(self.listing()[i].wallet, wallet);
            } else {
                assert(key_lt(wallet, self.listing()[i].wallet));
                lemma_key_lt_asymmetric(wallet, self.listing()[i].wallet);
            }
        }
        lemma_to_map_keys(pairs, wallet);
    }

    /// The entry for `wallet`, if it is flagged.
    pub fn lookup(&self, wallet: &str) -> (r: Option<&OracleDataEntry>)
        requires
            self.wf(),
        ensures
            r is Some <==> self@.contains_key(wallet@),
            r matches Some(entry) ==> entry@ == self@[wallet@] && entry@.wallet == wallet@,
    {
        let (at, found) = self.position(wallet);
        if found {
            proof {
                lemma_ascending_distinct(self.listing());
                lemma_to_map_value(keyed(self.listing()), at as int);
            }
            Some(&self.records[at])
        } else {
            proof {
                self.lemma_absent(wallet@, at as int);
            }
            None
        }
    }

    /// Records `entry`, in place of any entry for the same wallet.
    fn upsert(&mut self, entry: OracleDataEntry)
        requires
            old(self).wf(),
        ensures
            final(self).wf(),
            final(self)@ == old(self)@.insert(entry@.wallet, entry@),
    {
        let ghost before = self.listing();
        let ghost e = entry@;
        let (at, found) = self.position(entry.wallet.as_str());
        proof {
            lemma_ascending_distinct(before);
        }
        if found {
            self.records.set(at, entry);
            proof {
                let after = self.listing();
                assert(after =~= before.update(at as int, e));
                assert(keyed(after) =~= keyed(before).update(at as int, (e.wallet, e)));
                lemma_to_map_update(keyed(before), at as int, e);
                assert forall|i: int, j: int| 0 <= i < j < after.len() implies key_lt(
                    (#[trigger] after[i]).wallet,
                    (#[trigger] after[j]).wallet,
                ) by {
                    assert(key_lt(before[i].wallet, before[j].wallet));
                }
            }
        } else {
            self.records.insert(at, entry);
            proof {
                let after = self.listing();
                assert(after =~= before.insert(at as int, e));
                assert(keyed(after) =~= keyed(before).insert(at as int, (e.wallet, e)));
                old(self).lemma_absent(e.wallet, at as int);
                lemma_to_map_insert(keyed(before), at as int, e.wallet, e);
                assert forall|i: int, j: int| 0 <= i < j < after.len() implies key_lt(
                    (#[trigger] after[i]).wallet,
                    (#[trigger] after[j]).wallet,
                ) by {
                    let oi = if i < at { i } else { i - 1 };
                    let oj = if j < at { j } else { j - 1 };
                    if i == at {
                        assert(key_lt(e.wallet, before[oj].wallet));
                    } else if j == at {
                        assert(key_lt(before[oi].wallet, e.wallet));
                    } else {
                        assert(key_lt(before[oi].wallet, before[oj].wallet));
                    }
                }
            }
        }
    }

    /// Forgets every entry and records those of `entries`, one after the
    /// other: of two entries for one wallet the later one stays. The new
    /// registry is built aside and takes the place of the old one at the end.
    pub fn replace_all(&mut self, entries: &Vec<OracleDataEntry>)
        ensures
            final(self).wf(),
            final(self)@ == dataset_map(entries.deep_view()),
    {
        let mut built = ComplianceRegistry::new();
        let ghost all = entries.deep_view();
        let mut i: usize = 0;
        while i < entries.len()
            invariant
                built.wf(),
                i <= entries@.len(),
                all == entries.deep_view(),
                built@ == dataset_map(all.take(i as int)),
            decreases entries@.len() - i,
        {
            let entry: OracleDataEntry = entries[i].duplicate();
            proof {
                assert(all.take(i + 1) =~= all.take(i as int).push(entry@));
                assert(keyed(all.take(i + 1)) =~= keyed(all.take(i as int)).push(
                    (entry@.wallet, entry@),
                ));
                lemma_to_map_push(keyed(all.take(i as int)), entry@.wallet, entry@);
            }
            built.upsert(entry);
            i = i + 1;
        }
        assert(all.take(i as int) =~= all);
        *self = built;
    }

    /// The listing is the ascending listing of the mapping.
    pub proof fn lemma_listing(&self)
        requires
            self.wf(),
        ensures
            self.listing() == listing_of(self@),
    {
        lemma_listing_unique(self.listing(), listing_of(self@));
    }

    /// All entries, in ascending order of wallet.
    pub fn list(&self) -> (out: Vec<OracleDataEntry>)
        requires
            self.wf(),
        ensures
            out.deep_view() == listing_of(self@),
            out.deep_view() == self.listing(),
    {
        proof {
            self.lemma_listing();
        }
        let mut out: Vec<OracleDataEntry> = Vec::new();
        let mut i: usize = 0;
        while i < self.records.len()
            invariant
                i <= self.records@.len(),
                out@.len() == i,
                forall|j: int| 0 <= j < i ==> out@[j]@ == self.records@[j]@,
            decreases self.records@.len() - i,
        {
            out.push(self.records[i].duplicate());
            i = i + 1;
        }
        assert(out.deep_view() =~= self.listing());
        out
    }
}

} // verus!
