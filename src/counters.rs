use vstd::prelude::*;

use crate::error::MetricsError;
use crate::vector::{append_signed_decimal, signed_decimal};

verus! {

/// Named counters: each key seen so far with the number of times it was
/// counted, in the order the keys were first seen.
pub struct CounterTable {
    entries: Vec<(String, i64)>,
    model: Ghost<Map<Seq<char>, i64>>,
}

impl View for CounterTable {
    type V = Map<Seq<char>, i64>;

    closed spec fn view(&self) -> Map<Seq<char>, i64> {
        self.model@
    }
}

/// The listing form: one `key: count` line per entry.
pub open spec fn listing_text(entries: Seq<(Seq<char>, i64)>) -> Seq<char>
    decreases entries.len(),
{
    if entries.len() == 0 {
        Seq::empty()
    } else {
        listing_text(entries.drop_last()) + entries.last().0 + ": "@ + signed_decimal(
            entries.last().1 as int,
        ) + seq!['\n']
    }
}

/// Keys and counts, keys as character sequences.
pub open spec fn pairs_view(pairs: Seq<(String, i64)>) -> Seq<(Seq<char>, i64)> {
    Seq::new(pairs.len(), |i: int| (pairs[i].0@, pairs[i].1))
}

/// One `key: count` line per pair, in the given order.
pub fn listing_of(pairs: &Vec<(String, i64)>) -> (r: String)
    ensures
        r@ == listing_text(pairs_view(pairs@)),
{
    let ghost all = pairs_view(pairs@);
    let mut s = String::new();
    let mut i: usize = 0;
    while i < pairs.len()
        invariant
            all == pairs_view(pairs@),
            i <= pairs@.len(),
            s@ == listing_text(all.subrange(0, i as int)),
        decreases pairs@.len() - i,
    {
        let ghost before = all.subrange(0, i as int);
        let ghost next = all.subrange(0, i as int + 1);
        assert(next.drop_last() =~= before);
        s.append(pairs[i].0.as_str());
        proof { reveal_strlit(": "); }
        s.append(": ");
        append_signed_decimal(&mut s, pairs[i].1 as i128);
        proof { reveal_strlit("\n"); }
        s.append("\n");
        i = i + 1;
        assert(s@ =~= listing_text(all.subrange(0, i as int)));
    }
    assert(all.subrange(0, i as int) =~= all);
    s
}

impl CounterTable {
    /// The entries in order of first appearance, keys as character sequences.
    pub closed spec fn ordered(&self) -> Seq<(Seq<char>, i64)> {
        Seq::new(self.entries@.len(), |i: int| (self.entries@[i].0@, self.entries@[i].1))
    }

    /// Keys are distinct, every key of the map has an entry and every count is
    /// positive.
    pub closed spec fn wf(&self) -> bool {
        &&& forall|i: int|
            0 <= i < self.entries@.len() ==> self.model@.contains_key(
                (#[trigger] self.entries@[i]).0@,
            ) && self.model@[self.entries@[i].0@] == self.entries@[i].1 && self.entries@[i].1 >= 1
        &&& forall|k: Seq<char>|
            #[trigger] self.model@.contains_key(k) ==> exists|i: int|
                0 <= i < self.entries@.len() && (#[trigger] self.entries@[i]).0@ == k
        &&& forall|i: int, j: int|
            0 <= i < self.entries@.len() && 0 <= j < self.entries@.len() && i != j ==> (
            #[trigger] self.entries@[i]).0@ != (#[trigger] self.entries@[j]).0@
    }

    pub fn new() -> (r: Self)
        ensures
            r.wf(),
            r@ == Map::<Seq<char>, i64>::empty(),
    {
        CounterTable { entries: Vec::new(), model: Ghost(Map::empty()) }
    }

    /// The position of `key` among the entries, if present.
    fn find(&self, key: &String) -> (r: Option<usize>)
        requires
            self.wf(),
        ensures
            r is None <==> !self@.contains_key(key@),
            r is Some ==> r->Some_0 < self.entries@.len() && self.entries@[r->Some_0 as int].0@
                == key@,
    {
        let mut i: usize = 0;
        while i < self.entries.len()
            invariant
                self.wf(),
                i <= self.entries@.len(),
                forall|m: int| 0 <= m < i ==> (#[trigger] self.entries@[m]).0@ != key@,
            decreases self.entries@.len() - i,
        {
            if self.entries[i].0 == *key {
                return Some(i);
            }
            i = i + 1;
        }
        proof {
            if self@.contains_key(key@) {
                let w = choose|w: int| 0 <= w < self.entries@.len() && (#[trigger] self.entries@[w]).0@ == key@;
                assert(self.entries@[w].0@ != key@);
            }
        }
        None
    }

    /// The count of `key`, if it has been counted.
    pub fn get(&self, key: &str) -> (r: Option<i64>)
        requires
            self.wf(),
        ensures
            r == (if self@.contains_key(key@) { Some(self@[key@]) } else { None::<i64> }),
    {
        let k = key.to_owned();
        match self.find(&k) {
            Some(i) => Some(self.entries[i].1),
            None => None,
        }
    }

    /// The number of distinct keys.
    pub fn len(&self) -> (r: usize)
        requires
            self.wf(),
        ensures
            r == self@.dom().len(),
    {
        proof {
            self.lemma_dom_len();
        }
        self.entries.len()
    }

    proof fn lemma_dom_len(&self)
        requires
            self.wf(),
        ensures
            self@.dom().len() == self.entries@.len(),
            self@.dom().finite(),
    {
        let keys = self.ordered().map_values(|e: (Seq<char>, i64)| e.0);
        assert(keys.no_duplicates()) by {
            assert forall|i: int, j: int| 0 <= i < keys.len() && 0 <= j < keys.len() && i != j implies keys[i] != keys[j] by {
                assert(self.entries@[i].0@ != self.entries@[j].0@);
            }
        }
        assert(keys.to_set() =~= self@.dom()) by {
            assert forall|k: Seq<char>| self@.dom().contains(k) implies keys.to_set().contains(k) by {
                let w = choose|w: int| 0 <= w < self.entries@.len() && (#[trigger] self.entries@[w]).0@ == k;
                assert(keys[w] == k);
            }
            assert forall|k: Seq<char>| keys.to_set().contains(k) implies self@.dom().contains(k) by {
                let w = choose|w: int| 0 <= w < keys.len() && keys[w] == k;
                assert(self.entries@[w].0@ == k);
            }
        }
        keys.unique_seq_to_set();
    }

    /// An independent copy of the table.
    pub fn copy(&self) -> (r: Self)
        requires
            self.wf(),
        ensures
            r.wf(),
            r@ == self@,
            r.ordered() == self.ordered(),
    {
        let mut entries: Vec<(String, i64)> = Vec::new();
        let mut i: usize = 0;
        while i < self.entries.len()
            invariant
                i <= self.entries@.len(),
                entries@.len() == i,
                forall|m: int| 0 <= m < i ==> (#[trigger] entries@[m]).0@ == self.entries@[m].0@
                    && entries@[m].1 == self.entries@[m].1,
            decreases self.entries@.len() - i,
        {
            let key = self.entries[i].0.clone();
            entries.push((key, self.entries[i].1));
            i = i + 1;
        }
        let r = CounterTable { entries, model: Ghost(self.model@) };
        assert(r.ordered() =~= self.ordered());
        assert forall|kk: Seq<char>| #[trigger] r.model@.contains_key(kk) implies exists|w: int|
            0 <= w < r.entries@.len() && (#[trigger] r.entries@[w]).0@ == kk by {
            let w = choose|w: int| 0 <= w < self.entries@.len() && (#[trigger] self.entries@[w]).0@ == kk;
            assert(r.entries@[w].0@ == kk);
        }
        assert forall|a: int, b: int|
            0 <= a < r.entries@.len() && 0 <= b < r.entries@.len() && a != b implies (
            #[trigger] r.entries@[a]).0@ != (#[trigger] r.entries@[b]).0@ by {
            assert(self.entries@[a].0@ != self.entries@[b].0@);
        }
        r
    }

    /// The listing form: one `key: count` line per key, in order of first
    /// appearance.
    pub fn listing(&self) -> (r: String)
        ensures
            r@ == listing_text(self.ordered()),
    {
        let r = listing_of(&self.entries);
        assert(pairs_view(self.entries@) =~= self.ordered());
        r
    }

    /// Counts one more occurrence of `key`, starting from zero for a new key.
    pub fn increment(&mut self, key: &str) -> (r: Result<(), MetricsError>)
        requires
            old(self).wf(),
        ensures
            final(self).wf(),
            r is Err <==> old(self)@.contains_key(key@) && old(self)@[key@] == i64::MAX,
            r is Ok ==> final(self)@ == old(self)@.insert(
                key@,
                if old(self)@.contains_key(key@) { (old(self)@[key@] + 1) as i64 } else { 1 },
            ),
            r is Err ==> r == Err::<(), MetricsError>(MetricsError::Overflow) && final(self)@ == old(
                self,
            )@,
    {
        let k = key.to_owned();
        match self.find(&k) {
            Some(i) => {
                let c = self.entries[i].1;
                if c == i64::MAX {
                    return Err(MetricsError::Overflow);
                }
                let ghost new_model = self.model@.insert(k@, (c + 1) as i64);
                self.entries.set(i, (k, c + 1));
                self.model = Ghost(new_model);
                assert forall|kk: Seq<char>| #[trigger] self.model@.contains_key(kk) implies exists|w: int|
                    0 <= w < self.entries@.len() && (#[trigger] self.entries@[w]).0@ == kk by {
                    if kk != key@ {
                        let w = choose|w: int| 0 <= w < old(self).entries@.len() && (#[trigger] old(self).entries@[w]).0@ == kk;
                        assert(self.entries@[w].0@ == kk);
                    } else {
                        assert(self.entries@[i as int].0@ == kk);
                    }
                }
                Ok(())
            },
            None => {
                let ghost new_model = self.model@.insert(k@, 1);
                self.entries.push((k, 1));
                self.model = Ghost(new_model);
                assert forall|kk: Seq<char>| #[trigger] self.model@.contains_key(kk) implies exists|w: int|
                    0 <= w < self.entries@.len() && (#[trigger] self.entries@[w]).0@ == kk by {
                    if kk != key@ {
                        let w = choose|w: int| 0 <= w < old(self).entries@.len() && (#[trigger] old(self).entries@[w]).0@ == kk;
                        assert(self.entries@[w].0@ == kk);
                    } else {
                        assert(self.entries@[self.entries@.len() - 1].0@ == kk);
                    }
                }
                Ok(())
            },
        }
    }
}

} // verus!
