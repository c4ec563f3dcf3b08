//! Execution reports of the liquidity provider and the books that hold them until the
//! order they answer is looked up.
use vstd::prelude::*;

verus! {

/// Where an order stands, as an execution report of the liquidity provider tells it.
#[derive(Debug, Clone, Copy, PartialEq, Eq, Structural)]
pub enum OrderStatus {
    PendingNew,
    PartiallyFilled,
    Filled,
    Canceled,
    Rejected,
}

/// An execution report: the order it answers, where that order stands, and the rest of the
/// report, which this library carries through without reading it.
#[derive(Debug)]
pub struct ExecutionReport<R> {
    pub internal_order_id: String,
    pub status: OrderStatus,
    pub model: R,
}

/// What a map holds under a key, if anything.
pub open spec fn lookup<K, V>(m: Map<K, V>, k: K) -> Option<V> {
    if m.dom().contains(k) {
        Some(m[k])
    } else {
        None
    }
}

/// Execution reports keyed by the order id that they answer. An order id occurs at most once;
/// a report for an id that is already present takes the place of the earlier one.
///
/// The book is a vector of entries with distinct ids, not a `HashMap<String, _>`: vstd's
/// specification of `HashMap` holds only for keys that obey its key model, which `String` does
/// not, so with `String` order ids nothing could be proved of the map's contents. The model
/// map is the view; the order of the entries is never observable.
pub struct ReportBook<R> {
    entries: Vec<ExecutionReport<R>>,
    model: Ghost<Map<Seq<char>, ExecutionReport<R>>>,
}

impl<R> View for ReportBook<R> {
    type V = Map<Seq<char>, ExecutionReport<R>>;

    closed spec fn view(&self) -> Map<Seq<char>, ExecutionReport<R>> {
        self.model@
    }
}

/// Every key of a model that is extended by `key` is still held by an entry, when the entries
/// keep the ids of the earlier ones and hold `key` at `at`.
proof fn lemma_keys_still_held<R>(
    old_entries: Seq<ExecutionReport<R>>,
    new_entries: Seq<ExecutionReport<R>>,
    old_model: Map<Seq<char>, ExecutionReport<R>>,
    key: Seq<char>,
    report: ExecutionReport<R>,
    at: int,
)
    requires
        forall|k: Seq<char>|
            #[trigger] old_model.dom().contains(k) ==> exists|i: int|
                0 <= i < old_entries.len() && #[trigger] old_entries[i].internal_order_id@ == k,
        old_entries.len() <= new_entries.len(),
        forall|j: int| 0 <= j < old_entries.len() ==> #[trigger] new_entries[j].internal_order_id@ == old_entries[j].internal_order_id@,
        0 <= at < new_entries.len(),
        new_entries[at].internal_order_id@ == key,
    ensures
        forall|k: Seq<char>|
            #[trigger] old_model.insert(key, report).dom().contains(k) ==> exists|i: int|
                0 <= i < new_entries.len() && #[trigger] new_entries[i].internal_order_id@ == k,
{
    assert forall|k: Seq<char>| #[trigger] old_model.insert(key, report).dom().contains(k) implies exists|i: int|
        0 <= i < new_entries.len() && #[trigger] new_entries[i].internal_order_id@ == k by {
        if k != key {
            let j = choose|j: int| 0 <= j < old_entries.len() && #[trigger] old_entries[j].internal_order_id@ == k;
            assert(new_entries[j].internal_order_id@ == k);
        }
    }
}

impl<R> ReportBook<R> {
    /// The entries hold each order id once, and the model maps each id to its entry.
    pub closed spec fn wf(&self) -> bool {
        &&& forall|i: int, j: int|
            0 <= i < j < self.entries@.len() ==> #[trigger] self.entries@[i].internal_order_id@
                != #[trigger] self.entries@[j].internal_order_id@
        &&& forall|i: int|
            0 <= i < self.entries@.len() ==> {
                &&& self.model@.dom().contains(#[trigger] self.entries@[i].internal_order_id@)
                &&& self.model@[self.entries@[i].internal_order_id@] == self.entries@[i]
            }
        &&& forall|k: Seq<char>|
            #[trigger] self.model@.dom().contains(k) ==> exists|i: int|
                0 <= i < self.entries@.len() && #[trigger] self.entries@[i].internal_order_id@ == k
    }

    /// An empty book.
    pub fn new() -> (book: Self)
        ensures
            book.wf(),
            book@ == Map::<Seq<char>, ExecutionReport<R>>::empty(),
    {
        ReportBook { entries: Vec::new(), model: Ghost(Map::empty()) }
    }

    /// The index of the entry for `id`, if there is one.
    fn position_of(&self, id: &String) -> (r: Option<usize>)
        requires
            self.wf(),
        ensures
            match r {
                Some(i) => i < self.entries@.len() && self.entries@[i as int].internal_order_id@
                    == id@,
                None => !self@.dom().contains(id@),
            },
    {
        let mut i: usize = 0;
        while i < self.entries.len()
            invariant
                self.wf(),
                0 <= i <= self.entries@.len(),
                forall|j: int| 0 <= j < i ==> #[trigger] self.entries@[j].internal_order_id@ != id@,
            decreases self.entries@.len() - i,
        {
            if self.entries[i].internal_order_id == *id {
                return Some(i);
            }
            i = i + 1;
        }
        proof {
            if self@.dom().contains(id@) {
                let j = choose|j: int|
                    0 <= j < self.entries@.len() && #[trigger] self.entries@[j].internal_order_id@
                        == id@;
                assert(self.entries@[j].internal_order_id@ != id@);
            }
        }
        None
    }

    /// Records `report` under the id of the order it answers, in place of any report held
    /// for that id.
    pub fn insert(&mut self, report: ExecutionReport<R>)
        requires
            old(self).wf(),
        ensures
            final(self).wf(),
            final(self)@ == old(self)@.insert(report.internal_order_id@, report),
    {
        let ghost key = report.internal_order_id@;
        let ghost old_entries = self.entries@;
        let ghost new_model = self.model@.insert(key, report);
        match self.position_of(&report.internal_order_id) {
            Some(i) => {
                self.entries.set(i, report);
                self.model = Ghost(new_model);
                proof {
                    lemma_keys_still_held(old_entries, self.entries@, old(self).model@, key, report, i as int);
                }
            },
            None => {
                self.entries.push(report);
                self.model = Ghost(new_model);
                proof {
                    lemma_keys_still_held(old_entries, self.entries@, old(self).model@, key, report, old_entries.len() as int);
                }
            },
        }
    }

    /// Takes out the report held for `id`, if any.
    pub fn remove(&mut self, id: &String) -> (r: Option<ExecutionReport<R>>)
        requires
            old(self).wf(),
        ensures
            final(self).wf(),
            r == lookup(old(self)@, id@),
            final(self)@ == old(self)@.remove(id@),
    {
        match self.position_of(id) {
            Some(i) => {
                let ghost old_entries = self.entries@;
                let ghost new_model = self.model@.remove(id@);
                let report = self.entries.remove(i);
                self.model = Ghost(new_model);
                assert forall|j: int| 0 <= j < self.entries@.len() implies {
                    &&& self.model@.dom().contains(#[trigger] self.entries@[j].internal_order_id@)
                    &&& self.model@[self.entries@[j].internal_order_id@] == self.entries@[j]
                } by {
                    if j < i {
                        assert(self.entries@[j] == old_entries[j]);
                    } else {
                        assert(self.entries@[j] == old_entries[j + 1]);
                    }
                }
                assert forall|a: int, b: int|
                    0 <= a < b < self.entries@.len() implies #[trigger] self.entries@[a].internal_order_id@
                    != #[trigger] self.entries@[b].internal_order_id@ by {
                    let oa = if a < i {
                        a
                    } else {
                        a + 1
                    };
                    let ob = if b < i {
                        b
                    } else {
                        b + 1
                    };
                    assert(self.entries@[a] == old_entries[oa]);
                    assert(self.entries@[b] == old_entries[ob]);
                }
                assert forall|k: Seq<char>| #[trigger] self.model@.dom().contains(k) implies exists|
                    j: int,
                |
                    0 <= j < self.entries@.len() && #[trigger] self.entries@[j].internal_order_id@
                        == k by {
                    let j = choose|j: int|
                        0 <= j < old_entries.len() && #[trigger] old_entries[j].internal_order_id@
                            == k;
                    if j < i {
                        assert(self.entries@[j] == old_entries[j]);
                    } else {
                        assert(j != i);
                        assert(self.entries@[j - 1] == old_entries[j]);
                    }
                }
                Some(report)
            },
            None => {
                assert(self.model@.remove(id@) =~= self.model@);
                None
            },
        }
    }
}

} // verus!
