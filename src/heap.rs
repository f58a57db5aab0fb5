use vstd::prelude::*;

use crate::assoc::{
    assoc_map, find_key, keys_distinct, lemma_assoc_dom, lemma_assoc_index, lemma_assoc_push,
    lemma_assoc_update,
};
use crate::record::{merge, LispRecord, RecordModel};

verus! {

/// What storing `r` at `k` makes of the heap `h`: a symbol that already
/// holds a record keeps those of its properties that `r` does not set.
pub open spec fn heap_store(h: Map<Seq<char>, RecordModel>, k: Seq<char>, r: RecordModel) -> Map<
    Seq<char>,
    RecordModel,
> {
    h.insert(
        k,
        if h.contains_key(k) {
            merge(h[k], r)
        } else {
            r
        },
    )
}

/// Storing two records with disjoint property keys at a fresh symbol, one
/// after the other, leaves the second record's value and the properties of
/// both.
pub proof fn lemma_store_twice_disjoint(
    h: Map<Seq<char>, RecordModel>,
    s: Seq<char>,
    r1: RecordModel,
    r2: RecordModel,
)
    requires
        !h.contains_key(s),
        r1.props.dom().disjoint(r2.props.dom()),
    ensures
        heap_store(heap_store(h, s, r1), s, r2)[s].val == r2.val,
        heap_store(heap_store(h, s, r1), s, r2)[s].props.dom() == r1.props.dom().union(
            r2.props.dom(),
        ),
        forall|k: Seq<char>| #[trigger]
            r1.props.contains_key(k) ==> heap_store(heap_store(h, s, r1), s, r2)[s].props[k]
                == r1.props[k],
        forall|k: Seq<char>| #[trigger]
            r2.props.contains_key(k) ==> heap_store(heap_store(h, s, r1), s, r2)[s].props[k]
                == r2.props[k],
        forall|t: Seq<char>| t != s ==> #[trigger] heap_store(heap_store(h, s, r1), s, r2).contains_key(t)
            == h.contains_key(t),
{
    let res = heap_store(heap_store(h, s, r1), s, r2)[s];
    assert(res.props.dom() =~= r1.props.dom().union(r2.props.dom()));
}

/// Storing over a symbol that holds a record replaces the value, takes each
/// property that the new record sets, and keeps every other property of the
/// old record.
pub proof fn lemma_store_overwrites_only_given_keys(
    h: Map<Seq<char>, RecordModel>,
    s: Seq<char>,
    r: RecordModel,
)
    requires
        h.contains_key(s),
    ensures
        heap_store(h, s, r)[s].val == r.val,
        forall|k: Seq<char>| #[trigger]
            r.props.contains_key(k) ==> heap_store(h, s, r)[s].props[k] == r.props[k],
        forall|k: Seq<char>|
            !r.props.contains_key(k) && #[trigger] h[s].props.contains_key(k) ==> heap_store(
                h,
                s,
                r,
            )[s].props.contains_key(k) && heap_store(h, s, r)[s].props[k] == h[s].props[k],
        forall|k: Seq<char>| #[trigger]
            heap_store(h, s, r)[s].props.contains_key(k) <==> r.props.contains_key(k)
                || h[s].props.contains_key(k),
        forall|t: Seq<char>| t != s ==> #[trigger] heap_store(h, s, r).get(t) == h.get(t),
{
}

/// A symbol store that a program can run against: storing keeps the
/// properties that the new record does not set, reading hands out a copy.
pub trait Heap {
    /// What the store holds, symbol by symbol.
    spec fn contents(&self) -> Map<Seq<char>, RecordModel>;

    /// The store's own invariant.
    spec fn inv(&self) -> bool;

    fn insert(&mut self, symbol: String, value: LispRecord)
        requires
            old(self).inv(),
        ensures
            final(self).inv(),
            final(self).contents() == heap_store(old(self).contents(), symbol@, value@),
    ;

    fn get(&self, symbol: &String) -> (r: Option<LispRecord>)
        requires
            self.inv(),
        ensures
            r is Some == self.contents().contains_key(symbol@),
            r is Some ==> r->Some_0@ == self.contents()[symbol@],
    ;
}

/// The symbol store that programs read and write.
#[derive(Debug)]
pub struct LispHeap {
    entries: Vec<(String, LispRecord)>,
}

impl View for LispHeap {
    type V = Map<Seq<char>, RecordModel>;

    closed spec fn view(&self) -> Map<Seq<char>, RecordModel> {
        assoc_map(self.entries@)
    }
}

impl LispHeap {
    pub closed spec fn wf(&self) -> bool {
        keys_distinct(self.entries@)
    }

    pub fn new() -> (r: LispHeap)
        ensures
            r.wf(),
            r@ == Map::<Seq<char>, RecordModel>::empty(),
    {
        let r = LispHeap { entries: Vec::new() };
        assert(r@ =~= Map::empty());
        r
    }

    /// Stores a record at a symbol, keeping the properties of the record it
    /// replaces that the new one does not set.
    pub fn insert(&mut self, symbol: String, value: LispRecord)
        requires
            old(self).wf(),
        ensures
            final(self).wf(),
            final(self)@ == heap_store(old(self)@, symbol@, value@),
    {
        proof {
            lemma_assoc_dom(self.entries@, symbol@);
        }
        match find_key(&self.entries, &symbol) {
            Some(i) => {
                proof {
                    lemma_assoc_index(self.entries@, i as int);
                }
                let stored = value.merged_over(&self.entries[i].1);
                proof {
                    lemma_assoc_update(self.entries@, i as int, (symbol, stored));
                }
                self.entries.set(i, (symbol, stored));
            },
            None => {
                proof {
                    lemma_assoc_push(self.entries@, (symbol, value));
                    assert(keys_distinct(self.entries@.push((symbol, value))));
                }
                self.entries.push((symbol, value));
            },
        }
    }

    /// A copy of the record stored at a symbol, if there is one.
    pub fn get(&self, symbol: &String) -> (r: Option<LispRecord>)
        requires
            self.wf(),
        ensures
            r is Some == self@.contains_key(symbol@),
            r is Some ==> r->Some_0@ == self@[symbol@],
    {
        proof {
            lemma_assoc_dom(self.entries@, symbol@);
        }
        match find_key(&self.entries, symbol) {
            Some(i) => {
                proof {
                    lemma_assoc_index(self.entries@, i as int);
                }
                Some(self.entries[i].1.duplicate())
            },
            None => None,
        }
    }
}

impl Heap for LispHeap {
    open spec fn contents(&self) -> Map<Seq<char>, RecordModel> {
        self@
    }

    open spec fn inv(&self) -> bool {
        self.wf()
    }

    fn insert(&mut self, symbol: String, value: LispRecord) {
        LispHeap::insert(self, symbol, value)
    }

    fn get(&self, symbol: &String) -> (r: Option<LispRecord>) {
        LispHeap::get(self, symbol)
    }
}

} // verus!
