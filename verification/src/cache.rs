//! The cache of program headers, least recently used first out.
//!
//! The order of use is kept by `uluru::LRUCache`, over the numbers of the
//! files; the headers themselves are kept beside it.

use vstd::prelude::*;
use uluru::LRUCache;
use crate::image::{ElfCacheEntry, ElfImage};

verus! {

/// How many programs the cache holds.
pub const CACHE_SIZE: usize = 32;

/// The type `uluru::LRUCache`. Nothing is known of its insides.
#[verifier::external_type_specification]
#[verifier::external_body]
#[verifier::reject_recursive_types(T)]
pub struct ExLruCache<T, const N: usize>(uluru::LRUCache<T, N>);

/// The items of a cache, most recently used first.
pub uninterp spec fn lru_items(c: LRUCache<u64, 32>) -> Seq<u64>;

/// `uluru::LRUCache::new`. Trusted: the new cache is empty.
#[verifier::external_body]
fn lru_new() -> (r: LRUCache<u64, 32>)
    ensures
        lru_items(r) == Seq::<u64>::empty(),
{
    LRUCache::new()
}

/// `uluru::LRUCache::touch`, for the item that equals `item`. Trusted: tells
/// whether the item is there, and moves its most recent occurrence to the
/// front.
#[verifier::external_body]
fn lru_touch(c: &mut LRUCache<u64, 32>, item: u64) -> (r: bool)
    ensures
        r == lru_items(*old(c)).contains(item),
        lru_items(*final(c)) == (if r {
            seq![item] + lru_items(*old(c)).remove_value(item)
        } else {
            lru_items(*old(c))
        }),
{
    c.touch(|x| *x == item)
}

/// `uluru::LRUCache::insert`. Trusted: the item becomes the front; if the
/// cache is full, the back is removed and returned.
#[verifier::external_body]
fn lru_insert(c: &mut LRUCache<u64, 32>, item: u64) -> (r: Option<u64>)
    ensures
        lru_items(*old(c)).len() < CACHE_SIZE ==> r is None && lru_items(*final(c)) == seq![item]
            + lru_items(*old(c)),
        lru_items(*old(c)).len() >= CACHE_SIZE ==> r == Some(lru_items(*old(c)).last())
            && lru_items(*final(c)) == seq![item] + lru_items(*old(c)).drop_last(),
{
    c.insert(item)
}

/// `uluru::LRUCache::front`. Trusted: the most recently used item.
#[verifier::external_body]
fn lru_front(c: &LRUCache<u64, 32>) -> (r: Option<u64>)
    ensures
        r == (if lru_items(*c).len() > 0 { Some(lru_items(*c)[0]) } else { None::<u64> }),
{
    c.front().copied()
}

/// `uluru::LRUCache::iter`. Trusted: hands the items out, most recently used
/// first.
#[verifier::external_body]
fn lru_iter(c: &LRUCache<u64, 32>) -> (r: Vec<u64>)
    ensures
        r@ == lru_items(*c),
{
    c.iter().copied().collect()
}

/// `uluru::LRUCache::clear`. Trusted: the cache is empty afterwards.
#[verifier::external_body]
fn lru_clear(c: &mut LRUCache<u64, 32>)
    ensures
        lru_items(*final(c)) == Seq::<u64>::empty(),
{
    c.clear();
}

/// The cache of program headers.
pub struct ElfLoader {
    order: LRUCache<u64, 32>,
    entries: Vec<ElfCacheEntry>,
}

/// Whether the entry at `j` is the one of the file at `location`.
pub open spec fn is_entry_of(entries: Seq<ElfCacheEntry>, location: u64, j: int) -> bool {
    0 <= j < entries.len() && entries[j].location == location
}

/// Whether `entries` holds the headers of the file at `location`.
pub open spec fn has_entry(entries: Seq<ElfCacheEntry>, location: u64) -> bool {
    exists|j: int| is_entry_of(entries, location, j)
}

/// The headers that `entries` holds of the file at `location`.
pub open spec fn image_of(entries: Seq<ElfCacheEntry>, location: u64) -> ElfImage {
    entries[choose|j: int| is_entry_of(entries, location, j)]@
}

/// Whether `entries` holds one well-formed entry for each of the numbers in
/// `order`, and no other entry.
pub open spec fn matching(order: Seq<u64>, entries: Seq<ElfCacheEntry>) -> bool {
    &&& order.no_duplicates()
    &&& order.len() <= CACHE_SIZE
    &&& forall|i: int, j: int|
        #![trigger entries[i], entries[j]]
        0 <= i < j < entries.len() ==> entries[i].location != entries[j].location
    &&& forall|j: int|
        #![trigger entries[j]]
        0 <= j < entries.len() ==> entries[j].wf() && order.contains(entries[j].location)
    &&& forall|i: int|
        #![trigger order[i]]
        0 <= i < order.len() ==> has_entry(entries, order[i])
}

/// Whether the headers of the file at `location` are in the cache.
pub open spec fn cached(c: Seq<ElfImage>, location: u64) -> bool {
    exists|i: int| 0 <= i < c.len() && (#[trigger] c[i]).location == location
}

/// Where in the cache the headers of the file at `location` are.
pub open spec fn place(c: Seq<ElfImage>, location: u64) -> int {
    choose|i: int| 0 <= i < c.len() && (#[trigger] c[i]).location == location
}

/// The cache after a use of the headers of the file at `location`.
pub open spec fn after_touch(c: Seq<ElfImage>, location: u64) -> Seq<ElfImage> {
    if cached(c, location) {
        seq![c[place(c, location)]] + c.remove(place(c, location))
    } else {
        c
    }
}

/// The cache after new headers came in: they are in front, and the least
/// recently used ones give way if there is no room.
pub open spec fn after_insert(c: Seq<ElfImage>, e: ElfImage) -> Seq<ElfImage> {
    seq![e] + (if c.len() < CACHE_SIZE {
        c
    } else {
        c.drop_last()
    })
}

/// New headers are in front, and push out the least recently used ones at most.
pub proof fn law_eviction(c: Seq<ElfImage>, e: ElfImage)
    requires
        c.len() <= CACHE_SIZE,
    ensures
        after_insert(c, e).len() <= CACHE_SIZE,
        after_insert(c, e)[0] == e,
        forall|i: int|
            0 <= i < c.len() && i < CACHE_SIZE - 1 ==> after_insert(c, e)[i + 1] == #[trigger] c[i],
{
}

/// A use of headers that are in the cache brings them to the front, and loses
/// none.
pub proof fn law_touch(c: Seq<ElfImage>, location: u64)
    requires
        cached(c, location),
    ensures
        after_touch(c, location)[0].location == location,
        after_touch(c, location).to_multiset() == c.to_multiset(),
{
    broadcast use vstd::multiset::group_multiset_axioms;
    broadcast use vstd::seq_lib::group_to_multiset_ensures;

    let k = place(c, location);
    assert(c[k].location == location);
    let t = after_touch(c, location);
    assert(t =~= c.remove(k).insert(0, c[k]));
    vstd::seq_lib::to_multiset_insert(c.remove(k), 0, c[k]);
    vstd::seq_lib::to_multiset_remove(c, k);
    assert(t.to_multiset() =~= c.to_multiset());
}

proof fn lemma_image_of(entries: Seq<ElfCacheEntry>, location: u64, j: int)
    requires
        is_entry_of(entries, location, j),
        forall|i: int, k: int|
            #![trigger entries[i], entries[k]]
            0 <= i < k < entries.len() ==> entries[i].location != entries[k].location,
    ensures
        image_of(entries, location) == entries[j]@,
{
    let i = choose|i: int| is_entry_of(entries, location, i);
    assert(is_entry_of(entries, location, i));
    if i < j {
        assert(entries[i].location != entries[j].location);
    } else if j < i {
        assert(entries[j].location != entries[i].location);
    }
}

impl View for ElfLoader {
    type V = Seq<ElfImage>;

    /// The headers in the cache, most recently used first.
    closed spec fn view(&self) -> Seq<ElfImage> {
        lru_items(self.order).map_values(|l: u64| image_of(self.entries@, l))
    }
}

impl ElfLoader {
    /// Whether the cache holds one entry for each file in its order of use.
    pub closed spec fn wf(self) -> bool {
        matching(lru_items(self.order), self.entries@)
    }

    /// What holds of the headers in a well-formed cache: they are valid, no
    /// file is there twice, and there are no more than fit.
    pub proof fn law_cache(self)
        requires
            self.wf(),
        ensures
            self@.len() <= CACHE_SIZE,
            forall|i: int| 0 <= i < self@.len() ==> (#[trigger] self@[i]).valid(),
            forall|i: int, j: int|
                #![trigger self@[i], self@[j]]
                0 <= i < j < self@.len() ==> self@[i].location != self@[j].location,
    {
        let order = lru_items(self.order);
        assert forall|i: int| 0 <= i < self@.len() implies (#[trigger] self@[i]).valid()
            && self@[i].location == order[i] by {
            assert(has_entry(self.entries@, order[i]));
            let j = choose|j: int| is_entry_of(self.entries@, order[i], j);
            lemma_image_of(self.entries@, order[i], j);
            assert(self.entries@[j].wf());
        }
    }

    /// The numbers in the order of use are those of the headers.
    proof fn lemma_locations(self)
        requires
            self.wf(),
        ensures
            self@.len() == lru_items(self.order).len(),
            forall|i: int|
                0 <= i < self@.len() ==> (#[trigger] self@[i]).location == lru_items(self.order)[i],
    {
        let order = lru_items(self.order);
        assert forall|i: int| 0 <= i < self@.len() implies (#[trigger] self@[i]).location
            == order[i] by {
            assert(has_entry(self.entries@, order[i]));
            let j = choose|j: int| is_entry_of(self.entries@, order[i], j);
            lemma_image_of(self.entries@, order[i], j);
        }
    }

    /// An empty cache.
    pub fn new() -> (r: ElfLoader)
        ensures
            r.wf(),
            r@ == Seq::<ElfImage>::empty(),
    {
        let r = ElfLoader { order: lru_new(), entries: Vec::new() };
        assert(r@ =~= Seq::<ElfImage>::empty());
        r
    }

    /// Tells whether the headers of the file at `location` are in the cache,
    /// and counts this as a use of them.
    pub fn touch(&mut self, location: u64) -> (r: bool)
        requires
            old(self).wf(),
        ensures
            final(self).wf(),
            r == cached(old(self)@, location),
            final(self)@ == after_touch(old(self)@, location),
    {
        let ghost order = lru_items(self.order);
        proof {
            self.lemma_locations();
        }
        let r = lru_touch(&mut self.order, location);
        proof {
            let now = lru_items(self.order);
            let c = old(self)@;
            if r {
                let k = order.index_of(location);
                assert(c[k].location == location);
                assert(place(c, location) == k) by {
                    let i = place(c, location);
                    assert(order[i] == location);
                }
                lemma_remove_value(order, k);
                lemma_move_to_front(order, k);
                lemma_reordered(order, now, self.entries@);
                assert(self@ =~= after_touch(c, location));
            } else {
                assert(!cached(c, location)) by {
                    if cached(c, location) {
                        let i = place(c, location);
                        assert(order[i] == location);
                    }
                }
            }
        }
        r
    }

    /// Where the entry of the file at `location` is kept.
    fn find(&self, location: u64) -> (r: usize)
        requires
            has_entry(self.entries@, location),
        ensures
            is_entry_of(self.entries@, location, r as int),
    {
        let ghost w = choose|j: int| is_entry_of(self.entries@, location, j);
        let mut i: usize = 0;
        while self.entries[i].location != location
            invariant
                i <= w,
                is_entry_of(self.entries@, location, w),
            decreases w - i,
        {
            assert(w < self.entries.len());
            i = i + 1;
        }
        i
    }

    /// Takes in the headers of a file that are not in the cache.
    pub fn insert(&mut self, entry: ElfCacheEntry)
        requires
            old(self).wf(),
            entry.wf(),
            !cached(old(self)@, entry.location),
        ensures
            final(self).wf(),
            final(self)@ == after_insert(old(self)@, entry@),
    {
        let ghost order = lru_items(self.order);
        let ghost entries = self.entries@;
        proof {
            self.lemma_locations();
            assert(!order.contains(entry.location)) by {
                if order.contains(entry.location) {
                    let i = order.index_of(entry.location);
                    assert(self@[i].location == entry.location);
                }
            }
        }
        let ghost kept = if order.len() < CACHE_SIZE { order } else { order.drop_last() };
        match lru_insert(&mut self.order, entry.location) {
            None => {},
            Some(evicted) => {
                assert(has_entry(self.entries@, order[order.len() - 1]));
                let j = self.find(evicted);
                let _old = self.entries.swap_remove(j);
                proof {
                    lemma_removed(order, entries, j as int);
                    assert(self.entries@ =~= entries.update(j as int, entries.last()).drop_last());
                }
            },
        }
        let ghost rest = self.entries@;
        assert(!kept.contains(entry.location));
        self.entries.push(entry);
        proof {
            lemma_added(kept, rest, entry);
            assert(lru_items(self.order) == seq![entry.location] + kept);
            assert(self@ =~= after_insert(old(self)@, entry@)) by {
                assert forall|i: int| 0 <= i < kept.len() implies image_of(
                    rest,
                    #[trigger] kept[i],
                ) == image_of(entries, kept[i]) by {
                    assert(kept[i] == order[i]);
                }
            }
        }
    }

    /// The most recently used headers.
    pub fn first(&self) -> (r: Option<&ElfCacheEntry>)
        requires
            self.wf(),
        ensures
            match r {
                Some(e) => self@.len() > 0 && e.wf() && e@ == self@[0],
                None => self@.len() == 0,
            },
    {
        match lru_front(&self.order) {
            None => None,
            Some(location) => {
                assert(has_entry(self.entries@, lru_items(self.order)[0]));
                let j = self.find(location);
                proof {
                    lemma_image_of(self.entries@, location, j as int);
                }
                Some(&self.entries[j])
            },
        }
    }

    /// The headers at position `i` in the order of use, the most recently used
    /// ones being at position zero.
    pub fn nth(&self, i: usize) -> (r: Option<&ElfCacheEntry>)
        requires
            self.wf(),
        ensures
            match r {
                Some(e) => i < self@.len() && e.wf() && e@ == self@[i as int],
                None => self@.len() <= i,
            },
    {
        let order = lru_iter(&self.order);
        if i < order.len() {
            assert(has_entry(self.entries@, lru_items(self.order)[i as int]));
            let j = self.find(order[i]);
            proof {
                lemma_image_of(self.entries@, order@[i as int], j as int);
            }
            Some(&self.entries[j])
        } else {
            None
        }
    }
}

/// Clears the cache of program headers.
pub fn clear_elf_cache(loader: &mut ElfLoader)
    ensures
        final(loader).wf(),
        final(loader)@ == Seq::<ElfImage>::empty(),
{
    lru_clear(&mut loader.order);
    loader.entries.clear();
    assert(loader@ =~= Seq::<ElfImage>::empty());
}

/// An entry goes together with its number at the end of the order.
proof fn lemma_removed(order: Seq<u64>, entries: Seq<ElfCacheEntry>, j: int)
    requires
        matching(order, entries),
        order.len() > 0,
        is_entry_of(entries, order.last(), j),
    ensures
        ({
            let rest = entries.update(j, entries.last()).drop_last();
            &&& matching(order.drop_last(), rest)
            &&& forall|i: int|
                #![trigger order[i]]
                0 <= i < order.len() - 1 ==> image_of(rest, order[i]) == image_of(entries, order[i])
        }),
{
    let rest = entries.update(j, entries.last()).drop_last();
    let kept = order.drop_last();
    assert forall|i: int, k: int|
        #![trigger rest[i], rest[k]]
        0 <= i < k < rest.len() implies rest[i].location != rest[k].location by {
        let i0 = if i == j { entries.len() - 1 } else { i };
        let k0 = if k == j { entries.len() - 1 } else { k };
        if i0 < k0 {
            assert(entries[i0].location != entries[k0].location);
        } else {
            assert(entries[k0].location != entries[i0].location);
        }
    }
    assert forall|i: int|
        #![trigger rest[i]]
        0 <= i < rest.len() implies rest[i].wf() && kept.contains(rest[i].location) by {
        let i0 = if i == j { entries.len() - 1 } else { i };
        assert(rest[i] == entries[i0]);
        let m = order.index_of(entries[i0].location);
        if i0 < j {
            assert(entries[i0].location != entries[j].location);
        } else {
            assert(entries[j].location != entries[i0].location);
        }
        assert(kept[m] == rest[i].location);
    }
    assert forall|i: int| #![trigger order[i]] 0 <= i < order.len() - 1 implies has_entry(
        rest,
        order[i],
    ) && image_of(rest, order[i]) == image_of(entries, order[i]) by {
        assert(has_entry(entries, order[i]));
        let m = choose|m: int| is_entry_of(entries, order[i], m);
        assert(m != j);
        let m0 = if m == entries.len() - 1 { j } else { m };
        assert(is_entry_of(rest, order[i], m0));
        lemma_image_of(rest, order[i], m0);
        lemma_image_of(entries, order[i], m);
    }
}

/// An entry comes in together with its number at the front of the order.
proof fn lemma_added(order: Seq<u64>, entries: Seq<ElfCacheEntry>, e: ElfCacheEntry)
    requires
        matching(order, entries),
        order.len() < CACHE_SIZE,
        !order.contains(e.location),
        e.wf(),
    ensures
        matching(seq![e.location] + order, entries.push(e)),
        image_of(entries.push(e), e.location) == e@,
        forall|i: int|
            #![trigger order[i]]
            0 <= i < order.len() ==> image_of(entries.push(e), order[i]) == image_of(
                entries,
                order[i],
            ),
{
    let now = seq![e.location] + order;
    let all = entries.push(e);
    assert forall|i: int, k: int|
        #![trigger all[i], all[k]]
        0 <= i < k < all.len() implies all[i].location != all[k].location by {
        assert(order.contains(entries[i].location));
    }
    assert forall|j: int|
        #![trigger all[j]]
        0 <= j < all.len() implies all[j].wf() && now.contains(all[j].location) by {
        if j == entries.len() {
            assert(now[0] == e.location);
        } else {
            assert(all[j] == entries[j]);
            let m = order.index_of(entries[j].location);
            assert(now[m + 1] == all[j].location);
        }
    }
    assert(is_entry_of(all, e.location, entries.len() as int));
    lemma_image_of(all, e.location, entries.len() as int);
    assert forall|i: int| #![trigger order[i]] 0 <= i < order.len() implies has_entry(all, order[i])
        && image_of(all, order[i]) == image_of(entries, order[i]) by {
        assert(has_entry(entries, order[i]));
        let m = choose|m: int| is_entry_of(entries, order[i], m);
        assert(is_entry_of(all, order[i], m));
        lemma_image_of(all, order[i], m);
        lemma_image_of(entries, order[i], m);
    }
    assert forall|i: int| #![trigger now[i]] 0 <= i < now.len() implies has_entry(all, now[i]) by {
        if i > 0 {
            assert(now[i] == order[i - 1]);
        }
    }
}

proof fn lemma_reordered(order: Seq<u64>, now: Seq<u64>, entries: Seq<ElfCacheEntry>)
    requires
        matching(order, entries),
        now.no_duplicates(),
        now.len() == order.len(),
        forall|v: u64| #[trigger] now.contains(v) <==> order.contains(v),
    ensures
        matching(now, entries),
{
    assert forall|i: int| #![trigger now[i]] 0 <= i < now.len() implies has_entry(
        entries,
        now[i],
    ) by {
        assert(now.contains(now[i]));
        let m = order.index_of(now[i]);
        assert(has_entry(entries, order[m]));
    }
}

proof fn lemma_remove_value(s: Seq<u64>, k: int)
    requires
        s.no_duplicates(),
        0 <= k < s.len(),
    ensures
        s.remove_value(s[k]) == s.remove(k),
{
    s.index_of_first_ensures(s[k]);
}

proof fn lemma_move_to_front(s: Seq<u64>, k: int)
    requires
        s.no_duplicates(),
        0 <= k < s.len(),
    ensures
        ({
            let t = seq![s[k]] + s.remove(k);
            &&& t.no_duplicates()
            &&& t.len() == s.len()
            &&& forall|v: u64| #[trigger] t.contains(v) <==> s.contains(v)
        }),
{
    let t = seq![s[k]] + s.remove(k);
    assert forall|v: u64| #[trigger] t.contains(v) <==> s.contains(v) by {
        if t.contains(v) {
            let i = t.index_of(v);
            assert(t[i] == v);
            if i == 0 {
                assert(s[k] == v);
            } else if i - 1 < k {
                assert(s[i - 1] == v);
            } else {
                assert(s[i] == v);
            }
        }
        if s.contains(v) {
            let i = s.index_of(v);
            assert(s[i] == v);
            if i == k {
                assert(t[0] == v);
            } else if i < k {
                assert(t[i + 1] == v);
            } else {
                assert(t[i] == v);
            }
        }
    }
}

// ---------- Laws ----------

/// The cache has room for 32 programs. New headers come in front of all the
/// others, which keep their order; if there were 32, the last of them leave, and
/// no others do.
pub proof fn law_inserted(c: Seq<ElfImage>, e: ElfImage)
    ensures
        ({
            let r = after_insert(c, e);
            &&& r.len() == c.len() + 1 <== c.len() < 32
            &&& r.len() == c.len() <== c.len() >= 32
            &&& r[0] == e
            &&& forall|i: int| 1 <= i < r.len() ==> #[trigger] r[i] == c[i - 1]
        }),
{
}

/// A use of headers brings them to the front and leaves the order of the others
/// as it is. A use of headers that the cache does not hold changes nothing.
pub proof fn law_used(c: Seq<ElfImage>, k: int, location: u64)
    requires
        forall|i: int, j: int|
            #![trigger c[i], c[j]]
            0 <= i < j < c.len() ==> c[i].location != c[j].location,
    ensures
        cached(c, location) <==> c.map_values(|e: ElfImage| e.location).contains(location),
        0 <= k < c.len() && c[k].location == location ==> cached(c, location) && after_touch(
            c,
            location,
        ) == seq![c[k]] + c.subrange(0, k) + c.subrange(k + 1, c.len() as int),
        !cached(c, location) ==> after_touch(c, location) == c,
{
    let ls = c.map_values(|e: ElfImage| e.location);
    if cached(c, location) {
        let i = place(c, location);
        assert(ls[i] == location);
    }
    if ls.contains(location) {
        let i = choose|i: int| 0 <= i < ls.len() && ls[i] == location;
        assert(c[i].location == location);
    }
    if 0 <= k < c.len() && c[k].location == location {
        let i = place(c, location);
        assert(c[i].location == location);
        if i < k {
            assert(c[i].location != c[k].location);
        } else if k < i {
            assert(c[k].location != c[i].location);
        }
        assert(after_touch(c, location) =~= seq![c[k]] + c.subrange(0, k) + c.subrange(
            k + 1,
            c.len() as int,
        ));
    }
}

/// The cache after all of `es` came in, one after the other.
pub open spec fn after_inserts(c: Seq<ElfImage>, es: Seq<ElfImage>) -> Seq<ElfImage>
    decreases es.len(),
{
    if es.len() == 0 {
        c
    } else {
        after_insert(after_inserts(c, es.drop_last()), es.last())
    }
}

/// Headers that were just used stay in the cache while fewer than 32 others come
/// in, which are in front of them, the last one first.
pub proof fn law_recently_used(c: Seq<ElfImage>, es: Seq<ElfImage>)
    requires
        0 < c.len() <= 32,
        es.len() < 32,
    ensures
        es.len() < after_inserts(c, es).len() <= 32,
        after_inserts(c, es)[es.len() as int] == c[0],
        forall|i: int| 0 <= i < es.len() ==> after_inserts(c, es)[es.len() - 1 - i] == #[trigger] es[i],
    decreases es.len(),
{
    if es.len() > 0 {
        let t = es.drop_last();
        law_recently_used(c, t);
        assert forall|i: int| 0 <= i < es.len() implies after_inserts(c, es)[es.len() - 1 - i]
            == #[trigger] es[i] by {
            if i < t.len() {
                assert(t[i] == es[i]);
                assert(after_inserts(c, t)[t.len() - 1 - i] == t[i]);
            }
        }
    }
}

} // verus!
