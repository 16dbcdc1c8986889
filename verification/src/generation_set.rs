//! An ordered, deduplicated collection of generations, and the
//! retention algorithm over it.
//!
//! A [`GenerationSet`] keeps its entries in strictly ascending id order
//! with at most one entry per id.  Three pure queries decide retention:
//! the count floor [`GenerationSet::get_last_n_generations`], the age
//! floor [`GenerationSet::get_active_on_or_after`], and their
//! composition [`GenerationSet::generations_to_delete`], which returns
//! everything that neither floor protects.

use vstd::prelude::*;

use crate::generation::Generation;
use crate::timestamp::Timestamp;
use crate::timestamp::lemma_ts_order;

verus! {

/// An id-sorted set of generations, at most one entry per id.
#[derive(Debug, Clone, PartialEq, Eq)]
pub struct GenerationSet {
    generations: Vec<Generation>,
}

impl View for GenerationSet {
    type V = Seq<Generation>;

    closed spec fn view(&self) -> Seq<Generation> {
        self.generations@
    }
}

/// The container invariant: entries are strictly ascending by id, which
/// also makes every id unique.
pub open spec fn sorted_by_id(s: Seq<Generation>) -> bool {
    forall|i: int, j: int| 0 <= i < j < s.len() ==> s[i].id < s[j].id
}

/// Whether some entry of `s` carries the id `id`.
pub open spec fn contains_id(s: Seq<Generation>, id: u32) -> bool {
    exists|i: int| 0 <= i < s.len() && s[i].id == id
}

/// Whether `g` is among the `n` entries of `s` with the highest ids:
/// it sits at a position from which fewer than `n` entries follow.
pub open spec fn in_last_n(s: Seq<Generation>, n: int, g: Generation) -> bool {
    exists|i: int| 0 <= i < s.len() && s[i] == g && i + n >= s.len()
}

/// Whether `g` is the latest entry of `s` created strictly before
/// `cutoff`: no other such entry was created later, with the id as the
/// tie-break among equal creation times.
pub open spec fn latest_before(s: Seq<Generation>, cutoff: Timestamp, g: Generation) -> bool {
    &&& s.contains(g)
    &&& g.date.spec_lt(cutoff)
    &&& forall|h: Generation|
        #[trigger] s.contains(h) && h.date.spec_lt(cutoff) ==> (h.date.spec_lt(g.date) || (
        h.date == g.date && h.id <= g.id))
}

/// Whether `g` could still have been the active generation at or after
/// `cutoff`: it was created at or after the cutoff, or it is the latest
/// entry from strictly before it, which may have stayed active through
/// the cutoff.
pub open spec fn keeps_active(s: Seq<Generation>, cutoff: Timestamp, g: Generation) -> bool {
    cutoff.spec_le(g.date) || latest_before(s, cutoff, g)
}

/// What the second pass of the age floor keeps, given the latest
/// pre-cutoff entry found by the first pass.
spec fn kept_by_age(cutoff: Timestamp, best: Option<Generation>, g: Generation) -> bool {
    cutoff.spec_le(g.date) || (best matches Some(b) && g.id == b.id)
}

/// Whether either retention floor protects `g` from deletion.
pub open spec fn retained(s: Seq<Generation>, keep: int, cutoff: Timestamp, g: Generation) -> bool {
    in_last_n(s, keep, g) || keeps_active(s, cutoff, g)
}

/// The entries of `s` that the count floor protects, as a set.
pub open spec fn last_n_set(s: Seq<Generation>, n: int) -> Set<Generation> {
    Set::new(|g: Generation| s.contains(g) && in_last_n(s, n, g))
}

/// The entries of `s` that the age floor protects, as a set.
pub open spec fn active_keep_set(s: Seq<Generation>, cutoff: Timestamp) -> Set<Generation> {
    Set::new(|g: Generation| s.contains(g) && keeps_active(s, cutoff, g))
}

/// The entries of `s` that neither floor protects, as a set.
pub open spec fn delete_set(s: Seq<Generation>, keep: int, cutoff: Timestamp) -> Set<Generation> {
    Set::new(|g: Generation| s.contains(g) && !retained(s, keep, cutoff, g))
}

/// Whether `items[i]` is the first occurrence of its id in `items`.
pub open spec fn first_with_id(items: Seq<Generation>, i: int) -> bool {
    forall|j: int| 0 <= j < i ==> items[j].id != items[i].id
}

/// Whether `s` holds exactly the first occurrence of each id in
/// `items`: what building a set from parsed generations leaves.
pub open spec fn holds_first_occurrences(s: Seq<Generation>, items: Seq<Generation>) -> bool {
    &&& forall|i: int|
        0 <= i < items.len() && #[trigger] first_with_id(items, i) ==> s.contains(items[i])
    &&& forall|g: Generation| #[trigger]
        s.contains(g) ==> exists|i: int|
            0 <= i < items.len() && items[i] == g && first_with_id(items, i)
}

/// The selection is an exact partition of the set: what is selected for
/// deletion is disjoint from everything either floor protects, and
/// together with the two floors it covers the whole set.
pub proof fn lemma_retention_partition(s: Seq<Generation>, keep: int, cutoff: Timestamp)
    ensures
        delete_set(s, keep, cutoff).intersect(
            last_n_set(s, keep).union(active_keep_set(s, cutoff)),
        ) =~= Set::<Generation>::empty(),
        delete_set(s, keep, cutoff).union(last_n_set(s, keep).union(active_keep_set(s, cutoff)))
            =~= s.to_set(),
{
}

/// Two id-sorted sequences with the same members are the same sequence:
/// the id order leaves no freedom in how the members are laid out.
pub proof fn lemma_sorted_by_id_unique(a: Seq<Generation>, b: Seq<Generation>)
    requires
        sorted_by_id(a),
        sorted_by_id(b),
        forall|g: Generation| a.contains(g) <==> b.contains(g),
    ensures
        a == b,
    decreases a.len(),
{
    if a.len() == 0 {
        if b.len() > 0 {
            assert(b.contains(b[0]));
        }
        assert(a =~= b);
    } else {
        assert(a.contains(a[0]));
        assert(b.contains(b[0]));
        let j = choose|j: int| 0 <= j < b.len() && b[j] == a[0];
        let i = choose|i: int| 0 <= i < a.len() && a[i] == b[0];
        assert(a[0].id <= a[i].id);
        assert(b[0].id <= b[j].id);
        assert(a[0] == b[0]) by {
            if j != 0 {
                assert(b[0].id < b[j].id);
            }
        }
        let ta = a.drop_first();
        let tb = b.drop_first();
        assert(sorted_by_id(ta)) by {
            assert(forall|p: int, q: int|
                0 <= p < q < ta.len() ==> #[trigger] ta[p].id < #[trigger] ta[q].id) by {
                assert(forall|p: int, q: int|
                    0 <= p < q < ta.len() ==> ta[p] == a[p + 1] && ta[q] == a[q + 1]);
            }
        }
        assert(sorted_by_id(tb)) by {
            assert(forall|p: int, q: int|
                0 <= p < q < tb.len() ==> #[trigger] tb[p].id < #[trigger] tb[q].id) by {
                assert(forall|p: int, q: int|
                    0 <= p < q < tb.len() ==> tb[p] == b[p + 1] && tb[q] == b[q + 1]);
            }
        }
        assert forall|g: Generation| ta.contains(g) <==> tb.contains(g) by {
            if ta.contains(g) {
                let k = choose|k: int| 0 <= k < ta.len() && ta[k] == g;
                assert(a[k + 1] == g);
                assert(a.contains(g));
                assert(a[0].id < a[k + 1].id);
                let m = choose|m: int| 0 <= m < b.len() && b[m] == g;
                assert(m != 0);
                assert(tb[m - 1] == g);
            }
            if tb.contains(g) {
                let k = choose|k: int| 0 <= k < tb.len() && tb[k] == g;
                assert(b[k + 1] == g);
                assert(b.contains(g));
                assert(b[0].id < b[k + 1].id);
                let m = choose|m: int| 0 <= m < a.len() && a[m] == g;
                assert(m != 0);
                assert(ta[m - 1] == g);
            }
        }
        lemma_sorted_by_id_unique(ta, tb);
        assert(a =~= b) by {
            assert(forall|k: int| 1 <= k < a.len() ==> a[k] == ta[k - 1] && b[k] == tb[k - 1]);
        }
    }
}

/// Recomputing the selection on the same unmodified set with the same
/// parameters yields the identical result: any two sequences that meet
/// the contract of [`GenerationSet::generations_to_delete`] agree.
pub proof fn lemma_selection_idempotent(
    s: Seq<Generation>,
    keep: int,
    cutoff: Timestamp,
    r1: Seq<Generation>,
    r2: Seq<Generation>,
)
    requires
        sorted_by_id(r1),
        sorted_by_id(r2),
        forall|g: Generation| #[trigger]
            r1.contains(g) <==> s.contains(g) && !retained(s, keep, cutoff, g),
        forall|g: Generation| #[trigger]
            r2.contains(g) <==> s.contains(g) && !retained(s, keep, cutoff, g),
    ensures
        r1 == r2,
{
    assert(forall|g: Generation| #[trigger] r1.contains(g) <==> r2.contains(g));
    lemma_sorted_by_id_unique(r1, r2);
}

/// In an id-sorted sequence an id picks out at most one entry.
pub proof fn lemma_id_unique(s: Seq<Generation>, a: Generation, b: Generation)
    requires
        sorted_by_id(s),
        s.contains(a),
        s.contains(b),
        a.id == b.id,
    ensures
        a == b,
{
    let i = choose|i: int| 0 <= i < s.len() && s[i] == a;
    let j = choose|j: int| 0 <= j < s.len() && s[j] == b;
    if i != j {
        assert(s[i].id != s[j].id);
    }
}

impl GenerationSet {
    /// Places `g` at its position in id order, unless an entry with the
    /// same id is already present, in which case the set is unchanged.
    fn insert_generation(&mut self, g: Generation)
        requires
            sorted_by_id(old(self)@),
        ensures
            sorted_by_id(final(self)@),
            contains_id(old(self)@, g.id) ==> final(self)@ == old(self)@,
            !contains_id(old(self)@, g.id) ==> {
                &&& final(self)@.len() == old(self)@.len() + 1
                &&& forall|x: Generation|
                    #[trigger] final(self)@.contains(x) <==> old(self)@.contains(x) || x == g
            },
    {
        let n = self.generations.len();
        let mut i: usize = 0;
        while i < n && self.generations[i].id < g.id
            invariant
                i <= n,
                n == self.generations@.len(),
                forall|k: int| 0 <= k < i ==> self.generations@[k].id < g.id,
            decreases n - i,
        {
            i = i + 1;
        }
        if i < n && self.generations[i].id == g.id {
            proof {
                assert(contains_id(self@, g.id));
            }
            return ;
        }
        proof {
            if contains_id(self@, g.id) {
                let k = choose|k: int| 0 <= k < self@.len() && self@[k].id == g.id;
                if k < i {
                    assert(self@[k].id < g.id);
                } else if k > i as int {
                    if i < n {
                        assert(self@[i as int].id < self@[k].id);
                    }
                }
            }
        }
        let ghost old_seq = self.generations@;
        self.generations.insert(i, g);
        proof {
            assert(forall|k: int|
                0 <= k < old_seq.len() && k >= i ==> #[trigger] old_seq[k].id > g.id) by {
                assert forall|k: int|
                    0 <= k < old_seq.len() && k >= i implies #[trigger] old_seq[k].id
                    > g.id by {
                    if k == i {
                        assert(old_seq[k].id >= g.id);
                        assert(old_seq[k].id != g.id);
                    } else {
                        assert(old_seq[i as int].id < old_seq[k].id);
                        assert(old_seq[i as int].id >= g.id);
                        assert(old_seq[i as int].id != g.id);
                    }
                }
            }
            assert(sorted_by_id(self@)) by {
                assert forall|p: int, q: int| 0 <= p < q < self@.len() implies self@[p].id
                    < self@[q].id by {
                    assert(self@ == old_seq.insert(i as int, g));
                }
            }
            assert forall|x: Generation| #[trigger]
                self@.contains(x) <==> old_seq.contains(x) || x == g by {
                if self@.contains(x) {
                    let k = choose|k: int| 0 <= k < self@.len() && self@[k] == x;
                    if k < i {
                        assert(old_seq[k] == x);
                        assert(old_seq.contains(x));
                    } else if k == i {
                        assert(x == g);
                    } else {
                        assert(old_seq[k - 1] == x);
                        assert(old_seq.contains(x));
                    }
                }
                if old_seq.contains(x) {
                    let k = choose|k: int| 0 <= k < old_seq.len() && old_seq[k] == x;
                    if k < i {
                        assert(self@[k] == x);
                    } else {
                        assert(self@[k + 1] == x);
                    }
                }
                if x == g {
                    assert(self@[i as int] == x);
                }
            }
        }
    }

    /// Builds a set from parsed generations: entries are deduplicated by
    /// id, the first occurrence of each id winning, and kept in
    /// ascending id order.
    pub fn from_generations(items: Vec<Generation>) -> (r: GenerationSet)
        ensures
            sorted_by_id(r@),
            holds_first_occurrences(r@, items@),
            r@.len() <= items@.len(),
            (forall|i: int| 0 <= i < items@.len() ==> #[trigger] first_with_id(items@, i))
                ==> r@.len() == items@.len(),
    {
        let n = items.len();
        let mut out = GenerationSet { generations: Vec::new() };
        let mut i: usize = 0;
        proof {
            assert(out@ =~= Seq::<Generation>::empty());
        }
        while i < n
            invariant
                i <= n,
                n == items@.len(),
                sorted_by_id(out@),
                forall|id: u32| #[trigger]
                    contains_id(out@, id) <==> contains_id(items@.subrange(0, i as int), id),
                forall|j: int|
                    0 <= j < i && #[trigger] first_with_id(items@, j) ==> out@.contains(
                        items@[j],
                    ),
                forall|g: Generation| #[trigger]
                    out@.contains(g) ==> exists|j: int|
                        0 <= j < i && items@[j] == g && first_with_id(items@, j),
                out@.len() <= i,
                (forall|j: int| 0 <= j < i ==> #[trigger] first_with_id(items@, j))
                    ==> out@.len() == i,
            decreases n - i,
        {
            let g = items[i];
            let ghost pre = out@;
            out.insert_generation(g);
            proof {
                let prefix = items@.subrange(0, i as int);
                let prefix1 = items@.subrange(0, i + 1 as int);
                assert(prefix1.drop_last() =~= prefix);
                assert(prefix1.last() == items@[i as int]);
                if contains_id(pre, g.id) {
                    assert(out@ == pre);
                    assert(!first_with_id(items@, i as int)) by {
                        let k = choose|k: int| 0 <= k < prefix.len() && prefix[k].id == g.id;
                        assert(items@[k].id == items@[i as int].id);
                    }
                } else {
                    assert(first_with_id(items@, i as int)) by {
                        if !first_with_id(items@, i as int) {
                            let j = choose|j: int|
                                0 <= j < i && items@[j].id == items@[i as int].id;
                            assert(contains_id(prefix, g.id)) by {
                                assert(prefix[j].id == g.id);
                            }
                        }
                    }
                    assert(out@.contains(items@[i as int]));
                }
                assert forall|id: u32| #[trigger]
                    contains_id(out@, id) <==> contains_id(prefix1, id) by {
                    if contains_id(out@, id) {
                        let k = choose|k: int| 0 <= k < out@.len() && out@[k].id == id;
                        assert(out@.contains(out@[k]));
                        if id != g.id {
                            assert(pre.contains(out@[k]) || out@[k] == g);
                            let m = choose|m: int| 0 <= m < pre.len() && pre[m] == out@[k];
                            assert(contains_id(pre, id));
                            let p = choose|p: int| 0 <= p < prefix.len() && prefix[p].id == id;
                            assert(prefix1[p].id == id);
                        } else {
                            assert(prefix1[i as int].id == id);
                        }
                    }
                    if contains_id(prefix1, id) {
                        let k = choose|k: int| 0 <= k < prefix1.len() && prefix1[k].id == id;
                        if k < i {
                            assert(prefix[k].id == id);
                            assert(contains_id(pre, id));
                            let m = choose|m: int| 0 <= m < pre.len() && pre[m].id == id;
                            assert(pre.contains(pre[m]));
                            assert(out@.contains(pre[m]));
                            let q = choose|q: int| 0 <= q < out@.len() && out@[q] == pre[m];
                            assert(contains_id(out@, id));
                        } else {
                            if contains_id(pre, g.id) {
                                assert(out@ == pre);
                                assert(contains_id(out@, id));
                            } else {
                                assert(out@.contains(g));
                                let q = choose|q: int| 0 <= q < out@.len() && out@[q] == g;
                                assert(contains_id(out@, id));
                            }
                        }
                    }
                }
            }
            i = i + 1;
        }
        proof {
            assert(items@.subrange(0, n as int) =~= items@);
        }
        out
    }

    /// Looks an id up, returning the entry that carries it.
    pub fn get(&self, id: u32) -> (r: Option<Generation>)
        ensures
            r is Some <==> contains_id(self@, id),
            r matches Some(g) ==> self@.contains(g) && g.id == id,
    {
        let n = self.generations.len();
        let mut i: usize = 0;
        while i < n
            invariant
                i <= n,
                n == self.generations@.len(),
                forall|k: int| 0 <= k < i ==> self.generations@[k].id != id,
            decreases n - i,
        {
            if self.generations[i].id == id {
                proof {
                    assert(self@.contains(self@[i as int]));
                }
                return Some(self.generations[i]);
            }
            i = i + 1;
        }
        None
    }

    /// Whether some entry carries the id `id`.
    pub fn contains(&self, id: u32) -> (r: bool)
        ensures
            r == contains_id(self@, id),
    {
        self.get(id).is_some()
    }

    /// The number of entries.
    pub fn len(&self) -> (r: usize)
        ensures
            r == self@.len(),
    {
        self.generations.len()
    }

    /// Whether the set has no entries.
    pub fn is_empty(&self) -> (r: bool)
        ensures
            r == (self@.len() == 0),
    {
        self.generations.len() == 0
    }

    /// The entries in ascending id order.
    pub fn iter(&self) -> (r: Vec<Generation>)
        ensures
            r@ == self@,
    {
        let n = self.generations.len();
        let mut out: Vec<Generation> = Vec::new();
        let mut i: usize = 0;
        while i < n
            invariant
                i <= n,
                n == self.generations@.len(),
                out@ =~= self.generations@.subrange(0, i as int),
            decreases n - i,
        {
            out.push(self.generations[i]);
            i = i + 1;
        }
        proof {
            assert(self@.subrange(0, n as int) =~= self@);
        }
        out
    }

    /// Returns a new set holding only the `n` entries with the highest
    /// ids: the most recently created ones.
    ///
    /// If `n` is at least the number of entries, the result is the
    /// whole set.  This is the count floor of the retention algorithm:
    /// it never lets the retained count drop below `n`.
    pub fn get_last_n_generations(&self, n: usize) -> (r: GenerationSet)
        requires
            sorted_by_id(self@),
        ensures
            sorted_by_id(r@),
            r@ == self@.subrange(
                if n < self@.len() {
                    self@.len() - n as int
                } else {
                    0
                },
                self@.len() as int,
            ),
            n >= self@.len() ==> r@ == self@,
            r@.len() == if n < self@.len() {
                n as int
            } else {
                self@.len() as int
            },
            forall|g: Generation| #[trigger]
                r@.contains(g) <==> self@.contains(g) && in_last_n(self@, n as int, g),
            forall|g: Generation, h: Generation|
                #![trigger self@.contains(g), r@.contains(h)]
                self@.contains(g) && !r@.contains(g) && r@.contains(h) ==> g.id < h.id,
            r@.to_set() == last_n_set(self@, n as int),
    {
        let len = self.generations.len();
        let start: usize = if n < len {
            len - n
        } else {
            0
        };
        let mut out: Vec<Generation> = Vec::new();
        let mut i: usize = start;
        while i < len
            invariant
                start <= i <= len,
                len == self.generations@.len(),
                out@ =~= self.generations@.subrange(start as int, i as int),
            decreases len - i,
        {
            proof {
                assert(self.generations@.subrange(start as int, i + 1 as int) =~= self
                    .generations@.subrange(start as int, i as int).push(
                    self.generations@[i as int],
                ));
            }
            out.push(self.generations[i]);
            i = i + 1;
        }
        let r = GenerationSet { generations: out };
        proof {
            let s = self@;
            assert(n >= s.len() ==> r@ =~= s);
            assert forall|g: Generation| #[trigger]
                r@.contains(g) <==> s.contains(g) && in_last_n(s, n as int, g) by {
                if r@.contains(g) {
                    let k = choose|k: int| 0 <= k < r@.len() && r@[k] == g;
                    assert(s[start as int + k] == g);
                    assert(s.contains(g));
                    assert(start as int + k + n >= s.len());
                    assert(in_last_n(s, n as int, g));
                }
                if s.contains(g) && in_last_n(s, n as int, g) {
                    let i0 = choose|i0: int|
                        0 <= i0 < s.len() && s[i0] == g && i0 + n >= s.len();
                    assert(i0 >= start);
                    assert(r@[i0 - start] == g);
                    assert(r@.contains(g));
                }
            }
            assert forall|g: Generation, h: Generation|
                #![trigger s.contains(g), r@.contains(h)]
                s.contains(g) && !r@.contains(g) && r@.contains(h) implies g.id < h.id by {
                let ig = choose|ig: int| 0 <= ig < s.len() && s[ig] == g;
                let jh = choose|jh: int| 0 <= jh < r@.len() && r@[jh] == h;
                if ig >= start {
                    assert(r@[ig - start] == g);
                    assert(r@.contains(g));
                }
                assert(s[start as int + jh] == h);
            }
            assert(r@.to_set() =~= last_n_set(s, n as int));
        }
        r
    }

    /// Returns a new set holding every entry created at or after `date`,
    /// together with the latest entry created strictly before `date`,
    /// if one exists.
    ///
    /// The extra entry may have remained the active generation through
    /// the cutoff, so the age floor protects it too.  This is the age
    /// floor of the retention algorithm.
    pub fn get_active_on_or_after(&self, date: Timestamp) -> (r: GenerationSet)
        requires
            sorted_by_id(self@),
        ensures
            sorted_by_id(r@),
            forall|g: Generation| #[trigger]
                r@.contains(g) <==> self@.contains(g) && keeps_active(self@, date, g),
            r@.to_set() == active_keep_set(self@, date),
    {
        let len = self.generations.len();
        let mut best: Option<Generation> = None;
        let mut i: usize = 0;
        while i < len
            invariant
                i <= len,
                len == self@.len(),
                sorted_by_id(self@),
                best matches Some(b) ==> exists|k: int| 0 <= k < i && self@[k] == b,
                best matches Some(b) ==> b.date.spec_lt(date),
                best matches Some(b) ==> forall|k: int|
                    0 <= k < i && (#[trigger] self@[k].date.spec_lt(date)) ==> (
                    self@[k].date.spec_lt(b.date) || (self@[k].date == b.date && self@[k].id
                        <= b.id)),
                best is None ==> forall|k: int|
                    0 <= k < i ==> !(#[trigger] self@[k].date.spec_lt(date)),
            decreases len - i,
        {
            let g = self.generations[i];
            if g.date.lt(&date) {
                match best {
                    None => {
                        best = Some(g);
                    },
                    Some(b) => {
                        if !g.date.lt(&b.date) {
                            proof {
                                let kb = choose|k: int| 0 <= k < i && self@[k] == b;
                                assert(self@[kb].id < self@[i as int].id);
                                assert forall|k: int|
                                    0 <= k < i + 1 && (#[trigger] self@[k].date.spec_lt(
                                        date,
                                    )) implies (self@[k].date.spec_lt(g.date) || (
                                self@[k].date == g.date && self@[k].id <= g.id)) by {
                                    lemma_ts_order(self@[k].date, b.date, g.date);
                                    lemma_ts_order(b.date, g.date, g.date);
                                }
                            }
                            best = Some(g);
                        }
                    },
                }
            }
            i = i + 1;
        }
        proof {
            if best is Some {
                let b = best->Some_0;
                let kb = choose|k: int| 0 <= k < len && self@[k] == b;
                assert(self@.contains(b));
                assert forall|h: Generation| #[trigger]
                    self@.contains(h) && h.date.spec_lt(date) implies (h.date.spec_lt(b.date)
                    || (h.date == b.date && h.id <= b.id)) by {
                    let k = choose|k: int| 0 <= k < self@.len() && self@[k] == h;
                    assert(self@[k].date.spec_lt(date));
                }
                assert(latest_before(self@, date, b));
            }
        }
        let mut out: Vec<Generation> = Vec::new();
        let mut j: usize = 0;
        proof {
            assert(self@.subrange(0, 0) =~= Seq::<Generation>::empty());
        }
        while j < len
            invariant
                j <= len,
                len == self@.len(),
                sorted_by_id(self@),
                best matches Some(b) ==> latest_before(self@, date, b),
                best is None ==> forall|k: int|
                    0 <= k < len ==> !(#[trigger] self@[k].date.spec_lt(date)),
                sorted_by_id(out@),
                forall|k: int, m: int|
                    0 <= k < out@.len() && j <= m < len ==> out@[k].id < self@[m].id,
                forall|g: Generation| #[trigger]
                    out@.contains(g) <==> (self@.subrange(0, j as int).contains(g)
                        && kept_by_age(date, best, g)),
            decreases len - j,
        {
            let g = self.generations[j];
            let keep: bool = if date.le(&g.date) {
                true
            } else {
                match &best {
                    Some(b) => g.id == b.id,
                    None => false,
                }
            };
            let ghost pre = out@;
            if keep {
                proof {
                    assert forall|p: int, q: int|
                        0 <= p < q < pre.push(g).len() implies pre.push(g)[p].id < pre.push(
                        g,
                    )[q].id by {
                        if q < pre.len() {
                            assert(pre[p].id < pre[q].id);
                        } else {
                            assert(pre[p].id < self@[j as int].id);
                        }
                    }
                }
                out.push(g);
            }
            j = j + 1;
            proof {
                let prefix = self@.subrange(0, j - 1);
                let prefix1 = self@.subrange(0, j as int);
                assert(prefix1 =~= prefix.push(self@[j - 1]));
                if keep {
                    assert(kept_by_age(date, best, g));
                } else {
                    assert(out@ == pre);
                    assert(!kept_by_age(date, best, self@[j - 1])) by {
                        if best is Some {
                            assert(self@[j - 1].id != best->Some_0.id);
                        }
                    }
                }
                assert forall|x: Generation| #[trigger]
                    out@.contains(x) <==> (prefix1.contains(x) && kept_by_age(
                    date,
                    best,
                    x,
                )) by {
                    assert(prefix1.contains(x) <==> (prefix.contains(x) || x == self@[j
                        - 1])) by {
                        if prefix1.contains(x) {
                            let k = choose|k: int| 0 <= k < prefix1.len() && prefix1[k] == x;
                            if k < prefix.len() {
                                assert(prefix[k] == x);
                            }
                        }
                        if prefix.contains(x) {
                            let k = choose|k: int| 0 <= k < prefix.len() && prefix[k] == x;
                            assert(prefix1[k] == x);
                        }
                        assert(prefix1[prefix.len() as int] == self@[j - 1]);
                    }
                    if keep {
                        assert(out@.contains(x) <==> (pre.contains(x) || x == g)) by {
                            if out@.contains(x) {
                                let k = choose|k: int| 0 <= k < out@.len() && out@[k] == x;
                                if k < pre.len() {
                                    assert(pre[k] == x);
                                }
                            }
                            if pre.contains(x) {
                                let k = choose|k: int| 0 <= k < pre.len() && pre[k] == x;
                                assert(out@[k] == x);
                            }
                            assert(out@[pre.len() as int] == g);
                        }
                        assert(pre.contains(x) <==> (prefix.contains(x) && kept_by_age(
                            date,
                            best,
                            x,
                        )));
                    } else {
                        assert(out@.contains(x) <==> (prefix.contains(x) && kept_by_age(
                            date,
                            best,
                            x,
                        )));
                    }
                }
            }
        }
        let r = GenerationSet { generations: out };
        proof {
            assert(self@.subrange(0, len as int) =~= self@);
            assert forall|g: Generation| #[trigger]
                r@.contains(g) <==> self@.contains(g) && keeps_active(self@, date, g) by {
                if r@.contains(g) {
                    assert(self@.contains(g));
                    if !date.spec_le(g.date) {
                        let b = best->Some_0;
                        assert(g.id == b.id);
                        lemma_id_unique(self@, g, b);
                        assert(latest_before(self@, date, g));
                    }
                }
                if self@.contains(g) && keeps_active(self@, date, g) {
                    if !date.spec_le(g.date) {
                        assert(g.date.spec_lt(date));
                        assert(latest_before(self@, date, g));
                        assert(best is Some);
                        let b = best->Some_0;
                        assert(self@.contains(b) && b.date.spec_lt(date));
                        assert(b.date.spec_lt(g.date) || (b.date == g.date && b.id <= g.id));
                        assert(g.date.spec_lt(b.date) || (g.date == b.date && g.id <= b.id));
                        assert(g.id == b.id) by {
                            lemma_ts_order(b.date, g.date, b.date);
                        }
                        assert(kept_by_age(date, best, g));
                    }
                }
            }
            assert(r@.to_set() =~= active_keep_set(self@, date));
        }
        r
    }

    /// Returns a new set holding every entry that is safe to delete:
    /// all entries except the `keep` most recent ones and those
    /// potentially active on or after `date`.
    ///
    /// Both floors are honoured independently: nothing that either
    /// [`GenerationSet::get_last_n_generations`] or
    /// [`GenerationSet::get_active_on_or_after`] would return is ever
    /// selected.
    pub fn generations_to_delete(&self, keep: usize, date: Timestamp) -> (r: GenerationSet)
        requires
            sorted_by_id(self@),
        ensures
            sorted_by_id(r@),
            forall|g: Generation| #[trigger]
                r@.contains(g) <==> self@.contains(g) && !retained(self@, keep as int, date, g),
            r@.to_set() == delete_set(self@, keep as int, date),
    {
        let by_count = self.get_last_n_generations(keep);
        let by_date = self.get_active_on_or_after(date);
        let len = self.generations.len();
        let mut out: Vec<Generation> = Vec::new();
        let mut j: usize = 0;
        proof {
            assert(self@.subrange(0, 0) =~= Seq::<Generation>::empty());
        }
        while j < len
            invariant
                j <= len,
                len == self@.len(),
                sorted_by_id(self@),
                forall|g: Generation| #[trigger]
                    by_count@.contains(g) <==> self@.contains(g) && in_last_n(
                        self@,
                        keep as int,
                        g,
                    ),
                forall|g: Generation| #[trigger]
                    by_date@.contains(g) <==> self@.contains(g) && keeps_active(
                        self@,
                        date,
                        g,
                    ),
                sorted_by_id(out@),
                forall|k: int, m: int|
                    0 <= k < out@.len() && j <= m < len ==> out@[k].id < self@[m].id,
                forall|g: Generation| #[trigger]
                    out@.contains(g) <==> (self@.subrange(0, j as int).contains(g)
                        && !contains_id(by_count@, g.id) && !contains_id(by_date@, g.id)),
            decreases len - j,
        {
            let g = self.generations[j];
            let protected = by_count.contains(g.id) || by_date.contains(g.id);
            let ghost pre = out@;
            if !protected {
                proof {
                    assert forall|p: int, q: int|
                        0 <= p < q < pre.push(g).len() implies pre.push(g)[p].id < pre.push(
                        g,
                    )[q].id by {
                        if q < pre.len() {
                            assert(pre[p].id < pre[q].id);
                        } else {
                            assert(pre[p].id < self@[j as int].id);
                        }
                    }
                }
                out.push(g);
            }
            j = j + 1;
            proof {
                let prefix = self@.subrange(0, j - 1);
                let prefix1 = self@.subrange(0, j as int);
                assert(prefix1 =~= prefix.push(self@[j - 1]));
                assert forall|x: Generation| #[trigger]
                    out@.contains(x) <==> (prefix1.contains(x) && !contains_id(
                    by_count@,
                    x.id,
                ) && !contains_id(by_date@, x.id)) by {
                    assert(prefix1.contains(x) <==> (prefix.contains(x) || x == self@[j
                        - 1])) by {
                        if prefix1.contains(x) {
                            let k = choose|k: int| 0 <= k < prefix1.len() && prefix1[k] == x;
                            if k < prefix.len() {
                                assert(prefix[k] == x);
                            }
                        }
                        if prefix.contains(x) {
                            let k = choose|k: int| 0 <= k < prefix.len() && prefix[k] == x;
                            assert(prefix1[k] == x);
                        }
                        assert(prefix1[prefix.len() as int] == self@[j - 1]);
                    }
                    if !protected {
                        assert(out@.contains(x) <==> (pre.contains(x) || x == g)) by {
                            if out@.contains(x) {
                                let k = choose|k: int| 0 <= k < out@.len() && out@[k] == x;
                                if k < pre.len() {
                                    assert(pre[k] == x);
                                }
                            }
                            if pre.contains(x) {
                                let k = choose|k: int| 0 <= k < pre.len() && pre[k] == x;
                                assert(out@[k] == x);
                            }
                            assert(out@[pre.len() as int] == g);
                        }
                    } else {
                        assert(out@ == pre);
                    }
                }
            }
        }
        let r = GenerationSet { generations: out };
        proof {
            assert(self@.subrange(0, len as int) =~= self@);
            assert forall|g: Generation| #[trigger]
                r@.contains(g) <==> self@.contains(g) && !retained(
                self@,
                keep as int,
                date,
                g,
            ) by {
                if self@.contains(g) {
                    assert(contains_id(by_count@, g.id) <==> in_last_n(
                        self@,
                        keep as int,
                        g,
                    )) by {
                        if contains_id(by_count@, g.id) {
                            let k = choose|k: int|
                                0 <= k < by_count@.len() && by_count@[k].id == g.id;
                            assert(by_count@.contains(by_count@[k]));
                            lemma_id_unique(self@, by_count@[k], g);
                        }
                        if in_last_n(self@, keep as int, g) {
                            assert(by_count@.contains(g));
                            let k = choose|k: int|
                                0 <= k < by_count@.len() && by_count@[k] == g;
                            assert(contains_id(by_count@, g.id));
                        }
                    }
                    assert(contains_id(by_date@, g.id) <==> keeps_active(self@, date, g)) by {
                        if contains_id(by_date@, g.id) {
                            let k = choose|k: int|
                                0 <= k < by_date@.len() && by_date@[k].id == g.id;
                            assert(by_date@.contains(by_date@[k]));
                            lemma_id_unique(self@, by_date@[k], g);
                        }
                        if keeps_active(self@, date, g) {
                            assert(by_date@.contains(g));
                            let k = choose|k: int| 0 <= k < by_date@.len() && by_date@[k] == g;
                            assert(contains_id(by_date@, g.id));
                        }
                    }
                }
            }
            assert(r@.to_set() =~= delete_set(self@, keep as int, date));
        }
        r
    }

    /// The entry ids in ascending order.
    pub fn ids(&self) -> (r: Vec<u32>)
        ensures
            r@ == self@.map_values(|g: Generation| g.id),
    {
        let n = self.generations.len();
        let mut out: Vec<u32> = Vec::new();
        let mut i: usize = 0;
        while i < n
            invariant
                i <= n,
                n == self.generations@.len(),
                out@ =~= self.generations@.subrange(0, i as int).map_values(
                    |g: Generation| g.id,
                ),
            decreases n - i,
        {
            proof {
                assert(self.generations@.subrange(0, i + 1 as int).map_values(
                    |g: Generation| g.id,
                ) =~= self.generations@.subrange(0, i as int).map_values(
                    |g: Generation| g.id,
                ).push(self.generations@[i as int].id));
            }
            out.push(self.generations[i].id);
            i = i + 1;
        }
        proof {
            assert(self@.subrange(0, n as int) =~= self@);
        }
        out
    }
}

} // verus!
