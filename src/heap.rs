use vstd::prelude::*;
use crate::variant::{Variant, is_aggregate, scalar_equal};

verus! {

/// An object of the heap: the contents of an array, or the entries of a
/// dictionary in the order in which their keys were first inserted.
#[derive(Debug, Clone, PartialEq)]
pub enum Aggregate {
    Array(Vec<Variant>),
    Dictionary(Vec<(Variant, Variant)>),
}

/// The mathematical contents of an `Aggregate`.
pub enum AggregateView {
    Array(Seq<Variant>),
    Dictionary(Seq<(Variant, Variant)>),
}

impl View for Aggregate {
    type V = AggregateView;

    open spec fn view(&self) -> AggregateView {
        match self {
            Aggregate::Array(items) => AggregateView::Array(items@),
            Aggregate::Dictionary(entries) => AggregateView::Dictionary(entries@),
        }
    }
}

/// The objects that `Array` and `Dictionary` handles name: handle `h` names
/// `objects[h]`. Objects are only ever added, so a handle stays valid.
#[derive(Debug, Clone, PartialEq)]
pub struct Heap {
    pub objects: Vec<Aggregate>,
}

pub open spec fn heap_view(objects: Seq<Aggregate>) -> Seq<AggregateView> {
    objects.map_values(|a: Aggregate| a@)
}

impl View for Heap {
    type V = Seq<AggregateView>;

    open spec fn view(&self) -> Seq<AggregateView> {
        heap_view(self.objects@)
    }
}

/// The items of the array that handle `h` names, if it names one.
pub open spec fn array_at(heap: Seq<AggregateView>, h: usize) -> Option<Seq<Variant>> {
    if h < heap.len() {
        match heap[h as int] {
            AggregateView::Array(items) => Some(items),
            _ => None,
        }
    } else {
        None
    }
}

/// The entries of the dictionary that handle `h` names, if it names one.
pub open spec fn dictionary_at(heap: Seq<AggregateView>, h: usize) -> Option<
    Seq<(Variant, Variant)>,
> {
    if h < heap.len() {
        match heap[h as int] {
            AggregateView::Dictionary(entries) => Some(entries),
            _ => None,
        }
    } else {
        None
    }
}

/// Deep equality, following aggregates through the heap to `depth` levels of
/// nesting. Aggregates nested deeper than that compare unequal. Since an
/// acyclic structure never nests deeper than the heap has objects, comparing at
/// depth `heap.len()` is full structural equality on acyclic structures.
pub open spec fn values_equal(heap: Seq<AggregateView>, a: Variant, b: Variant, depth: nat) -> bool
    decreases depth, 0nat, 0nat,
{
    match (a, b) {
        (Variant::Array(x), Variant::Array(y)) => depth > 0 && match (
            array_at(heap, x),
            array_at(heap, y),
        ) {
            (Some(xs), Some(ys)) => items_equal(heap, xs, ys, (depth - 1) as nat),
            _ => false,
        },
        (Variant::Dictionary(x), Variant::Dictionary(y)) => depth > 0 && match (
            dictionary_at(heap, x),
            dictionary_at(heap, y),
        ) {
            (Some(xs), Some(ys)) => entries_equal(heap, xs, ys, (depth - 1) as nat),
            _ => false,
        },
        _ => !is_aggregate(a) && !is_aggregate(b) && scalar_equal(a, b),
    }
}

/// Element-wise equality of two sequences of values.
pub open spec fn items_equal(
    heap: Seq<AggregateView>,
    xs: Seq<Variant>,
    ys: Seq<Variant>,
    depth: nat,
) -> bool
    decreases depth, 2nat, xs.len(),
{
    if xs.len() == 0 {
        ys.len() == 0
    } else {
        ys.len() > 0 && items_equal(heap, xs.drop_last(), ys.drop_last(), depth) && values_equal(
            heap,
            xs.last(),
            ys.last(),
            depth,
        )
    }
}

/// Two dictionaries are equal when they have as many entries and each key of
/// the first finds, in the second, a value equal to its own.
pub open spec fn entries_equal(
    heap: Seq<AggregateView>,
    xs: Seq<(Variant, Variant)>,
    ys: Seq<(Variant, Variant)>,
    depth: nat,
) -> bool
    decreases depth, 3nat, 0nat,
{
    xs.len() == ys.len() && entries_found(heap, xs, ys, depth)
}

/// Each key of `xs` finds, in `ys`, a value equal to its own.
pub open spec fn entries_found(
    heap: Seq<AggregateView>,
    xs: Seq<(Variant, Variant)>,
    ys: Seq<(Variant, Variant)>,
    depth: nat,
) -> bool
    decreases depth, 2nat, xs.len(),
{
    if xs.len() == 0 {
        true
    } else {
        entries_found(heap, xs.drop_last(), ys, depth) && match find_key_from(
            heap,
            ys,
            xs.last().0,
            depth,
            0,
        ) {
            Some(j) => values_equal(heap, xs.last().1, ys[j].1, depth),
            None => false,
        }
    }
}

/// The first index at or after `start` whose key equals `key`.
pub open spec fn find_key_from(
    heap: Seq<AggregateView>,
    entries: Seq<(Variant, Variant)>,
    key: Variant,
    depth: nat,
    start: int,
) -> Option<int>
    decreases depth, 1nat, (entries.len() - start) as nat,
    when start >= 0
{
    if start >= entries.len() {
        None
    } else if values_equal(heap, entries[start].0, key, depth) {
        Some(start)
    } else {
        find_key_from(heap, entries, key, depth, start + 1)
    }
}

/// The index of the entry whose key equals `key`, at full depth.
pub open spec fn find_key(heap: Seq<AggregateView>, entries: Seq<(Variant, Variant)>, key: Variant) -> Option<int> {
    find_key_from(heap, entries, key, heap.len(), 0)
}

/// The entries after `key` is given `value`: the entry with an equal key keeps
/// its key and takes the value, or a new entry is added at the end.
pub open spec fn entries_insert(
    heap: Seq<AggregateView>,
    entries: Seq<(Variant, Variant)>,
    key: Variant,
    value: Variant,
) -> Seq<(Variant, Variant)> {
    match find_key(heap, entries, key) {
        Some(j) => entries.update(j, (entries[j].0, value)),
        None => entries.push((key, value)),
    }
}

proof fn lemma_find_key_from_bounds(
    heap: Seq<AggregateView>,
    entries: Seq<(Variant, Variant)>,
    key: Variant,
    depth: nat,
    start: int,
)
    requires
        start >= 0,
    ensures
        find_key_from(heap, entries, key, depth, start) matches Some(j) ==> start <= j < entries.len(),
    decreases entries.len() - start,
{
    if start < entries.len() {
        lemma_find_key_from_bounds(heap, entries, key, depth, start + 1);
    }
}

pub proof fn lemma_find_key_bounds(
    heap: Seq<AggregateView>,
    entries: Seq<(Variant, Variant)>,
    key: Variant,
)
    ensures
        find_key(heap, entries, key) matches Some(j) ==> 0 <= j < entries.len(),
{
    lemma_find_key_from_bounds(heap, entries, key, heap.len(), 0);
}

proof fn lemma_items_equal_len(heap: Seq<AggregateView>, xs: Seq<Variant>, ys: Seq<Variant>, depth: nat)
    ensures
        items_equal(heap, xs, ys, depth) ==> xs.len() == ys.len(),
    decreases xs.len(),
{
    if xs.len() > 0 && ys.len() > 0 {
        lemma_items_equal_len(heap, xs.drop_last(), ys.drop_last(), depth);
    }
}

/// Unequal prefixes make unequal sequences.
proof fn lemma_items_equal_prefix(
    heap: Seq<AggregateView>,
    xs: Seq<Variant>,
    ys: Seq<Variant>,
    depth: nat,
    n: int,
)
    requires
        0 <= n <= xs.len(),
        xs.len() == ys.len(),
        !items_equal(heap, xs.take(n), ys.take(n), depth),
    ensures
        !items_equal(heap, xs, ys, depth),
    decreases xs.len() - n,
{
    if n < xs.len() {
        assert(xs.take(n + 1).drop_last() =~= xs.take(n));
        assert(ys.take(n + 1).drop_last() =~= ys.take(n));
        lemma_items_equal_prefix(heap, xs, ys, depth, n + 1);
    } else {
        assert(xs.take(n) =~= xs);
        assert(ys.take(n) =~= ys);
    }
}

proof fn lemma_entries_found_prefix(
    heap: Seq<AggregateView>,
    xs: Seq<(Variant, Variant)>,
    ys: Seq<(Variant, Variant)>,
    depth: nat,
    n: int,
)
    requires
        0 <= n <= xs.len(),
        !entries_found(heap, xs.take(n), ys, depth),
    ensures
        !entries_found(heap, xs, ys, depth),
    decreases xs.len() - n,
{
    if n < xs.len() {
        assert(xs.take(n + 1).drop_last() =~= xs.take(n));
        lemma_entries_found_prefix(heap, xs, ys, depth, n + 1);
    } else {
        assert(xs.take(n) =~= xs);
    }
}

impl Heap {
    pub fn new() -> (r: Heap)
        ensures
            r@ == Seq::<AggregateView>::empty(),
    {
        let r = Heap { objects: Vec::new() };
        assert(r@ =~= Seq::<AggregateView>::empty());
        r
    }

    pub fn len(&self) -> (r: usize)
        ensures
            r == self@.len(),
    {
        self.objects.len()
    }

    /// Adds an object and returns its handle.
    pub fn allocate(&mut self, object: Aggregate) -> (h: usize)
        ensures
            h == old(self)@.len(),
            final(self)@ == old(self)@.push(object@),
    {
        let h = self.objects.len();
        self.objects.push(object);
        assert(final(self)@ =~= old(self)@.push(object@));
        h
    }

    /// The items of the array that `h` names, if it names one.
    pub fn array(&self, h: usize) -> (r: Option<&Vec<Variant>>)
        ensures
            match r {
                Some(items) => array_at(self@, h) == Some(items@),
                None => array_at(self@, h) is None,
            },
    {
        if h < self.objects.len() {
            match &self.objects[h] {
                Aggregate::Array(items) => Some(items),
                _ => None,
            }
        } else {
            None
        }
    }

    /// The entries of the dictionary that `h` names, if it names one.
    pub fn dictionary(&self, h: usize) -> (r: Option<&Vec<(Variant, Variant)>>)
        ensures
            match r {
                Some(entries) => dictionary_at(self@, h) == Some(entries@),
                None => dictionary_at(self@, h) is None,
            },
    {
        if h < self.objects.len() {
            match &self.objects[h] {
                Aggregate::Dictionary(entries) => Some(entries),
                _ => None,
            }
        } else {
            None
        }
    }

    /// Replaces item `i` of the array that `h` names.
    pub fn set_array_item(&mut self, h: usize, i: usize, value: Variant)
        requires
            array_at(old(self)@, h) matches Some(items) && i < items.len(),
        ensures
            final(self)@ == old(self)@.update(
                h as int,
                AggregateView::Array(array_at(old(self)@, h).unwrap().update(i as int, value)),
            ),
    {
        let ghost before = self.objects@;
        match &mut self.objects[h] {
            Aggregate::Array(items) => {
                items.set(i, value);
            },
            Aggregate::Dictionary(_) => {},
        }
        assert(final(self)@ =~= old(self)@.update(
            h as int,
            AggregateView::Array(array_at(old(self)@, h).unwrap().update(i as int, value)),
        ));
    }

    /// Gives `key` the value `value` in the dictionary that `h` names.
    pub fn dictionary_insert(&mut self, h: usize, key: Variant, value: Variant)
        requires
            dictionary_at(old(self)@, h) is Some,
        ensures
            final(self)@ == old(self)@.update(
                h as int,
                AggregateView::Dictionary(
                    entries_insert(old(self)@, dictionary_at(old(self)@, h).unwrap(), key, value),
                ),
            ),
    {
        let found = match &self.objects[h] {
            Aggregate::Dictionary(entries) => self.find_key(entries, &key),
            Aggregate::Array(_) => None,
        };
        proof {
            lemma_find_key_bounds(self@, dictionary_at(self@, h).unwrap(), key);
        }
        let ghost before = self@;
        match &mut self.objects[h] {
            Aggregate::Dictionary(entries) => {
                match found {
                    Some(j) => {
                        let k = entries[j].0.duplicate();
                        entries.set(j, (k, value));
                    },
                    None => {
                        entries.push((key, value));
                    },
                }
            },
            Aggregate::Array(_) => {},
        }
        assert(final(self)@ =~= before.update(
            h as int,
            AggregateView::Dictionary(
                entries_insert(before, dictionary_at(before, h).unwrap(), key, value),
            ),
        ));
    }

    /// Gives `key` the value `value` in `entries`, comparing keys in this heap.
    pub fn insert_entry(&self, entries: &mut Vec<(Variant, Variant)>, key: Variant, value: Variant)
        ensures
            final(entries)@ == entries_insert(self@, old(entries)@, key, value),
    {
        proof {
            lemma_find_key_bounds(self@, entries@, key);
        }
        match self.find_key(entries, &key) {
            Some(j) => {
                let k = entries[j].0.duplicate();
                entries.set(j, (k, value));
            },
            None => {
                entries.push((key, value));
            },
        }
    }

    /// Deep equality of `values_equal`, at full depth.
    pub fn equals(&self, a: &Variant, b: &Variant) -> (r: bool)
        ensures
            r == values_equal(self@, *a, *b, self@.len()),
    {
        self.values_equal(a, b, self.objects.len())
    }

    fn values_equal(&self, a: &Variant, b: &Variant, depth: usize) -> (r: bool)
        ensures
            r == values_equal(self@, *a, *b, depth as nat),
        decreases depth, 0nat, 0nat,
    {
        match (a, b) {
            (Variant::Array(x), Variant::Array(y)) => {
                if depth == 0 {
                    return false;
                }
                match (self.array(*x), self.array(*y)) {
                    (Some(xs), Some(ys)) => self.items_equal(xs, ys, depth - 1),
                    _ => false,
                }
            },
            (Variant::Dictionary(x), Variant::Dictionary(y)) => {
                if depth == 0 {
                    return false;
                }
                match (self.dictionary(*x), self.dictionary(*y)) {
                    (Some(xs), Some(ys)) => self.entries_equal(xs, ys, depth - 1),
                    _ => false,
                }
            },
            _ => !a.is_aggregate() && !b.is_aggregate() && a.scalar_equals(b),
        }
    }

    fn items_equal(&self, xs: &Vec<Variant>, ys: &Vec<Variant>, depth: usize) -> (r: bool)
        ensures
            r == items_equal(self@, xs@, ys@, depth as nat),
        decreases depth, 2nat, xs.len() + 1,
    {
        if xs.len() != ys.len() {
            proof {
                lemma_items_equal_len(self@, xs@, ys@, depth as nat);
            }
            return false;
        }
        let mut i: usize = 0;
        while i < xs.len()
            invariant
                xs.len() == ys.len(),
                i <= xs.len(),
                items_equal(self@, xs@.take(i as int), ys@.take(i as int), depth as nat),
            decreases xs.len() - i,
        {
            let same = self.values_equal(&xs[i], &ys[i], depth);
            proof {
                assert(xs@.take(i + 1).drop_last() =~= xs@.take(i as int));
                assert(ys@.take(i + 1).drop_last() =~= ys@.take(i as int));
            }
            if !same {
                proof {
                    lemma_items_equal_prefix(self@, xs@, ys@, depth as nat, i + 1);
                }
                return false;
            }
            i = i + 1;
        }
        assert(xs@.take(i as int) =~= xs@);
        assert(ys@.take(i as int) =~= ys@);
        true
    }

    fn entries_equal(&self, xs: &Vec<(Variant, Variant)>, ys: &Vec<(Variant, Variant)>, depth: usize) -> (r: bool)
        ensures
            r == entries_equal(self@, xs@, ys@, depth as nat),
        decreases depth, 3nat, 0nat,
    {
        if xs.len() != ys.len() {
            return false;
        }
        let mut i: usize = 0;
        while i < xs.len()
            invariant
                xs.len() == ys.len(),
                i <= xs.len(),
                entries_found(self@, xs@.take(i as int), ys@, depth as nat),
            decreases xs.len() - i,
        {
            proof {
                lemma_find_key_from_bounds(self@, ys@, xs@[i as int].0, depth as nat, 0);
                assert(xs@.take(i + 1).drop_last() =~= xs@.take(i as int));
            }
            let found = match self.find_key_at(ys, &xs[i].0, depth) {
                Some(j) => self.values_equal(&xs[i].1, &ys[j].1, depth),
                None => false,
            };
            if !found {
                proof {
                    lemma_entries_found_prefix(self@, xs@, ys@, depth as nat, i + 1);
                }
                return false;
            }
            i = i + 1;
        }
        assert(xs@.take(i as int) =~= xs@);
        true
    }

    fn find_key_at(&self, entries: &Vec<(Variant, Variant)>, key: &Variant, depth: usize) -> (r: Option<usize>)
        ensures
            match r {
                Some(j) => find_key_from(self@, entries@, *key, depth as nat, 0) == Some(j as int),
                None => find_key_from(self@, entries@, *key, depth as nat, 0) is None,
            },
        decreases depth, 1nat, entries.len() + 1,
    {
        let mut j: usize = 0;
        while j < entries.len()
            invariant
                j <= entries.len(),
                find_key_from(self@, entries@, *key, depth as nat, 0) == find_key_from(
                    self@,
                    entries@,
                    *key,
                    depth as nat,
                    j as int,
                ),
            decreases entries.len() - j,
        {
            if self.values_equal(&entries[j].0, key, depth) {
                return Some(j);
            }
            j = j + 1;
        }
        None
    }

    /// The index of the entry whose key equals `key` in `entries`, at full depth.
    pub fn find_key(&self, entries: &Vec<(Variant, Variant)>, key: &Variant) -> (r: Option<usize>)
        ensures
            match r {
                Some(j) => find_key(self@, entries@, *key) == Some(j as int),
                None => find_key(self@, entries@, *key) is None,
            },
    {
        self.find_key_at(entries, key, self.objects.len())
    }

    /// The value that `key` has in the dictionary that `h` names, if it names
    /// one and the key is present.
    pub fn dictionary_get(&self, h: usize, key: &Variant) -> (r: Option<&Variant>)
        ensures
            match r {
                Some(v) => dictionary_at(self@, h) matches Some(es) && find_key(self@, es, *key) matches Some(j) && *v == es[j].1,
                None => dictionary_at(self@, h) matches Some(es) ==> find_key(self@, es, *key) is None,
            },
    {
        match self.dictionary(h) {
            Some(entries) => {
                proof {
                    lemma_find_key_bounds(self@, entries@, *key);
                }
                match self.find_key(entries, key) {
                    Some(j) => Some(&entries[j].1),
                    None => None,
                }
            },
            None => None,
        }
    }
}

} // verus!
