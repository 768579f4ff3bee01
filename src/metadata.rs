use vstd::prelude::*;

verus! {

/// The kinds of metadata a compilation carries.
#[derive(Clone, Copy, Debug, PartialEq, Eq, Structural)]
pub enum MetadataKind {
    RuntimeBindings,
    GasMetadata,
    DictBindings,
    /// A cache of one libfunc lowering, by its number.
    LibfuncCache(u64),
}

/// The outcome of inserting `v` as the value of `k` into `m`: whether it was
/// inserted, and the new contents. A present value is never replaced.
pub open spec fn insert_result<V>(m: Map<MetadataKind, V>, k: MetadataKind, v: V) -> (bool, Map<MetadataKind, V>) {
    if m.contains_key(k) {
        (false, m)
    } else {
        (true, m.insert(k, v))
    }
}

/// Inserting a kind a second time is refused and keeps the first value.
pub proof fn lemma_insert_twice<V>(m: Map<MetadataKind, V>, k: MetadataKind, v1: V, v2: V)
    ensures
        ({
            let (r1, m1) = insert_result(m, k, v1);
            let (r2, m2) = insert_result(m1, k, v2);
            !r2 && m2 == m1 && m2.contains_key(k) && m2[k] == (if r1 {
                v1
            } else {
                m[k]
            })
        }),
{
}

/// One value for each kind of metadata present.
pub struct MetadataStorage<V> {
    entries: Vec<(MetadataKind, V)>,
}

impl<V> View for MetadataStorage<V> {
    type V = Map<MetadataKind, V>;

    closed spec fn view(&self) -> Map<MetadataKind, V> {
        Map::new(
            |k: MetadataKind| exists|i: int| 0 <= i < self.entries@.len() && self.entries@[i].0 == k,
            |k: MetadataKind| self.entries@[self.index_of(k)].1,
        )
    }
}

impl<V> MetadataStorage<V> {
    spec fn index_of(&self, k: MetadataKind) -> int {
        choose|i: int| 0 <= i < self.entries@.len() && self.entries@[i].0 == k
    }

    /// Each kind appears at most once.
    pub closed spec fn wf(&self) -> bool {
        forall|i: int, j: int|
            0 <= i < self.entries@.len() && 0 <= j < self.entries@.len() && self.entries@[i].0
                == self.entries@[j].0 ==> i == j
    }

    proof fn lemma_view_at(&self, i: int)
        requires
            self.wf(),
            0 <= i < self.entries@.len(),
        ensures
            self@.contains_key(self.entries@[i].0),
            self@[self.entries@[i].0] == self.entries@[i].1,
    {
        let k = self.entries@[i].0;
        assert(exists|j: int| 0 <= j < self.entries@.len() && self.entries@[j].0 == k);
        let j = self.index_of(k);
        assert(i == j);
    }

    pub fn new() -> (r: Self)
        ensures
            r.wf(),
            r@ == Map::<MetadataKind, V>::empty(),
    {
        let r = MetadataStorage { entries: Vec::new() };
        assert(r@ =~= Map::<MetadataKind, V>::empty());
        r
    }

    /// A store seeded for a compilation: the runtime bindings and the gas
    /// metadata, which every libfunc lowering may rely on.
    pub fn seeded(runtime_bindings: V, gas: V) -> (r: Self)
        ensures
            r.wf(),
            r@ == Map::<MetadataKind, V>::empty().insert(MetadataKind::RuntimeBindings, runtime_bindings).insert(
                MetadataKind::GasMetadata,
                gas,
            ),
    {
        let mut r = MetadataStorage::new();
        r.insert(MetadataKind::RuntimeBindings, runtime_bindings);
        r.insert(MetadataKind::GasMetadata, gas);
        r
    }

    fn find(&self, kind: MetadataKind) -> (r: Option<usize>)
        requires
            self.wf(),
        ensures
            r is None <==> !self@.contains_key(kind),
            r is Some ==> r->Some_0 < self.entries@.len() && self.entries@[r->Some_0 as int].0 == kind,
    {
        let mut i: usize = 0;
        while i < self.entries.len()
            invariant
                0 <= i <= self.entries@.len(),
                forall|j: int| 0 <= j < i ==> self.entries@[j].0 != kind,
            decreases self.entries.len() - i,
        {
            if self.entries[i].0 == kind {
                return Some(i);
            }
            i = i + 1;
        }
        None
    }

    /// Whether a value of `kind` is present.
    pub fn contains(&self, kind: MetadataKind) -> (r: bool)
        requires
            self.wf(),
        ensures
            r == self@.contains_key(kind),
    {
        self.find(kind).is_some()
    }

    /// Inserts `value` as the metadata of `kind` if none is present; returns
    /// whether it was inserted. A present value is kept.
    pub fn insert(&mut self, kind: MetadataKind, value: V) -> (r: bool)
        requires
            old(self).wf(),
        ensures
            final(self).wf(),
            (r, final(self)@) == insert_result(old(self)@, kind, value),
    {
        match self.find(kind) {
            Some(_) => false,
            None => {
                let ghost prev = *self;
                self.entries.push((kind, value));
                proof {
                    let n = prev.entries@.len() as int;
                    assert forall|i: int| 0 <= i < n implies self.entries@[i] == prev.entries@[i] by {}
                    assert(self.wf());
                    assert forall|k: MetadataKind| #[trigger] self@.contains_key(k) == prev@.insert(kind, value).contains_key(k) by {
                        if k != kind && prev@.contains_key(k) {
                            let i = prev.index_of(k);
                            assert(self.entries@[i].0 == k);
                        }
                        if k == kind {
                            assert(self.entries@[n].0 == k);
                        }
                    }
                    assert forall|k: MetadataKind| #[trigger] self@.contains_key(k) implies self@[k] == prev@.insert(kind, value)[k] by {
                        if k == kind {
                            self.lemma_view_at(n);
                        } else {
                            let i = prev.index_of(k);
                            prev.lemma_view_at(i);
                            self.lemma_view_at(i);
                        }
                    }
                    assert(self@ =~= prev@.insert(kind, value));
                }
                true
            },
        }
    }

    /// The value of `kind`, if present.
    pub fn get(&self, kind: MetadataKind) -> (r: Option<&V>)
        requires
            self.wf(),
        ensures
            r is Some <==> self@.contains_key(kind),
            r is Some ==> *r->Some_0 == self@[kind],
    {
        match self.find(kind) {
            Some(i) => {
                proof {
                    self.lemma_view_at(i as int);
                }
                Some(&self.entries[i].1)
            },
            None => None,
        }
    }

    /// Replaces the value of `kind` if present, for callees that accumulate
    /// into it; returns whether it was present.
    pub fn update(&mut self, kind: MetadataKind, value: V) -> (r: bool)
        requires
            old(self).wf(),
        ensures
            final(self).wf(),
            r == old(self)@.contains_key(kind),
            r ==> final(self)@ == old(self)@.insert(kind, value),
            !r ==> final(self)@ == old(self)@,
    {
        match self.find(kind) {
            None => false,
            Some(i) => {
                let ghost prev = *self;
                self.entries.set(i, (kind, value));
                proof {
                    assert(self.wf());
                    assert forall|k: MetadataKind| #[trigger] self@.contains_key(k) == prev@.insert(kind, value).contains_key(k) by {
                        if prev@.contains_key(k) {
                            let j = prev.index_of(k);
                            assert(self.entries@[j].0 == k);
                        }
                        if self@.contains_key(k) {
                            let j = self.index_of(k);
                            assert(prev.entries@[j].0 == k);
                        }
                    }
                    assert forall|k: MetadataKind| #[trigger] self@.contains_key(k) implies self@[k] == prev@.insert(kind, value)[k] by {
                        if k == kind {
                            self.lemma_view_at(i as int);
                        } else {
                            let j = prev.index_of(k);
                            prev.lemma_view_at(j);
                            self.lemma_view_at(j);
                        }
                    }
                    assert(self@ =~= prev@.insert(kind, value));
                }
                true
            },
        }
    }
}

} // verus!
