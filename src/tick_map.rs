//! An ordered map from monotonic ticks to values, kept as a vector of entries
//! in strictly ascending tick order.
use vstd::prelude::*;

verus! {

/// Entries whose ticks strictly ascend.
pub open spec fn ascending<W>(s: Seq<(u64, W)>) -> bool {
    forall|i: int, j: int| 0 <= i < j < s.len() ==> s[i].0 < s[j].0
}

/// `k` is the place of `t` in `s`: every entry before `k` has a smaller tick,
/// every entry from `k` on a tick that is not smaller.
pub open spec fn is_position<W>(s: Seq<(u64, W)>, t: u64, k: int) -> bool {
    &&& 0 <= k <= s.len()
    &&& forall|i: int| 0 <= i < k ==> s[i].0 < t
    &&& forall|i: int| k <= i < s.len() ==> s[i].0 >= t
}

/// The number of entries of `s` whose tick is smaller than `t`.
pub open spec fn position_of<W>(s: Seq<(u64, W)>, t: u64) -> int {
    choose|k: int| is_position(s, t, k)
}

/// Whether `s` holds an entry for tick `t`.
pub open spec fn has_tick<W>(s: Seq<(u64, W)>, t: u64) -> bool {
    exists|i: int| 0 <= i < s.len() && s[i].0 == t
}

/// The value that `s` holds for tick `t`, if any.
pub open spec fn lookup<W>(s: Seq<(u64, W)>, t: u64) -> Option<W> {
    let k = position_of(s, t);
    if 0 <= k < s.len() && s[k].0 == t {
        Some(s[k].1)
    } else {
        None
    }
}

/// The list held for tick `t`, or an empty one.
pub open spec fn values_at<T>(s: Seq<(u64, Seq<T>)>, t: u64) -> Seq<T> {
    match lookup(s, t) {
        Some(l) => l,
        None => Seq::empty(),
    }
}

/// `s` with the value for tick `t` set to `w`: an existing entry for `t` is
/// replaced, otherwise a new entry is placed in tick order.
pub open spec fn upsert<W>(s: Seq<(u64, W)>, t: u64, w: W) -> Seq<(u64, W)> {
    let k = position_of(s, t);
    if 0 <= k < s.len() && s[k].0 == t {
        s.update(k, (t, w))
    } else {
        s.insert(k, (t, w))
    }
}

/// At most one place fits a tick.
pub proof fn lemma_position_unique<W>(s: Seq<(u64, W)>, t: u64, k1: int, k2: int)
    requires
        is_position(s, t, k1),
        is_position(s, t, k2),
    ensures
        k1 == k2,
{
    if k1 < k2 {
        assert(s[k1].0 >= t);
    } else if k2 < k1 {
        assert(s[k2].0 >= t);
    }
}

/// In ascending entries, the place of a tick is where it is found or where it
/// would go, and the lookup agrees with the entries.
pub proof fn lemma_position_of<W>(s: Seq<(u64, W)>, t: u64, k: int)
    requires
        is_position(s, t, k),
    ensures
        position_of(s, t) == k,
        lookup(s, t) == (if k < s.len() && s[k].0 == t {
            Some(s[k].1)
        } else {
            None::<W>
        }),
{
    let c = position_of(s, t);
    assert(is_position(s, t, c));
    lemma_position_unique(s, t, c, k);
}

/// Ascending entries have a place for every tick.
pub proof fn lemma_position_exists<W>(s: Seq<(u64, W)>, t: u64)
    requires
        ascending(s),
    ensures
        is_position(s, t, position_of(s, t)),
    decreases s.len(),
{
    if s.len() == 0 {
        assert(is_position(s, t, 0));
    } else {
        let p = s.drop_last();
        assert(ascending(p));
        lemma_position_exists(p, t);
        let k = position_of(p, t);
        if s.last().0 < t {
            assert forall|i: int| 0 <= i < s.len() implies s[i].0 < t by {
                if i < s.len() - 1 {
                    assert(s[i].0 < s[s.len() - 1].0);
                }
            }
            assert(is_position(s, t, s.len() as int));
        } else {
            assert forall|i: int| k <= i < s.len() implies s[i].0 >= t by {
                if i < s.len() - 1 {
                    assert(s[i] == p[i]);
                }
            }
            assert forall|i: int| 0 <= i < k implies s[i].0 < t by {
                assert(s[i] == p[i]);
            }
            assert(is_position(s, t, k));
        }
    }
}

/// Upserting keeps ascending entries ascending, and the new value is found.
pub proof fn lemma_upsert_ascending<W>(s: Seq<(u64, W)>, t: u64, w: W)
    requires
        ascending(s),
    ensures
        ascending(upsert(s, t, w)),
        has_tick(upsert(s, t, w), t),
        lookup(upsert(s, t, w), t) == Some(w),
        forall|k: u64| #[trigger] has_tick(upsert(s, t, w), k) <==> (has_tick(s, k) || k == t),
{
    lemma_position_exists(s, t);
    let j = position_of(s, t);
    let u = upsert(s, t, w);
    assert(u[j] == (t, w));
    assert forall|k: u64| has_tick(s, k) implies #[trigger] has_tick(u, k) by {
        let i = choose|i: int| 0 <= i < s.len() && s[i].0 == k;
        if j < s.len() && s[j].0 == t {
            assert(u[i].0 == k);
        } else if i < j {
            assert(u[i] == s[i]);
        } else {
            assert(u[i + 1] == s[i]);
        }
    }
    assert forall|k: u64| #[trigger] has_tick(u, k) && k != t implies has_tick(s, k) by {
        let i = choose|i: int| 0 <= i < u.len() && u[i].0 == k;
        if j < s.len() && s[j].0 == t {
            assert(s[i].0 == k);
        } else if i < j {
            assert(s[i] == u[i]);
        } else {
            assert(s[i - 1] == u[i]);
        }
    }
    assert(is_position(u, t, j));
    lemma_position_of(u, t, j);
}

/// Setting a tick twice leaves only the second value: the same as setting
/// it once to that value.
pub proof fn lemma_upsert_replaces<W>(s: Seq<(u64, W)>, t: u64, a: W, b: W)
    requires
        ascending(s),
    ensures
        upsert(upsert(s, t, a), t, b) == upsert(s, t, b),
{
    lemma_position_exists(s, t);
    let j = position_of(s, t);
    let u = upsert(s, t, a);
    assert(u[j] == (t, a));
    assert(is_position(u, t, j));
    lemma_position_of(u, t, j);
    assert(upsert(u, t, b) =~= upsert(s, t, b));
}

/// An ordered map from ticks to values.
pub struct TickMap<V> {
    entries: Vec<(u64, V)>,
}

impl<V: DeepView> View for TickMap<V> {
    type V = Seq<(u64, V::V)>;

    /// The entries in ascending tick order, values in their deep view.
    closed spec fn view(&self) -> Seq<(u64, V::V)> {
        self.entries.deep_view()
    }
}

impl<V: DeepView> TickMap<V> {
    /// The ticks ascend strictly.
    pub open spec fn wf(&self) -> bool {
        ascending(self@)
    }

    /// An empty map.
    pub fn new() -> (r: Self)
        ensures
            r@ == Seq::<(u64, V::V)>::empty(),
            r.wf(),
    {
        let r = TickMap { entries: Vec::new() };
        assert(r@ =~= Seq::<(u64, V::V)>::empty());
        r
    }

    /// The number of entries.
    pub fn len(&self) -> (r: usize)
        ensures
            r == self@.len(),
    {
        self.entries.len()
    }

    /// Whether the map holds no entry.
    pub fn is_empty(&self) -> (r: bool)
        ensures
            r == (self@.len() == 0),
    {
        self.entries.len() == 0
    }

    /// The tick of the entry at position `i`.
    pub fn tick_at(&self, i: usize) -> (r: u64)
        requires
            i < self@.len(),
        ensures
            r == self@[i as int].0,
    {
        self.entries[i].0
    }

    /// The value of the entry at position `i`.
    pub fn value_at(&self, i: usize) -> (r: &V)
        requires
            i < self@.len(),
        ensures
            r.deep_view() == self@[i as int].1,
    {
        &self.entries[i].1
    }

    /// The smallest tick, if any.
    pub fn first_tick(&self) -> (r: Option<u64>)
        ensures
            r == (if self@.len() == 0 {
                None
            } else {
                Some(self@[0].0)
            }),
    {
        if self.entries.len() == 0 {
            None
        } else {
            Some(self.entries[0].0)
        }
    }

    /// The largest tick, if any.
    pub fn last_tick(&self) -> (r: Option<u64>)
        ensures
            r == (if self@.len() == 0 {
                None
            } else {
                Some(self@.last().0)
            }),
    {
        let n = self.entries.len();
        if n == 0 {
            None
        } else {
            Some(self.entries[n - 1].0)
        }
    }

    /// Finds the place of tick `t` among the entries.
    fn position(&self, t: u64) -> (k: usize)
        requires
            self.wf(),
        ensures
            is_position(self@, t, k as int),
            position_of(self@, t) == k,
    {
        let mut k = self.entries.len();
        while k > 0 && self.entries[k - 1].0 >= t
            invariant
                k <= self@.len(),
                self@.len() == self.entries@.len(),
                forall|i: int| k <= i < self@.len() ==> self@[i].0 >= t,
            decreases k,
        {
            assert(self@[k - 1].0 == self.entries@[k - 1].0);
            k = k - 1;
        }
        assert forall|i: int| 0 <= i < k implies self@[i].0 < t by {
            assert(self@[k - 1].0 == self.entries@[k - 1].0);
            if i < k - 1 {
                assert(self@[i].0 < self@[k - 1].0);
            }
        }
        assert(is_position(self@, t, k as int));
        proof {
            lemma_position_of(self@, t, k as int);
        }
        k
    }

    /// The value held for tick `t`, if any.
    pub fn get(&self, t: u64) -> (r: Option<&V>)
        requires
            self.wf(),
        ensures
            r matches Some(v) ==> lookup(self@, t) == Some(v.deep_view()),
            r is None ==> lookup(self@, t) is None,
    {
        let k = self.position(t);
        proof {
            lemma_position_of(self@, t, k as int);
        }
        if k < self.entries.len() && self.entries[k].0 == t {
            Some(&self.entries[k].1)
        } else {
            None
        }
    }

    /// Sets the value for tick `t`, replacing the one held before.
    pub fn insert(&mut self, t: u64, v: V)
        requires
            old(self).wf(),
        ensures
            final(self)@ == upsert(old(self)@, t, v.deep_view()),
            final(self).wf(),
    {
        let k = self.position(t);
        let ghost s = self@;
        if k < self.entries.len() && self.entries[k].0 == t {
            self.entries.set(k, (t, v));
            assert(self@ =~= s.update(k as int, (t, v.deep_view())));
        } else {
            self.entries.insert(k, (t, v));
            assert(self@ =~= s.insert(k as int, (t, v.deep_view())));
        }
        proof {
            lemma_upsert_ascending(s, t, v.deep_view());
        }
    }

    /// Keeps the first `at` entries and returns the others.
    pub fn split_off(&mut self, at: usize) -> (r: Self)
        requires
            old(self).wf(),
            at <= old(self)@.len(),
        ensures
            final(self)@ == old(self)@.take(at as int),
            r@ == old(self)@.skip(at as int),
            final(self).wf(),
            r.wf(),
    {
        let ghost s = self@;
        let rest = self.entries.split_off(at);
        let r = TickMap { entries: rest };
        assert(self@ =~= s.take(at as int));
        assert(r@ =~= s.skip(at as int));
        r
    }
}

impl<T: DeepView> TickMap<Vec<T>> {
    /// Appends `item` to the list held for tick `t`, starting a new list if
    /// there is none.
    pub fn push_at(&mut self, t: u64, item: T)
        requires
            old(self).wf(),
        ensures
            final(self)@ == upsert(
                old(self)@,
                t,
                values_at(old(self)@, t).push(item.deep_view()),
            ),
            final(self).wf(),
    {
        let k = self.position(t);
        let ghost s = self@;
        proof {
            lemma_position_of(s, t, k as int);
        }
        if k < self.entries.len() && self.entries[k].0 == t {
            let mut e: (u64, Vec<T>) = (t, Vec::new());
            self.entries.set_and_swap(k, &mut e);
            let ghost prior = e.1.deep_view();
            assert(prior == s[k as int].1);
            e.1.push(item);
            assert(e.1.deep_view() =~= prior.push(item.deep_view()));
            self.entries.set(k, e);
            assert(self@ =~= s.update(k as int, (t, prior.push(item.deep_view()))));
        } else {
            let mut l: Vec<T> = Vec::new();
            l.push(item);
            assert(l.deep_view() =~= Seq::<T::V>::empty().push(item.deep_view()));
            self.entries.insert(k, (t, l));
            assert(self@ =~= s.insert(k as int, (t, l.deep_view())));
        }
        proof {
            lemma_upsert_ascending(s, t, values_at(s, t).push(item.deep_view()));
        }
    }
}

} // verus!
