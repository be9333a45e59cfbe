//! Device-keyed tables: at most one entry per device, latest write wins.

use vstd::prelude::*;
use vstd::pervasive::VecAdditionalExecFns;

verus! {

/// Device identifier: an opaque token assigned by the transport, meaningful
/// only as a same-process key.
pub type DeviceId = u64;

/// No device occurs twice in `s`.
pub open spec fn distinct_devices<V>(s: Seq<(DeviceId, V)>) -> bool {
    forall|i: int, j: int|
        0 <= i < j < s.len() ==> (#[trigger] s[i]).0 != (#[trigger] s[j]).0
}

/// First-match lookup of device `d` among the pairs of `s`.
pub open spec fn spec_get<V>(s: Seq<(DeviceId, V)>, d: DeviceId) -> Option<V>
    decreases s.len(),
{
    if s.len() == 0 {
        None
    } else if s[0].0 == d {
        Some(s[0].1)
    } else {
        spec_get(s.drop_first(), d)
    }
}

/// Dropping the first pair keeps the remaining devices distinct.
proof fn lemma_distinct_drop_first<V>(s: Seq<(DeviceId, V)>)
    requires
        distinct_devices(s),
        s.len() > 0,
    ensures
        distinct_devices(s.drop_first()),
{
    assert forall|i: int, j: int|
        0 <= i < j < s.drop_first().len() implies (#[trigger] s.drop_first()[i]).0
        != (#[trigger] s.drop_first()[j]).0 by {
        assert(s.drop_first()[i] == s[i + 1]);
        assert(s.drop_first()[j] == s[j + 1]);
    }
}

/// Under distinct devices, the pair at any index is what lookup finds.
pub proof fn lemma_spec_get_index<V>(s: Seq<(DeviceId, V)>, i: int)
    requires
        distinct_devices(s),
        0 <= i < s.len(),
    ensures
        spec_get(s, s[i].0) == Some(s[i].1),
    decreases s.len(),
{
    if i == 0 {
    } else {
        assert(s[0].0 != s[i].0);
        lemma_distinct_drop_first(s);
        assert(s.drop_first()[i - 1] == s[i]);
        lemma_spec_get_index(s.drop_first(), i - 1);
    }
}

/// A successful lookup names a pair that stands at some index.
pub proof fn lemma_spec_get_has_index<V>(s: Seq<(DeviceId, V)>, d: DeviceId)
    requires
        spec_get(s, d) is Some,
    ensures
        exists|i: int|
            0 <= i < s.len() && (#[trigger] s[i]) == (d, spec_get(s, d)->Some_0),
    decreases s.len(),
{
    if s.len() == 0 {
    } else if s[0].0 == d {
        assert(s[0] == (d, spec_get(s, d)->Some_0));
    } else {
        lemma_spec_get_has_index(s.drop_first(), d);
        let i = choose|i: int|
            0 <= i < s.drop_first().len() && (#[trigger] s.drop_first()[i]) == (
            d,
            spec_get(s.drop_first(), d)->Some_0,
            );
        assert(s[i + 1] == (d, spec_get(s, d)->Some_0));
    }
}

/// Updating the pair at the index where `d` already stands changes the
/// lookup for `d` alone.
proof fn lemma_spec_get_update<V>(s: Seq<(DeviceId, V)>, i: int, d: DeviceId, v: V)
    requires
        distinct_devices(s),
        0 <= i < s.len(),
        s[i].0 == d,
    ensures
        forall|d2: DeviceId| #[trigger]
            spec_get(s.update(i, (d, v)), d2) == (if d2 == d {
                Some(v)
            } else {
                spec_get(s, d2)
            }),
    decreases s.len(),
{
    let t = s.update(i, (d, v));
    if i == 0 {
        assert(t.drop_first() =~= s.drop_first());
        assert forall|d2: DeviceId| #[trigger]
            spec_get(t, d2) == (if d2 == d {
                Some(v)
            } else {
                spec_get(s, d2)
            }) by {
            if d2 != d {
                assert(spec_get(t, d2) == spec_get(t.drop_first(), d2));
                assert(spec_get(s, d2) == spec_get(s.drop_first(), d2));
            }
        }
    } else {
        assert(s[0].0 != d);
        assert(t.drop_first() =~= s.drop_first().update(i - 1, (d, v)));
        lemma_distinct_drop_first(s);
        assert(s.drop_first()[i - 1] == s[i]);
        lemma_spec_get_update(s.drop_first(), i - 1, d, v);
        assert forall|d2: DeviceId| #[trigger]
            spec_get(t, d2) == (if d2 == d {
                Some(v)
            } else {
                spec_get(s, d2)
            }) by {
            assert(t[0] == s[0]);
            if d2 == s[0].0 {
            } else {
                assert(spec_get(t, d2) == spec_get(t.drop_first(), d2));
                assert(spec_get(s, d2) == spec_get(s.drop_first(), d2));
            }
        }
    }
}

/// Appending a pair for a device not yet present changes the lookup for
/// that device alone.
proof fn lemma_spec_get_push<V>(s: Seq<(DeviceId, V)>, d: DeviceId, v: V)
    requires
        forall|i: int| 0 <= i < s.len() ==> (#[trigger] s[i]).0 != d,
    ensures
        forall|d2: DeviceId| #[trigger]
            spec_get(s.push((d, v)), d2) == (if d2 == d {
                Some(v)
            } else {
                spec_get(s, d2)
            }),
    decreases s.len(),
{
    let t = s.push((d, v));
    if s.len() == 0 {
        assert(t.drop_first() =~= Seq::<(DeviceId, V)>::empty());
        assert forall|d2: DeviceId| #[trigger]
            spec_get(t, d2) == (if d2 == d {
                Some(v)
            } else {
                spec_get(s, d2)
            }) by {
            if d2 != d {
                assert(spec_get(t, d2) == spec_get(t.drop_first(), d2));
            }
        }
    } else {
        assert(t.drop_first() =~= s.drop_first().push((d, v)));
        assert forall|i: int|
            0 <= i < s.drop_first().len() implies (#[trigger] s.drop_first()[i]).0 != d by {
            assert(s.drop_first()[i] == s[i + 1]);
        }
        lemma_spec_get_push(s.drop_first(), d, v);
        assert forall|d2: DeviceId| #[trigger]
            spec_get(t, d2) == (if d2 == d {
                Some(v)
            } else {
                spec_get(s, d2)
            }) by {
            assert(t[0] == s[0]);
            assert(s[0].0 != d);
            if d2 == s[0].0 {
            } else {
                assert(spec_get(t, d2) == spec_get(t.drop_first(), d2));
                assert(spec_get(s, d2) == spec_get(s.drop_first(), d2));
            }
        }
    }
}

/// Association table keyed by device identifier.
///
/// Entries keep their insertion order; a write for a device already present
/// replaces its value in place.
pub struct DeviceTable<V> {
    pairs: Vec<(DeviceId, V)>,
}

impl<V> View for DeviceTable<V> {
    type V = Map<DeviceId, V>;

    open spec fn view(&self) -> Map<DeviceId, V> {
        Map::new(
            |d: DeviceId| spec_get(self.entries(), d) is Some,
            |d: DeviceId| spec_get(self.entries(), d)->Some_0,
        )
    }
}

impl<V> DeviceTable<V> {
    /// The entries, oldest device first.
    pub closed spec fn entries(&self) -> Seq<(DeviceId, V)> {
        self.pairs@
    }

    /// At most one entry per device.
    pub open spec fn wf(&self) -> bool {
        distinct_devices(self.entries())
    }

    /// An empty table.
    pub fn new() -> (t: Self)
        ensures
            t.wf(),
            t.entries() == Seq::<(DeviceId, V)>::empty(),
            t@ == Map::<DeviceId, V>::empty(),
    {
        let t = DeviceTable { pairs: Vec::new() };
        proof {
            assert(t@ =~= Map::<DeviceId, V>::empty());
        }
        t
    }

    /// How many devices have an entry.
    pub fn len(&self) -> (n: usize)
        ensures
            n == self.entries().len(),
    {
        self.pairs.len()
    }

    /// The entry at position `i`, in insertion order.
    pub fn entry_at(&self, i: usize) -> (e: &(DeviceId, V))
        requires
            i < self.entries().len(),
        ensures
            *e == self.entries()[i as int],
    {
        &self.pairs[i]
    }

    /// Looks the device up.
    pub fn get(&self, d: DeviceId) -> (r: Option<&V>)
        ensures
            (match r {
                Some(v) => spec_get(self.entries(), d) == Some(*v),
                None => spec_get(self.entries(), d) is None,
            }),
    {
        let n = self.pairs.len();
        let mut i: usize = 0;
        proof {
            assert(self.pairs@.subrange(0, n as int) =~= self.pairs@);
        }
        while i < n
            invariant
                n == self.pairs@.len(),
                i <= n,
                spec_get(self.pairs@, d) == spec_get(
                    self.pairs@.subrange(i as int, n as int),
                    d,
                ),
            decreases n - i,
        {
            if self.pairs[i].0 == d {
                assert(self.pairs@.subrange(i as int, n as int)[0] == self.pairs@[i as int]);
                return Some(&self.pairs[i].1);
            }
            proof {
                let s = self.pairs@;
                assert(s.subrange(i as int, n as int)[0] == s[i as int]);
                assert(s.subrange(i as int, n as int).drop_first() =~= s.subrange(
                    i as int + 1,
                    n as int,
                ));
            }
            i = i + 1;
        }
        proof {
            assert(self.pairs@.subrange(n as int, n as int).len() == 0);
        }
        None
    }

    /// Whether the device has an entry.
    pub fn contains(&self, d: DeviceId) -> (r: bool)
        ensures
            r == (spec_get(self.entries(), d) is Some),
    {
        self.get(d).is_some()
    }

    /// Writes the device's entry: replaces it in place when the device is
    /// already present, else appends one. The latest write wins; no other
    /// device's entry changes.
    pub fn upsert(&mut self, d: DeviceId, v: V)
        requires
            old(self).wf(),
        ensures
            final(self).wf(),
            final(self)@ == old(self)@.insert(d, v),
            forall|d2: DeviceId| #[trigger]
                spec_get(final(self).entries(), d2) == (if d2 == d {
                    Some(v)
                } else {
                    spec_get(old(self).entries(), d2)
                }),
            (match spec_get(old(self).entries(), d) {
                Some(_) => exists|i: int|
                    0 <= i < old(self).entries().len() && (#[trigger] old(self).entries()[i]).0
                        == d && final(self).entries() == old(self).entries().update(i, (d, v)),
                None => final(self).entries() == old(self).entries().push((d, v)),
            }),
    {
        let ghost s0 = self.pairs@;
        let n = self.pairs.len();
        let mut i: usize = 0;
        while i < n
            invariant
                self.pairs@ == s0,
                old(self).pairs@ == s0,
                distinct_devices(s0),
                n == s0.len(),
                i <= n,
                forall|j: int| 0 <= j < i ==> (#[trigger] s0[j]).0 != d,
            decreases n - i,
        {
            if self.pairs[i].0 == d {
                proof {
                    lemma_spec_get_index(s0, i as int);
                    lemma_spec_get_update(s0, i as int, d, v);
                }
                self.pairs.set(i, (d, v));
                proof {
                    assert forall|a: int, b: int|
                        0 <= a < b < self.pairs@.len() implies (#[trigger] self.pairs@[a]).0 != (
                    #[trigger] self.pairs@[b]).0 by {
                        assert(s0[a].0 == self.pairs@[a].0);
                        assert(s0[b].0 == self.pairs@[b].0);
                    }
                    assert(self@ =~= old(self)@.insert(d, v));
                }
                return ;
            }
            i = i + 1;
        }
        proof {
            if spec_get(s0, d) is Some {
                lemma_spec_get_has_index(s0, d);
            }
            lemma_spec_get_push(s0, d, v);
        }
        self.pairs.push((d, v));
        proof {
            assert forall|a: int, b: int|
                0 <= a < b < self.pairs@.len() implies (#[trigger] self.pairs@[a]).0 != (
            #[trigger] self.pairs@[b]).0 by {
                if b < s0.len() {
                    assert(s0[a].0 != s0[b].0);
                } else {
                    assert(self.pairs@[b] == (d, v));
                    assert(self.pairs@[a] == s0[a]);
                }
            }
            assert(self@ =~= old(self)@.insert(d, v));
        }
    }
}

} // verus!
