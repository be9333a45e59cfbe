//! Staleness-windowed projection of the store, and the optional max-fold
//! aggregation across devices.

use vstd::prelude::*;

use crate::aranet4;
use crate::mitherm;
use crate::reading::Reading;
use crate::reading::TimedReading;
use crate::store::DeviceId;
use crate::store::DeviceTable;

verus! {

/// Whether an entry captured at `captured_at` is still fresh at `now` under
/// the given staleness window: its age must not exceed the window. An entry
/// exactly at the boundary is fresh.
pub open spec fn spec_is_fresh(captured_at: u64, now: u64, window: u64) -> bool {
    now <= captured_at + window
}

/// Decides freshness. Pure: repeated calls on the same arguments agree,
/// at the boundary as everywhere else.
pub fn is_fresh(captured_at: u64, now: u64, window: u64) -> (r: bool)
    ensures
        r == spec_is_fresh(captured_at, now, window),
{
    if now <= captured_at {
        true
    } else {
        now - captured_at <= window
    }
}

/// An entry strictly older than the window is excluded, one strictly
/// younger is included, and one exactly at the boundary is included.
pub proof fn lemma_staleness_boundary(captured_at: u64, now: u64, window: u64)
    requires
        captured_at <= now,
    ensures
        now - captured_at > window ==> !spec_is_fresh(captured_at, now, window),
        now - captured_at < window ==> spec_is_fresh(captured_at, now, window),
        now - captured_at == window ==> spec_is_fresh(captured_at, now, window),
{
}

/// The non-stale CO2-sensor rows of `s`, in store order.
pub open spec fn spec_project_aranet4(
    s: Seq<(DeviceId, TimedReading)>,
    now: u64,
    window: u64,
) -> Seq<(DeviceId, aranet4::Announcement)>
    decreases s.len(),
{
    if s.len() == 0 {
        Seq::empty()
    } else {
        let rest = spec_project_aranet4(s.drop_last(), now, window);
        match s.last().1.reading {
            Reading::Aranet4(a) => if spec_is_fresh(s.last().1.captured_at, now, window) {
                rest.push((s.last().0, a))
            } else {
                rest
            },
            _ => rest,
        }
    }
}

/// The non-stale temperature/humidity-sensor rows of `s`, in store order.
pub open spec fn spec_project_mitherm(
    s: Seq<(DeviceId, TimedReading)>,
    now: u64,
    window: u64,
) -> Seq<(DeviceId, mitherm::Announcement)>
    decreases s.len(),
{
    if s.len() == 0 {
        Seq::empty()
    } else {
        let rest = spec_project_mitherm(s.drop_last(), now, window);
        match s.last().1.reading {
            Reading::MiTherm(a) => if spec_is_fresh(s.last().1.captured_at, now, window) {
                rest.push((s.last().0, a))
            } else {
                rest
            },
            _ => rest,
        }
    }
}

/// Projects the store's CO2-sensor entries as of `now`: exactly the entries
/// whose age does not exceed the window, in store order.
pub fn project_aranet4(
    store: &DeviceTable<TimedReading>,
    now: u64,
    window: u64,
) -> (rows: Vec<(DeviceId, aranet4::Announcement)>)
    ensures
        rows@ == spec_project_aranet4(store.entries(), now, window),
{
    let ghost s = store.entries();
    let n = store.len();
    let mut rows: Vec<(DeviceId, aranet4::Announcement)> = Vec::new();
    proof {
        assert(s.subrange(0, 0) =~= Seq::<(DeviceId, TimedReading)>::empty());
    }
    let mut i: usize = 0;
    while i < n
        invariant
            n == s.len(),
            i <= n,
            s == store.entries(),
            rows@ == spec_project_aranet4(s.subrange(0, i as int), now, window),
        decreases n - i,
    {
        let e = store.entry_at(i);
        proof {
            assert(s.subrange(0, i as int + 1).drop_last() =~= s.subrange(0, i as int));
            assert(s.subrange(0, i as int + 1).last() == s[i as int]);
        }
        match e.1.reading {
            Reading::Aranet4(a) => {
                if is_fresh(e.1.captured_at, now, window) {
                    rows.push((e.0, a));
                }
            },
            _ => {},
        }
        i = i + 1;
    }
    proof {
        assert(s.subrange(0, n as int) =~= s);
    }
    rows
}

/// Projects the store's temperature/humidity-sensor entries as of `now`.
pub fn project_mitherm(
    store: &DeviceTable<TimedReading>,
    now: u64,
    window: u64,
) -> (rows: Vec<(DeviceId, mitherm::Announcement)>)
    ensures
        rows@ == spec_project_mitherm(store.entries(), now, window),
{
    let ghost s = store.entries();
    let n = store.len();
    let mut rows: Vec<(DeviceId, mitherm::Announcement)> = Vec::new();
    proof {
        assert(s.subrange(0, 0) =~= Seq::<(DeviceId, TimedReading)>::empty());
    }
    let mut i: usize = 0;
    while i < n
        invariant
            n == s.len(),
            i <= n,
            s == store.entries(),
            rows@ == spec_project_mitherm(s.subrange(0, i as int), now, window),
        decreases n - i,
    {
        let e = store.entry_at(i);
        proof {
            assert(s.subrange(0, i as int + 1).drop_last() =~= s.subrange(0, i as int));
            assert(s.subrange(0, i as int + 1).last() == s[i as int]);
        }
        match e.1.reading {
            Reading::MiTherm(a) => {
                if is_fresh(e.1.captured_at, now, window) {
                    rows.push((e.0, a));
                }
            },
            _ => {},
        }
        i = i + 1;
    }
    proof {
        assert(s.subrange(0, n as int) =~= s);
    }
    rows
}

/// Every fresh CO2-sensor entry of the store appears in the projection: no
/// update is lost between the store and the projected view.
pub proof fn lemma_project_aranet4_complete(
    s: Seq<(DeviceId, TimedReading)>,
    now: u64,
    window: u64,
    i: int,
)
    requires
        0 <= i < s.len(),
        s[i].1.reading is Aranet4,
        spec_is_fresh(s[i].1.captured_at, now, window),
    ensures
        spec_project_aranet4(s, now, window).contains((s[i].0, s[i].1.reading->Aranet4_0)),
    decreases s.len(),
{
    let p = spec_project_aranet4(s, now, window);
    let rest = spec_project_aranet4(s.drop_last(), now, window);
    if i == s.len() - 1 {
        assert(p.last() == (s[i].0, s[i].1.reading->Aranet4_0));
        assert(p.contains((s[i].0, s[i].1.reading->Aranet4_0))) by {
            assert(p[p.len() - 1] == (s[i].0, s[i].1.reading->Aranet4_0));
        }
    } else {
        assert(s.drop_last()[i] == s[i]);
        lemma_project_aranet4_complete(s.drop_last(), now, window, i);
        let row = (s[i].0, s[i].1.reading->Aranet4_0);
        let j = choose|j: int| 0 <= j < rest.len() && rest[j] == row;
        match s.last().1.reading {
            Reading::Aranet4(a) => {
                if spec_is_fresh(s.last().1.captured_at, now, window) {
                    assert(p[j] == row);
                } else {
                    assert(p[j] == row);
                }
            },
            _ => {
                assert(p[j] == row);
            },
        }
    }
}

/// The field-by-field maximum of the non-stale CO2-sensor readings.
///
/// A field is `None` exactly when it is absent on every contributing
/// reading (or there is none); battery and status are not aggregated.
#[derive(Debug, Clone, Copy, PartialEq, Eq)]
pub struct Aggregate {
    pub co2: Option<u16>,
    pub temperature: Option<u16>,
    pub pressure: Option<u16>,
    pub humidity: Option<u8>,
}

/// Maximum of two optional values: an absent side never wins and never
/// zeroes the result; it simply does not participate.
pub open spec fn opt_max16(a: Option<u16>, b: Option<u16>) -> Option<u16> {
    match (a, b) {
        (None, other) => other,
        (other, None) => other,
        (Some(x), Some(y)) => if x >= y {
            Some(x)
        } else {
            Some(y)
        },
    }
}

/// Maximum of two optional bytes, as `opt_max16`.
pub open spec fn opt_max8(a: Option<u8>, b: Option<u8>) -> Option<u8> {
    match (a, b) {
        (None, other) => other,
        (other, None) => other,
        (Some(x), Some(y)) => if x >= y {
            Some(x)
        } else {
            Some(y)
        },
    }
}

/// The max-fold of the readings, field by field.
pub open spec fn spec_fold_max(rs: Seq<aranet4::Announcement>) -> Aggregate
    decreases rs.len(),
{
    if rs.len() == 0 {
        Aggregate { co2: None, temperature: None, pressure: None, humidity: None }
    } else {
        let acc = spec_fold_max(rs.drop_last());
        let r = rs.last();
        Aggregate {
            co2: opt_max16(acc.co2, r.co2),
            temperature: opt_max16(acc.temperature, r.temperature),
            pressure: opt_max16(acc.pressure, r.pressure),
            humidity: opt_max8(acc.humidity, Some(r.humidity)),
        }
    }
}

fn opt_max16_exec(a: Option<u16>, b: Option<u16>) -> (r: Option<u16>)
    ensures
        r == opt_max16(a, b),
{
    match (a, b) {
        (None, other) => other,
        (other, None) => other,
        (Some(x), Some(y)) => if x >= y {
            Some(x)
        } else {
            Some(y)
        },
    }
}

fn opt_max8_exec(a: Option<u8>, b: Option<u8>) -> (r: Option<u8>)
    ensures
        r == opt_max8(a, b),
{
    match (a, b) {
        (None, other) => other,
        (other, None) => other,
        (Some(x), Some(y)) => if x >= y {
            Some(x)
        } else {
            Some(y)
        },
    }
}

/// Folds projected rows into their field-by-field maximum.
pub fn aggregate_max(rows: &Vec<(DeviceId, aranet4::Announcement)>) -> (agg: Aggregate)
    ensures
        agg == spec_fold_max(rows@.map_values(|p: (DeviceId, aranet4::Announcement)| p.1)),
{
    let ghost anns = rows@.map_values(|p: (DeviceId, aranet4::Announcement)| p.1);
    let mut agg = Aggregate { co2: None, temperature: None, pressure: None, humidity: None };
    proof {
        assert(anns.subrange(0, 0) =~= Seq::<aranet4::Announcement>::empty());
    }
    let n = rows.len();
    let mut i: usize = 0;
    while i < n
        invariant
            n == rows@.len(),
            i <= n,
            anns == rows@.map_values(|p: (DeviceId, aranet4::Announcement)| p.1),
            agg == spec_fold_max(anns.subrange(0, i as int)),
        decreases n - i,
    {
        let r = &rows[i].1;
        proof {
            assert(anns.subrange(0, i as int + 1).drop_last() =~= anns.subrange(0, i as int));
            assert(anns.subrange(0, i as int + 1).last() == anns[i as int]);
            assert(anns[i as int] == rows@[i as int].1);
        }
        agg = Aggregate {
            co2: opt_max16_exec(agg.co2, r.co2),
            temperature: opt_max16_exec(agg.temperature, r.temperature),
            pressure: opt_max16_exec(agg.pressure, r.pressure),
            humidity: opt_max8_exec(agg.humidity, Some(r.humidity)),
        };
        i = i + 1;
    }
    proof {
        assert(anns.subrange(0, n as int) =~= anns);
    }
    agg
}

/// The aggregated projection mode: folds the store's non-stale CO2-sensor
/// readings into their field-by-field maximum, for single-value summaries.
pub fn project_aggregate(store: &DeviceTable<TimedReading>, now: u64, window: u64) -> (agg:
    Aggregate)
    ensures
        agg == spec_fold_max(
            spec_project_aranet4(store.entries(), now, window).map_values(
                |p: (DeviceId, aranet4::Announcement)| p.1,
            ),
        ),
{
    let rows = project_aranet4(store, now, window);
    aggregate_max(&rows)
}

/// Max-fold of two readings, field by field: both present folds to the
/// maximum; one side absent folds to the other side's value, so an absent
/// field never wins and never zeroes the result.
pub proof fn lemma_fold_max_pair(r1: aranet4::Announcement, r2: aranet4::Announcement)
    ensures
        spec_fold_max(seq![r1, r2]).co2 == opt_max16(r1.co2, r2.co2),
        spec_fold_max(seq![r1, r2]).temperature == opt_max16(r1.temperature, r2.temperature),
        spec_fold_max(seq![r1, r2]).pressure == opt_max16(r1.pressure, r2.pressure),
        spec_fold_max(seq![r1, r2]).humidity == opt_max8(Some(r1.humidity), Some(r2.humidity)),
        r1.co2 is None ==> spec_fold_max(seq![r1, r2]).co2 == r2.co2,
        r2.co2 is None ==> spec_fold_max(seq![r1, r2]).co2 == r1.co2,
{
    reveal_with_fuel(spec_fold_max, 3);
    let s = seq![r1, r2];
    assert(s.len() == 2);
    assert(s.drop_last().len() == 1);
    assert(s.drop_last().last() == r1);
    assert(s.drop_last().drop_last().len() == 0);
}

/// A field absent on every contributing reading is absent on the
/// aggregate.
pub proof fn lemma_fold_max_all_absent(rs: Seq<aranet4::Announcement>)
    ensures
        (forall|i: int| 0 <= i < rs.len() ==> (#[trigger] rs[i]).co2 is None)
            ==> spec_fold_max(rs).co2 is None,
        (forall|i: int| 0 <= i < rs.len() ==> (#[trigger] rs[i]).temperature is None)
            ==> spec_fold_max(rs).temperature is None,
        (forall|i: int| 0 <= i < rs.len() ==> (#[trigger] rs[i]).pressure is None)
            ==> spec_fold_max(rs).pressure is None,
    decreases rs.len(),
{
    if rs.len() == 0 {
    } else {
        lemma_fold_max_all_absent(rs.drop_last());
        assert(forall|i: int|
            0 <= i < rs.drop_last().len() ==> (#[trigger] rs.drop_last()[i]) == rs[i]);
    }
}

/// Every row of the projection comes from a store entry that is fresh and
/// of the projected kind: the projection invents nothing and keeps nothing
/// stale.
pub proof fn lemma_project_aranet4_sound(
    s: Seq<(DeviceId, TimedReading)>,
    now: u64,
    window: u64,
    j: int,
)
    requires
        0 <= j < spec_project_aranet4(s, now, window).len(),
    ensures
        exists|i: int|
            {
                &&& 0 <= i < s.len()
                &&& (#[trigger] s[i]).1.reading is Aranet4
                &&& spec_is_fresh(s[i].1.captured_at, now, window)
                &&& spec_project_aranet4(s, now, window)[j] == (s[i].0, s[i].1.reading->Aranet4_0)
            },
    decreases s.len(),
{
    let p = spec_project_aranet4(s, now, window);
    let rest = spec_project_aranet4(s.drop_last(), now, window);
    if s.len() == 0 {
    } else {
        if j < rest.len() {
            lemma_project_aranet4_sound(s.drop_last(), now, window, j);
            let i = choose|i: int|
                {
                    &&& 0 <= i < s.drop_last().len()
                    &&& (#[trigger] s.drop_last()[i]).1.reading is Aranet4
                    &&& spec_is_fresh(s.drop_last()[i].1.captured_at, now, window)
                    &&& rest[j] == (s.drop_last()[i].0, s.drop_last()[i].1.reading->Aranet4_0)
                };
            assert(s[i] == s.drop_last()[i]);
            assert(p[j] == rest[j]);
        } else {
            let i = s.len() - 1;
            assert(p[j] == (s[i].0, s[i].1.reading->Aranet4_0));
        }
    }
}

/// A fresh CO2-sensor entry of the store, named by device, appears in the
/// projection of the store's entries: what the store holds, a tick shows.
pub proof fn lemma_store_entry_projected(
    store: DeviceTable<TimedReading>,
    now: u64,
    window: u64,
    d: DeviceId,
)
    requires
        store.wf(),
        store@.contains_key(d),
        store@[d].reading is Aranet4,
        spec_is_fresh(store@[d].captured_at, now, window),
    ensures
        spec_project_aranet4(store.entries(), now, window).contains(
            (d, store@[d].reading->Aranet4_0),
        ),
{
    crate::store::lemma_spec_get_has_index(store.entries(), d);
    let i = choose|i: int|
        0 <= i < store.entries().len() && (#[trigger] store.entries()[i]) == (
        d,
        crate::store::spec_get(store.entries(), d)->Some_0,
        );
    lemma_project_aranet4_complete(store.entries(), now, window, i);
}

} // verus!
