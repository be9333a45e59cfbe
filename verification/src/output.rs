//! Output planning: display-identifier resolution and the two document
//! shapes a timer tick can emit.
//!
//! The library decides *what* a tick shows — which rows, under which
//! identifier, in which order — and hands it over as plain values; the
//! textual serialization of a document is the caller's business and changes
//! nothing about which readings are considered stale.

use vstd::prelude::*;

use crate::aranet4;
use crate::event::State;
use crate::mitherm;
use crate::project::spec_project_aranet4;
use crate::project::spec_project_mitherm;
use crate::project::project_aranet4;
use crate::project::project_mitherm;
use crate::store::DeviceId;
use crate::store::DeviceTable;
use crate::store::spec_get;

verus! {

broadcast use vstd::seq_lib::group_to_multiset_ensures;

/// How a device is shown: its resolved friendly name if one is known, else
/// its raw identifier.
#[derive(Debug, Clone, PartialEq, Eq)]
pub enum DisplayId {
    Named(String),
    Raw(DeviceId),
}

/// The display identifier the names table resolves `d` to.
pub open spec fn spec_display(names: Seq<(DeviceId, String)>, d: DeviceId) -> DisplayId {
    match spec_get(names, d) {
        Some(n) => DisplayId::Named(n),
        None => DisplayId::Raw(d),
    }
}

/// Resolves a device to its display identifier. A device whose name lookup
/// failed or never completed falls back to the raw identifier.
pub fn display_id(names: &DeviceTable<String>, d: DeviceId) -> (r: DisplayId)
    ensures
        r == spec_display(names.entries(), d),
{
    match names.get(d) {
        Some(n) => DisplayId::Named(n.clone()),
        None => DisplayId::Raw(d),
    }
}

/// Projected rows with each device resolved to its display identifier.
pub open spec fn spec_named_rows<A>(
    names: Seq<(DeviceId, String)>,
    rows: Seq<(DeviceId, A)>,
) -> Seq<(DisplayId, A)> {
    rows.map_values(|p: (DeviceId, A)| (spec_display(names, p.0), p.1))
}

/// Resolves every row's device to its display identifier.
fn name_rows<A: Copy>(names: &DeviceTable<String>, rows: &Vec<(DeviceId, A)>) -> (out: Vec<
    (DisplayId, A),
>)
    ensures
        out@ == spec_named_rows(names.entries(), rows@),
{
    let mut out: Vec<(DisplayId, A)> = Vec::new();
    let n = rows.len();
    proof {
        assert(spec_named_rows(names.entries(), rows@.subrange(0, 0)) =~= Seq::<
            (DisplayId, A),
        >::empty());
    }
    let mut i: usize = 0;
    while i < n
        invariant
            n == rows@.len(),
            i <= n,
            out@ == spec_named_rows(names.entries(), rows@.subrange(0, i as int)),
        decreases n - i,
    {
        let id = display_id(names, rows[i].0);
        out.push((id, rows[i].1));
        proof {
            assert(spec_named_rows(names.entries(), rows@.subrange(0, i as int + 1))
                =~= spec_named_rows(names.entries(), rows@.subrange(0, i as int)).push(
                (spec_display(names.entries(), rows@[i as int].0), rows@[i as int].1),
            ));
        }
        i = i + 1;
    }
    proof {
        assert(rows@.subrange(0, n as int) =~= rows@);
    }
    out
}

/// The ranking key of the summary: the co2 value, with an absent field
/// ranked lowest.
pub open spec fn co2_key(a: aranet4::Announcement) -> u16 {
    match a.co2 {
        Some(v) => v,
        None => 0,
    }
}

/// Rows ordered by descending co2.
pub open spec fn sorted_by_co2_desc(s: Seq<(DisplayId, aranet4::Announcement)>) -> bool {
    forall|i: int, j: int|
        0 <= i < j < s.len() ==> co2_key((#[trigger] s[i]).1) >= co2_key((#[trigger] s[j]).1)
}

fn co2_key_exec(a: &aranet4::Announcement) -> (k: u16)
    ensures
        k == co2_key(*a),
{
    match a.co2 {
        Some(v) => v,
        None => 0,
    }
}

/// Orders rows by descending co2: the result holds exactly the given rows.
fn sort_by_co2_desc(rows: Vec<(DisplayId, aranet4::Announcement)>) -> (out: Vec<
    (DisplayId, aranet4::Announcement),
>)
    ensures
        out@.to_multiset() == rows@.to_multiset(),
        out@.len() == rows@.len(),
        sorted_by_co2_desc(out@),
{
    let mut rest = rows;
    let mut out: Vec<(DisplayId, aranet4::Announcement)> = Vec::new();
    proof {
        assert(out@.to_multiset().add(rest@.to_multiset()) =~= rest@.to_multiset());
    }
    while rest.len() > 0
        invariant
            out@.to_multiset().add(rest@.to_multiset()) == rows@.to_multiset(),
            out@.len() + rest@.len() == rows@.len(),
            sorted_by_co2_desc(out@),
            forall|i: int, j: int|
                0 <= i < out@.len() && 0 <= j < rest@.len() ==> co2_key((#[trigger] out@[i]).1)
                    >= co2_key((#[trigger] rest@[j]).1),
        decreases rest.len(),
    {
        let mut mi: usize = 0;
        let mut i: usize = 1;
        while i < rest.len()
            invariant
                rest@.len() > 0,
                mi < i,
                i <= rest@.len(),
                forall|j: int|
                    0 <= j < i ==> co2_key((#[trigger] rest@[j]).1) <= co2_key(
                        rest@[mi as int].1,
                    ),
            decreases rest.len() - i,
        {
            if co2_key_exec(&rest[i].1) > co2_key_exec(&rest[mi].1) {
                mi = i;
            }
            i = i + 1;
        }
        let ghost r0 = rest@;
        let ghost o0 = out@;
        let row = rest.remove(mi);
        out.push(row);
        proof {
            assert(r0.contains(r0[mi as int])) by {
                assert(r0[mi as int] == r0[mi as int]);
            }
            assert(out@.to_multiset().add(rest@.to_multiset()) =~= o0.to_multiset().add(
                r0.to_multiset(),
            ));
            assert forall|a: int, b: int|
                0 <= a < out@.len() && 0 <= b < rest@.len() implies co2_key(
                (#[trigger] out@[a]).1,
            ) >= co2_key((#[trigger] rest@[b]).1) by {
                if b < mi {
                    assert(rest@[b] == r0[b]);
                } else {
                    assert(rest@[b] == r0[b + 1]);
                }
                if a < o0.len() {
                    assert(out@[a] == o0[a]);
                } else {
                    assert(out@[a] == r0[mi as int]);
                }
            }
        }
    }
    out
}

/// How a tick's document is shaped.
#[derive(Debug, Clone, Copy, PartialEq, Eq, Structural)]
pub enum OutputMode {
    /// One section per sensor kind, keyed by display identifier.
    Structured,
    /// A single headline reading plus a detail line per device.
    Summary,
}

/// The structured document: one section per recognized sensor kind. A
/// section left empty means no non-stale reading of that kind exists, and
/// the serializer omits it.
pub struct StructuredDoc {
    pub aranet4: Vec<(DisplayId, aranet4::Announcement)>,
    pub mitherm: Vec<(DisplayId, mitherm::Announcement)>,
}

/// The summary document: every non-stale CO2-sensor row, ordered by
/// descending co2. The first row is the headline; all rows make the
/// detail text.
pub struct SummaryDoc {
    pub lines: Vec<(DisplayId, aranet4::Announcement)>,
}

/// One document, shaped by the selected output mode.
pub enum Document {
    Structured(StructuredDoc),
    Summary(SummaryDoc),
}

/// Plans the document for one timer tick: projects the store as of `now`
/// under the staleness window, resolves display identifiers, and shapes the
/// result for the selected mode. Reads the state and mutates nothing; the
/// mode changes only presentation, never which readings count as stale.
pub fn render(state: &State, now: u64, window: u64, mode: OutputMode) -> (doc: Document)
    requires
        state.wf(),
    ensures
        (match doc {
            Document::Structured(sd) => {
                &&& mode == OutputMode::Structured
                &&& sd.aranet4@ == spec_named_rows(
                    state.names.entries(),
                    spec_project_aranet4(state.store.entries(), now, window),
                )
                &&& sd.mitherm@ == spec_named_rows(
                    state.names.entries(),
                    spec_project_mitherm(state.store.entries(), now, window),
                )
            },
            Document::Summary(sm) => {
                &&& mode == OutputMode::Summary
                &&& sm.lines@.to_multiset() == spec_named_rows(
                    state.names.entries(),
                    spec_project_aranet4(state.store.entries(), now, window),
                ).to_multiset()
                &&& sm.lines@.len() == spec_project_aranet4(
                    state.store.entries(),
                    now,
                    window,
                ).len()
                &&& sorted_by_co2_desc(sm.lines@)
            },
        }),
{
    let rows_a = project_aranet4(&state.store, now, window);
    let named_a = name_rows(&state.names, &rows_a);
    match mode {
        OutputMode::Structured => {
            let rows_m = project_mitherm(&state.store, now, window);
            let named_m = name_rows(&state.names, &rows_m);
            Document::Structured(StructuredDoc { aranet4: named_a, mitherm: named_m })
        },
        OutputMode::Summary => {
            let lines = sort_by_co2_desc(named_a);
            Document::Summary(SummaryDoc { lines })
        },
    }
}

} // verus!
