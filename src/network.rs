use vstd::prelude::*;
use vstd::string::*;

use crate::models::{NetworkCounters, NetworkDelta};
use crate::text::{decode_utf16_lossy, trim_text, trimmed, utf16_lossy};

verus! {

/// Interface type of a wireless LAN adapter.
pub const WIFI_TYPE: u32 = 71;

/// Interface types of mobile broadband adapters.
pub const CELLULAR_TYPE_GSM: u32 = 243;

pub const CELLULAR_TYPE_CDMA: u32 = 244;

/// Operational status of an interface that is up.
pub const OPER_STATUS_UP: i32 = 1;

/// One row of the interface table as the operating system reports it.
#[derive(Debug)]
pub struct InterfaceRow {
    pub description: String,
    pub if_type: u32,
    pub oper_status: i32,
    pub in_octets: u64,
    pub out_octets: u64,
}

/// Last cumulative readings of one interface, keyed by its description.
#[derive(Debug)]
pub struct CounterEntry {
    pub description: String,
    pub counters: NetworkCounters,
}

impl Clone for CounterEntry {
    fn clone(&self) -> (r: Self)
        ensures
            r == *self,
    {
        CounterEntry { description: self.description.clone(), counters: self.counters }
    }
}

/// The index of the first entry whose description is `d`.
pub open spec fn first_match(s: Seq<CounterEntry>, d: Seq<char>) -> Option<int> {
    if exists|i: int|
        0 <= i < s.len() && s[i].description@ == d && forall|j: int|
            0 <= j < i ==> s[j].description@ != d {
        Some(
            choose|i: int|
                0 <= i < s.len() && s[i].description@ == d && forall|j: int|
                    0 <= j < i ==> s[j].description@ != d,
        )
    } else {
        None
    }
}

pub open spec fn lookup(s: Seq<CounterEntry>, d: Seq<char>) -> Option<NetworkCounters> {
    match first_match(s, d) {
        Some(i) => Some(s[i].counters),
        None => None,
    }
}

pub open spec fn unique_keys(s: Seq<CounterEntry>) -> bool {
    forall|i: int, j: int|
        0 <= i < j < s.len() ==> s[i].description@ != s[j].description@
}

/// Setting `d` to `c`: the first entry with that description is replaced,
/// or a new entry is appended.
pub open spec fn table_insert(s: Seq<CounterEntry>, d: String, c: NetworkCounters) -> Seq<
    CounterEntry,
> {
    match first_match(s, d@) {
        Some(i) => s.update(i, CounterEntry { description: s[i].description, counters: c }),
        None => s.push(CounterEntry { description: d, counters: c }),
    }
}

/// Per-interface cumulative counters, at most one entry per description, in
/// the order the interfaces were first seen.
#[derive(Debug)]
pub struct CounterTable {
    entries: Vec<CounterEntry>,
}

impl View for CounterTable {
    type V = Seq<CounterEntry>;

    closed spec fn view(&self) -> Seq<CounterEntry> {
        self.entries@
    }
}

impl Clone for CounterTable {
    fn clone(&self) -> (r: Self)
        ensures
            r@ == self@,
    {
        let r = CounterTable { entries: self.entries.clone() };
        assert(r.entries@ =~= self.entries@);
        r
    }
}

impl CounterTable {
    pub fn new() -> (r: Self)
        ensures
            r@ == Seq::<CounterEntry>::empty(),
    {
        CounterTable { entries: Vec::new() }
    }

    pub fn len(&self) -> (r: usize)
        ensures
            r == self@.len(),
    {
        self.entries.len()
    }

    pub fn entry(&self, i: usize) -> (r: &CounterEntry)
        requires
            i < self@.len(),
        ensures
            *r == self@[i as int],
    {
        &self.entries[i]
    }

    fn position(&self, d: &String) -> (r: Option<usize>)
        ensures
            match r {
                Some(i) => first_match(self@, d@) == Some(i as int),
                None => first_match(self@, d@) is None,
            },
    {
        let mut i: usize = 0;
        while i < self.entries.len()
            invariant
                i <= self.entries@.len(),
                forall|j: int| 0 <= j < i ==> self.entries@[j].description@ != d@,
            decreases self.entries@.len() - i,
        {
            if self.entries[i].description == *d {
                return Some(i);
            }
            i = i + 1;
        }
        None
    }

    /// The counters stored for description `d`.
    pub fn get(&self, d: &String) -> (r: Option<NetworkCounters>)
        ensures
            r == lookup(self@, d@),
    {
        match self.position(d) {
            Some(i) => Some(self.entries[i].counters),
            None => None,
        }
    }

    /// Stores `c` for description `d`, replacing what was there.
    pub fn insert(&mut self, d: String, c: NetworkCounters)
        ensures
            final(self)@ == table_insert(old(self)@, d, c),
            unique_keys(old(self)@) ==> unique_keys(final(self)@),
    {
        match self.position(&d) {
            Some(i) => {
                let e = CounterEntry { description: self.entries[i].description.clone(), counters: c };
                self.entries.set(i, e);
            },
            None => {
                self.entries.push(CounterEntry { description: d, counters: c });
            },
        }
    }
}

/// How many units of a fixed buffer precede its first NUL (all of them if none).
pub open spec fn text_len(s: Seq<u16>) -> int {
    if exists|i: int| 0 <= i < s.len() && s[i] == 0 && forall|j: int| 0 <= j < i ==> s[j] != 0 {
        choose|i: int| 0 <= i < s.len() && s[i] == 0 && forall|j: int| 0 <= j < i ==> s[j] != 0
    } else {
        s.len() as int
    }
}

/// The text held in a NUL-terminated UTF-16 buffer, decoded and trimmed.
pub fn wide_to_string(buf: &[u16]) -> (r: String)
    ensures
        r@ == trimmed(utf16_lossy(buf@.take(text_len(buf@)))),
{
    let mut units: Vec<u16> = Vec::new();
    let mut i: usize = 0;
    while i < buf.len() && buf[i] != 0
        invariant
            i <= buf@.len(),
            units@ == buf@.take(i as int),
            forall|j: int| 0 <= j < i ==> buf@[j] != 0,
        decreases buf@.len() - i,
    {
        units.push(buf[i]);
        i = i + 1;
        assert(units@ =~= buf@.take(i as int));
    }
    assert(text_len(buf@) == i);
    let decoded = decode_utf16_lossy(&units);
    trim_text(decoded.as_str())
}

/// Bytes of an interface row as `(wifi, cellular)`: cellular types count as
/// cellular, every other type as wifi; the sum saturates.
pub open spec fn categorized(if_type: u32, in_octets: u64, out_octets: u64) -> (u64, u64) {
    let total = if in_octets + out_octets > u64::MAX {
        u64::MAX
    } else {
        (in_octets + out_octets) as u64
    };
    if if_type == WIFI_TYPE {
        (total, 0)
    } else if if_type == CELLULAR_TYPE_GSM || if_type == CELLULAR_TYPE_CDMA {
        (0, total)
    } else {
        (total, 0)
    }
}

pub fn categorize_bytes(row: &InterfaceRow) -> (r: (u64, u64))
    ensures
        r == categorized(row.if_type, row.in_octets, row.out_octets),
{
    let total = row.in_octets.saturating_add(row.out_octets);
    if row.if_type == WIFI_TYPE {
        (total, 0)
    } else if row.if_type == CELLULAR_TYPE_GSM || row.if_type == CELLULAR_TYPE_CDMA {
        (0, total)
    } else {
        (total, 0)
    }
}

/// Whether a row enters the snapshot: the interface is up and has a description.
pub open spec fn counts_row(row: InterfaceRow) -> bool {
    row.oper_status == OPER_STATUS_UP && row.description@.len() > 0
}

pub open spec fn row_counters(row: InterfaceRow, now: i64) -> NetworkCounters {
    NetworkCounters {
        wifi_total: categorized(row.if_type, row.in_octets, row.out_octets).0,
        cell_total: categorized(row.if_type, row.in_octets, row.out_octets).1,
        sampled_at: now,
    }
}

/// The snapshot table built from rows in order; a later row with the same
/// description replaces an earlier one.
pub open spec fn snapshot_of(rows: Seq<InterfaceRow>, now: i64) -> Seq<CounterEntry>
    decreases rows.len(),
{
    if rows.len() == 0 {
        Seq::empty()
    } else {
        let t = snapshot_of(rows.drop_last(), now);
        let row = rows.last();
        if counts_row(row) {
            table_insert(t, row.description, row_counters(row, now))
        } else {
            t
        }
    }
}

/// Builds the current counters from the interface table taken at `now`.
pub fn snapshot_interfaces(rows: &Vec<InterfaceRow>, now: i64) -> (r: CounterTable)
    ensures
        r@ == snapshot_of(rows@, now),
        unique_keys(r@),
{
    let mut table = CounterTable::new();
    let mut i: usize = 0;
    while i < rows.len()
        invariant
            i <= rows@.len(),
            table@ == snapshot_of(rows@.subrange(0, i as int), now),
            unique_keys(table@),
        decreases rows@.len() - i,
    {
        assert(rows@.subrange(0, i + 1).drop_last() =~= rows@.subrange(0, i as int));
        let row = &rows[i];
        if row.oper_status == OPER_STATUS_UP && row.description.as_str().unicode_len() > 0 {
            let (wifi, cell) = categorize_bytes(row);
            table.insert(
                row.description.clone(),
                NetworkCounters { wifi_total: wifi, cell_total: cell, sampled_at: now },
            );
        }
        i = i + 1;
    }
    assert(rows@.subrange(0, rows@.len() as int) =~= rows@);
    table
}

pub open spec fn sat_sub(a: u64, b: u64) -> u64 {
    if a >= b {
        (a - b) as u64
    } else {
        0
    }
}

/// Bytes moved on an interface since the previous reading: the saturating
/// difference where it was seen before, else the full reading.
pub open spec fn delta_bytes(e: CounterEntry, previous: Seq<CounterEntry>) -> (u64, u64) {
    match lookup(previous, e.description@) {
        Some(p) => (
            sat_sub(e.counters.wifi_total, p.wifi_total),
            sat_sub(e.counters.cell_total, p.cell_total),
        ),
        None => (e.counters.wifi_total, e.counters.cell_total),
    }
}

pub open spec fn iface_package(d: Seq<char>) -> Seq<char> {
    "iface::"@ + d
}

/// The delta a snapshot entry yields, read through the view of the package.
pub open spec fn delta_matches(
    r: NetworkDelta,
    e: CounterEntry,
    previous: Seq<CounterEntry>,
    now: i64,
) -> bool {
    &&& r.package@ == iface_package(e.description@)
    &&& r.sampled_at == now
    &&& r.wifi_bytes == delta_bytes(e, previous).0
    &&& r.cellular_bytes == delta_bytes(e, previous).1
}

pub open spec fn yields_delta(e: CounterEntry, previous: Seq<CounterEntry>) -> bool {
    delta_bytes(e, previous).0 != 0 || delta_bytes(e, previous).1 != 0
}

/// The entries of `totals` that yield a delta, in order.
pub open spec fn moving_entries(totals: Seq<CounterEntry>, previous: Seq<CounterEntry>) -> Seq<
    CounterEntry,
>
    decreases totals.len(),
{
    if totals.len() == 0 {
        totals
    } else if yields_delta(totals.last(), previous) {
        moving_entries(totals.drop_last(), previous).push(totals.last())
    } else {
        moving_entries(totals.drop_last(), previous)
    }
}

/// A delta whose byte counts stay within the new readings of the interface
/// it names: a counter reset never shows up as a huge positive delta.
pub open spec fn bounded_by_snapshot(d: NetworkDelta, totals: Seq<CounterEntry>) -> bool {
    exists|j: int|
        0 <= j < totals.len() && d.package@ == iface_package(#[trigger] totals[j].description@)
            && d.wifi_bytes <= totals[j].counters.wifi_total && d.cellular_bytes
            <= totals[j].counters.cell_total
}

/// The deltas between two snapshots: one per entry of `totals` that moved, in
/// order, each bounded by that entry's own readings.
pub fn compute_deltas(totals: &CounterTable, previous: &CounterTable, now: i64) -> (r: Vec<
    NetworkDelta,
>)
    ensures
        r@.len() == moving_entries(totals@, previous@).len(),
        forall|i: int|
            0 <= i < r@.len() ==> delta_matches(
                #[trigger] r@[i],
                moving_entries(totals@, previous@)[i],
                previous@,
                now,
            ),
        forall|i: int| 0 <= i < r@.len() ==> bounded_by_snapshot(#[trigger] r@[i], totals@),
{
    let mut out: Vec<NetworkDelta> = Vec::new();
    let n = totals.len();
    let mut i: usize = 0;
    while i < n
        invariant
            n == totals@.len(),
            i <= n,
            moving_entries(totals@.subrange(0, i as int), previous@).len() == out@.len(),
            forall|k: int|
                0 <= k < out@.len() ==> delta_matches(
                    #[trigger] out@[k],
                    moving_entries(totals@.subrange(0, i as int), previous@)[k],
                    previous@,
                    now,
                ),
            forall|k: int| 0 <= k < out@.len() ==> bounded_by_snapshot(#[trigger] out@[k], totals@),
        decreases n - i,
    {
        assert(totals@.subrange(0, i + 1).drop_last() =~= totals@.subrange(0, i as int));
        let e = totals.entry(i);
        let last = previous.get(&e.description);
        let (dw, dc) = match last {
            Some(p) => (
                e.counters.wifi_total.saturating_sub(p.wifi_total),
                e.counters.cell_total.saturating_sub(p.cell_total),
            ),
            None => (e.counters.wifi_total, e.counters.cell_total),
        };
        if dw != 0 || dc != 0 {
            let mut package = String::from_str("iface::");
            package.append(e.description.as_str());
            let d = NetworkDelta { package, sampled_at: now, wifi_bytes: dw, cellular_bytes: dc };
            assert(delta_matches(d, totals@[i as int], previous@, now));
            assert(bounded_by_snapshot(d, totals@)) by {
                assert(d.package@ == iface_package(totals@[i as int].description@));
            }
            out.push(d);
        }
        i = i + 1;
    }
    assert(totals@.subrange(0, n as int) =~= totals@);
    out
}

/// The persisted counters of the last successful snapshot.
pub struct NetworkCounterStore {
    cache: CounterTable,
}

impl NetworkCounterStore {
    /// A store holding the counters read back from disk (empty when the file
    /// was missing or unreadable).
    pub fn new(loaded: CounterTable) -> (r: Self)
        ensures
            r.current() == loaded@,
    {
        NetworkCounterStore { cache: loaded }
    }

    pub closed spec fn current(&self) -> Seq<CounterEntry> {
        self.cache@
    }

    pub fn load(&self) -> (r: CounterTable)
        ensures
            r@ == self.current(),
    {
        self.cache.clone()
    }

    /// Replaces the whole table.
    pub fn save(&mut self, counters: CounterTable)
        ensures
            final(self).current() == counters@,
    {
        self.cache = counters;
    }
}

/// Turns interface tables into deltas against the last stored snapshot.
pub struct NetworkUsageCollector {
    pub store: NetworkCounterStore,
}

impl NetworkUsageCollector {
    pub fn new(store: NetworkCounterStore) -> (r: Self)
        ensures
            r.store.current() == store.current(),
    {
        NetworkUsageCollector { store }
    }

    /// Snapshots `rows` taken at `now`, emits the deltas against the stored
    /// counters, and stores the new snapshot wholesale.
    pub fn collect(&mut self, rows: &Vec<InterfaceRow>, now: i64) -> (r: Vec<NetworkDelta>)
        ensures
            final(self).store.current() == snapshot_of(rows@, now),
            r@.len() == moving_entries(snapshot_of(rows@, now), old(self).store.current()).len(),
            forall|i: int|
                0 <= i < r@.len() ==> delta_matches(
                    #[trigger] r@[i],
                    moving_entries(snapshot_of(rows@, now), old(self).store.current())[i],
                    old(self).store.current(),
                    now,
                ),
    {
        let totals = snapshot_interfaces(rows, now);
        let previous = self.store.load();
        let outputs = compute_deltas(&totals, &previous, now);
        self.store.save(totals);
        outputs
    }
}

} // verus!
