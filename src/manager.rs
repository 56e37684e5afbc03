use vstd::prelude::*;

use crate::config::DeviceIdStore;
use crate::text::is_version4;
use crate::models::{fits_within, BatchView, DeviceStatus, UsageBatch, MAX_PAYLOAD_BYTES};
use crate::network::{
    delta_matches, moving_entries, snapshot_of, CounterEntry, InterfaceRow, NetworkUsageCollector,
};
use crate::sessions::{
    after_drain, drained, finish, merge_sorted, sort_by_start, SessionCollector, TrackerView,
};
use crate::status::{
    detect_vpn, is_vpn_row, DeviceStatusProvider, HostReadings, BATTERY_UNKNOWN,
};
use crate::storage::UsageBatchStore;

verus! {

/// How far back a collection drains sessions: 24 hours, in milliseconds.
pub const DRAIN_WINDOW_MS: i64 = 86_400_000;

/// Assembles a batch from what one collection gathered; none when there are
/// neither sessions nor deltas.
pub fn assemble_batch(
    device_id: u128,
    now: i64,
    sessions: Vec<crate::models::UsageSession>,
    network_deltas: Vec<crate::models::NetworkDelta>,
    status: DeviceStatus,
) -> (r: Option<UsageBatch>)
    ensures
        sessions@.len() == 0 && network_deltas@.len() == 0 ==> r is None,
        !(sessions@.len() == 0 && network_deltas@.len() == 0) ==> (r matches Some(b) && b@ == (
        BatchView {
            device_id,
            sent_at: now,
            sessions: sessions@,
            network_deltas: network_deltas@,
            status: Some(status),
        })),
{
    if sessions.len() == 0 && network_deltas.len() == 0 {
        return None;
    }
    Some(UsageBatch { device_id, sent_at: now, sessions, network_deltas, status: Some(status) })
}

/// The batch one collection assembles: the device id, the instant, a day of
/// merged sessions, the deltas against the stored counters, and the status
/// built from the readings and the tunnel check over `rows`.
pub open spec fn collected(
    b: BatchView,
    tracker: TrackerView,
    previous: Seq<CounterEntry>,
    device_id: u128,
    rows: Seq<InterfaceRow>,
    readings: HostReadings,
    now: i64,
) -> bool {
    &&& b.device_id == device_id
    &&& b.sent_at == now
    &&& b.sessions == finish(merge_sorted(sort_by_start(drained(tracker, now, DRAIN_WINDOW_MS))))
    &&& b.network_deltas.len() == moving_entries(snapshot_of(rows, now), previous).len()
    &&& forall|i: int|
        0 <= i < b.network_deltas.len() ==> delta_matches(
            #[trigger] b.network_deltas[i],
            moving_entries(snapshot_of(rows, now), previous)[i],
            previous,
            now,
        )
    &&& b.status matches Some(st) && st.vpn == (exists|i: int|
        0 <= i < rows.len() && #[trigger] is_vpn_row(rows[i])) && st.usage_access == (
    readings.is_admin == Some(true)) && !st.accessibility && st.overlay && st.battery_percent
        == match readings.battery_life_percent {
        Some(p) => if p == BATTERY_UNKNOWN {
            None
        } else {
            Some(p)
        },
        None => None,
    } && st.time_zone_id@ == match readings.time_zone {
        Some(t) => t@,
        None => "UTC"@,
    }
}

/// Gathers sessions, deltas and host status into batches and queues them.
pub struct UsageCollectionManager {
    status: DeviceStatusProvider,
}

impl UsageCollectionManager {
    pub fn new() -> (r: Self) {
        UsageCollectionManager { status: DeviceStatusProvider::new() }
    }

    /// One collection at `now`: stamps the device id, drains a day of
    /// sessions, differences the interface table, and builds the status.
    pub fn collect_batch(
        &self,
        sessions: &mut SessionCollector,
        network: &mut NetworkUsageCollector,
        devices: &mut DeviceIdStore,
        rows: &Vec<InterfaceRow>,
        readings: HostReadings,
        now: i64,
    ) -> (r: Option<UsageBatch>)
        ensures
            final(devices).device() matches Some(d) && d.last_seen == now,
            old(devices).device() matches Some(d) ==> final(devices).device()->0.device_id
                == d.device_id,
            old(devices).device() is None ==> is_version4(final(devices).device()->0.device_id),
            final(sessions).state@ == after_drain(old(sessions).state@, now),
            final(network).store.current() == snapshot_of(rows@, now),
            r is None <==> (finish(
                merge_sorted(sort_by_start(drained(old(sessions).state@, now, DRAIN_WINDOW_MS))),
            ).len() == 0 && moving_entries(snapshot_of(rows@, now), old(network).store.current()).len()
                == 0),
            r matches Some(b) ==> collected(
                b@,
                old(sessions).state@,
                old(network).store.current(),
                final(devices).device()->0.device_id,
                rows@,
                readings,
                now,
            ),
    {
        let device_id = devices.get_or_create(now);
        let drained = sessions.drain_sessions(now, DRAIN_WINDOW_MS);
        let deltas = network.collect(rows, now);
        let vpn = detect_vpn(rows);
        let readings = HostReadings {
            is_admin: readings.is_admin,
            vpn: Some(vpn),
            battery_life_percent: readings.battery_life_percent,
            time_zone: readings.time_zone,
        };
        let status = self.status.build_status(readings);
        assemble_batch(device_id, now, drained, deltas, status)
    }

    /// Collects and queues a batch; says whether one was assembled (an
    /// oversized one is assembled but not queued).
    pub fn collect_and_store(
        &self,
        sessions: &mut SessionCollector,
        network: &mut NetworkUsageCollector,
        devices: &mut DeviceIdStore,
        queue: &mut UsageBatchStore,
        rows: &Vec<InterfaceRow>,
        readings: HostReadings,
        now: i64,
    ) -> (r: bool)
        ensures
            r <==> !(finish(
                merge_sorted(sort_by_start(drained(old(sessions).state@, now, DRAIN_WINDOW_MS))),
            ).len() == 0 && moving_entries(snapshot_of(rows@, now), old(network).store.current()).len()
                == 0),
            !r ==> final(queue)@ == old(queue)@,
            r ==> exists|b: BatchView|
                #[trigger] collected(
                    b,
                    old(sessions).state@,
                    old(network).store.current(),
                    final(devices).device()->0.device_id,
                    rows@,
                    readings,
                    now,
                ) && final(queue)@ == (if fits_within(b, MAX_PAYLOAD_BYTES as int) {
                    old(queue)@.push(b)
                } else {
                    old(queue)@
                }),
            final(devices).device() matches Some(d) && d.last_seen == now,
            old(devices).device() matches Some(d) ==> final(devices).device()->0.device_id
                == d.device_id,
            old(devices).device() is None ==> is_version4(final(devices).device()->0.device_id),
            final(sessions).state@ == after_drain(old(sessions).state@, now),
            final(network).store.current() == snapshot_of(rows@, now),
    {
        match self.collect_batch(sessions, network, devices, rows, readings, now) {
            Some(batch) => {
                let ghost b = batch@;
                let _ = queue.enqueue(batch);
                assert(collected(
                    b,
                    old(sessions).state@,
                    old(network).store.current(),
                    devices.device()->0.device_id,
                    rows@,
                    readings,
                    now,
                ));
                true
            },
            None => false,
        }
    }
}

} // verus!
