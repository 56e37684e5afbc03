use vstd::prelude::*;
use vstd::string::*;
use vstd::utf8::encode_utf8;

use crate::text::{
    decimal, decimal_text, format_uuid, json_quote, json_string, opt_text, rfc3339_millis,
    rfc3339_text, uuid_text,
};

verus! {

/// Largest serialized batch, in bytes, that the queue accepts.
pub const MAX_PAYLOAD_BYTES: usize = 1_000_000;

/// Most sessions per uploaded chunk.
pub const DEFAULT_CHUNK_SESSION_LIMIT: usize = 100;

/// Largest serialized chunk, in bytes, unless it holds a single session.
pub const DEFAULT_CHUNK_BYTE_LIMIT: usize = 100_000;

/// Why an upload run stopped before draining the queue.
#[derive(Debug, Clone, Copy, PartialEq, Eq, Structural)]
pub enum UploadFailureReason {
    MissingConfig,
    MissingToken,
    TokenExpired,
    Unauthorized,
    NetworkError,
    ServerError,
}

impl UploadFailureReason {
    /// The first three reasons leave the queue untouched and may clear up on a
    /// later tick once outside state changes.
    pub open spec fn is_retryable(self) -> bool {
        self is MissingConfig || self is MissingToken || self is TokenExpired
    }

    pub fn retryable(&self) -> (r: bool)
        ensures
            r == self.is_retryable(),
    {
        match self {
            UploadFailureReason::MissingConfig => true,
            UploadFailureReason::MissingToken => true,
            UploadFailureReason::TokenExpired => true,
            _ => false,
        }
    }
}

/// The outcome of one upload run: chunks delivered, and why it stopped early.
#[derive(Debug, Clone, Copy, PartialEq, Eq, Structural)]
pub struct UploadResult {
    pub uploaded_batches: usize,
    pub failure_reason: Option<UploadFailureReason>,
}

/// The outcome of one request through the retry layer.
#[derive(Debug)]
pub struct RequestOutcome {
    pub success: bool,
    pub failure: Option<UploadFailureReason>,
    pub body: Option<String>,
}

/// The endpoints an upload run posts to.
#[derive(Debug)]
pub struct UploadConfig {
    pub base_url: String,
    pub batch_url: String,
}

/// A contiguous interval of foreground use of one application; instants are
/// milliseconds since the Unix epoch.
#[derive(Debug)]
pub struct UsageSession {
    pub package: String,
    pub window_start: i64,
    pub window_end: i64,
    pub total_ms: u64,
    pub foreground: bool,
}

impl Clone for UsageSession {
    fn clone(&self) -> (r: Self)
        ensures
            r == *self,
    {
        UsageSession {
            package: self.package.clone(),
            window_start: self.window_start,
            window_end: self.window_end,
            total_ms: self.total_ms,
            foreground: self.foreground,
        }
    }
}

impl UsageSession {
    /// Length of the session in milliseconds.
    pub fn duration(&self) -> (r: u64)
        ensures
            r == self.total_ms,
    {
        self.total_ms
    }
}

/// Bytes moved on one interface between two snapshots.
#[derive(Debug)]
pub struct NetworkDelta {
    pub package: String,
    pub sampled_at: i64,
    pub wifi_bytes: u64,
    pub cellular_bytes: u64,
}

impl Clone for NetworkDelta {
    fn clone(&self) -> (r: Self)
        ensures
            r == *self,
    {
        NetworkDelta {
            package: self.package.clone(),
            sampled_at: self.sampled_at,
            wifi_bytes: self.wifi_bytes,
            cellular_bytes: self.cellular_bytes,
        }
    }
}

/// Cumulative byte counters of one interface at one instant.
#[derive(Debug, Clone, Copy, PartialEq, Eq, Structural)]
pub struct NetworkCounters {
    pub wifi_total: u64,
    pub cell_total: u64,
    pub sampled_at: i64,
}

/// Volatile host facts sent with the first chunk of a batch. The battery
/// level is a percentage, absent when unknown.
#[derive(Debug)]
pub struct DeviceStatus {
    pub usage_access: bool,
    pub accessibility: bool,
    pub overlay: bool,
    pub vpn: bool,
    pub battery_percent: Option<u8>,
    pub time_zone_id: String,
}

impl Clone for DeviceStatus {
    fn clone(&self) -> (r: Self)
        ensures
            r == *self,
    {
        DeviceStatus {
            usage_access: self.usage_access,
            accessibility: self.accessibility,
            overlay: self.overlay,
            vpn: self.vpn,
            battery_percent: self.battery_percent,
            time_zone_id: self.time_zone_id.clone(),
        }
    }
}

fn clone_status(s: &Option<DeviceStatus>) -> (r: Option<DeviceStatus>)
    ensures
        r == *s,
{
    match s {
        Some(st) => Some(st.clone()),
        None => None,
    }
}

/// The transmitted payload: sessions and deltas of one collection, stamped
/// with the device and the instant of assembly.
#[derive(Debug)]
pub struct UsageBatch {
    pub device_id: u128,
    pub sent_at: i64,
    pub sessions: Vec<UsageSession>,
    pub network_deltas: Vec<NetworkDelta>,
    pub status: Option<DeviceStatus>,
}

pub ghost struct BatchView {
    pub device_id: u128,
    pub sent_at: i64,
    pub sessions: Seq<UsageSession>,
    pub network_deltas: Seq<NetworkDelta>,
    pub status: Option<DeviceStatus>,
}

impl View for UsageBatch {
    type V = BatchView;

    open spec fn view(&self) -> BatchView {
        BatchView {
            device_id: self.device_id,
            sent_at: self.sent_at,
            sessions: self.sessions@,
            network_deltas: self.network_deltas@,
            status: self.status,
        }
    }
}

impl Clone for UsageBatch {
    fn clone(&self) -> (r: Self)
        ensures
            r@ == self@,
    {
        let r = UsageBatch {
            device_id: self.device_id,
            sent_at: self.sent_at,
            sessions: self.sessions.clone(),
            network_deltas: self.network_deltas.clone(),
            status: clone_status(&self.status),
        };
        assert(r.sessions@ =~= self.sessions@);
        assert(r.network_deltas@ =~= self.network_deltas@);
        r
    }
}

/// Serialization failed: an instant outside the representable range, or a
/// text the JSON writer refused.
#[derive(Debug, Clone, Copy, PartialEq, Eq, Structural)]
pub enum EncodeError {
    Unrepresentable,
}

// ---------------------------------------------------------------------------
// Wire form

pub open spec fn bool_text(b: bool) -> Seq<char> {
    if b {
        "true"@
    } else {
        "false"@
    }
}

/// The hundredths of a percentage as the shortest decimal fraction.
pub open spec fn fraction_text(f: int) -> Seq<char> {
    if f == 0 {
        "0"@
    } else if f % 10 == 0 {
        decimal((f / 10) as nat)
    } else if f < 10 {
        "0"@ + decimal(f as nat)
    } else {
        decimal(f as nat)
    }
}

/// The battery level as a fraction of one, or `-1.0` when unknown.
pub open spec fn battery_text(b: Option<u8>) -> Seq<char> {
    match b {
        Some(p) => decimal((p / 100) as nat) + "."@ + fraction_text((p % 100) as int),
        None => "-1.0"@,
    }
}

pub open spec fn quoted_instant(ms: i64) -> Option<Seq<char>> {
    match rfc3339_text(ms) {
        Some(t) => Some("\""@ + t + "\""@),
        None => None,
    }
}

pub open spec fn session_json(u: UsageSession) -> Option<Seq<char>> {
    match (json_string(u.package@), quoted_instant(u.window_start), quoted_instant(u.window_end)) {
        (Some(p), Some(ws), Some(we)) => Some(
            "{\"package\":"@ + p + ",\"windowStart\":"@ + ws + ",\"windowEnd\":"@ + we
                + ",\"totalMs\":"@ + decimal(u.total_ms as nat) + ",\"fg\":"@ + bool_text(
                u.foreground,
            ) + "}"@,
        ),
        _ => None,
    }
}

pub open spec fn delta_json(d: NetworkDelta) -> Option<Seq<char>> {
    match (json_string(d.package@), quoted_instant(d.sampled_at)) {
        (Some(p), Some(t)) => Some(
            "{\"package\":"@ + p + ",\"sampled_at\":"@ + t + ",\"wifi_bytes\":"@ + decimal(
                d.wifi_bytes as nat,
            ) + ",\"cell_bytes\":"@ + decimal(d.cellular_bytes as nat) + "}"@,
        ),
        _ => None,
    }
}

pub open spec fn status_json(s: DeviceStatus) -> Option<Seq<char>> {
    match json_string(s.time_zone_id@) {
        Some(tz) => Some(
            "{\"usage_access\":"@ + bool_text(s.usage_access) + ",\"accessibility\":"@ + bool_text(
                s.accessibility,
            ) + ",\"overlay\":"@ + bool_text(s.overlay) + ",\"vpn\":"@ + bool_text(s.vpn)
                + ",\"battery_pct\":"@ + battery_text(s.battery_percent) + ",\"tz\":"@ + tz
                + "}"@,
        ),
        None => None,
    }
}

/// Comma-joined JSON of a list of sessions.
pub open spec fn sessions_json(s: Seq<UsageSession>) -> Option<Seq<char>>
    decreases s.len(),
{
    if s.len() == 0 {
        Some(Seq::empty())
    } else {
        match (sessions_json(s.drop_last()), session_json(s.last())) {
            (Some(a), Some(b)) => Some(
                if s.len() == 1 {
                    b
                } else {
                    a + ","@ + b
                },
            ),
            _ => None,
        }
    }
}

/// Comma-joined JSON of a list of deltas.
pub open spec fn deltas_json(s: Seq<NetworkDelta>) -> Option<Seq<char>>
    decreases s.len(),
{
    if s.len() == 0 {
        Some(Seq::empty())
    } else {
        match (deltas_json(s.drop_last()), delta_json(s.last())) {
            (Some(a), Some(b)) => Some(
                if s.len() == 1 {
                    b
                } else {
                    a + ","@ + b
                },
            ),
            _ => None,
        }
    }
}

/// The status member, omitted when there is no status.
pub open spec fn status_member(s: Option<DeviceStatus>) -> Option<Seq<char>> {
    match s {
        Some(st) => match status_json(st) {
            Some(t) => Some(",\"status\":"@ + t),
            None => None,
        },
        None => Some(Seq::empty()),
    }
}

/// The compact wire JSON of a batch, as the ingestion endpoint reads it.
pub open spec fn batch_json(b: BatchView) -> Option<Seq<char>> {
    match (quoted_instant(b.sent_at), sessions_json(b.sessions), deltas_json(b.network_deltas), status_member(b.status)) {
        (Some(t), Some(ss), Some(ds), Some(st)) => Some(
            "{\"device_id\":\""@ + uuid_text(b.device_id) + "\",\"sent_at\":"@ + t
                + ",\"sessions\":["@ + ss + "],\"net_deltas\":["@ + ds + "]"@ + st + "}"@,
        ),
        _ => None,
    }
}

/// Size in bytes of the UTF-8 encoding of a text.
pub open spec fn byte_len(t: Seq<char>) -> nat {
    encode_utf8(t).len()
}

/// Whether a batch serializes within `limit` bytes.
pub open spec fn fits_within(b: BatchView, limit: int) -> bool {
    batch_json(b) matches Some(t) && byte_len(t) <= limit
}

fn push_bool(out: &mut String, b: bool)
    ensures
        final(out)@ == old(out)@ + bool_text(b),
{
    if b {
        out.append("true");
    } else {
        out.append("false");
    }
}

fn push_instant(out: &mut String, ms: i64) -> (ok: bool)
    ensures
        ok == quoted_instant(ms) is Some,
        ok ==> final(out)@ == old(out)@ + quoted_instant(ms)->0,
{
    match rfc3339_millis(ms) {
        Some(t) => {
            out.append("\"");
            out.append(t.as_str());
            out.append("\"");
            true
        },
        None => false,
    }
}

fn push_battery(out: &mut String, b: Option<u8>)
    ensures
        final(out)@ == old(out)@ + battery_text(b),
{
    match b {
        Some(p) => {
            let whole = decimal_text((p / 100) as u64);
            out.append(whole.as_str());
            out.append(".");
            let f = p % 100;
            if f == 0 {
                out.append("0");
            } else if f % 10 == 0 {
                let d = decimal_text((f / 10) as u64);
                out.append(d.as_str());
            } else if f < 10 {
                out.append("0");
                let d = decimal_text(f as u64);
                out.append(d.as_str());
            } else {
                let d = decimal_text(f as u64);
                out.append(d.as_str());
            }
        },
        None => {
            out.append("-1.0");
        },
    }
}

pub fn session_to_json(u: &UsageSession) -> (r: Option<String>)
    ensures
        opt_text(r) == session_json(*u),
{
    let p = match json_quote(u.package.as_str()) {
        Some(p) => p,
        None => return None,
    };
    let mut out = String::from_str("{\"package\":");
    out.append(p.as_str());
    out.append(",\"windowStart\":");
    if !push_instant(&mut out, u.window_start) {
        return None;
    }
    out.append(",\"windowEnd\":");
    if !push_instant(&mut out, u.window_end) {
        return None;
    }
    out.append(",\"totalMs\":");
    let total = decimal_text(u.total_ms);
    out.append(total.as_str());
    out.append(",\"fg\":");
    push_bool(&mut out, u.foreground);
    out.append("}");
    Some(out)
}

pub fn delta_to_json(d: &NetworkDelta) -> (r: Option<String>)
    ensures
        opt_text(r) == delta_json(*d),
{
    let p = match json_quote(d.package.as_str()) {
        Some(p) => p,
        None => return None,
    };
    let mut out = String::from_str("{\"package\":");
    out.append(p.as_str());
    out.append(",\"sampled_at\":");
    if !push_instant(&mut out, d.sampled_at) {
        return None;
    }
    out.append(",\"wifi_bytes\":");
    let w = decimal_text(d.wifi_bytes);
    out.append(w.as_str());
    out.append(",\"cell_bytes\":");
    let c = decimal_text(d.cellular_bytes);
    out.append(c.as_str());
    out.append("}");
    Some(out)
}

pub fn status_to_json(s: &DeviceStatus) -> (r: Option<String>)
    ensures
        opt_text(r) == status_json(*s),
{
    let tz = match json_quote(s.time_zone_id.as_str()) {
        Some(t) => t,
        None => return None,
    };
    let mut out = String::from_str("{\"usage_access\":");
    push_bool(&mut out, s.usage_access);
    out.append(",\"accessibility\":");
    push_bool(&mut out, s.accessibility);
    out.append(",\"overlay\":");
    push_bool(&mut out, s.overlay);
    out.append(",\"vpn\":");
    push_bool(&mut out, s.vpn);
    out.append(",\"battery_pct\":");
    push_battery(&mut out, s.battery_percent);
    out.append(",\"tz\":");
    out.append(tz.as_str());
    out.append("}");
    Some(out)
}

fn push_sessions(out: &mut String, s: &Vec<UsageSession>) -> (ok: bool)
    ensures
        ok == sessions_json(s@) is Some,
        ok ==> final(out)@ == old(out)@ + sessions_json(s@)->0,
{
    let mut i: usize = 0;
    while i < s.len()
        invariant
            i <= s@.len(),
            sessions_json(s@.subrange(0, i as int)) is Some,
            out@ == old(out)@ + sessions_json(s@.subrange(0, i as int))->0,
        decreases s@.len() - i,
    {
        assert(s@.subrange(0, i + 1).drop_last() =~= s@.subrange(0, i as int));
        match session_to_json(&s[i]) {
            Some(t) => {
                if i > 0 {
                    out.append(",");
                }
                out.append(t.as_str());
            },
            None => {
                proof {
                    assert(sessions_json(s@.subrange(0, i + 1)) is None);
                    lemma_sessions_json_prefix_none(s@, i as int + 1);
                }
                return false;
            },
        }
        i = i + 1;
    }
    assert(s@.subrange(0, s@.len() as int) =~= s@);
    true
}

proof fn lemma_sessions_json_prefix_none(s: Seq<UsageSession>, k: int)
    requires
        0 <= k <= s.len(),
        sessions_json(s.subrange(0, k)) is None,
    ensures
        sessions_json(s) is None,
    decreases s.len() - k,
{
    if k < s.len() {
        assert(s.subrange(0, k + 1).drop_last() =~= s.subrange(0, k));
        lemma_sessions_json_prefix_none(s, k + 1);
    } else {
        assert(s.subrange(0, k) =~= s);
    }
}

proof fn lemma_deltas_json_prefix_none(s: Seq<NetworkDelta>, k: int)
    requires
        0 <= k <= s.len(),
        deltas_json(s.subrange(0, k)) is None,
    ensures
        deltas_json(s) is None,
    decreases s.len() - k,
{
    if k < s.len() {
        assert(s.subrange(0, k + 1).drop_last() =~= s.subrange(0, k));
        lemma_deltas_json_prefix_none(s, k + 1);
    } else {
        assert(s.subrange(0, k) =~= s);
    }
}

fn push_deltas(out: &mut String, s: &Vec<NetworkDelta>) -> (ok: bool)
    ensures
        ok == deltas_json(s@) is Some,
        ok ==> final(out)@ == old(out)@ + deltas_json(s@)->0,
{
    let mut i: usize = 0;
    while i < s.len()
        invariant
            i <= s@.len(),
            deltas_json(s@.subrange(0, i as int)) is Some,
            out@ == old(out)@ + deltas_json(s@.subrange(0, i as int))->0,
        decreases s@.len() - i,
    {
        assert(s@.subrange(0, i + 1).drop_last() =~= s@.subrange(0, i as int));
        match delta_to_json(&s[i]) {
            Some(t) => {
                if i > 0 {
                    out.append(",");
                }
                out.append(t.as_str());
            },
            None => {
                proof {
                    assert(deltas_json(s@.subrange(0, i + 1)) is None);
                    lemma_deltas_json_prefix_none(s@, i as int + 1);
                }
                return false;
            },
        }
        i = i + 1;
    }
    assert(s@.subrange(0, s@.len() as int) =~= s@);
    true
}

/// Every instant and text of the batch has a wire form.
pub open spec fn encodable(b: BatchView) -> bool {
    &&& quoted_instant(b.sent_at) is Some
    &&& forall|i: int| 0 <= i < b.sessions.len() ==> (#[trigger] session_json(b.sessions[i])) is Some
    &&& forall|i: int|
        0 <= i < b.network_deltas.len() ==> (#[trigger] delta_json(b.network_deltas[i])) is Some
    &&& b.status matches Some(st) ==> status_json(st) is Some
}

proof fn lemma_sessions_json_some(s: Seq<UsageSession>)
    requires
        forall|i: int| 0 <= i < s.len() ==> (#[trigger] session_json(s[i])) is Some,
    ensures
        sessions_json(s) is Some,
    decreases s.len(),
{
    if s.len() > 0 {
        assert forall|i: int| 0 <= i < s.drop_last().len() implies (#[trigger] session_json(
            s.drop_last()[i],
        )) is Some by {
            assert(s.drop_last()[i] == s[i]);
        }
        lemma_sessions_json_some(s.drop_last());
        assert(session_json(s[s.len() - 1]) is Some);
    }
}

proof fn lemma_deltas_json_some(s: Seq<NetworkDelta>)
    requires
        forall|i: int| 0 <= i < s.len() ==> (#[trigger] delta_json(s[i])) is Some,
    ensures
        deltas_json(s) is Some,
    decreases s.len(),
{
    if s.len() > 0 {
        assert forall|i: int| 0 <= i < s.drop_last().len() implies (#[trigger] delta_json(
            s.drop_last()[i],
        )) is Some by {
            assert(s.drop_last()[i] == s[i]);
        }
        lemma_deltas_json_some(s.drop_last());
        assert(delta_json(s[s.len() - 1]) is Some);
    }
}

/// An encodable batch has a wire form.
pub proof fn lemma_encodable_has_json(b: BatchView)
    requires
        encodable(b),
    ensures
        batch_json(b) is Some,
{
    lemma_sessions_json_some(b.sessions);
    lemma_deltas_json_some(b.network_deltas);
}

proof fn lemma_chunk_encodable(b: BatchView, start: int, end: int, first: bool)
    requires
        encodable(b),
        0 <= start <= end <= b.sessions.len(),
    ensures
        batch_json(chunk_view(b, start, end, first)) is Some,
{
    let c = chunk_view(b, start, end, first);
    assert forall|i: int| 0 <= i < c.sessions.len() implies (#[trigger] session_json(
        c.sessions[i],
    )) is Some by {
        assert(c.sessions[i] == b.sessions[start + i]);
    }
    lemma_encodable_has_json(c);
}

proof fn lemma_shrink_some(b: BatchView, start: int, end: int, first: bool, max_bytes: int)
    requires
        encodable(b),
        0 <= start < end <= b.sessions.len(),
    ensures
        shrink_end(b, start, end, first, max_bytes) matches Some(e) && start < e <= end,
    decreases end - start,
{
    lemma_chunk_encodable(b, start, end, first);
    if end - start > 1 {
        lemma_shrink_some(b, start, end - 1, first, max_bytes);
    }
}

proof fn lemma_plan_some(b: BatchView, start: int, first: bool, max_sessions: int, max_bytes: int)
    requires
        encodable(b),
        0 <= start <= b.sessions.len(),
        max_sessions > 0,
    ensures
        chunk_plan(b, start, first, max_sessions, max_bytes) is Some,
    decreases b.sessions.len() - start,
{
    let n = b.sessions.len() as int;
    if start < n {
        let top = window_top(start, max_sessions, n);
        lemma_shrink_some(b, start, top, first, max_bytes);
        let e = shrink_end(b, start, top, first, max_bytes)->0;
        lemma_plan_some(b, e, false, max_sessions, max_bytes);
    }
}

impl UsageBatch {
    /// The compact wire JSON of the batch.
    pub fn to_json_string(&self) -> (r: Result<String, EncodeError>)
        ensures
            r matches Ok(t) ==> batch_json(self@) == Some(t@),
            r is Err <==> batch_json(self@) is None,
            encodable(self@) ==> r is Ok,
    {
        proof {
            if encodable(self@) {
                lemma_encodable_has_json(self@);
            }
        }
        let mut out = String::from_str("{\"device_id\":\"");
        let id = format_uuid(self.device_id);
        out.append(id.as_str());
        out.append("\",\"sent_at\":");
        if !push_instant(&mut out, self.sent_at) {
            return Err(EncodeError::Unrepresentable);
        }
        out.append(",\"sessions\":[");
        if !push_sessions(&mut out, &self.sessions) {
            return Err(EncodeError::Unrepresentable);
        }
        out.append("],\"net_deltas\":[");
        if !push_deltas(&mut out, &self.network_deltas) {
            return Err(EncodeError::Unrepresentable);
        }
        out.append("]");
        match &self.status {
            Some(st) => match status_to_json(st) {
                Some(t) => {
                    out.append(",\"status\":");
                    out.append(t.as_str());
                },
                None => {
                    return Err(EncodeError::Unrepresentable);
                },
            },
            None => {},
        }
        out.append("}");
        Ok(out)
    }

    /// Size in bytes of the wire JSON.
    pub fn json_len(&self) -> (r: Result<usize, EncodeError>)
        ensures
            r matches Ok(n) ==> batch_json(self@) matches Some(t) && n == byte_len(t),
            r is Err <==> batch_json(self@) is None,
    {
        match self.to_json_string() {
            Ok(t) => Ok(t.as_str().as_bytes().len()),
            Err(e) => Err(e),
        }
    }

    /// Whether the batch serializes within the payload ceiling.
    pub fn size_fits(&self) -> (r: bool)
        ensures
            r == fits_within(self@, MAX_PAYLOAD_BYTES as int),
    {
        match self.json_len() {
            Ok(n) => n <= MAX_PAYLOAD_BYTES,
            Err(_) => false,
        }
    }
}


// ---------------------------------------------------------------------------
// Chunking

/// The chunk covering sessions `[start, end)`; only the first chunk carries
/// the deltas and the status.
pub open spec fn chunk_view(b: BatchView, start: int, end: int, first: bool) -> BatchView {
    BatchView {
        device_id: b.device_id,
        sent_at: b.sent_at,
        sessions: b.sessions.subrange(start, end),
        network_deltas: if first {
            b.network_deltas
        } else {
            Seq::empty()
        },
        status: if first {
            b.status
        } else {
            None
        },
    }
}

/// The end of a chunk starting at `start`: from `end`, drop one session at a
/// time while the chunk serializes over `max_bytes` and holds more than one.
/// Absent when a candidate fails to serialize.
pub open spec fn shrink_end(b: BatchView, start: int, end: int, first: bool, max_bytes: int) -> Option<
    int,
>
    decreases end - start,
{
    match batch_json(chunk_view(b, start, end, first)) {
        None => None,
        Some(t) => if end - start <= 1 || byte_len(t) <= max_bytes {
            Some(end)
        } else {
            shrink_end(b, start, end - 1, first, max_bytes)
        },
    }
}

/// Where the window opened at `start` ends before any shrinking.
pub open spec fn window_top(start: int, max_sessions: int, n: int) -> int {
    if start + max_sessions < n {
        start + max_sessions
    } else {
        n
    }
}

/// The chunks that cover sessions from `start` on, in order.
pub open spec fn chunk_plan(
    b: BatchView,
    start: int,
    first: bool,
    max_sessions: int,
    max_bytes: int,
) -> Option<Seq<BatchView>>
    decreases b.sessions.len() - start,
{
    let n = b.sessions.len() as int;
    if start >= n || max_sessions <= 0 {
        Some(Seq::empty())
    } else {
        match shrink_end(b, start, window_top(start, max_sessions, n), first, max_bytes) {
            None => None,
            Some(e) => if e <= start || e > n {
                None
            } else {
                match chunk_plan(b, e, false, max_sessions, max_bytes) {
                    None => None,
                    Some(rest) => Some(seq![chunk_view(b, start, e, first)] + rest),
                }
            },
        }
    }
}

pub open spec fn batch_views(s: Seq<UsageBatch>) -> Seq<BatchView> {
    s.map_values(|c: UsageBatch| c@)
}

pub open spec fn flatten_sessions(cs: Seq<BatchView>) -> Seq<UsageSession>
    decreases cs.len(),
{
    if cs.len() == 0 {
        Seq::empty()
    } else {
        cs[0].sessions + flatten_sessions(cs.drop_first())
    }
}

/// How a batch may be split: the chunks' sessions concatenate to the batch's,
/// the first chunk carries its deltas and status, the others neither, and all
/// keep its device and instant.
pub open spec fn splits(b: BatchView, cs: Seq<BatchView>) -> bool {
    &&& cs.len() > 0
    &&& flatten_sessions(cs) == b.sessions
    &&& cs[0].network_deltas == b.network_deltas
    &&& cs[0].status == b.status
    &&& forall|i: int|
        1 <= i < cs.len() ==> (#[trigger] cs[i]).network_deltas.len() == 0 && cs[i].status is None
    &&& forall|i: int|
        0 <= i < cs.len() ==> (#[trigger] cs[i]).device_id == b.device_id && cs[i].sent_at
            == b.sent_at
}

pub open spec fn prefix_then(pfx: Seq<BatchView>, rest: Option<Seq<BatchView>>) -> Option<
    Seq<BatchView>,
> {
    match rest {
        Some(r) => Some(pfx + r),
        None => None,
    }
}

proof fn lemma_plan_splits(b: BatchView, start: int, first: bool, max_sessions: int, max_bytes: int)
    requires
        0 <= start <= b.sessions.len(),
        max_sessions > 0,
        chunk_plan(b, start, first, max_sessions, max_bytes) is Some,
    ensures
        ({
            let cs = chunk_plan(b, start, first, max_sessions, max_bytes)->0;
            &&& flatten_sessions(cs) == b.sessions.subrange(start, b.sessions.len() as int)
            &&& start < b.sessions.len() ==> cs.len() > 0 && cs[0].network_deltas == (if first {
                b.network_deltas
            } else {
                Seq::empty()
            }) && cs[0].status == (if first {
                b.status
            } else {
                None
            })
            &&& forall|i: int|
                1 <= i < cs.len() ==> (#[trigger] cs[i]).network_deltas.len() == 0
                    && cs[i].status is None
            &&& forall|i: int|
                0 <= i < cs.len() ==> (#[trigger] cs[i]).device_id == b.device_id
                    && cs[i].sent_at == b.sent_at
        }),
    decreases b.sessions.len() - start,
{
    let n = b.sessions.len() as int;
    if start >= n {
        assert(b.sessions.subrange(start, n) =~= Seq::<UsageSession>::empty());
    } else {
        let e = shrink_end(b, start, window_top(start, max_sessions, n), first, max_bytes)->0;
        lemma_plan_splits(b, e, false, max_sessions, max_bytes);
        let rest = chunk_plan(b, e, false, max_sessions, max_bytes)->0;
        let c = chunk_view(b, start, e, first);
        let cs = seq![c] + rest;
        assert(cs.drop_first() =~= rest);
        assert(b.sessions.subrange(start, e) + b.sessions.subrange(e, n) =~= b.sessions.subrange(
            start,
            n,
        ));
        assert forall|i: int| 1 <= i < cs.len() implies (#[trigger] cs[i]).network_deltas.len() == 0
            && cs[i].status is None by {
            assert(cs[i] == rest[i - 1]);
            if i - 1 >= 1 {
                assert(rest[i - 1].network_deltas.len() == 0);
            }
        }
        assert forall|i: int| 0 <= i < cs.len() implies (#[trigger] cs[i]).device_id == b.device_id
            && cs[i].sent_at == b.sent_at by {
            if i > 0 {
                assert(cs[i] == rest[i - 1]);
            }
        }
    }
}

/// Any batch the chunker splits is split as `splits` says.
pub proof fn lemma_chunking_preserves_batch(b: BatchView, max_sessions: int, max_bytes: int)
    requires
        b.sessions.len() > 0,
        max_sessions > 0,
        chunk_plan(b, 0, true, max_sessions, max_bytes) is Some,
    ensures
        splits(b, chunk_plan(b, 0, true, max_sessions, max_bytes)->0),
{
    lemma_plan_splits(b, 0, true, max_sessions, max_bytes);
    assert(b.sessions.subrange(0, b.sessions.len() as int) =~= b.sessions);
}

proof fn lemma_plan_advance(
    b: BatchView,
    pfx: Seq<BatchView>,
    index: int,
    first: bool,
    max_sessions: int,
    max_bytes: int,
    end: int,
)
    requires
        0 <= index < end <= b.sessions.len(),
        max_sessions > 0,
        shrink_end(b, index, window_top(index, max_sessions, b.sessions.len() as int), first, max_bytes)
            == Some(end),
    ensures
        prefix_then(pfx, chunk_plan(b, index, first, max_sessions, max_bytes)) == prefix_then(
            pfx.push(chunk_view(b, index, end, first)),
            chunk_plan(b, end, false, max_sessions, max_bytes),
        ),
{
    let rest = chunk_plan(b, end, false, max_sessions, max_bytes);
    match rest {
        Some(r) => {
            assert(pfx + (seq![chunk_view(b, index, end, first)] + r) =~= pfx.push(
                chunk_view(b, index, end, first),
            ) + r);
        },
        None => {},
    }
}

proof fn lemma_plan_fails(
    b: BatchView,
    pfx: Seq<BatchView>,
    index: int,
    first: bool,
    max_sessions: int,
    max_bytes: int,
    end: int,
)
    requires
        0 <= index < end <= b.sessions.len(),
        max_sessions > 0,
        shrink_end(b, index, window_top(index, max_sessions, b.sessions.len() as int), first, max_bytes)
            == shrink_end(b, index, end, first, max_bytes),
        batch_json(chunk_view(b, index, end, first)) is None,
    ensures
        prefix_then(pfx, chunk_plan(b, index, first, max_sessions, max_bytes)) is None,
{
}

impl UsageBatch {
    /// The chunk of this batch covering sessions `[start, end)`.
    fn make_chunk(&self, start: usize, end: usize, first: bool) -> (r: UsageBatch)
        requires
            start <= end <= self@.sessions.len(),
        ensures
            r@ == chunk_view(self@, start as int, end as int, first),
    {
        let mut sessions: Vec<UsageSession> = Vec::new();
        let mut i = start;
        while i < end
            invariant
                start <= i <= end,
                end <= self.sessions@.len(),
                sessions@ =~= self.sessions@.subrange(start as int, i as int),
            decreases end - i,
        {
            sessions.push(self.sessions[i].clone());
            i = i + 1;
        }
        let network_deltas = if first {
            let d = self.network_deltas.clone();
            assert(d@ =~= self.network_deltas@);
            d
        } else {
            Vec::new()
        };
        let status = if first {
            clone_status(&self.status)
        } else {
            None
        };
        let r = UsageBatch {
            device_id: self.device_id,
            sent_at: self.sent_at,
            sessions,
            network_deltas,
            status,
        };
        assert(r@.network_deltas =~= chunk_view(self@, start as int, end as int, first).network_deltas);
        r
    }

    /// Splits the batch for upload: windows of at most `max_sessions`
    /// sessions, each shrunk one session at a time until it serializes within
    /// `max_bytes` or holds a single session.
    pub fn chunked(&self, max_sessions: usize, max_bytes: usize) -> (r: Result<Vec<UsageBatch>, EncodeError>)
        requires
            max_sessions > 0,
        ensures
            self@.sessions.len() == 0 ==> (r matches Ok(cs) && cs@.len() == 1 && cs@[0]@ == self@),
            self@.sessions.len() > 0 ==> (r is Err <==> chunk_plan(
                self@,
                0,
                true,
                max_sessions as int,
                max_bytes as int,
            ) is None),
            self@.sessions.len() > 0 ==> (r matches Ok(cs) ==> chunk_plan(
                self@,
                0,
                true,
                max_sessions as int,
                max_bytes as int,
            ) == Some(batch_views(cs@))),
            r matches Ok(cs) ==> splits(self@, batch_views(cs@)),
            encodable(self@) ==> r is Ok,
    {
        proof {
            if encodable(self@) {
                lemma_plan_some(self@, 0, true, max_sessions as int, max_bytes as int);
            }
        }
        let n = self.sessions.len();
        if n == 0 {
            let mut v: Vec<UsageBatch> = Vec::new();
            v.push(self.clone());
            proof {
                let cs = batch_views(v@);
                assert(cs.len() == 1 && cs[0] == self@);
                assert(cs.drop_first() =~= Seq::<BatchView>::empty());
                assert(flatten_sessions(cs.drop_first()) =~= Seq::<UsageSession>::empty());
                assert(flatten_sessions(cs) =~= self@.sessions);
            }
            return Ok(v);
        }
        let ghost plan = chunk_plan(self@, 0, true, max_sessions as int, max_bytes as int);
        let mut result: Vec<UsageBatch> = Vec::new();
        let mut include_meta = true;
        let mut index: usize = 0;
        assert(batch_views(result@) =~= Seq::<BatchView>::empty());
        assert(prefix_then(Seq::<BatchView>::empty(), plan) =~= plan);
        while index < n
            invariant
                n == self@.sessions.len(),
                n > 0,
                index <= n,
                max_sessions > 0,
                include_meta == (index == 0),
                plan == chunk_plan(self@, 0, true, max_sessions as int, max_bytes as int),
                encodable(self@) ==> plan is Some,
                plan == prefix_then(
                    batch_views(result@),
                    chunk_plan(self@, index as int, include_meta, max_sessions as int, max_bytes as int),
                ),
            decreases n - index,
        {
            let top = if max_sessions < n - index {
                index + max_sessions
            } else {
                n
            };
            let mut end = top;
            let mut chunk = self.make_chunk(index, end, include_meta);
            let mut size = match chunk.json_len() {
                Ok(k) => k,
                Err(e) => {
                    proof {
                        lemma_plan_fails(
                            self@,
                            batch_views(result@),
                            index as int,
                            include_meta,
                            max_sessions as int,
                            max_bytes as int,
                            end as int,
                        );
                    }
                    return Err(e);
                },
            };
            while size > max_bytes && end - index > 1
                invariant
                    index < end <= top,
                    top <= n,
                    n == self@.sessions.len(),
                    chunk@ == chunk_view(self@, index as int, end as int, include_meta),
                    batch_json(chunk@) matches Some(t) && size == byte_len(t),
                    top == window_top(index as int, max_sessions as int, n as int),
                    shrink_end(self@, index as int, top as int, include_meta, max_bytes as int)
                        == shrink_end(self@, index as int, end as int, include_meta, max_bytes as int),
                    max_sessions > 0,
                    plan == chunk_plan(self@, 0, true, max_sessions as int, max_bytes as int),
                    encodable(self@) ==> plan is Some,
                    plan == prefix_then(
                        batch_views(result@),
                        chunk_plan(self@, index as int, include_meta, max_sessions as int, max_bytes as int),
                    ),
                decreases end,
            {
                assert(shrink_end(self@, index as int, end as int, include_meta, max_bytes as int)
                    == shrink_end(self@, index as int, end - 1, include_meta, max_bytes as int));
                end = end - 1;
                chunk = self.make_chunk(index, end, include_meta);
                size = match chunk.json_len() {
                    Ok(k) => k,
                    Err(e) => {
                        proof {
                            lemma_plan_fails(
                                self@,
                                batch_views(result@),
                                index as int,
                                include_meta,
                                max_sessions as int,
                                max_bytes as int,
                                end as int,
                            );
                        }
                        return Err(e);
                    },
                };
            }
            proof {
                lemma_plan_advance(
                    self@,
                    batch_views(result@),
                    index as int,
                    include_meta,
                    max_sessions as int,
                    max_bytes as int,
                    end as int,
                );
                assert(batch_views(result@.push(chunk)) =~= batch_views(result@).push(chunk@));
            }
            result.push(chunk);
            index = end;
            include_meta = false;
        }
        proof {
            assert(batch_views(result@) + Seq::<BatchView>::empty() =~= batch_views(result@));
            lemma_chunking_preserves_batch(self@, max_sessions as int, max_bytes as int);
        }
        Ok(result)
    }
}

} // verus!
