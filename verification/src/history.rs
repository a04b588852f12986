//! The persistent time-series history store: one row per recorded tick,
//! keyed by timestamp, with batched transactional upserts, opportunistic
//! time-based pruning, range queries, bucketed downsampling and CSV/JSON
//! export.
//!
//! The store is backed by a SQLite table reached through `rusqlite`; the
//! table's contents are modeled as a map from timestamp to row values, and
//! every statement the store issues carries a contract over that map.

use vstd::prelude::*;
use crate::model::Snapshot;
use crate::textutil::{
    bp_fixed2, count_char, lemma_bp_fixed2_count_absent, lemma_count_char_absent,
    lemma_count_char_add, lemma_count_char_pair, lemma_count_char_single,
    lemma_dec_digits_count_absent, lemma_ms_fixed3_count_absent, chars_to_string, dec_digits,
    ms_fixed3, push_bp_fixed2, push_ms_fixed3, push_str_chars, push_u64_chars,
};

verus! {

#[verifier::external_type_specification]
#[verifier::external_body]
pub struct ExConnection(rusqlite::Connection);

/// The contents of the `snapshots` table behind a connection, as a map
/// from timestamp (milliseconds) to
/// (cpu basis points, memory used, memory total, net rx, net tx).
pub uninterp spec fn db_rows(conn: rusqlite::Connection) -> Map<int, (int, int, int, int, int)>;

/// Relies on rusqlite::Connection::open_in_memory and execute_batch: a
/// newly opened in-memory SQLite database is empty, and creating the
/// `snapshots` table leaves it with no rows.
#[verifier::external_body]
fn open_memory_conn() -> (r: Result<rusqlite::Connection, String>)
    ensures
        match r {
            Ok(c) => db_rows(c) == Map::<int, (int, int, int, int, int)>::empty(),
            Err(_) => true,
        },
{
    let conn = rusqlite::Connection::open_in_memory().map_err(|e| e.to_string())?;
    conn.execute_batch(
        "CREATE TABLE IF NOT EXISTS snapshots (
            timestamp INTEGER PRIMARY KEY,
            cpu INTEGER NOT NULL,
            mem_used INTEGER NOT NULL,
            mem_total INTEGER NOT NULL,
            net_rx INTEGER NOT NULL,
            net_tx INTEGER NOT NULL
        );
        CREATE INDEX IF NOT EXISTS idx_ts ON snapshots(timestamp);",
    ).map_err(|e| e.to_string())?;
    Ok(conn)
}

/// Relies on rusqlite::Connection::open and execute_batch: opens (or
/// creates) the database file, switches on write-ahead logging with relaxed
/// durability, and creates the `snapshots` table if absent. The file may
/// already hold rows, so nothing is assumed of the contents beyond the
/// table being finite; a pre-existing `snapshots` table is taken to be
/// this store's own schema (an INTEGER PRIMARY KEY timestamp), as earlier
/// runs created it. Reads of anything else fail row conversion and yield
/// empty results.
#[verifier::external_body]
fn open_file_conn(path: &str) -> (r: Result<rusqlite::Connection, String>)
    ensures
        match r {
            Ok(c) => db_rows(c).dom().finite(),
            Err(_) => true,
        },
{
    let conn = rusqlite::Connection::open(path).map_err(|e| e.to_string())?;
    conn.execute_batch(
        "PRAGMA journal_mode=WAL;
        PRAGMA synchronous=NORMAL;
        CREATE TABLE IF NOT EXISTS snapshots (
            timestamp INTEGER PRIMARY KEY,
            cpu INTEGER NOT NULL,
            mem_used INTEGER NOT NULL,
            mem_total INTEGER NOT NULL,
            net_rx INTEGER NOT NULL,
            net_tx INTEGER NOT NULL
        );
        CREATE INDEX IF NOT EXISTS idx_ts ON snapshots(timestamp);",
    ).map_err(|e| e.to_string())?;
    Ok(conn)
}

/// Relies on rusqlite::Connection::execute_batch("BEGIN"): opening a
/// transaction changes no rows.
#[verifier::external_body]
fn db_begin(conn: &mut rusqlite::Connection) -> (r: Result<(), String>)
    ensures
        db_rows(*final(conn)) == db_rows(*old(conn)),
{
    conn.execute_batch("BEGIN").map_err(|e| e.to_string())
}

/// Relies on rusqlite::Connection::execute with `INSERT OR REPLACE`: on
/// success the row keyed by `ts` is inserted or overwritten; a failed
/// statement changes nothing (SQLite statement-level atomicity).
#[verifier::external_body]
fn db_insert_row(
    conn: &mut rusqlite::Connection,
    ts: i64,
    cpu: i64,
    mem_used: i64,
    mem_total: i64,
    net_rx: i64,
    net_tx: i64,
) -> (r: Result<(), String>)
    ensures
        r is Ok ==> db_rows(*final(conn)) == db_rows(*old(conn)).insert(
            ts as int,
            (cpu as int, mem_used as int, mem_total as int, net_rx as int, net_tx as int),
        ),
        r is Err ==> db_rows(*final(conn)) == db_rows(*old(conn)),
{
    conn.execute(
        "INSERT OR REPLACE INTO snapshots (timestamp, cpu, mem_used, mem_total, net_rx, net_tx)
         VALUES (?1, ?2, ?3, ?4, ?5, ?6)",
        (ts, cpu, mem_used, mem_total, net_rx, net_tx),
    ).map(|_| ()).map_err(|e| e.to_string())
}

/// Relies on rusqlite::Connection::execute_batch("COMMIT"): a successful
/// commit makes the transaction's rows durable and changes nothing else.
#[verifier::external_body]
fn db_commit(conn: &mut rusqlite::Connection) -> (r: Result<(), String>)
    ensures
        r is Ok ==> db_rows(*final(conn)) == db_rows(*old(conn)),
{
    conn.execute_batch("COMMIT").map_err(|e| e.to_string())
}

/// Relies on rusqlite::Connection::execute_batch("ROLLBACK"): the
/// transaction's changes are discarded. The resulting contents are the
/// ones from before BEGIN, which this contract does not carry, so nothing
/// is claimed of the map afterwards.
#[verifier::external_body]
fn db_rollback(conn: &mut rusqlite::Connection) -> (r: Result<(), String>) {
    conn.execute_batch("ROLLBACK").map_err(|e| e.to_string())
}

/// Relies on rusqlite::Connection::execute with `DELETE ... WHERE
/// timestamp < ?1`: on success exactly the rows older than the cutoff are
/// gone; a failed statement changes nothing.
#[verifier::external_body]
fn db_delete_before(conn: &mut rusqlite::Connection, cutoff: i64) -> (r: Result<(), String>)
    ensures
        r is Ok ==> db_rows(*final(conn)) == Map::<int, (int, int, int, int, int)>::new(
            |k: int| db_rows(*old(conn)).dom().contains(k) && k >= cutoff,
            |k: int| db_rows(*old(conn))[k],
        ),
        r is Err ==> db_rows(*final(conn)) == db_rows(*old(conn)),
{
    conn.execute("DELETE FROM snapshots WHERE timestamp < ?1", (cutoff,))
        .map(|_| ())
        .map_err(|e| e.to_string())
}

/// One row as the store hands it back.
pub struct HistRow {
    pub ts: i64,
    pub cpu: i64,
    pub mem_used: i64,
    pub mem_total: i64,
    pub net_rx: i64,
    pub net_tx: i64,
}

/// The rows `v` are exactly the entries of `m` with key in [lo, hi], in
/// strictly ascending key order.
pub open spec fn rows_match_range(
    m: Map<int, (int, int, int, int, int)>,
    lo: int,
    hi: int,
    v: Seq<HistRow>,
) -> bool {
    &&& forall|i: int, j: int| 0 <= i < j < v.len() ==> v[i].ts < v[j].ts
    &&& forall|i: int|
        0 <= i < v.len() ==> lo <= #[trigger] v[i].ts <= hi && m.dom().contains(v[i].ts as int)
            && m[v[i].ts as int] == (
            v[i].cpu as int,
            v[i].mem_used as int,
            v[i].mem_total as int,
            v[i].net_rx as int,
            v[i].net_tx as int,
        )
    &&& forall|k: int|
        lo <= k <= hi && m.dom().contains(k) ==> exists|i: int|
            0 <= i < v.len() && #[trigger] v[i].ts == k
}

/// Relies on rusqlite's prepare/query_map with `SELECT ... WHERE timestamp
/// BETWEEN ... ORDER BY timestamp ASC`: the result enumerates exactly the
/// rows in range, ascending by the (unique) key. Any error yields `None`.
#[verifier::external_body]
fn db_select_range(conn: &rusqlite::Connection, lo: i64, hi: i64) -> (r: Option<Vec<HistRow>>)
    ensures
        match r {
            Some(v) => rows_match_range(db_rows(*conn), lo as int, hi as int, v@),
            None => true,
        },
{
    let mut stmt = conn.prepare(
        "SELECT timestamp, cpu, mem_used, mem_total, net_rx, net_tx
         FROM snapshots WHERE timestamp >= ?1 AND timestamp <= ?2
         ORDER BY timestamp ASC",
    ).ok()?;
    let rows = stmt.query_map((lo, hi), |r| {
        Ok(HistRow {
            ts: r.get(0)?,
            cpu: r.get(1)?,
            mem_used: r.get(2)?,
            mem_total: r.get(3)?,
            net_rx: r.get(4)?,
            net_tx: r.get(5)?,
        })
    }).ok()?;
    rows.collect::<Result<Vec<HistRow>, rusqlite::Error>>().ok()
}

/// Relies on chrono::Utc::now().timestamp_millis(): the current wall-clock
/// time. Nothing is assumed of the value.
#[verifier::external_body]
fn now_millis_raw() -> (r: i64) {
    chrono::Utc::now().timestamp_millis()
}

/// Persistent error state of the history subsystem, retained for
/// user-facing diagnostics.
#[derive(Clone, Debug)]
pub enum HistoryError {
    /// The database could not be opened or initialized.
    InitFailed(String),
    /// A write (insert/delete) failed.
    WriteFailed(String),
}

impl HistoryError {
    /// A short description for display.
    pub fn message(&self) -> (r: String)
        ensures
            r@ == match self {
                HistoryError::InitFailed(e) => "History DB init failed: "@ + e@,
                HistoryError::WriteFailed(e) => "History write failed: "@ + e@,
            },
    {
        let mut out: Vec<char> = Vec::new();
        match self {
            HistoryError::InitFailed(e) => {
                push_str_chars(&mut out, "History DB init failed: ");
                push_str_chars(&mut out, e.as_str());
            },
            HistoryError::WriteFailed(e) => {
                push_str_chars(&mut out, "History write failed: ");
                push_str_chars(&mut out, e.as_str());
            },
        }
        chars_to_string(out)
    }
}

/// Stored point for a single recorded tick.
#[derive(Clone, Debug)]
pub struct HistoryPoint {
    /// Milliseconds.
    pub timestamp_ms: u64,
    /// CPU usage in basis points.
    pub cpu_bp: u64,
    pub mem_used: u64,
    pub mem_total: u64,
    pub net_rx: u64,
    pub net_tx: u64,
}

/// Default retention window: 24 hours, in milliseconds.
pub const DEFAULT_RETENTION_MS: u64 = 86400000;

/// Minimum spacing of prune passes: 60 seconds, in milliseconds.
pub const PRUNE_INTERVAL_MS: u64 = 60000;

/// What one snapshot persists: the fields of one history row.
#[derive(Clone, Copy, Debug, PartialEq, Eq, Structural)]
pub struct HistoryRecord {
    pub timestamp_ms: u64,
    pub cpu_bp: u32,
    pub mem_used: u64,
    pub mem_total: u64,
    pub net_rx: u64,
    pub net_tx: u64,
}

impl HistoryRecord {
    /// The row a snapshot persists.
    pub open spec fn spec_of_snapshot(s: Snapshot) -> HistoryRecord {
        HistoryRecord {
            timestamp_ms: s.timestamp_ms,
            cpu_bp: s.cpu_usage_global,
            mem_used: s.memory_used,
            mem_total: s.memory_total,
            net_rx: s.net_rx_bytes,
            net_tx: s.net_tx_bytes,
        }
    }

    pub fn of_snapshot(s: &Snapshot) -> (r: HistoryRecord)
        ensures
            r == Self::spec_of_snapshot(*s),
    {
        HistoryRecord {
            timestamp_ms: s.timestamp_ms,
            cpu_bp: s.cpu_usage_global,
            mem_used: s.memory_used,
            mem_total: s.memory_total,
            net_rx: s.net_rx_bytes,
            net_tx: s.net_tx_bytes,
        }
    }
}

/// The row values a record stores.
pub open spec fn snap_row(s: HistoryRecord) -> (int, int, int, int, int) {
    (s.cpu_bp as int, s.mem_used as int, s.mem_total as int, s.net_rx as int, s.net_tx as int)
}

/// A record's values fit the store's signed 64-bit columns.
pub open spec fn snap_storable(s: HistoryRecord) -> bool {
    &&& s.timestamp_ms <= i64::MAX
    &&& s.mem_used <= i64::MAX
    &&& s.mem_total <= i64::MAX
    &&& s.net_rx <= i64::MAX
    &&& s.net_tx <= i64::MAX
}

/// The map after upserting one row per snapshot, in order; a repeated
/// timestamp overwrites, never duplicates.
pub open spec fn upsert_all(
    m: Map<int, (int, int, int, int, int)>,
    snaps: Seq<HistoryRecord>,
) -> Map<int, (int, int, int, int, int)>
    decreases snaps.len(),
{
    if snaps.len() == 0 {
        m
    } else {
        upsert_all(m, snaps.drop_last()).insert(
            snaps.last().timestamp_ms as int,
            snap_row(snaps.last()),
        )
    }
}

/// The map restricted to keys at or after the cutoff.
pub open spec fn prune_map(
    m: Map<int, (int, int, int, int, int)>,
    cutoff: int,
) -> Map<int, (int, int, int, int, int)> {
    Map::<int, (int, int, int, int, int)>::new(
        |k: int| m.dom().contains(k) && k >= cutoff,
        |k: int| m[k],
    )
}

/// Law: upserting twice under one timestamp leaves exactly one row,
/// holding the later call's values; other keys are untouched.
pub proof fn lemma_upsert_idempotent(
    m: Map<int, (int, int, int, int, int)>,
    t: int,
    r1: (int, int, int, int, int),
    r2: (int, int, int, int, int),
)
    ensures
        m.insert(t, r1).insert(t, r2) == m.insert(t, r2),
        m.insert(t, r1).insert(t, r2).dom() == m.dom().insert(t),
        m.insert(t, r1).insert(t, r2)[t] == r2,
{
    assert(m.insert(t, r1).insert(t, r2) =~= m.insert(t, r2));
    assert(m.insert(t, r1).insert(t, r2).dom() =~= m.dom().insert(t));
}

/// Law: after a prune with the given cutoff, every remaining row's
/// timestamp is at or after the cutoff, and rows at or after it are kept
/// unchanged.
pub proof fn lemma_prune_bound(m: Map<int, (int, int, int, int, int)>, cutoff: int)
    ensures
        forall|k: int| prune_map(m, cutoff).dom().contains(k) ==> k >= cutoff,
        forall|k: int|
            m.dom().contains(k) && k >= cutoff ==> prune_map(m, cutoff).dom().contains(k)
                && prune_map(m, cutoff)[k] == m[k],
{
}

/// The time-series history store. When the backing database cannot be
/// opened, the store degrades to an unavailable mode: writes are no-ops,
/// reads return empty results, and the last error is retained.
pub struct History {
    conn: Option<rusqlite::Connection>,
    /// How many milliseconds of history to keep.
    retention_ms: u64,
    /// Timestamp of the last prune pass (snapshot time, not wall clock).
    last_prune_ms: u64,
    /// Last error encountered, exposed for user feedback.
    pub last_error: Option<HistoryError>,
}

impl History {
    /// The table contents, empty when the store is unavailable.
    pub closed spec fn rows(&self) -> Map<int, (int, int, int, int, int)> {
        match self.conn {
            Some(c) => db_rows(c),
            None => Map::<int, (int, int, int, int, int)>::empty(),
        }
    }

    pub closed spec fn spec_available(&self) -> bool {
        self.conn is Some
    }

    pub closed spec fn spec_retention_ms(&self) -> u64 {
        self.retention_ms
    }

    pub closed spec fn spec_last_prune_ms(&self) -> u64 {
        self.last_prune_ms
    }

    pub closed spec fn spec_last_error(&self) -> Option<HistoryError> {
        self.last_error
    }

    /// Open the store at a database file path (the caller prepares the
    /// directory). On failure the store is unavailable and retains the
    /// error.
    pub fn open_at(path: &str) -> (r: History)
        ensures
            r.spec_retention_ms() == DEFAULT_RETENTION_MS,
            r.spec_last_prune_ms() == 0,
            r.spec_available() ==> r.rows().dom().finite() && r.spec_last_error() is None,
            !r.spec_available() ==> r.spec_last_error() matches Some(HistoryError::InitFailed(_)),
    {
        match open_file_conn(path) {
            Ok(c) => History {
                conn: Some(c),
                retention_ms: DEFAULT_RETENTION_MS,
                last_prune_ms: 0,
                last_error: None,
            },
            Err(e) => History {
                conn: None,
                retention_ms: DEFAULT_RETENTION_MS,
                last_prune_ms: 0,
                last_error: Some(HistoryError::InitFailed(e)),
            },
        }
    }

    /// Open a fresh in-memory store (no persistence): empty on success.
    pub fn open_in_memory() -> (r: History)
        ensures
            r.spec_retention_ms() == DEFAULT_RETENTION_MS,
            r.spec_last_prune_ms() == 0,
            r.spec_available() ==> r.rows() == Map::<int, (int, int, int, int, int)>::empty()
                && r.spec_last_error() is None,
            !r.spec_available() ==> r.spec_last_error() matches Some(HistoryError::InitFailed(_)),
    {
        match open_memory_conn() {
            Ok(c) => History {
                conn: Some(c),
                retention_ms: DEFAULT_RETENTION_MS,
                last_prune_ms: 0,
                last_error: None,
            },
            Err(e) => History {
                conn: None,
                retention_ms: DEFAULT_RETENTION_MS,
                last_prune_ms: 0,
                last_error: Some(HistoryError::InitFailed(e)),
            },
        }
    }

    /// A store that is permanently unavailable, as after a failed open.
    pub fn unavailable(reason: String) -> (r: History)
        ensures
            !r.spec_available(),
            r.rows() == Map::<int, (int, int, int, int, int)>::empty(),
            r.spec_last_error() matches Some(HistoryError::InitFailed(_)),
            r.spec_retention_ms() == DEFAULT_RETENTION_MS,
    {
        History {
            conn: None,
            retention_ms: DEFAULT_RETENTION_MS,
            last_prune_ms: 0,
            last_error: Some(HistoryError::InitFailed(reason)),
        }
    }

    /// True while the backend is operational.
    pub fn is_available(&self) -> (r: bool)
        ensures
            r == self.spec_available(),
    {
        self.conn.is_some()
    }

    /// Set the retention window, in seconds.
    pub fn set_retention_secs(&mut self, secs: u64)
        requires
            secs <= 604800,
        ensures
            final(self).spec_retention_ms() == secs * 1000,
            final(self).rows() == old(self).rows(),
            final(self).spec_available() == old(self).spec_available(),
            final(self).spec_last_prune_ms() == old(self).spec_last_prune_ms(),
            final(self).spec_last_error() == old(self).spec_last_error(),
    {
        self.retention_ms = secs * 1000;
    }

    /// Record a single snapshot: sugar for a one-element batch.
    pub fn record(&mut self, snap: &Snapshot)
        ensures
            record_batch_post(
                *old(self),
                *final(self),
                seq![HistoryRecord::spec_of_snapshot(*snap)],
            ),
    {
        let mut batch: Vec<HistoryRecord> = Vec::new();
        batch.push(HistoryRecord::of_snapshot(snap));
        assert(batch@ =~= seq![HistoryRecord::spec_of_snapshot(*snap)]);
        self.record_batch(&batch);
    }

    /// Upsert one row per snapshot within a single transaction. A batch
    /// holding any value that does not fit the store is rejected whole:
    /// no row of it is written and the error is retained. After a
    /// successful batch the retained error is cleared, and if at least 60
    /// seconds of snapshot time have passed since the last prune, rows
    /// older than the latest timestamp minus the retention window are
    /// deleted.
    pub fn record_batch(&mut self, snaps: &Vec<HistoryRecord>)
        ensures
            record_batch_post(*old(self), *final(self), snaps@),
    {
        if self.conn.is_none() {
            return;
        }
        if snaps.len() == 0 {
            return;
        }
        // Validate the whole batch first: atomicity of a rejected batch
        // is then immediate, no row having been written.
        let n = snaps.len();
        let mut i: usize = 0;
        while i < n
            invariant
                i <= n,
                n == snaps@.len(),
                n > 0,
                *self == *old(self),
                old(self).spec_available(),
                forall|k: int| 0 <= k < i ==> snap_storable(#[trigger] snaps@[k]),
            decreases n - i,
        {
            let s = &snaps[i];
            if !(s.timestamp_ms <= i64::MAX as u64 && s.mem_used <= i64::MAX as u64
                && s.mem_total <= i64::MAX as u64 && s.net_rx <= i64::MAX as u64 && s.net_tx
                <= i64::MAX as u64) {
                self.last_error = Some(
                    HistoryError::WriteFailed(string_of("value out of range for the store")),
                );
                return;
            }
            i = i + 1;
        }
        let mut conn = match self.conn.take() {
            Some(c) => c,
            None => { return; },
        };
        let ghost m0 = db_rows(conn);
        if let Err(e) = db_begin(&mut conn) {
            self.conn = Some(conn);
            self.last_error = Some(HistoryError::WriteFailed(e));
            return;
        }
        let mut i: usize = 0;
        while i < n
            invariant
                i <= n,
                n == snaps@.len(),
                n > 0,
                forall|k: int| 0 <= k < n ==> snap_storable(#[trigger] snaps@[k]),
                db_rows(conn) == upsert_all(m0, snaps@.take(i as int)),
                self.conn is None,
                self.retention_ms == old(self).retention_ms,
                self.last_prune_ms == old(self).last_prune_ms,
                self.last_error == old(self).last_error,
                old(self).spec_available(),
                old(self).conn matches Some(c0) && db_rows(c0) == m0,
            decreases n - i,
        {
            let s = &snaps[i];
            let r = db_insert_row(
                &mut conn,
                s.timestamp_ms as i64,
                s.cpu_bp as i64,
                s.mem_used as i64,
                s.mem_total as i64,
                s.net_rx as i64,
                s.net_tx as i64,
            );
            if let Err(e) = r {
                let _ = db_rollback(&mut conn);
                self.conn = Some(conn);
                self.last_error = Some(HistoryError::WriteFailed(e));
                return;
            }
            assert(snaps@.take(i + 1).drop_last() =~= snaps@.take(i as int));
            assert(snaps@.take(i + 1).last() == snaps@[i as int]);
            i = i + 1;
        }
        assert(snaps@.take(n as int) =~= snaps@);
        if let Err(e) = db_commit(&mut conn) {
            let _ = db_rollback(&mut conn);
            self.conn = Some(conn);
            self.last_error = Some(HistoryError::WriteFailed(e));
            return;
        }
        // Success: clear any previously recorded error.
        self.last_error = None;
        // Opportunistic prune, piggybacked on writes at most once per
        // minute of snapshot time.
        let last_ts = snaps[n - 1].timestamp_ms;
        if last_ts >= self.last_prune_ms && last_ts - self.last_prune_ms >= PRUNE_INTERVAL_MS {
            self.last_prune_ms = last_ts;
            let cutoff_u = if last_ts >= self.retention_ms {
                last_ts - self.retention_ms
            } else {
                0
            };
            if let Err(e) = db_delete_before(&mut conn, cutoff_u as i64) {
                self.last_error = Some(HistoryError::WriteFailed(e));
            }
        }
        self.conn = Some(conn);
    }
}

/// What `record_batch` guarantees, relating the store before and after.
///
/// An unavailable store and an empty batch change nothing. A batch with a
/// value the store cannot hold is rejected whole: the rows are unchanged
/// and the error is retained. When every write succeeded (the retained
/// error is then cleared), the rows are the batch upserted in order, and
/// pruned of everything older than the retention cutoff when a prune was
/// due; a backend failure leaves the error retained instead.
pub open spec fn record_batch_post(
    pre: History,
    post: History,
    snaps: Seq<HistoryRecord>,
) -> bool {
    &&& post.spec_retention_ms() == pre.spec_retention_ms()
    &&& (!pre.spec_available() ==> post == pre)
    &&& (snaps.len() == 0 ==> post == pre)
    &&& (pre.spec_available() && snaps.len() > 0 && (exists|k: int|
        0 <= k < snaps.len() && !snap_storable(#[trigger] snaps[k])) ==> {
        &&& post.rows() == pre.rows()
        &&& post.spec_last_error() matches Some(HistoryError::WriteFailed(_))
        &&& post.spec_available()
        &&& post.spec_last_prune_ms() == pre.spec_last_prune_ms()
    })
    &&& (pre.spec_available() && snaps.len() > 0 && (forall|k: int|
        0 <= k < snaps.len() ==> snap_storable(#[trigger] snaps[k])) ==> {
        &&& post.spec_available()
        &&& (post.spec_last_error() is None ==> {
            let upserted = upsert_all(pre.rows(), snaps);
            let last_ts = snaps.last().timestamp_ms as int;
            let prune_due = last_ts - pre.spec_last_prune_ms() >= PRUNE_INTERVAL_MS;
            let cutoff = if last_ts >= pre.spec_retention_ms() {
                last_ts - pre.spec_retention_ms()
            } else {
                0
            };
            &&& (prune_due ==> post.rows() == prune_map(upserted, cutoff)
                && post.spec_last_prune_ms() == last_ts)
            &&& (!prune_due ==> post.rows() == upserted && post.spec_last_prune_ms()
                == pre.spec_last_prune_ms())
        })
        &&& (post.spec_last_error() is Some ==> post.spec_last_error() matches Some(
            HistoryError::WriteFailed(_),
        ))
    })
}

/// A signed row value clamped into the unsigned model (a foreign database
/// file could hold negatives; this store never writes them).
pub open spec fn clamp0(x: i64) -> u64 {
    if x < 0 {
        0u64
    } else {
        x as u64
    }
}

/// The point a raw row converts to.
pub open spec fn spec_point_of_row(r: HistRow) -> HistoryPoint {
    HistoryPoint {
        timestamp_ms: clamp0(r.ts),
        cpu_bp: clamp0(r.cpu),
        mem_used: clamp0(r.mem_used),
        mem_total: clamp0(r.mem_total),
        net_rx: clamp0(r.net_rx),
        net_tx: clamp0(r.net_tx),
    }
}

fn clamp0_exec(x: i64) -> (r: u64)
    ensures
        r == clamp0(x),
{
    if x < 0 {
        0
    } else {
        x as u64
    }
}

/// Convert raw rows to points, one for one and in order.
pub fn points_of_rows(rows: &Vec<HistRow>) -> (r: Vec<HistoryPoint>)
    ensures
        r@.len() == rows@.len(),
        forall|i: int| 0 <= i < rows@.len() ==> r@[i] == spec_point_of_row(#[trigger] rows@[i]),
{
    let n = rows.len();
    let mut out: Vec<HistoryPoint> = Vec::new();
    let mut i: usize = 0;
    while i < n
        invariant
            i <= n,
            n == rows@.len(),
            out@.len() == i,
            forall|k: int| 0 <= k < i ==> out@[k] == spec_point_of_row(#[trigger] rows@[k]),
        decreases n - i,
    {
        let row = &rows[i];
        out.push(
            HistoryPoint {
                timestamp_ms: clamp0_exec(row.ts),
                cpu_bp: clamp0_exec(row.cpu),
                mem_used: clamp0_exec(row.mem_used),
                mem_total: clamp0_exec(row.mem_total),
                net_rx: clamp0_exec(row.net_rx),
                net_tx: clamp0_exec(row.net_tx),
            },
        );
        i = i + 1;
    }
    out
}

/// A u64 bound clamped into the store's signed key space.
pub open spec fn spec_key_clamp(x: u64) -> int {
    if x > i64::MAX {
        i64::MAX as int
    } else {
        x as int
    }
}

/// The points `pts` are exactly the rows of `m` with key in
/// [clamp(lo), clamp(hi)], converted and in strictly ascending time order.
pub open spec fn points_match_range(
    m: Map<int, (int, int, int, int, int)>,
    lo: u64,
    hi: u64,
    pts: Seq<HistoryPoint>,
) -> bool {
    exists|v: Seq<HistRow>|
        rows_match_range(m, spec_key_clamp(lo), spec_key_clamp(hi), v) && pts.len() == v.len()
            && forall|i: int| 0 <= i < v.len() ==> pts[i] == spec_point_of_row(#[trigger] v[i])
}

impl History {
    /// All recorded rows with timestamp in [from, to], ascending. An
    /// unavailable store, and a backend read error, yield the empty list.
    pub fn load_range(&self, from_ms: u64, to_ms: u64) -> (r: Vec<HistoryPoint>)
        ensures
            !self.spec_available() ==> r@.len() == 0,
            r@.len() > 0 ==> points_match_range(self.rows(), from_ms, to_ms, r@),
    {
        match &self.conn {
            None => Vec::new(),
            Some(c) => {
                let lo = if from_ms > i64::MAX as u64 {
                    i64::MAX
                } else {
                    from_ms as i64
                };
                let hi = if to_ms > i64::MAX as u64 {
                    i64::MAX
                } else {
                    to_ms as i64
                };
                match db_select_range(c, lo, hi) {
                    None => Vec::new(),
                    Some(rows) => {
                        let pts = points_of_rows(&rows);
                        proof {
                            if pts@.len() > 0 {
                                assert(points_match_range(self.rows(), from_ms, to_ms, pts@)) by {
                                    assert(rows_match_range(
                                        db_rows(*c),
                                        spec_key_clamp(from_ms),
                                        spec_key_clamp(to_ms),
                                        rows@,
                                    ));
                                }
                            }
                        }
                        pts
                    },
                }
            },
        }
    }
}

/// Which bucket a timestamp falls in: equal-width buckets starting at
/// `from`, the last bucket absorbing the range's end.
pub open spec fn spec_bucket_index(ts: int, from: int, bucket: int, maxp: int) -> int {
    if ts <= from {
        0
    } else if (ts - from) / bucket >= maxp {
        maxp - 1
    } else {
        (ts - from) / bucket
    }
}

/// The points of `pts` that fall in bucket `b`, in order.
pub open spec fn bucket_members(
    pts: Seq<HistoryPoint>,
    b: int,
    from: int,
    bucket: int,
    maxp: int,
) -> Seq<HistoryPoint>
    decreases pts.len(),
{
    if pts.len() == 0 {
        Seq::<HistoryPoint>::empty()
    } else {
        bucket_members(pts.drop_last(), b, from, bucket, maxp) + (if spec_bucket_index(
            pts.last().timestamp_ms as int,
            from,
            bucket,
            maxp,
        ) == b {
            seq![pts.last()]
        } else {
            Seq::<HistoryPoint>::empty()
        })
    }
}

/// Sum of one field over a run of points.
pub open spec fn sum_by(s: Seq<HistoryPoint>, f: spec_fn(HistoryPoint) -> int) -> int
    decreases s.len(),
{
    if s.len() == 0 {
        0
    } else {
        sum_by(s.drop_last(), f) + f(s.last())
    }
}

/// The integer-truncated field-wise average of a non-empty run of points.
pub open spec fn spec_avg_point(s: Seq<HistoryPoint>) -> HistoryPoint {
    HistoryPoint {
        timestamp_ms: (sum_by(s, |p: HistoryPoint| p.timestamp_ms as int) / s.len() as int) as u64,
        cpu_bp: (sum_by(s, |p: HistoryPoint| p.cpu_bp as int) / s.len() as int) as u64,
        mem_used: (sum_by(s, |p: HistoryPoint| p.mem_used as int) / s.len() as int) as u64,
        mem_total: (sum_by(s, |p: HistoryPoint| p.mem_total as int) / s.len() as int) as u64,
        net_rx: (sum_by(s, |p: HistoryPoint| p.net_rx as int) / s.len() as int) as u64,
        net_tx: (sum_by(s, |p: HistoryPoint| p.net_tx as int) / s.len() as int) as u64,
    }
}

/// One averaged row per non-empty bucket, for buckets b, b+1, ...
pub open spec fn spec_downsample(
    pts: Seq<HistoryPoint>,
    from: int,
    bucket: int,
    maxp: int,
    b: int,
) -> Seq<HistoryPoint>
    decreases maxp - b,
{
    if b >= maxp {
        Seq::<HistoryPoint>::empty()
    } else {
        let members = bucket_members(pts, b, from, bucket, maxp);
        (if members.len() > 0 {
            seq![spec_avg_point(members)]
        } else {
            Seq::<HistoryPoint>::empty()
        }) + spec_downsample(pts, from, bucket, maxp, b + 1)
    }
}

/// A nonnegative-field sum is bounded by count times the field bound.
proof fn lemma_sum_by_bounds(s: Seq<HistoryPoint>, f: spec_fn(HistoryPoint) -> int, bound: int)
    requires
        forall|p: HistoryPoint| 0 <= #[trigger] f(p) <= bound,
    ensures
        0 <= sum_by(s, f) <= s.len() * bound,
    decreases s.len(),
{
    if s.len() == 0 {
    } else {
        lemma_sum_by_bounds(s.drop_last(), f, bound);
        assert((s.len() - 1) * bound + bound == s.len() * bound) by (nonlinear_arith);
    }
}

/// Divide pts into `max_points` equal `bucket_ms`-wide buckets anchored at
/// `from_ms` and average each non-empty bucket, field by field with integer
/// truncation. Never returns more than `max_points` rows.
pub fn downsample_points(
    pts: &Vec<HistoryPoint>,
    from_ms: u64,
    bucket_ms: u64,
    max_points: usize,
) -> (r: Vec<HistoryPoint>)
    requires
        bucket_ms > 0,
        max_points > 0,
    ensures
        r@ == spec_downsample(pts@, from_ms as int, bucket_ms as int, max_points as int, 0),
        r@.len() <= max_points,
{
    let ghost gfrom = from_ms as int;
    let ghost gbucket = bucket_ms as int;
    let ghost gmax = max_points as int;
    let ghost whole = spec_downsample(pts@, gfrom, gbucket, gmax, 0);
    let n = pts.len();
    let mut out: Vec<HistoryPoint> = Vec::new();
    let mut b: usize = 0;
    while b < max_points
        invariant
            b <= max_points,
            n == pts@.len(),
            bucket_ms > 0,
            max_points > 0,
            gfrom == from_ms as int,
            gbucket == bucket_ms as int,
            gmax == max_points as int,
            whole == spec_downsample(pts@, gfrom, gbucket, gmax, 0),
            out@.len() <= b,
            whole =~= out@ + spec_downsample(pts@, gfrom, gbucket, gmax, b as int),
        decreases max_points - b,
    {
        let ghost members_all = bucket_members(pts@, b as int, gfrom, gbucket, gmax);
        let mut count: u64 = 0;
        let mut s_ts: u128 = 0;
        let mut s_cpu: u128 = 0;
        let mut s_mu: u128 = 0;
        let mut s_mt: u128 = 0;
        let mut s_rx: u128 = 0;
        let mut s_tx: u128 = 0;
        let mut i: usize = 0;
        while i < n
            invariant
                i <= n,
                n == pts@.len(),
                bucket_ms > 0,
                max_points > 0,
                b < max_points,
                gfrom == from_ms as int,
                gbucket == bucket_ms as int,
                gmax == max_points as int,
                count == bucket_members(pts@.take(i as int), b as int, gfrom, gbucket, gmax).len(),
                count <= i,
                s_ts == sum_by(
                    bucket_members(pts@.take(i as int), b as int, gfrom, gbucket, gmax),
                    |p: HistoryPoint| p.timestamp_ms as int,
                ),
                s_cpu == sum_by(
                    bucket_members(pts@.take(i as int), b as int, gfrom, gbucket, gmax),
                    |p: HistoryPoint| p.cpu_bp as int,
                ),
                s_mu == sum_by(
                    bucket_members(pts@.take(i as int), b as int, gfrom, gbucket, gmax),
                    |p: HistoryPoint| p.mem_used as int,
                ),
                s_mt == sum_by(
                    bucket_members(pts@.take(i as int), b as int, gfrom, gbucket, gmax),
                    |p: HistoryPoint| p.mem_total as int,
                ),
                s_rx == sum_by(
                    bucket_members(pts@.take(i as int), b as int, gfrom, gbucket, gmax),
                    |p: HistoryPoint| p.net_rx as int,
                ),
                s_tx == sum_by(
                    bucket_members(pts@.take(i as int), b as int, gfrom, gbucket, gmax),
                    |p: HistoryPoint| p.net_tx as int,
                ),
                s_ts <= count as int * u64::MAX as int,
                s_cpu <= count as int * u64::MAX as int,
                s_mu <= count as int * u64::MAX as int,
                s_mt <= count as int * u64::MAX as int,
                s_rx <= count as int * u64::MAX as int,
                s_tx <= count as int * u64::MAX as int,
            decreases n - i,
        {
            let p = &pts[i];
            let ghost before = bucket_members(pts@.take(i as int), b as int, gfrom, gbucket, gmax);
            proof {
                assert(pts@.take(i + 1).drop_last() =~= pts@.take(i as int));
                assert(pts@.take(i + 1).last() == pts@[i as int]);
                assert(count as int * u64::MAX as int + u64::MAX as int == (count as int + 1)
                    * u64::MAX as int) by (nonlinear_arith);
            }
            let in_bucket: bool = if p.timestamp_ms <= from_ms {
                b == 0
            } else {
                let d = (p.timestamp_ms - from_ms) / bucket_ms;
                if d >= max_points as u64 {
                    b == max_points - 1
                } else {
                    d == b as u64
                }
            };
            proof {
                assert(in_bucket == (spec_bucket_index(
                    pts@[i as int].timestamp_ms as int,
                    gfrom,
                    gbucket,
                    gmax,
                ) == b as int));
            }
            let ghost mem1 = bucket_members(pts@.take(i + 1), b as int, gfrom, gbucket, gmax);
            if in_bucket {
                count = count + 1;
                s_ts = s_ts + p.timestamp_ms as u128;
                s_cpu = s_cpu + p.cpu_bp as u128;
                s_mu = s_mu + p.mem_used as u128;
                s_mt = s_mt + p.mem_total as u128;
                s_rx = s_rx + p.net_rx as u128;
                s_tx = s_tx + p.net_tx as u128;
                proof {
                    assert(mem1 =~= before + seq![pts@[i as int]]);
                    assert(mem1.len() == before.len() + 1);
                    assert(mem1.drop_last() =~= before);
                    assert(mem1.last() == pts@[i as int]);
                }
            } else {
                proof {
                    assert(mem1 =~= before);
                }
            }
            i = i + 1;
        }
        proof {
            assert(pts@.take(n as int) =~= pts@);
        }
        if count > 0 {
            proof {
                let len = members_all.len() as int;
                assert(len == count);
                assert(s_ts as int / len <= u64::MAX as int) by (nonlinear_arith)
                    requires
                        s_ts as int <= len * u64::MAX as int,
                        len > 0,
                ;
                assert(s_cpu as int / len <= u64::MAX as int) by (nonlinear_arith)
                    requires
                        s_cpu as int <= len * u64::MAX as int,
                        len > 0,
                ;
                assert(s_mu as int / len <= u64::MAX as int) by (nonlinear_arith)
                    requires
                        s_mu as int <= len * u64::MAX as int,
                        len > 0,
                ;
                assert(s_mt as int / len <= u64::MAX as int) by (nonlinear_arith)
                    requires
                        s_mt as int <= len * u64::MAX as int,
                        len > 0,
                ;
                assert(s_rx as int / len <= u64::MAX as int) by (nonlinear_arith)
                    requires
                        s_rx as int <= len * u64::MAX as int,
                        len > 0,
                ;
                assert(s_tx as int / len <= u64::MAX as int) by (nonlinear_arith)
                    requires
                        s_tx as int <= len * u64::MAX as int,
                        len > 0,
                ;
            }
            let cw: u128 = count as u128;
            let avg = HistoryPoint {
                timestamp_ms: (s_ts / cw) as u64,
                cpu_bp: (s_cpu / cw) as u64,
                mem_used: (s_mu / cw) as u64,
                mem_total: (s_mt / cw) as u64,
                net_rx: (s_rx / cw) as u64,
                net_tx: (s_tx / cw) as u64,
            };
            proof {
                assert(avg == spec_avg_point(members_all));
            }
            out.push(avg);
        }
        proof {
            assert(spec_downsample(pts@, gfrom, gbucket, gmax, b as int) =~= (if members_all.len()
                > 0 {
                seq![spec_avg_point(members_all)]
            } else {
                Seq::<HistoryPoint>::empty()
            }) + spec_downsample(pts@, gfrom, gbucket, gmax, b + 1));
        }
        b = b + 1;
    }
    assert(spec_downsample(pts@, gfrom, gbucket, gmax, gmax) =~= Seq::<HistoryPoint>::empty());
    assert(out@ =~= whole);
    out
}

/// The bucket width for a downsampled load: the range divided into
/// `max_points` equal parts, 0 when the range is degenerate.
pub open spec fn spec_bucket_ms(from: u64, to: u64, max_points: usize) -> int {
    if to <= from || max_points == 0 {
        0
    } else {
        (to - from) as int / max_points as int
    }
}

impl History {
    /// At most `max_points` averaged rows over [from, to]: the range is cut
    /// into equal-width buckets and each non-empty bucket yields one
    /// field-wise averaged row, ascending. `max_points` of 0 yields the
    /// empty list; a degenerate bucket width falls back to the plain range
    /// load.
    pub fn load_range_downsampled(&self, from_ms: u64, to_ms: u64, max_points: usize) -> (r: Vec<
        HistoryPoint,
    >)
        ensures
            max_points == 0 ==> r@.len() == 0,
            !self.spec_available() ==> r@.len() == 0,
            self.spec_available() && max_points > 0 && spec_bucket_ms(from_ms, to_ms, max_points)
                > 0 ==> r@.len() <= max_points && (exists|pts: Seq<HistoryPoint>|
                (pts.len() == 0 || points_match_range(self.rows(), from_ms, to_ms, pts))
                    && r@ == spec_downsample(
                    pts,
                    from_ms as int,
                    spec_bucket_ms(from_ms, to_ms, max_points),
                    max_points as int,
                    0,
                )),
            max_points > 0 && spec_bucket_ms(from_ms, to_ms, max_points) == 0 && r@.len() > 0
                ==> points_match_range(self.rows(), from_ms, to_ms, r@),
    {
        if max_points == 0 {
            return Vec::new();
        }
        if !self.is_available() {
            return Vec::new();
        }
        let bucket: u64 = if to_ms <= from_ms {
            0
        } else {
            (to_ms - from_ms) / (max_points as u64)
        };
        if bucket == 0 {
            return self.load_range(from_ms, to_ms);
        }
        let pts = self.load_range(from_ms, to_ms);
        let r = downsample_points(&pts, from_ms, bucket, max_points);
        proof {
            assert((pts@.len() == 0 || points_match_range(self.rows(), from_ms, to_ms, pts@))
                && r@ == spec_downsample(
                pts@,
                from_ms as int,
                spec_bucket_ms(from_ms, to_ms, max_points),
                max_points as int,
                0,
            ));
        }
        r
    }

    /// Convenience: the downsampled load anchored at the current wall
    /// clock, covering the last `seconds` seconds.
    pub fn load_last_n_seconds_downsampled(&self, seconds: u64, max_points: usize) -> (r: Vec<
        HistoryPoint,
    >)
        ensures
            max_points == 0 ==> r@.len() == 0,
            !self.spec_available() ==> r@.len() == 0,
    {
        let now_raw = now_millis_raw();
        let now_ms: u64 = if now_raw < 0 {
            0
        } else {
            now_raw as u64
        };
        let span: u64 = if seconds > u64::MAX / 1000 {
            u64::MAX
        } else {
            seconds * 1000
        };
        let from = if now_ms > span {
            now_ms - span
        } else {
            0
        };
        self.load_range_downsampled(from, now_ms, max_points)
    }
}

/// One CSV data line: timestamp seconds, CPU percent with two decimals,
/// then the four byte counters, comma separated, newline terminated.
pub open spec fn spec_csv_row(p: HistoryPoint) -> Seq<char> {
    ms_fixed3(p.timestamp_ms as nat) + seq![','] + bp_fixed2(p.cpu_bp as nat) + seq![',']
        + dec_digits(p.mem_used as nat) + seq![','] + dec_digits(p.mem_total as nat) + seq![',']
        + dec_digits(p.net_rx as nat) + seq![','] + dec_digits(p.net_tx as nat) + seq!['\n']
}

pub open spec fn spec_csv_rows(pts: Seq<HistoryPoint>) -> Seq<char>
    decreases pts.len(),
{
    if pts.len() == 0 {
        Seq::<char>::empty()
    } else {
        spec_csv_rows(pts.drop_last()) + spec_csv_row(pts.last())
    }
}

/// The whole CSV document: a fixed header line, then one line per point.
pub open spec fn spec_csv(pts: Seq<HistoryPoint>) -> Seq<char> {
    "timestamp,cpu_percent,mem_used_bytes,mem_total_bytes,net_rx_bytes,net_tx_bytes"@ + seq!['\n']
        + spec_csv_rows(pts)
}

/// Render points as the fixed-schema CSV document.
#[verifier::rlimit(80)]
pub fn render_csv(pts: &Vec<HistoryPoint>) -> (r: String)
    ensures
        r@ == spec_csv(pts@),
{
    let mut out: Vec<char> = Vec::new();
    push_str_chars(
        &mut out,
        "timestamp,cpu_percent,mem_used_bytes,mem_total_bytes,net_rx_bytes,net_tx_bytes",
    );
    out.push('\n');
    let n = pts.len();
    let mut i: usize = 0;
    while i < n
        invariant
            i <= n,
            n == pts@.len(),
            out@ =~= spec_csv(pts@.take(i as int)),
        decreases n - i,
    {
        let p = &pts[i];
        push_ms_fixed3(&mut out, p.timestamp_ms);
        out.push(',');
        push_bp_fixed2(&mut out, p.cpu_bp);
        out.push(',');
        push_u64_chars(&mut out, p.mem_used);
        out.push(',');
        push_u64_chars(&mut out, p.mem_total);
        out.push(',');
        push_u64_chars(&mut out, p.net_rx);
        out.push(',');
        push_u64_chars(&mut out, p.net_tx);
        out.push('\n');
        proof {
            assert(pts@.take(i + 1).drop_last() =~= pts@.take(i as int));
            assert(pts@.take(i + 1).last() == pts@[i as int]);
            assert(out@ =~= spec_csv(pts@.take(i as int)) + spec_csv_row(pts@[i as int]));
        }
        i = i + 1;
    }
    assert(pts@.take(n as int) =~= pts@);
    chars_to_string(out)
}

/// Law: a CSV line never holds an inner newline, so the document has
/// exactly one line per point, plus the header.
pub proof fn lemma_csv_line_count(pts: Seq<HistoryPoint>)
    ensures
        count_char(spec_csv(pts), '\n') == 1 + pts.len(),
    decreases pts.len(),
{
    let body = "timestamp,cpu_percent,mem_used_bytes,mem_total_bytes,net_rx_bytes,net_tx_bytes"@;
    let header = body + seq!['\n'];
    reveal_strlit("timestamp,cpu_percent,mem_used_bytes,mem_total_bytes,net_rx_bytes,net_tx_bytes");
    assert(forall|i: int| 0 <= i < body.len() ==> body[i] != '\n');
    lemma_count_char_absent(body, '\n');
    lemma_count_char_single('\n', '\n');
    lemma_count_char_add(body, seq!['\n'], '\n');
    if pts.len() == 0 {
        assert(spec_csv(pts) =~= header);
    } else {
        lemma_csv_line_count(pts.drop_last());
        lemma_csv_row_newlines(pts.last());
        lemma_count_char_add(header + spec_csv_rows(pts.drop_last()), spec_csv_row(pts.last()), '\n');
        assert(spec_csv(pts) =~= spec_csv(pts.drop_last()) + spec_csv_row(pts.last()));
    }
}

proof fn lemma_csv_row_newlines(p: HistoryPoint)
    ensures
        count_char(spec_csv_row(p), '\n') == 1,
{
    let comma = seq![','];
    let nl = seq!['\n'];
    lemma_ms_fixed3_count_absent(p.timestamp_ms as nat, '\n');
    lemma_bp_fixed2_count_absent(p.cpu_bp as nat, '\n');
    lemma_dec_digits_count_absent(p.mem_used as nat, '\n');
    lemma_dec_digits_count_absent(p.mem_total as nat, '\n');
    lemma_dec_digits_count_absent(p.net_rx as nat, '\n');
    lemma_dec_digits_count_absent(p.net_tx as nat, '\n');
    lemma_count_char_single(',', '\n');
    let a1 = ms_fixed3(p.timestamp_ms as nat);
    let a2 = a1 + comma;
    let a3 = a2 + bp_fixed2(p.cpu_bp as nat);
    let a4 = a3 + comma;
    let a5 = a4 + dec_digits(p.mem_used as nat);
    let a6 = a5 + comma;
    let a7 = a6 + dec_digits(p.mem_total as nat);
    let a8 = a7 + comma;
    let a9 = a8 + dec_digits(p.net_rx as nat);
    let a10 = a9 + comma;
    let a11 = a10 + dec_digits(p.net_tx as nat);
    lemma_count_char_add(a1, comma, '\n');
    lemma_count_char_add(a2, bp_fixed2(p.cpu_bp as nat), '\n');
    lemma_count_char_add(a3, comma, '\n');
    lemma_count_char_add(a4, dec_digits(p.mem_used as nat), '\n');
    lemma_count_char_add(a5, comma, '\n');
    lemma_count_char_add(a6, dec_digits(p.mem_total as nat), '\n');
    lemma_count_char_add(a7, comma, '\n');
    lemma_count_char_add(a8, dec_digits(p.net_rx as nat), '\n');
    lemma_count_char_add(a9, comma, '\n');
    lemma_count_char_add(a10, dec_digits(p.net_tx as nat), '\n');
    lemma_count_char_add(a11, nl, '\n');
    lemma_count_char_single('\n', '\n');
    assert(spec_csv_row(p) =~= a11 + nl);
}

/// One JSON object for a point, as a flat map of its numeric fields.
pub open spec fn spec_json_row(p: HistoryPoint) -> Seq<char> {
    seq![' ', ' ', '{'] + "\"timestamp\":"@ + ms_fixed3(p.timestamp_ms as nat) + ",\"cpu\":"@
        + bp_fixed2(p.cpu_bp as nat) + ",\"mem_used\":"@ + dec_digits(p.mem_used as nat)
        + ",\"mem_total\":"@ + dec_digits(p.mem_total as nat) + ",\"net_rx\":"@ + dec_digits(
        p.net_rx as nat,
    ) + ",\"net_tx\":"@ + dec_digits(p.net_tx as nat) + seq!['}']
}

pub open spec fn spec_json_rows(pts: Seq<HistoryPoint>) -> Seq<char>
    decreases pts.len(),
{
    if pts.len() == 0 {
        Seq::<char>::empty()
    } else if pts.len() == 1 {
        spec_json_row(pts.last())
    } else {
        spec_json_rows(pts.drop_last()) + seq![',', '\n'] + spec_json_row(pts.last())
    }
}

/// The whole JSON document: an array of one flat object per point.
pub open spec fn spec_json(pts: Seq<HistoryPoint>) -> Seq<char> {
    seq!['[', '\n'] + spec_json_rows(pts) + seq!['\n', ']']
}

/// Append one point's JSON object.
#[verifier::rlimit(60)]
fn push_json_row(out: &mut Vec<char>, p: &HistoryPoint)
    ensures
        final(out)@ == old(out)@ + spec_json_row(*p),
{
    out.push(' ');
    out.push(' ');
    out.push('{');
    push_str_chars(out, "\"timestamp\":");
    push_ms_fixed3(out, p.timestamp_ms);
    push_str_chars(out, ",\"cpu\":");
    push_bp_fixed2(out, p.cpu_bp);
    push_str_chars(out, ",\"mem_used\":");
    push_u64_chars(out, p.mem_used);
    push_str_chars(out, ",\"mem_total\":");
    push_u64_chars(out, p.mem_total);
    push_str_chars(out, ",\"net_rx\":");
    push_u64_chars(out, p.net_rx);
    push_str_chars(out, ",\"net_tx\":");
    push_u64_chars(out, p.net_tx);
    out.push('}');
    assert(out@ =~= old(out)@ + spec_json_row(*p));
}

/// Render points as a JSON array of flat objects.
#[verifier::rlimit(100)]
pub fn render_json(pts: &Vec<HistoryPoint>) -> (r: String)
    ensures
        r@ == spec_json(pts@),
{
    let mut out: Vec<char> = Vec::new();
    out.push('[');
    out.push('\n');
    let n = pts.len();
    let mut i: usize = 0;
    while i < n
        invariant
            i <= n,
            n == pts@.len(),
            out@ =~= seq!['[', '\n'] + spec_json_rows(pts@.take(i as int)),
        decreases n - i,
    {
        let p = &pts[i];
        if i > 0 {
            out.push(',');
            out.push('\n');
        }
        push_json_row(&mut out, p);
        proof {
            assert(pts@.take(i + 1).drop_last() =~= pts@.take(i as int));
            assert(pts@.take(i + 1).last() == pts@[i as int]);
            if i == 0 {
                assert(out@ =~= seq!['[', '\n'] + spec_json_row(pts@[0]));
            } else {
                assert(out@ =~= seq!['[', '\n'] + (spec_json_rows(pts@.take(i as int)) + seq![
                    ',',
                    '\n',
                ] + spec_json_row(pts@[i as int])));
            }
        }
        i = i + 1;
    }
    assert(pts@.take(n as int) =~= pts@);
    out.push('\n');
    out.push(']');
    assert(out@ =~= spec_json(pts@));
    chars_to_string(out)
}

/// Law: '{' opens objects and occurs nowhere else, so the document holds
/// exactly one object per point.
pub proof fn lemma_json_object_count(pts: Seq<HistoryPoint>)
    ensures
        count_char(spec_json(pts), '{') == pts.len(),
    decreases pts.len(),
{
    let open = seq!['[', '\n'];
    let close = seq!['\n', ']'];
    lemma_count_char_pair('[', '\n', '{');
    lemma_count_char_pair('\n', ']', '{');
    lemma_count_char_single('[', '{');
    lemma_count_char_single('\n', '{');
    lemma_count_char_single(']', '{');
    lemma_json_rows_object_count(pts);
    lemma_count_char_add(open, spec_json_rows(pts), '{');
    lemma_count_char_add(open + spec_json_rows(pts), close, '{');
    assert(spec_json(pts) =~= (open + spec_json_rows(pts)) + close);
}

#[verifier::rlimit(100)]
proof fn lemma_json_rows_object_count(pts: Seq<HistoryPoint>)
    ensures
        count_char(spec_json_rows(pts), '{') == pts.len(),
    decreases pts.len(),
{
    if pts.len() == 0 {
    } else if pts.len() == 1 {
        lemma_json_row_object_count(pts.last());
    } else {
        lemma_json_rows_object_count(pts.drop_last());
        lemma_json_row_object_count(pts.last());
        let sep = seq![',', '\n'];
        lemma_count_char_pair(',', '\n', '{');
        lemma_count_char_single(',', '{');
        lemma_count_char_single('\n', '{');
        lemma_count_char_add(spec_json_rows(pts.drop_last()), sep, '{');
        lemma_count_char_add(spec_json_rows(pts.drop_last()) + sep, spec_json_row(pts.last()), '{');
        assert(spec_json_rows(pts) =~= (spec_json_rows(pts.drop_last()) + sep) + spec_json_row(
            pts.last(),
        ));
    }
}

proof fn lemma_json_row_object_count(p: HistoryPoint)
    ensures
        count_char(spec_json_row(p), '{') == 1,
{
    lemma_ms_fixed3_count_absent(p.timestamp_ms as nat, '{');
    lemma_bp_fixed2_count_absent(p.cpu_bp as nat, '{');
    lemma_dec_digits_count_absent(p.mem_used as nat, '{');
    lemma_dec_digits_count_absent(p.mem_total as nat, '{');
    lemma_dec_digits_count_absent(p.net_rx as nat, '{');
    lemma_dec_digits_count_absent(p.net_tx as nat, '{');
    reveal_strlit("\"timestamp\":");
    reveal_strlit(",\"cpu\":");
    reveal_strlit(",\"mem_used\":");
    reveal_strlit(",\"mem_total\":");
    reveal_strlit(",\"net_rx\":");
    reveal_strlit(",\"net_tx\":");
    assert(forall|i: int| 0 <= i < "\"timestamp\":"@.len() ==> "\"timestamp\":"@[i] != '{');
    assert(forall|i: int| 0 <= i < ",\"cpu\":"@.len() ==> ",\"cpu\":"@[i] != '{');
    assert(forall|i: int| 0 <= i < ",\"mem_used\":"@.len() ==> ",\"mem_used\":"@[i] != '{');
    assert(forall|i: int| 0 <= i < ",\"mem_total\":"@.len() ==> ",\"mem_total\":"@[i] != '{');
    assert(forall|i: int| 0 <= i < ",\"net_rx\":"@.len() ==> ",\"net_rx\":"@[i] != '{');
    assert(forall|i: int| 0 <= i < ",\"net_tx\":"@.len() ==> ",\"net_tx\":"@[i] != '{');
    lemma_count_char_absent("\"timestamp\":"@, '{');
    lemma_count_char_absent(",\"cpu\":"@, '{');
    lemma_count_char_absent(",\"mem_used\":"@, '{');
    lemma_count_char_absent(",\"mem_total\":"@, '{');
    lemma_count_char_absent(",\"net_rx\":"@, '{');
    lemma_count_char_absent(",\"net_tx\":"@, '{');
    lemma_count_char_single('}', '{');
    let brace = seq![' ', ' ', '{'];
    assert(brace =~= seq![' ', ' '] + seq!['{']);
    lemma_count_char_pair(' ', ' ', '{');
    lemma_count_char_single(' ', '{');
    lemma_count_char_single('{', '{');
    lemma_count_char_add(seq![' ', ' '], seq!['{'], '{');
    assert(count_char(brace, '{') == 1);
    let a0 = brace + "\"timestamp\":"@;
    let a1 = a0 + ms_fixed3(p.timestamp_ms as nat);
    let a2 = a1 + ",\"cpu\":"@;
    let a3 = a2 + bp_fixed2(p.cpu_bp as nat);
    let a4 = a3 + ",\"mem_used\":"@;
    let a5 = a4 + dec_digits(p.mem_used as nat);
    let a6 = a5 + ",\"mem_total\":"@;
    let a7 = a6 + dec_digits(p.mem_total as nat);
    let a8 = a7 + ",\"net_rx\":"@;
    let a9 = a8 + dec_digits(p.net_rx as nat);
    let a10 = a9 + ",\"net_tx\":"@;
    let a11 = a10 + dec_digits(p.net_tx as nat);
    lemma_count_char_add(brace, "\"timestamp\":"@, '{');
    lemma_count_char_add(a0, ms_fixed3(p.timestamp_ms as nat), '{');
    lemma_count_char_add(a1, ",\"cpu\":"@, '{');
    lemma_count_char_add(a2, bp_fixed2(p.cpu_bp as nat), '{');
    lemma_count_char_add(a3, ",\"mem_used\":"@, '{');
    lemma_count_char_add(a4, dec_digits(p.mem_used as nat), '{');
    lemma_count_char_add(a5, ",\"mem_total\":"@, '{');
    lemma_count_char_add(a6, dec_digits(p.mem_total as nat), '{');
    lemma_count_char_add(a7, ",\"net_rx\":"@, '{');
    lemma_count_char_add(a8, dec_digits(p.net_rx as nat), '{');
    lemma_count_char_add(a9, ",\"net_tx\":"@, '{');
    lemma_count_char_add(a10, dec_digits(p.net_tx as nat), '{');
    lemma_count_char_add(a11, seq!['}'], '{');
    assert(spec_json_row(p) =~= a11 + seq!['}']);
}

impl History {
    /// Export the rows in [from, to] as the fixed-schema CSV document; an
    /// unavailable store yields the empty string.
    pub fn export_csv(&self, from_ms: u64, to_ms: u64) -> (r: String)
        ensures
            !self.spec_available() ==> r@ == Seq::<char>::empty(),
            self.spec_available() ==> exists|pts: Seq<HistoryPoint>|
                r@ == spec_csv(pts) && (pts.len() == 0 || points_match_range(
                    self.rows(),
                    from_ms,
                    to_ms,
                    pts,
                )),
    {
        if !self.is_available() {
            return String::new();
        }
        let pts = self.load_range(from_ms, to_ms);
        let r = render_csv(&pts);
        proof {
            assert(r@ == spec_csv(pts@) && (pts@.len() == 0 || points_match_range(
                self.rows(),
                from_ms,
                to_ms,
                pts@,
            )));
        }
        r
    }

    /// Export the rows in [from, to] as a JSON array of flat objects; an
    /// unavailable store yields the empty array.
    pub fn export_json(&self, from_ms: u64, to_ms: u64) -> (r: String)
        ensures
            !self.spec_available() ==> r@ == "[]"@,
            self.spec_available() ==> exists|pts: Seq<HistoryPoint>|
                r@ == spec_json(pts) && (pts.len() == 0 || points_match_range(
                    self.rows(),
                    from_ms,
                    to_ms,
                    pts,
                )),
    {
        if !self.is_available() {
            return string_of("[]");
        }
        let pts = self.load_range(from_ms, to_ms);
        let r = render_json(&pts);
        proof {
            assert(r@ == spec_json(pts@) && (pts@.len() == 0 || points_match_range(
                self.rows(),
                from_ms,
                to_ms,
                pts@,
            )));
        }
        r
    }
}

fn string_of(s: &str) -> (r: String)
    ensures
        r@ == s@,
{
    String::from_str(s)
}

} // verus!
