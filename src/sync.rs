//! The sync checkpoint store: sync settings and the durable frame marker.
//!
//! The store does no I/O. Its owner reads the sidecar file and hands the bytes
//! to `SyncContext::new`; to advance the marker it writes the bytes of
//! `SyncContext::metadata_record` atomically to `metadata_path`, then reports
//! to `set_max_frame_no` whether that write was durable.

use vstd::prelude::*;
use crate::record::{decimal, digit_byte, encode_record, loaded_marker, parse_record, record_bytes};

verus! {

/// Retry attempts per sync round, unless the owner sets another budget.
pub const DEFAULT_MAX_RETRIES: usize = 5;

/// Why the checkpoint could not be loaded.
#[derive(Debug, Clone, Copy, PartialEq, Eq, Structural)]
pub enum LoadFault {
    /// There is no sidecar file, or it could not be read.
    Missing,
    /// The sidecar file holds no valid record.
    Malformed,
}

/// Errors of the checkpoint store.
#[derive(Debug, Clone, Copy, PartialEq, Eq, Structural)]
pub enum SyncError {
    /// The checkpoint could not be loaded when the store was made.
    CheckpointLoad(LoadFault),
    /// The new marker could not be written durably; the old one stays.
    CheckpointPersist,
}

pub struct SyncContext {
    pub sync_url: String,
    pub auth_token: Option<String>,
    pub max_retries: usize,
    pub durable_frame_num: u32,
    max_frame_no: u32,
    db_path: String,
}

/// What a store holds, as plain values.
pub ghost struct CheckpointState {
    pub sync_url: Seq<char>,
    pub auth_token: Option<Seq<char>>,
    pub max_retries: nat,
    pub durable_frame_num: nat,
    /// The durable frame marker.
    pub marker: u32,
    /// Path of the local database file.
    pub db_path: Seq<char>,
}

impl CheckpointState {
    /// The same state with marker `m`.
    pub open spec fn with_marker(self, m: u32) -> CheckpointState {
        CheckpointState { marker: m, ..self }
    }
}

impl View for SyncContext {
    type V = CheckpointState;

    closed spec fn view(&self) -> CheckpointState {
        CheckpointState {
            sync_url: self.sync_url@,
            auth_token: match self.auth_token {
                Some(t) => Some(t@),
                None => None,
            },
            max_retries: self.max_retries as nat,
            durable_frame_num: self.durable_frame_num as nat,
            marker: self.max_frame_no,
            db_path: self.db_path@,
        }
    }
}

/// The marker after an advance to `n` from `current`: `n` when the record was
/// written durably, else `current`.
pub open spec fn marker_after(current: u32, n: u32, persisted: bool) -> u32 {
    if persisted {
        n
    } else {
        current
    }
}

impl SyncContext {
    /// Makes the store for the database at `db_path`. `metadata` is what its
    /// sidecar file holds, or `None` where there is no such file or it could
    /// not be read.
    pub fn new(
        sync_url: String,
        auth_token: Option<String>,
        db_path: String,
        metadata: Option<&[u8]>,
    ) -> (r: Result<SyncContext, SyncError>)
        ensures
            metadata is None ==> r == Err::<SyncContext, SyncError>(
                SyncError::CheckpointLoad(LoadFault::Missing),
            ),
            metadata matches Some(b) ==> (r is Ok <==> loaded_marker(b@) is Some),
            metadata matches Some(b) && loaded_marker(b@) is None ==> r == Err::<
                SyncContext,
                SyncError,
            >(SyncError::CheckpointLoad(LoadFault::Malformed)),
            r matches Ok(ctx) ==> {
                &&& ctx@.sync_url == sync_url@
                &&& ctx@.auth_token == (match auth_token {
                    Some(t) => Some(t@),
                    None => None,
                })
                &&& ctx@.max_retries == DEFAULT_MAX_RETRIES
                &&& ctx@.durable_frame_num == 0
                &&& ctx@.db_path == db_path@
                &&& Some(ctx@.marker) == loaded_marker(metadata->Some_0@)
            },
    {
        let mut ctx = SyncContext {
            sync_url,
            auth_token,
            durable_frame_num: 0,
            max_retries: DEFAULT_MAX_RETRIES,
            max_frame_no: 0,
            db_path,
        };
        match metadata {
            None => Err(SyncError::CheckpointLoad(LoadFault::Missing)),
            Some(b) => match ctx.read_and_update_metadata(b) {
                Ok(()) => Ok(ctx),
                Err(e) => Err(e),
            },
        }
    }

    /// The durable frame marker.
    pub fn max_frame_no(&self) -> (r: u32)
        ensures
            r == self@.marker,
    {
        self.max_frame_no
    }

    /// Path of the sidecar file: the database path followed by `-info`.
    pub fn metadata_path(&self) -> (r: String)
        ensures
            r@ == self@.db_path + "-info"@,
    {
        let path = self.db_path.clone();
        path.concat("-info")
    }

    /// The bytes to write to the sidecar file to record marker `max_frame_no`.
    pub fn metadata_record(max_frame_no: u32) -> (r: Vec<u8>)
        ensures
            r@ == record_bytes(max_frame_no),
    {
        encode_record(max_frame_no)
    }

    /// Takes the marker from the sidecar text `contents`; on an invalid record
    /// the store is left as it was.
    pub fn read_and_update_metadata(&mut self, contents: &[u8]) -> (r: Result<(), SyncError>)
        ensures
            r is Ok <==> loaded_marker(contents@) is Some,
            r is Ok ==> Some(final(self)@.marker) == loaded_marker(contents@)
                && final(self)@ == old(self)@.with_marker(final(self)@.marker),
            r is Err ==> r == Err::<(), SyncError>(SyncError::CheckpointLoad(LoadFault::Malformed))
                && final(self)@ == old(self)@,
    {
        match parse_record(contents) {
            Some(m) => {
                self.max_frame_no = m;
                Ok(())
            },
            None => Err(SyncError::CheckpointLoad(LoadFault::Malformed)),
        }
    }

    /// Advances the marker to `max_frame_no` once the record of
    /// `metadata_record(max_frame_no)` was written durably (`persisted`). If it
    /// was not, the marker stays where it was and the call fails.
    /// No order between the old and the new marker is asked for.
    pub fn set_max_frame_no(&mut self, max_frame_no: u32, persisted: bool) -> (r: Result<(), SyncError>)
        ensures
            final(self)@ == old(self)@.with_marker(
                marker_after(old(self)@.marker, max_frame_no, persisted),
            ),
            r is Ok <==> persisted,
            !persisted ==> r == Err::<(), SyncError>(SyncError::CheckpointPersist),
    {
        if persisted {
            self.max_frame_no = max_frame_no;
            Ok(())
        } else {
            Err(SyncError::CheckpointPersist)
        }
    }
}

proof fn lemma_decimal_nonempty(n: nat)
    ensures
        decimal(n).len() >= 1,
    decreases n,
{
    if n >= 10 {
        lemma_decimal_nonempty(n / 10);
    }
}

proof fn lemma_decimal_injective(a: nat, b: nat)
    requires
        decimal(a) == decimal(b),
    ensures
        a == b,
    decreases a,
{
    if a < 10 && b < 10 {
        assert(decimal(a)[0] == digit_byte(a));
        assert(decimal(b)[0] == digit_byte(b));
        assert(a % 10 == a && b % 10 == b);
        assert(digit_byte(a) == digit_byte(b));
    } else if a < 10 {
        lemma_decimal_nonempty(b / 10);
        assert(decimal(a).len() == 1);
        assert(decimal(b).len() == decimal(b / 10).len() + 1);
    } else if b < 10 {
        lemma_decimal_nonempty(a / 10);
        assert(decimal(b).len() == 1);
        assert(decimal(a).len() == decimal(a / 10).len() + 1);
    } else {
        let da = decimal(a);
        assert(da.drop_last() == decimal(a / 10));
        assert(decimal(b).drop_last() == decimal(b / 10));
        assert(da.last() == digit_byte(a));
        assert(decimal(b).last() == digit_byte(b));
        lemma_decimal_injective(a / 10, b / 10);
        assert(a % 10 == b % 10);
        assert(a == 10 * (a / 10) + a % 10);
        assert(b == 10 * (b / 10) + b % 10);
    }
}

proof fn lemma_record_injective(m: u32, n: u32)
    requires
        record_bytes(m) == record_bytes(n),
    ensures
        m == n,
{
    reveal_strlit("max_frame_no");
    let rm = record_bytes(m);
    let rn = record_bytes(n);
    let k = 16int;
    assert(rm.subrange(k, rm.len() - 1) == decimal(m as nat));
    assert(rn.subrange(k, rn.len() - 1) == decimal(n as nat));
    lemma_decimal_injective(m as nat, n as nat);
}

/// A record written for marker `n` is read back as `n`, for every `n`,
/// including 0.
pub proof fn lemma_record_round_trip(n: u32)
    ensures
        loaded_marker(record_bytes(n)) == Some(n),
{
    let m = choose|m: u32| record_bytes(n) == record_bytes(m);
    lemma_record_injective(n, m);
}

/// After an advance to `n` whose record was written durably, a store made
/// afresh from that record holds `n`, as the advanced store does.
pub proof fn lemma_persist_then_reload(current: u32, n: u32)
    ensures
        marker_after(current, n, true) == n,
        loaded_marker(record_bytes(n)) == Some(marker_after(current, n, true)),
{
    lemma_record_round_trip(n);
}

/// An advance whose record was not written durably leaves the marker at its
/// old value, which is what a store made afresh from the old record holds.
pub proof fn lemma_interrupted_advance(current: u32, n: u32)
    ensures
        marker_after(current, n, false) == current,
        loaded_marker(record_bytes(current)) == Some(marker_after(current, n, false)),
{
    lemma_record_round_trip(current);
}

/// Advancing twice to the same `n` leaves the same marker and writes the same
/// record bytes as advancing once.
pub proof fn lemma_advance_idempotent(current: u32, n: u32)
    ensures
        marker_after(marker_after(current, n, true), n, true) == marker_after(current, n, true),
        marker_after(current, n, true) == n,
        record_bytes(marker_after(marker_after(current, n, true), n, true)) == record_bytes(
            marker_after(current, n, true),
        ),
{
}

} // verus!
