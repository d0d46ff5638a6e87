//! Sequence numbers of log records.

use vstd::prelude::*;

verus! {

/// A record boundary: the index of the first record at or after it.
#[derive(Clone, Copy, Debug, PartialEq, Eq, PartialOrd, Ord, Hash, Structural)]
pub struct WalSeqNo {
    /// Zero-based global record index.
    pub record_index: u64,
}

impl WalSeqNo {
    /// The boundary before the first record.
    pub fn zero() -> (seqno: WalSeqNo)
        ensures
            seqno.record_index == 0,
    {
        WalSeqNo { record_index: 0 }
    }

    /// The boundary before record `record_index`.
    pub fn record(record_index: u64) -> (seqno: WalSeqNo)
        ensures
            seqno.record_index == record_index,
    {
        WalSeqNo { record_index }
    }
}

/// Durability evidence for one caller-numbered record.
///
/// It exists only for a record that reached a strict-majority quorum after
/// every preceding sequence number had committed.
#[derive(Clone, Copy, Debug, PartialEq, Eq, Structural)]
pub struct AppendReceipt {
    /// Caller-assigned sequence number of the committed record.
    pub seqno: WalSeqNo,
}

impl AppendReceipt {
    /// Exclusive replay and checkpoint boundary after this append.
    ///
    /// The largest index never names a record: admission refuses it, so every
    /// receipt that the engine hands out has a successor.
    pub fn next_seqno(&self) -> (next: WalSeqNo)
        requires
            self.seqno.record_index < u64::MAX,
        ensures
            next.record_index == self.seqno.record_index + 1,
    {
        WalSeqNo::record(self.seqno.record_index + 1)
    }
}

/// The boundary after a receipt lies past its record and before the next one.
pub proof fn law_receipt_ends_before_the_next_record(receipt: &AppendReceipt, next: WalSeqNo)
    requires
        call_ensures(AppendReceipt::next_seqno, (receipt,), next),
    ensures
        receipt.seqno.record_index < next.record_index,
        next.record_index <= receipt.seqno.record_index + 1,
{
}

/// Boundaries are those of their record indices, from zero on.
pub proof fn law_boundaries_keep_their_index(index: u64, zero: WalSeqNo, boundary: WalSeqNo)
    requires
        call_ensures(WalSeqNo::zero, (), zero),
        call_ensures(WalSeqNo::record, (index,), boundary),
    ensures
        zero.record_index <= boundary.record_index,
        boundary.record_index == index,
        index == 0 ==> boundary == zero,
{
}

} // verus!
